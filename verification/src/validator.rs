use crate::bounds::{widening_product, BoundsConfig};
use crate::error::ValidationError;
use crate::feed::PriceSample;
use vstd::prelude::*;

verus! {

/// The size of a price, whatever its sign.
pub open spec fn magnitude(price: i64) -> int {
    if price < 0 {
        -(price as int)
    } else {
        price as int
    }
}

/// The size of a price as a machine number: it always fits in 64 bits.
pub fn price_size(price: i64) -> (size: u64)
    ensures
        size == magnitude(price),
{
    if price < 0 {
        (-(price as i128)) as u64
    } else {
        price as u64
    }
}

/// The confidence band is too wide: it reaches `confidence_ratio` times the
/// size of the price, or more.
pub open spec fn low_confidence(sample: PriceSample, bounds: BoundsConfig) -> bool {
    !bounds.confidence_ratio.lies_above(magnitude(sample.price), sample.confidence as int)
}

/// `lower_ratio * price < candidate < upper_ratio * price`.
pub open spec fn within_bounds(candidate: u64, sample: PriceSample, bounds: BoundsConfig) -> bool {
    &&& bounds.lower_ratio.lies_below(sample.price as int, candidate as int)
    &&& bounds.upper_ratio.lies_above(sample.price as int, candidate as int)
}

/// The verdict on a candidate. The confidence of the sample is judged first,
/// then the sign of its price, and only then the candidate itself.
pub open spec fn verdict(candidate: u64, sample: PriceSample, bounds: BoundsConfig) -> Result<
    (),
    ValidationError,
> {
    if low_confidence(sample, bounds) {
        Err(ValidationError::LowConfidence)
    } else if sample.price < 0 {
        Err(ValidationError::InvalidReferencePrice)
    } else if !within_bounds(candidate, sample, bounds) {
        Err(ValidationError::OutOfBounds)
    } else {
        Ok(())
    }
}

/// Decides whether `candidate` may become the new trend value, given a price
/// sample and the policy in force. Nothing is changed by asking.
pub fn validate(candidate: u64, sample: &PriceSample, bounds: &BoundsConfig) -> (result: Result<
    (),
    ValidationError,
>)
    ensures
        result == verdict(candidate, *sample, *bounds),
        !low_confidence(*sample, *bounds) && sample.price >= 0 && (
            !bounds.lower_ratio.lies_below(sample.price as int, candidate as int)
            || !bounds.upper_ratio.lies_above(sample.price as int, candidate as int))
            ==> result == Err::<(), ValidationError>(ValidationError::OutOfBounds),
        result is Ok ==> sample.price >= 0 && within_bounds(candidate, *sample, *bounds),
{
    let size: u64 = price_size(sample.price);
    if !bounds.confidence_ratio.is_above(size, sample.confidence) {
        return Err(ValidationError::LowConfidence);
    }
    if sample.price < 0 {
        return Err(ValidationError::InvalidReferencePrice);
    }
    let price: u64 = sample.price as u64;
    if !bounds.lower_ratio.is_below(price, candidate) {
        return Err(ValidationError::OutOfBounds);
    }
    if !bounds.upper_ratio.is_above(price, candidate) {
        return Err(ValidationError::OutOfBounds);
    }
    Ok(())
}

} // verus!
