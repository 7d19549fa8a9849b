use vstd::prelude::*;

verus! {

/// A non-negative rational number, `numerator / denominator`.
///
/// Comparisons against a ratio are made by cross-multiplication, so that no
/// division is carried out and nothing is rounded. They are defined for a
/// zero denominator too: such a ratio, which `new` never makes, is then above
/// every number that it is compared with.
#[derive(Clone, Copy, Debug, PartialEq, Eq, Structural)]
pub struct Ratio {
    pub numerator: u64,
    pub denominator: u64,
}

impl Ratio {
    /// A ratio names a number only if its denominator is not zero.
    pub open spec fn is_valid(self) -> bool {
        self.denominator > 0
    }

    /// `self * base < value`, cleared of the denominator.
    pub open spec fn lies_below(self, base: int, value: int) -> bool {
        self.numerator * base < value * self.denominator
    }

    /// `value < self * base`, cleared of the denominator.
    pub open spec fn lies_above(self, base: int, value: int) -> bool {
        value * self.denominator < self.numerator * base
    }

    /// The ratio `numerator / denominator`, or nothing where the denominator is zero.
    pub fn new(numerator: u64, denominator: u64) -> (ratio: Option<Ratio>)
        ensures
            denominator == 0 ==> ratio is None,
            denominator != 0 ==> ratio == Some(Ratio { numerator, denominator }),
            ratio is Some ==> ratio->0.is_valid(),
    {
        if denominator == 0 {
            None
        } else {
            Some(Ratio { numerator, denominator })
        }
    }

    /// Decides `self * base < value` for a non-negative `base`.
    pub fn is_below(&self, base: u64, value: u64) -> (below: bool)
        ensures
            below == self.lies_below(base as int, value as int),
    {
        let left: u128 = widening_product(self.numerator, base);
        let right: u128 = widening_product(value, self.denominator);
        left < right
    }

    /// Decides `value < self * base` for a non-negative `base`.
    pub fn is_above(&self, base: u64, value: u64) -> (above: bool)
        ensures
            above == self.lies_above(base as int, value as int),
    {
        let left: u128 = widening_product(value, self.denominator);
        let right: u128 = widening_product(self.numerator, base);
        left < right
    }
}

/// The product of two 64-bit numbers, which always fits in 128 bits.
pub fn widening_product(a: u64, b: u64) -> (product: u128)
    ensures
        product == a * b,
{
    assert(a * b <= 0xffff_ffff_ffff_ffff * 0xffff_ffff_ffff_ffff) by (nonlinear_arith)
        requires
            0 <= a <= 0xffff_ffff_ffff_ffff,
            0 <= b <= 0xffff_ffff_ffff_ffff,
    ;
    (a as u128) * (b as u128)
}

/// The policy under which a candidate is judged. It is supplied by the
/// deployment; nothing in this crate fixes its numbers.
#[derive(Clone, Copy, Debug, PartialEq, Eq, Structural)]
pub struct BoundsConfig {
    /// A candidate must lie strictly above this share of the reference price.
    pub lower_ratio: Ratio,
    /// A candidate must lie strictly below this multiple of the reference price.
    pub upper_ratio: Ratio,
    /// The greatest distance in seconds between a quote and the present.
    pub max_age_seconds: u64,
    /// The confidence band must stay strictly below this share of the price's size.
    pub confidence_ratio: Ratio,
}

} // verus!
