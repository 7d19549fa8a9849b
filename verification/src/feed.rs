use crate::error::OracleError;
use crate::scale::{lemma_rescaled_sign, rescale, rescaled};
use pyth_sdk_solana::{Price, PriceFeed, PriceIdentifier};
use vstd::prelude::*;

verus! {

/// A quote as the price feed publishes it: `price * 10^expo`, give or take
/// `conf * 10^expo`, as of `publish_time` (seconds since the epoch).
#[derive(Clone, Copy, Debug, PartialEq, Eq, Structural)]
pub struct FeedPrice {
    pub price: i64,
    pub conf: u64,
    pub expo: i32,
    pub publish_time: i64,
}

/// A quote brought to the oracle's fixed number of decimal places.
///
/// The price keeps its sign: a negative price is for the validator to turn
/// down, not for the adapter to hide.
#[derive(Clone, Copy, Debug, PartialEq, Eq, Structural)]
pub struct PriceSample {
    pub price: i64,
    pub confidence: u64,
    pub sampled_at: i64,
}

/// The distance in seconds between two points in time.
pub open spec fn time_distance(a: int, b: int) -> int {
    if a >= b {
        a - b
    } else {
        b - a
    }
}

/// A quote is stale when it lies more than `max_age_seconds` away from `now`,
/// on either side: one dated too far ahead is trusted as little as one that
/// is too old.
pub open spec fn is_stale(sampled_at: i64, now: i64, max_age_seconds: u64) -> bool {
    time_distance(sampled_at as int, now as int) > max_age_seconds
}

impl FeedPrice {
    /// The price at the oracle's fixed scale, rounded down.
    pub open spec fn scaled_price(self) -> int {
        rescaled(self.price as int, self.expo as int)
    }

    /// The confidence band at the oracle's fixed scale, rounded down.
    pub open spec fn scaled_conf(self) -> int {
        rescaled(self.conf as int, self.expo as int)
    }

    /// Whether both amounts, once rescaled, fit the fields of a sample.
    pub open spec fn is_representable(self) -> bool {
        &&& -0x8000_0000_0000_0000 <= self.scaled_price() <= 0x7fff_ffff_ffff_ffff
        &&& self.scaled_conf() <= 0xffff_ffff_ffff_ffff
    }

    /// The sample that this quote stands for, where it is representable.
    pub open spec fn sample(self) -> PriceSample {
        PriceSample {
            price: self.scaled_price() as i64,
            confidence: self.scaled_conf() as u64,
            sampled_at: self.publish_time,
        }
    }

    /// Brings the quote to the oracle's fixed scale.
    pub fn normalize(&self) -> (sample: Option<PriceSample>)
        ensures
            self.is_representable() ==> sample == Some(self.sample()),
            !self.is_representable() ==> sample is None,
    {
        proof {
            lemma_rescaled_sign(self.conf as int, self.expo as int);
        }
        let price = match rescale(self.price as i128, self.expo) {
            Some(price) => price,
            None => {
                return None;
            },
        };
        let confidence = match rescale(self.conf as i128, self.expo) {
            Some(confidence) => confidence,
            None => {
                return None;
            },
        };
        if price > 0x7fff_ffff_ffff_ffff {
            return None;
        }
        Some(
            PriceSample {
                price: price as i64,
                confidence: confidence as u64,
                sampled_at: self.publish_time,
            },
        )
    }
}

/// Asks `PriceFeed::get_price_no_older_than` of the pyth SDK whether a quote
/// is recent enough. The SDK hands the feed's price back where the distance
/// between `publish_time` and `now` is at most `max_age_seconds`, and nothing
/// otherwise. It computes that distance in 64 bits, so the difference of the
/// two times and its absolute value must fit in an `i64`.
#[verifier::external_body]
fn price_no_older_than(quote: &FeedPrice, now: i64, max_age_seconds: u64) -> (fresh: Option<
    FeedPrice,
>)
    requires
        -0x8000_0000_0000_0000 < quote.publish_time - now <= 0x7fff_ffff_ffff_ffff,
    ensures
        is_stale(quote.publish_time, now, max_age_seconds) ==> fresh is None,
        !is_stale(quote.publish_time, now, max_age_seconds) ==> fresh == Some(*quote),
{
    let price = Price {
        price: quote.price,
        conf: quote.conf,
        expo: quote.expo,
        publish_time: quote.publish_time,
    };
    let feed = PriceFeed::new(PriceIdentifier::new([0u8; 32]), price, price);
    match feed.get_price_no_older_than(now, max_age_seconds) {
        Some(p) => Some(
            FeedPrice { price: p.price, conf: p.conf, expo: p.expo, publish_time: p.publish_time },
        ),
        None => None,
    }
}

/// The quote, where it is recent enough.
///
/// The feed's own check is used wherever it can compute the distance between
/// the two times. Where that distance does not fit in 64 bits it is at least
/// `2^63` seconds, and is compared with the limit here.
pub fn fresh_price(quote: &FeedPrice, now: i64, max_age_seconds: u64) -> (fresh: Option<FeedPrice>)
    ensures
        is_stale(quote.publish_time, now, max_age_seconds) ==> fresh is None,
        !is_stale(quote.publish_time, now, max_age_seconds) ==> fresh == Some(*quote),
{
    let difference: i128 = quote.publish_time as i128 - now as i128;
    if -0x8000_0000_0000_0000 < difference && difference <= 0x7fff_ffff_ffff_ffff {
        price_no_older_than(quote, now, max_age_seconds)
    } else {
        let distance: i128 = if difference < 0 {
            -difference
        } else {
            difference
        };
        if distance > max_age_seconds as i128 {
            None
        } else {
            Some(*quote)
        }
    }
}

/// What `get_current_price` answers.
pub open spec fn current_price(feed: Option<FeedPrice>, now: i64, max_age_seconds: u64) -> Result<
    PriceSample,
    OracleError,
> {
    match feed {
        None => Err(OracleError::UpstreamUnavailable),
        Some(quote) => if is_stale(quote.publish_time, now, max_age_seconds) {
            Err(OracleError::StaleData)
        } else if !quote.is_representable() {
            Err(OracleError::UpstreamUnavailable)
        } else {
            Ok(quote.sample())
        },
    }
}

/// Turns what was read from the price feed into a sample of the present.
///
/// `feed` is the quote that was read, or nothing where the feed could not be
/// read. The answer is `UpstreamUnavailable` where there is no quote,
/// `StaleData` where the quote lies more than `max_age_seconds` from `now`,
/// `UpstreamUnavailable` again where the quote cannot be written at the
/// oracle's fixed scale, and the rescaled sample otherwise.
pub fn get_current_price(feed: Option<FeedPrice>, now: i64, max_age_seconds: u64) -> (result:
    Result<PriceSample, OracleError>)
    ensures
        result == current_price(feed, now, max_age_seconds),
        feed is Some && now - feed->0.publish_time > max_age_seconds ==> result == Err::<
            PriceSample,
            OracleError,
        >(OracleError::StaleData),
        result is Ok ==> result->Ok_0.sampled_at == feed->0.publish_time && (result->Ok_0.price < 0
            <==> feed->0.price < 0),
{
    let quote = match feed {
        Some(quote) => quote,
        None => {
            return Err(OracleError::UpstreamUnavailable);
        },
    };
    let fresh = match fresh_price(&quote, now, max_age_seconds) {
        Some(fresh) => fresh,
        None => {
            return Err(OracleError::StaleData);
        },
    };
    proof {
        lemma_rescaled_sign(quote.price as int, quote.expo as int);
    }
    match fresh.normalize() {
        Some(sample) => Ok(sample),
        None => Err(OracleError::UpstreamUnavailable),
    }
}

} // verus!
