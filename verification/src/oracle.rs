use crate::bounds::BoundsConfig;
use crate::error::ErrorCode;
use crate::feed::{current_price, get_current_price, FeedPrice};
use crate::ledger::{latest, window, Datapoint, DatapointId, DatapointLedger};
use crate::store::{get, settle, updated, OracleState};
use crate::validator::{validate, verdict};
use vstd::prelude::*;

verus! {

/// How an attempt to update the trend ends: with the first failure on the
/// way from the feed to the bounds, or with acceptance.
pub open spec fn trend_outcome(
    feed: Option<FeedPrice>,
    now: i64,
    bounds: BoundsConfig,
    candidate: u64,
) -> Result<(), ErrorCode> {
    match current_price(feed, now, bounds.max_age_seconds) {
        Err(e) => Err(e.code()),
        Ok(sample) => match verdict(candidate, sample, bounds) {
            Err(e) => Err(e.code()),
            Ok(_) => Ok(()),
        },
    }
}

/// The state that an attempt to update the trend leaves behind.
pub open spec fn trend_state(
    state: OracleState,
    feed: Option<FeedPrice>,
    now: i64,
    bounds: BoundsConfig,
    candidate: u64,
) -> OracleState {
    if trend_outcome(feed, now, bounds, candidate) is Ok {
        updated(state, candidate, now)
    } else {
        state
    }
}

/// Offers `candidate` as the new trend value.
///
/// `feed` is what the caller read from the price feed and `now` the caller's
/// clock. The sample is taken, the candidate is validated against it, and
/// only an accepted candidate reaches the state, together with `now`. Every
/// failure leaves the state as it was.
pub fn update_trend(
    state: &mut OracleState,
    feed: Option<FeedPrice>,
    now: i64,
    bounds: &BoundsConfig,
    candidate: u64,
) -> (result: Result<(), ErrorCode>)
    ensures
        result == trend_outcome(feed, now, *bounds, candidate),
        *final(state) == trend_state(*old(state), feed, now, *bounds, candidate),
        result is Err ==> *final(state) == *old(state),
        result is Ok ==> final(state).current_value == candidate && final(state).last_update
            == now,
        now >= old(state).last_update ==> final(state).last_update >= old(state).last_update,
{
    let sample = match get_current_price(feed, now, bounds.max_age_seconds) {
        Ok(sample) => sample,
        Err(e) => {
            return Err(e.to_code());
        },
    };
    let verdict = validate(candidate, &sample, bounds);
    *state = settle(*state, &verdict, candidate, now);
    match verdict {
        Ok(_) => Ok(()),
        Err(e) => Err(e.to_code()),
    }
}

/// The trend value that was accepted last.
pub fn get_trend(state: &OracleState) -> (value: u64)
    ensures
        value == state.current_value,
{
    get(state)
}

/// Records an observation made at `now` and hands out its identity. The
/// ledger grows by this one entry; nothing else in it changes.
pub fn store_datapoint(
    ledger: &mut DatapointLedger,
    now: i64,
    derived_value: u64,
    reference_price: u64,
    sample_count: u32,
) -> (id: DatapointId)
    ensures
        final(ledger)@ == old(ledger)@.push(
            Datapoint { observed_at: now, derived_value, reference_price, sample_count },
        ),
        id.0 == old(ledger)@.len(),
{
    ledger.append(Datapoint { observed_at: now, derived_value, reference_price, sample_count })
}

/// The datapoint of the given identity, or `NotFound`.
pub fn get_datapoint(ledger: &DatapointLedger, id: DatapointId) -> (result: Result<
    Datapoint,
    ErrorCode,
>)
    ensures
        id.0 < ledger@.len() ==> result == Ok::<Datapoint, ErrorCode>(ledger@[id.0 as int]),
        id.0 >= ledger@.len() ==> result == Err::<Datapoint, ErrorCode>(ErrorCode::NotFound),
{
    match ledger.get(id) {
        Some(entry) => Ok(entry),
        None => Err(ErrorCode::NotFound),
    }
}

/// The latest datapoint, or `NotFound` where none was ever stored.
pub fn get_last_datapoint(ledger: &DatapointLedger) -> (result: Result<Datapoint, ErrorCode>)
    ensures
        ledger@.len() > 0 ==> result == Ok::<Datapoint, ErrorCode>(latest(ledger@)->0),
        ledger@.len() == 0 ==> result == Err::<Datapoint, ErrorCode>(ErrorCode::NotFound),
{
    match ledger.get_latest() {
        Some(entry) => Ok(entry),
        None => Err(ErrorCode::NotFound),
    }
}

/// The datapoints observed from `start_timestamp` to `end_timestamp`, both
/// included, in the order of their times.
pub fn get_datapoint_batch(
    ledger: &DatapointLedger,
    start_timestamp: i64,
    end_timestamp: i64,
) -> (batch: Vec<Datapoint>)
    ensures
        batch@ == window(ledger@, start_timestamp, end_timestamp),
{
    ledger.query_range(start_timestamp, end_timestamp)
}

/// A rejected attempt leaves no trace: whatever the reason for the failure,
/// the state afterwards equals the state before.
pub proof fn lemma_rejected_attempt_keeps_state(
    state: OracleState,
    feed: Option<FeedPrice>,
    now: i64,
    bounds: BoundsConfig,
    candidate: u64,
)
    requires
        trend_outcome(feed, now, bounds, candidate) is Err,
    ensures
        trend_state(state, feed, now, bounds, candidate) == state,
{
}

/// An accepted attempt is read back exactly: the value is the candidate and
/// the time of the update is the `now` of the attempt.
pub proof fn lemma_accepted_attempt_reads_back(
    state: OracleState,
    feed: Option<FeedPrice>,
    now: i64,
    bounds: BoundsConfig,
    candidate: u64,
)
    requires
        trend_outcome(feed, now, bounds, candidate) is Ok,
    ensures
        trend_state(state, feed, now, bounds, candidate).current_value == candidate,
        trend_state(state, feed, now, bounds, candidate).last_update == now,
{
}

} // verus!
