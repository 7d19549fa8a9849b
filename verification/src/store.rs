use crate::error::ValidationError;
use vstd::prelude::*;

verus! {

/// The one accepted trend value of a deployment and the time of its acceptance.
///
/// The state is an explicit value: operations take it and hand it back, and
/// whoever hosts the oracle decides which instance is the one that counts.
#[derive(Clone, Copy, Debug, PartialEq, Eq, Structural)]
pub struct OracleState {
    pub current_value: u64,
    pub last_update: i64,
}

/// The state of a deployment in which nothing has been accepted yet.
pub open spec fn initial_state() -> OracleState {
    OracleState { current_value: 0, last_update: 0 }
}

/// The state after an unconditional update.
pub open spec fn updated(state: OracleState, candidate: u64, now: i64) -> OracleState {
    OracleState { current_value: candidate, last_update: now }
}

/// The state after a verdict has been settled: updated on acceptance, and
/// the very same state on rejection.
pub open spec fn settled(
    state: OracleState,
    verdict: Result<(), ValidationError>,
    candidate: u64,
    now: i64,
) -> OracleState {
    if verdict is Ok {
        updated(state, candidate, now)
    } else {
        state
    }
}

/// Brings the oracle into being: value zero, accepted at time zero.
pub fn initialize() -> (state: OracleState)
    ensures
        state == initial_state(),
        state.current_value == 0,
        state.last_update == 0,
{
    OracleState { current_value: 0, last_update: 0 }
}

/// Overwrites both fields at once. The store does not judge the candidate:
/// that is the validator's part, and `update` is for candidates that it has
/// accepted. `settle` is the form that takes the verdict along.
pub fn update(state: OracleState, candidate: u64, now: i64) -> (next: OracleState)
    ensures
        next == updated(state, candidate, now),
        next.current_value == candidate,
        next.last_update == now,
        now >= state.last_update ==> next.last_update >= state.last_update,
{
    OracleState { current_value: candidate, last_update: now }
}

/// Carries out a verdict of the validator: an accepted candidate is written
/// with its time, a rejected one leaves the state as it was.
pub fn settle(
    state: OracleState,
    verdict: &Result<(), ValidationError>,
    candidate: u64,
    now: i64,
) -> (next: OracleState)
    ensures
        next == settled(state, *verdict, candidate, now),
        verdict is Err ==> next == state,
        verdict is Ok ==> next == updated(state, candidate, now),
{
    match verdict {
        Ok(_) => update(state, candidate, now),
        Err(_) => state,
    }
}

/// The accepted trend value.
pub fn get(state: &OracleState) -> (value: u64)
    ensures
        value == state.current_value,
{
    state.current_value
}

/// After an update the store reads back exactly what was written: the value
/// is the candidate, and the time of the update is the `now` that came with it.
pub proof fn lemma_update_reads_back(state: OracleState, candidate: u64, now: i64)
    ensures
        updated(state, candidate, now).current_value == candidate,
        updated(state, candidate, now).last_update == now,
{
}

/// Settling a rejection changes nothing: the state afterwards is the state
/// before, field for field.
pub proof fn lemma_rejection_is_no_op(
    state: OracleState,
    verdict: Result<(), ValidationError>,
    candidate: u64,
    now: i64,
)
    requires
        verdict is Err,
    ensures
        settled(state, verdict, candidate, now) == state,
{
}

} // verus!
