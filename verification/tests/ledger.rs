use sma_oracle::error::ErrorCode;
use sma_oracle::ledger::{Datapoint, DatapointId, DatapointLedger};
use sma_oracle::oracle::{get_datapoint, get_datapoint_batch, get_last_datapoint, store_datapoint};

fn point(observed_at: i64, derived_value: u64) -> Datapoint {
    Datapoint { observed_at, derived_value, reference_price: 100, sample_count: 3 }
}

fn filled(points: &[Datapoint]) -> DatapointLedger {
    let mut ledger = DatapointLedger::new();
    for p in points {
        ledger.append(*p);
    }
    ledger
}

#[test]
fn empty_ledger_holds_nothing() {
    let ledger = DatapointLedger::new();
    assert_eq!(ledger.len(), 0);
    assert_eq!(ledger.get(DatapointId(0)), None);
    assert_eq!(ledger.get_latest(), None);
    assert_eq!(ledger.query_range(i64::MIN, i64::MAX), vec![]);
}

#[test]
fn append_numbers_the_entries_in_order() {
    let mut ledger = DatapointLedger::new();
    assert_eq!(ledger.append(point(30, 1)), DatapointId(0));
    assert_eq!(ledger.append(point(10, 2)), DatapointId(1));
    assert_eq!(ledger.append(point(20, 3)), DatapointId(2));
    assert_eq!(ledger.len(), 3);
    assert_eq!(ledger.get(DatapointId(0)), Some(point(30, 1)));
    assert_eq!(ledger.get(DatapointId(1)), Some(point(10, 2)));
    assert_eq!(ledger.get(DatapointId(2)), Some(point(20, 3)));
    assert_eq!(ledger.get(DatapointId(3)), None);
    assert_eq!(ledger.get(DatapointId(usize::MAX)), None);
}

#[test]
fn append_then_query_its_own_time_finds_exactly_it() {
    let mut ledger = DatapointLedger::new();
    let entry = point(1_000, 42);
    ledger.append(entry);
    assert_eq!(ledger.query_range(1_000, 1_000), vec![entry]);
    let mut busy = filled(&[point(5, 1), point(2_000, 2), point(999, 3), point(1_001, 4)]);
    busy.append(entry);
    assert_eq!(busy.query_range(1_000, 1_000), vec![entry]);
}

#[test]
fn append_comes_last_among_entries_of_its_time() {
    let mut ledger = filled(&[point(7, 1), point(3, 2), point(7, 3)]);
    assert_eq!(ledger.query_range(7, 7), vec![point(7, 1), point(7, 3)]);
    ledger.append(point(7, 4));
    assert_eq!(ledger.query_range(7, 7), vec![point(7, 1), point(7, 3), point(7, 4)]);
}

#[test]
fn query_over_a_disjoint_interval_is_empty() {
    let ledger = filled(&[point(10, 1), point(20, 2), point(30, 3)]);
    assert_eq!(ledger.query_range(11, 19), vec![]);
    assert_eq!(ledger.query_range(31, i64::MAX), vec![]);
    assert_eq!(ledger.query_range(i64::MIN, 9), vec![]);
    assert_eq!(ledger.query_range(25, 15), vec![]);
}

#[test]
fn query_includes_both_ends() {
    let ledger = filled(&[point(10, 1), point(20, 2), point(30, 3)]);
    assert_eq!(ledger.query_range(10, 30), vec![point(10, 1), point(20, 2), point(30, 3)]);
    assert_eq!(ledger.query_range(10, 29), vec![point(10, 1), point(20, 2)]);
    assert_eq!(ledger.query_range(11, 30), vec![point(20, 2), point(30, 3)]);
    assert_eq!(ledger.query_range(20, 20), vec![point(20, 2)]);
}

#[test]
fn query_orders_by_time_then_by_insertion() {
    let ledger = filled(&[
        point(50, 1),
        point(10, 2),
        point(30, 3),
        point(10, 4),
        point(50, 5),
        point(-5, 6),
        point(30, 7),
    ]);
    assert_eq!(
        ledger.query_range(i64::MIN, i64::MAX),
        vec![
            point(-5, 6),
            point(10, 2),
            point(10, 4),
            point(30, 3),
            point(30, 7),
            point(50, 1),
            point(50, 5),
        ]
    );
    assert_eq!(
        ledger.query_range(10, 30),
        vec![point(10, 2), point(10, 4), point(30, 3), point(30, 7)]
    );
}

#[test]
fn query_can_be_asked_again() {
    let mut ledger = filled(&[point(3, 1), point(1, 2), point(2, 3)]);
    let first = ledger.query_range(1, 2);
    let second = ledger.query_range(1, 2);
    assert_eq!(first, second);
    assert_eq!(first, vec![point(1, 2), point(2, 3)]);
    ledger.append(point(2, 4));
    assert_eq!(first, vec![point(1, 2), point(2, 3)]);
    assert_eq!(ledger.query_range(1, 2), vec![point(1, 2), point(2, 3), point(2, 4)]);
}

#[test]
fn stored_entries_do_not_change() {
    let mut ledger = DatapointLedger::new();
    let id = ledger.append(point(100, 1));
    for t in [50i64, 150, 100, -3, 100] {
        ledger.append(point(t, 9));
    }
    assert_eq!(ledger.get(id), Some(point(100, 1)));
    assert_eq!(ledger.len(), 6);
}

#[test]
fn latest_is_the_greatest_time() {
    let mut ledger = DatapointLedger::new();
    ledger.append(point(20, 1));
    assert_eq!(ledger.get_latest(), Some(point(20, 1)));
    ledger.append(point(10, 2));
    assert_eq!(ledger.get_latest(), Some(point(20, 1)));
    ledger.append(point(30, 3));
    assert_eq!(ledger.get_latest(), Some(point(30, 3)));
    ledger.append(point(i64::MIN, 4));
    assert_eq!(ledger.get_latest(), Some(point(30, 3)));
}

#[test]
fn latest_of_a_tie_is_the_last_inserted() {
    let mut ledger = filled(&[point(30, 1), point(10, 2), point(30, 3)]);
    assert_eq!(ledger.get_latest(), Some(point(30, 3)));
    ledger.append(point(30, 4));
    assert_eq!(ledger.get_latest(), Some(point(30, 4)));
    ledger.append(point(29, 5));
    assert_eq!(ledger.get_latest(), Some(point(30, 4)));
}

#[test]
fn store_datapoint_stamps_the_time() {
    let mut ledger = DatapointLedger::new();
    let id = store_datapoint(&mut ledger, 1_700_000_000, 95_000, 100_000, 1_000);
    assert_eq!(id, DatapointId(0));
    let stored = Datapoint {
        observed_at: 1_700_000_000,
        derived_value: 95_000,
        reference_price: 100_000,
        sample_count: 1_000,
    };
    assert_eq!(get_datapoint(&ledger, id), Ok(stored));
    assert_eq!(get_last_datapoint(&ledger), Ok(stored));
    assert_eq!(get_datapoint_batch(&ledger, 1_700_000_000, 1_700_000_000), vec![stored]);
    assert_eq!(store_datapoint(&mut ledger, 1_700_000_060, 1, 2, 3), DatapointId(1));
    assert_eq!(ledger.len(), 2);
}

#[test]
fn missing_datapoint_is_not_found() {
    let mut ledger = DatapointLedger::new();
    assert_eq!(get_datapoint(&ledger, DatapointId(0)), Err(ErrorCode::NotFound));
    assert_eq!(get_last_datapoint(&ledger), Err(ErrorCode::NotFound));
    store_datapoint(&mut ledger, 5, 1, 2, 3);
    assert_eq!(get_datapoint(&ledger, DatapointId(1)), Err(ErrorCode::NotFound));
}

#[test]
fn batch_is_one_entry_or_none_for_a_single_datapoint() {
    let mut ledger = DatapointLedger::new();
    store_datapoint(&mut ledger, 500, 95_000, 100_000, 20);
    let stored =
        Datapoint { observed_at: 500, derived_value: 95_000, reference_price: 100_000, sample_count: 20 };
    assert_eq!(get_datapoint_batch(&ledger, 0, 1_000), vec![stored]);
    assert_eq!(get_datapoint_batch(&ledger, 500, 500), vec![stored]);
    assert_eq!(get_datapoint_batch(&ledger, 501, 1_000), vec![]);
    assert_eq!(get_datapoint_batch(&ledger, 0, 499), vec![]);
}
