use okr_tracker::done::effective_done;
use okr_tracker::model::OkrDone;

fn rec(version: u64, done: bool, set_at: i64) -> OkrDone {
    OkrDone { okr_id: "o1".into(), version, done, set_by: "u".into(), set_at }
}

#[test]
fn no_record_is_not_done() {
    assert!(!effective_done(&[], 1));
    assert!(!effective_done(&[rec(2, true, 10)], 1));
}

#[test]
fn latest_record_for_version_wins() {
    let records = vec![rec(1, true, 10), rec(1, false, 20), rec(1, true, 15)];
    assert!(!effective_done(&records, 1));
}

#[test]
fn done_is_isolated_per_version() {
    // A new version (3) starts not-done even if version 1 was done.
    let records = vec![rec(1, true, 10)];
    assert!(effective_done(&records, 1));
    assert!(!effective_done(&records, 3));
}

#[test]
fn equal_times_the_later_record_wins() {
    // Among records set at the same instant, the one written last decides.
    let records = vec![rec(1, false, 10), rec(1, true, 10)];
    assert!(effective_done(&records, 1));
    let records = vec![rec(1, true, 10), rec(1, false, 10)];
    assert!(!effective_done(&records, 1));
}

#[test]
fn records_of_other_versions_are_ignored() {
    let records = vec![rec(2, true, 30), rec(1, false, 20), rec(2, false, 5)];
    assert!(!effective_done(&records, 1));
    assert!(effective_done(&records, 2));
}
