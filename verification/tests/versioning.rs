use okr_tracker::versioning::VersionState;
use okr_tracker::DomainError;

fn versions(s: &VersionState) -> Vec<u64> {
    s.valid_versions.iter().copied().collect()
}

#[test]
fn spec_worked_example() {
    // Step 1: create -> counter 2, current 1, valid {1}
    let mut state = VersionState::create().state;
    assert_eq!(state.next_version_counter, 2);
    assert_eq!(state.current_version, 1);
    assert_eq!(versions(&state), vec![1]);

    // Step 2: edit -> counter 3, current 2, valid {1,2}
    let e = state.edit();
    assert_eq!(e.new_version, 2);
    state = e.state;
    assert_eq!(state.next_version_counter, 3);
    assert_eq!(state.current_version, 2);
    assert_eq!(versions(&state), vec![1, 2]);

    // Step 3: edit -> counter 4, current 3, valid {1,2,3}
    let e = state.edit();
    assert_eq!(e.new_version, 3);
    state = e.state;
    assert_eq!(state.next_version_counter, 4);
    assert_eq!(state.current_version, 3);
    assert_eq!(versions(&state), vec![1, 2, 3]);

    // Step 4: revert to 1 -> counter 4 (unchanged), current 1, valid {1} (2,3 burned)
    let r = state.revert_to(1).unwrap();
    assert_eq!(r.burned, vec![2, 3]);
    state = r.state;
    assert_eq!(state.next_version_counter, 4);
    assert_eq!(state.current_version, 1);
    assert_eq!(versions(&state), vec![1]);

    // Step 5: edit -> counter 5, current 4, valid {1,4} (2,3 still burned)
    let e = state.edit();
    assert_eq!(e.new_version, 4);
    state = e.state;
    assert_eq!(state.next_version_counter, 5);
    assert_eq!(state.current_version, 4);
    assert_eq!(versions(&state), vec![1, 4]);
}

#[test]
fn revert_to_burned_version_is_rejected() {
    let mut state = VersionState::create().state;
    state = state.edit().state;
    state = state.edit().state;
    state = state.revert_to(1).unwrap().state;
    let err = state.revert_to(2).unwrap_err();
    assert!(matches!(err, DomainError::Conflict(_)));
}

#[test]
fn revert_to_current_is_rejected() {
    let state = VersionState::create().state;
    assert!(matches!(state.revert_to(1).unwrap_err(), DomainError::Conflict(_)));
}

#[test]
fn revert_to_unknown_version_is_rejected() {
    let state = VersionState::create().state;
    assert!(matches!(state.revert_to(99).unwrap_err(), DomainError::Conflict(_)));
}

#[test]
fn counter_is_monotonic_across_revert_then_edit() {
    let mut state = VersionState::create().state;
    for _ in 0..5 {
        state = state.edit().state;
    }
    let before = state.next_version_counter;
    state = state.revert_to(1).unwrap().state;
    assert_eq!(state.next_version_counter, before, "counter must not rewind");
    let e = state.edit();
    assert_eq!(e.new_version, before);
}

#[test]
fn revert_refusals_say_why() {
    let state = VersionState::create().state;
    assert_eq!(
        state.revert_to(99).unwrap_err(),
        DomainError::Conflict("cannot revert to version 99: not a valid version".into())
    );
    assert_eq!(state.revert_to(1).unwrap_err(), DomainError::Conflict("version 1 is already current".into()));
    assert_eq!(
        state.revert_to(0).unwrap_err(),
        DomainError::Conflict("cannot revert to version 0: not a valid version".into())
    );
}

#[test]
fn revert_to_a_middle_version_burns_only_later_ones() {
    let mut state = VersionState::create().state;
    for _ in 0..4 {
        state = state.edit().state;
    }
    // valid {1..5}, current 5
    let r = state.revert_to(3).unwrap();
    assert_eq!(r.target_version, 3);
    assert_eq!(r.burned, vec![4, 5]);
    assert_eq!(versions(&r.state), vec![1, 2, 3]);
    assert!(r.state.is_valid(2));
    assert!(!r.state.is_valid(4));
    assert_eq!(r.state.current_version, 3);
    // Reverting further back later is still allowed, and burns 2 and 3.
    let r2 = r.state.revert_to(1).unwrap();
    assert_eq!(r2.burned, vec![2, 3]);
    assert_eq!(r2.state.edit().new_version, 6);
}
