use okr_tracker::model::Update;
use okr_tracker::query::{
    okr_listed, parse_u64, query_value, request_query, select_updates, update_query, UpdateEntry, UpdateQuery,
};
use okr_tracker::DomainError;

fn q(url: &str) -> Vec<(String, String)> {
    request_query(url).unwrap()
}

fn upd(version: u64) -> Update {
    Update { id: format!("u{version}"), okr_id: "o".into(), version, author_id: "a".into(), body_md: "b".into(), created_at: 0, edited_at: None }
}

#[test]
fn query_pairs_are_decoded() {
    let pairs = q("https://okr.example/api/v1/okrs?group=g%201&done=true&group=g2&x");
    assert_eq!(
        pairs,
        vec![
            ("group".to_string(), "g 1".to_string()),
            ("done".to_string(), "true".to_string()),
            ("group".to_string(), "g2".to_string()),
            ("x".to_string(), "".to_string()),
        ]
    );
    // Later pairs override earlier ones.
    assert_eq!(query_value(&pairs, "group"), Some("g2".to_string()));
    assert_eq!(query_value(&pairs, "x"), Some("".to_string()));
    assert_eq!(query_value(&pairs, "assignee"), None);
    assert!(matches!(request_query("no url"), Err(DomainError::Internal(_))));
}

#[test]
fn numbers_parse_as_std_does() {
    assert_eq!(parse_u64("42"), Some(42));
    assert_eq!(parse_u64("+7"), Some(7));
    assert_eq!(parse_u64("007"), Some(7));
    assert_eq!(parse_u64("18446744073709551615"), Some(u64::MAX));
    assert_eq!(parse_u64("18446744073709551616"), None);
    assert_eq!(parse_u64(""), None);
    assert_eq!(parse_u64("+"), None);
    assert_eq!(parse_u64("-1"), None);
    assert_eq!(parse_u64(" 1"), None);
    assert_eq!(parse_u64("1x"), None);
    assert_eq!(parse_u64("99999999999999999999x"), None);
}

#[test]
fn okr_list_filters() {
    let assignees = vec!["ann".to_string(), "bob".to_string()];
    assert!(okr_listed("g1", &assignees, false, &q("https://h/x")));
    assert!(okr_listed("g1", &assignees, true, &q("https://h/x?group=g1&assignee=bob&done=true")));
    assert!(!okr_listed("g1", &assignees, true, &q("https://h/x?group=g2")));
    assert!(!okr_listed("g1", &assignees, true, &q("https://h/x?assignee=cat")));
    assert!(!okr_listed("g1", &assignees, true, &q("https://h/x?done=false")));
    // Anything but "true" asks for OKRs that are not done.
    assert!(okr_listed("g1", &assignees, false, &q("https://h/x?done=yes")));
}

#[test]
fn update_listing() {
    let updates = vec![upd(1), upd(2), upd(2), upd(3)];
    let valid = vec![1, 3];
    let opts = update_query(&q("https://h/x?sort=desc&valid=true"));
    assert_eq!(opts, UpdateQuery { newest_first: true, version: None, valid: Some(true) });
    let listed = select_updates(&updates, 3, &valid, opts);
    assert_eq!(
        listed,
        vec![
            UpdateEntry { position: 3, from_previous_version: false, version_valid: true },
            UpdateEntry { position: 0, from_previous_version: true, version_valid: true },
        ]
    );
    let opts = update_query(&q("https://h/x?version=2"));
    assert_eq!(opts, UpdateQuery { newest_first: false, version: Some(2), valid: None });
    let positions: Vec<usize> = select_updates(&updates, 3, &valid, opts).iter().map(|e| e.position).collect();
    assert_eq!(positions, vec![1, 2]);
    // A version that is not a number is ignored.
    let opts = update_query(&q("https://h/x?version=two&valid=false"));
    assert_eq!(opts, UpdateQuery { newest_first: false, version: None, valid: Some(false) });
    let positions: Vec<usize> = select_updates(&updates, 3, &valid, opts).iter().map(|e| e.position).collect();
    assert_eq!(positions, vec![1, 2]);
    assert!(select_updates(&vec![], 1, &valid, opts).is_empty());
}
