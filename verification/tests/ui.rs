use okr_tracker::requests::Method;
use okr_tracker::ui::{
    api_succeeded, assignee_label, can_contribute, is_blank, okrs_in_group, request_method, toggle_assignee,
    api_url, failure_message, CeremonyFailure, DirectoryEntry, API_BASE,
};

fn entry(id: Option<&str>, short: Option<&str>) -> DirectoryEntry {
    DirectoryEntry { id: id.map(String::from), short_name: short.map(String::from) }
}

fn strings(v: &[&str]) -> Vec<String> {
    v.iter().map(|s| s.to_string()).collect()
}

#[test]
fn assignee_labels() {
    let users = vec![entry(Some("u1"), Some("CDFGH")), entry(None, Some("XX")), entry(Some("u2"), None), entry(Some("u1"), Some("LATER"))];
    assert_eq!(assignee_label(&vec![], &users), "unassigned");
    assert_eq!(assignee_label(&strings(&["u1"]), &users), "CDFGH");
    assert_eq!(assignee_label(&strings(&["u1", "u2", "u9"]), &users), "CDFGH, ?, ?");
}

#[test]
fn toggling_assignees() {
    assert_eq!(toggle_assignee(&strings(&["a", "b", "a"]), "a"), strings(&["b", "a"]));
    assert_eq!(toggle_assignee(&strings(&["a", "b"]), "c"), strings(&["a", "b", "c"]));
    assert_eq!(toggle_assignee(&vec![], "c"), strings(&["c"]));
    assert!(can_contribute(&strings(&["a", "me"]), "me"));
    assert!(!can_contribute(&strings(&["a"]), "me"));
}

#[test]
fn okrs_grouped_by_group() {
    let groups = vec![Some("g1".to_string()), None, Some("g2".to_string()), Some("g1".to_string())];
    assert_eq!(okrs_in_group(&groups, "g1"), vec![0, 3]);
    assert_eq!(okrs_in_group(&groups, "g3"), Vec::<usize>::new());
}

#[test]
fn client_guards() {
    assert!(is_blank(""));
    assert!(is_blank(" \n\u{3000}"));
    assert!(!is_blank(" x "));
    assert_eq!(request_method("PATCH"), Method::Patch);
    assert_eq!(request_method("DELETE"), Method::Delete);
    assert_eq!(request_method("get"), Method::Get);
    assert_eq!(request_method("BREW"), Method::Get);
    assert!(api_succeeded(200));
    assert!(api_succeeded(299));
    assert!(!api_succeeded(300));
    assert!(!api_succeeded(0));
}

#[test]
fn api_addresses_and_ceremony_messages() {
    assert_eq!(api_url("/okrs"), "/api/v1/okrs");
    assert_eq!(API_BASE, "/api/v1");
    assert_eq!(failure_message(CeremonyFailure::SetupRejected, 403, "ignored"), "setup rejected (HTTP 403)");
    assert_eq!(
        failure_message(CeremonyFailure::CodeRejected, 400, "{\"error\":\"bad_code\"}"),
        "code rejected (HTTP 400): {\"error\":\"bad_code\"}"
    );
    assert_eq!(failure_message(CeremonyFailure::RegistrationFailed, 0, "null"), "registration failed (HTTP 0): null");
    assert_eq!(failure_message(CeremonyFailure::LoginInitFailed, 429, ""), "login init failed (HTTP 429)");
    assert_eq!(failure_message(CeremonyFailure::LoginFailed, 401, "x"), "login failed (HTTP 401)");
}
