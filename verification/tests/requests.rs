use okr_tracker::requests::{route, check_request, is_mutation, no_route, path_segments, route_path, Endpoint, Method};
use okr_tracker::DomainError;

#[test]
fn routes_of_the_api() {
    let r = route_path(Method::Post, "/api/v1/auth/bootstrap/options");
    assert_eq!(r.endpoint, Endpoint::BootstrapOptions);
    assert_eq!(r.id, None);
    let r = route_path(Method::Patch, "/api/v1/okrs/X1/");
    assert_eq!(r.endpoint, Endpoint::EditOkr);
    assert_eq!(r.id, Some("X1".to_string()));
    let r = route_path(Method::Get, "/api/v1/okrs/X1/updates");
    assert_eq!(r.endpoint, Endpoint::ListUpdates);
    assert_eq!(r.id, Some("X1".to_string()));
    let r = route_path(Method::Delete, "/api/v1/me/credentials/c9");
    assert_eq!(r.endpoint, Endpoint::DeleteMyCredential);
    assert_eq!(r.id, Some("c9".to_string()));
    assert_eq!(route_path(Method::Put, "/api/v1/okrs/o/done").endpoint, Endpoint::SetDone);
    assert_eq!(route_path(Method::Get, "/api/v1/push/vapid-public-key").endpoint, Endpoint::VapidPublicKey);
    assert_eq!(route_path(Method::Delete, "/api/v1/push/subscribe").endpoint, Endpoint::PushUnsubscribe);
}

#[test]
fn unknown_routes() {
    assert_eq!(route_path(Method::Get, "/api/v1/nope").endpoint, Endpoint::NotFound);
    // The method is part of the route.
    assert_eq!(route_path(Method::Get, "/api/v1/auth/logout").endpoint, Endpoint::NotFound);
    assert_eq!(route_path(Method::Post, "/api/v1/okrs/a/b/c").endpoint, Endpoint::NotFound);
    assert_eq!(no_route(), DomainError::NotFound("route".into()));
}

#[test]
fn path_segments_ignore_empty_pieces() {
    assert_eq!(path_segments("/api/v1//groups//"), vec!["groups".to_string()]);
    assert_eq!(path_segments("/api/v1//api/v1/me"), vec!["me".to_string()]);
    assert_eq!(path_segments("/api/v1/api/v1/me"), vec!["api".to_string(), "v1".to_string(), "me".to_string()]);
    assert_eq!(path_segments("/api/v1/"), Vec::<String>::new());
    assert_eq!(path_segments("groups/g1/versions"), vec!["groups".to_string(), "g1".to_string(), "versions".to_string()]);
}

#[test]
fn admission_of_requests() {
    assert!(!is_mutation(Method::Get));
    assert!(!is_mutation(Method::Head));
    assert!(is_mutation(Method::Options));
    assert_eq!(check_request(Method::Get, false, 10_000_000), Ok(()));
    assert_eq!(check_request(Method::Post, false, 0), Err(DomainError::Forbidden));
    assert_eq!(check_request(Method::Post, true, 200_000), Ok(()));
    assert_eq!(
        check_request(Method::Delete, true, 200_001),
        Err(DomainError::Invalid("request body too large".into()))
    );
}

#[test]
fn admission_comes_before_routing() {
    const RP: &str = "https://okr.example";
    // A cross-site mutation is refused, whatever its path.
    let r = route(Method::Post, "/api/v1/okrs", Some("cross-site"), None, RP, 10);
    assert!(matches!(r, Err(DomainError::Forbidden)));
    let r = route(Method::Delete, "/api/v1/nope", None, None, RP, 0);
    assert!(matches!(r, Err(DomainError::Forbidden)));
    // A same-site mutation with an oversized body is refused.
    let r = route(Method::Patch, "/api/v1/okrs/X1", Some("same-origin"), None, RP, 200_001);
    assert!(matches!(r, Err(DomainError::Invalid(m)) if m == "request body too large"));
    // A matching Origin is a same-site signal on its own.
    let r = route(Method::Patch, "/api/v1/okrs/X1", Some("same-site"), Some(RP), RP, 200_000).unwrap();
    assert_eq!(r.endpoint, Endpoint::EditOkr);
    assert_eq!(r.id, Some("X1".to_string()));
    // Reads are always admitted and routed.
    let r = route(Method::Get, "/api/v1/okrs/X1/updates", Some("cross-site"), None, RP, 999_999).unwrap();
    assert_eq!(r.endpoint, Endpoint::ListUpdates);
}
