use okr_tracker::DomainError;

#[test]
fn error_messages() {
    assert_eq!(DomainError::Unauthenticated.message(), "unauthenticated");
    assert_eq!(DomainError::NotFound("okr".into()).message(), "not found: okr");
    assert_eq!(DomainError::Invalid("x".into()).message(), "invalid input: x");
    assert_eq!(DomainError::Conflict("c".into()).message(), "conflict: c");
    assert_eq!(DomainError::BadRegistrationCode.message(), "registration code rejected");
    assert_eq!(DomainError::SetupClosed.message(), "setup already completed");
    assert_eq!(DomainError::RateLimited.message(), "rate limited");
    // Internal details are for logs only.
    assert_eq!(DomainError::Internal("db: locked".into()).message(), "internal error");
}

#[test]
fn error_tags_and_details() {
    assert_eq!(DomainError::BadRegistrationCode.tag(), "bad_registration_code");
    assert_eq!(DomainError::NotFound("g".into()).tag(), "not_found");
    assert_eq!(DomainError::SetupClosed.tag(), "setup_closed");
    assert_eq!(DomainError::NotFound("g".into()).detail(), Some("g".to_string()));
    assert_eq!(DomainError::Forbidden.detail(), None);
}
