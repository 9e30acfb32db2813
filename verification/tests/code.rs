use okr_tracker::code::{ct_eq, validate_reg_code, verify_setup_secret, REG_CODE_TTL_MS, SESSION_TTL_MS};
use okr_tracker::model::{Millis, RegCode};
use okr_tracker::DomainError;

fn code(now: Millis) -> RegCode {
    RegCode {
        code: "ABCD2345".into(),
        user_id: "u1".into(),
        created_at: now,
        expires_at: now + REG_CODE_TTL_MS,
        used_at: None,
    }
}

#[test]
fn ct_eq_basic() {
    assert!(ct_eq("hello", "hello"));
    assert!(!ct_eq("hello", "hellp"));
    assert!(!ct_eq("hello", "hell"));
}

#[test]
fn valid_code_accepted_and_tolerant_of_formatting() {
    let now = 1_000_000;
    let c = code(now);
    assert!(validate_reg_code(&c, "abcd-2345", now).is_ok());
    assert!(validate_reg_code(&c, "ABCD 2345", now).is_ok());
}

#[test]
fn wrong_code_rejected() {
    let now = 1_000_000;
    assert!(matches!(validate_reg_code(&code(now), "WRONG999", now), Err(DomainError::BadRegistrationCode)));
}

#[test]
fn used_code_rejected() {
    let now = 1_000_000;
    let mut c = code(now);
    c.used_at = Some(now);
    assert!(validate_reg_code(&c, "ABCD2345", now).is_err());
}

#[test]
fn expired_code_rejected() {
    let now = 1_000_000;
    let c = code(now);
    assert!(validate_reg_code(&c, "ABCD2345", now + REG_CODE_TTL_MS).is_err());
    assert!(validate_reg_code(&c, "ABCD2345", now + REG_CODE_TTL_MS + 1).is_err());
}

#[test]
fn setup_secret_checks() {
    assert!(verify_setup_secret("s3cr3t", "s3cr3t").is_ok());
    assert!(verify_setup_secret("nope", "s3cr3t").is_err());
    // An empty configured secret never admits anyone.
    assert!(verify_setup_secret("", "").is_err());
}

#[test]
fn code_is_accepted_until_the_last_millisecond() {
    let now = 1_000_000;
    let c = code(now);
    assert!(validate_reg_code(&c, "ABCD2345", now + REG_CODE_TTL_MS - 1).is_ok());
    assert_eq!(validate_reg_code(&c, "ABCD2345", now + REG_CODE_TTL_MS), Err(DomainError::BadRegistrationCode));
}

#[test]
fn ttl_constants() {
    assert_eq!(REG_CODE_TTL_MS, 86_400_000);
    assert_eq!(SESSION_TTL_MS, 604_800_000);
}

#[test]
fn ct_eq_is_byte_equality() {
    assert!(ct_eq("", ""));
    assert!(ct_eq("é", "é"));
    assert!(!ct_eq("e", "é"));
}
