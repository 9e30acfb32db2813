use okr_tracker::http::{
    apply_security_headers, clear_session_cookie, cookie, eq_ignore_ascii_case, is_same_site,
    security_headers, set_header, set_session_cookie, status_code, SESSION_COOKIE,
};
use okr_tracker::DomainError;

fn pair(a: &str, b: &str) -> (String, String) {
    (a.to_string(), b.to_string())
}

#[test]
fn session_cookie_attributes() {
    assert_eq!(
        set_session_cookie("abc", 604_800),
        "okr_session=abc; HttpOnly; Secure; SameSite=Strict; Path=/; Max-Age=604800"
    );
    assert_eq!(clear_session_cookie(), "okr_session=; HttpOnly; Secure; SameSite=Strict; Path=/; Max-Age=0");
    assert_eq!(set_session_cookie("x", -5), "okr_session=x; HttpOnly; Secure; SameSite=Strict; Path=/; Max-Age=-5");
    assert_eq!(SESSION_COOKIE, "okr_session");
}

#[test]
fn cookie_is_found_by_trimmed_name() {
    assert_eq!(cookie(Some("a=1; okr_session=s1d ; b=2"), "okr_session"), Some("s1d".to_string()));
    assert_eq!(cookie(Some("okr_session"), "okr_session"), None);
    assert_eq!(cookie(Some("x=1"), "okr_session"), None);
    assert_eq!(cookie(None, "okr_session"), None);
    // The first `=` splits; later ones belong to the value.
    assert_eq!(cookie(Some("k=a=b"), "k"), Some("a=b".to_string()));
    // The first matching part wins.
    assert_eq!(cookie(Some("k=1;k=2"), "k"), Some("1".to_string()));
    assert_eq!(cookie(Some(""), ""), None);
}

#[test]
fn the_cookie_set_is_the_cookie_read() {
    let header = set_session_cookie("0123abcd", 60);
    assert_eq!(cookie(Some(&header), SESSION_COOKIE), Some("0123abcd".to_string()));
}

#[test]
fn same_site_signals() {
    assert!(is_same_site(Some("same-origin"), None, "https://okr.example"));
    assert!(is_same_site(Some("none"), Some("https://evil.example"), "https://okr.example"));
    assert!(!is_same_site(Some("cross-site"), Some("https://evil.example"), "https://okr.example"));
    assert!(!is_same_site(Some("same-site"), None, "https://okr.example"));
    // An Origin exactly matching the RP origin is a same-site signal on its own.
    assert!(is_same_site(Some("same-site"), Some("https://okr.example"), "https://okr.example"));
    assert!(is_same_site(Some("cross-site"), Some("https://okr.example"), "https://okr.example"));
    assert!(is_same_site(None, Some("https://okr.example"), "https://okr.example"));
    assert!(!is_same_site(None, Some("https://evil.example"), "https://okr.example"));
    // Neither header: fail closed.
    assert!(!is_same_site(None, None, "https://okr.example"));
}

#[test]
fn error_statuses() {
    assert_eq!(status_code(&DomainError::Unauthenticated), 401);
    assert_eq!(status_code(&DomainError::Forbidden), 403);
    assert_eq!(status_code(&DomainError::NotFound("x".into())), 404);
    assert_eq!(status_code(&DomainError::Invalid("x".into())), 400);
    assert_eq!(status_code(&DomainError::Conflict("x".into())), 409);
    assert_eq!(status_code(&DomainError::SetupClosed), 409);
    assert_eq!(status_code(&DomainError::BadRegistrationCode), 400);
    assert_eq!(status_code(&DomainError::RateLimited), 429);
    assert_eq!(status_code(&DomainError::Internal("x".into())), 500);
}

#[test]
fn security_header_set() {
    let h = security_headers();
    assert_eq!(h.len(), 7);
    assert_eq!(h[0].0, "Content-Security-Policy");
    assert!(h[0].1.starts_with("default-src 'self'; script-src 'self' 'wasm-unsafe-eval';"));
    assert!(h[0].1.ends_with("frame-ancestors 'none'; object-src 'none'"));
    assert_eq!(h[1], pair("Strict-Transport-Security", "max-age=31536000; includeSubDomains; preload"));
    assert_eq!(h[4], pair("X-Frame-Options", "DENY"));
    assert_eq!(h[6], pair("Cross-Origin-Opener-Policy", "same-origin"));
}

#[test]
fn headers_are_set_not_appended() {
    let mut h = vec![pair("content-type", "text/html"), pair("X-FRAME-OPTIONS", "SAMEORIGIN"), pair("x-frame-options", "ALLOW")];
    set_header(&mut h, "X-Frame-Options", "DENY");
    assert_eq!(h, vec![pair("content-type", "text/html"), pair("X-Frame-Options", "DENY")]);
    assert!(eq_ignore_ascii_case("Referrer-Policy", "referrer-policy"));
    assert!(!eq_ignore_ascii_case("Referrer-Policy", "referrer-polic"));
}

#[test]
fn security_headers_applied_to_a_response() {
    let mut h = vec![pair("Content-Type", "application/json"), pair("referrer-policy", "unsafe-url")];
    apply_security_headers(&mut h);
    assert_eq!(h.len(), 8);
    assert_eq!(h[0], pair("Content-Type", "application/json"));
    assert_eq!(h[1].0, "Content-Security-Policy");
    assert!(h.contains(&pair("Referrer-Policy", "no-referrer")));
    assert!(!h.contains(&pair("referrer-policy", "unsafe-url")));
    assert_eq!(h[7], pair("Cross-Origin-Opener-Policy", "same-origin"));
}
