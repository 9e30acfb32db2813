use p256::ecdsa::signature::Verifier;
use p256::ecdsa::{Signature, SigningKey};

use okr_tracker::push::{origin_of, subscription_gone, tickle_headers, vapid_authorization, vapid_jwt, vapid_subject};
use okr_tracker::webauthn::{b64url_decode, b64url_encode};
use okr_tracker::DomainError;

#[test]
fn vapid_token_is_a_signed_jwt() {
    let sk = SigningKey::from_slice(&[3u8; 32]).unwrap();
    let private_b64 = b64url_encode(&[3u8; 32]);
    let jwt = vapid_jwt("https://push.example", &private_b64, "mailto:admin@okr.example", 1_700_000_000_123).unwrap();
    let parts: Vec<&str> = jwt.split('.').collect();
    assert_eq!(parts.len(), 3);
    assert_eq!(b64url_decode(parts[0]).unwrap(), br#"{"alg":"ES256","typ":"JWT"}"#.to_vec());
    assert_eq!(
        String::from_utf8(b64url_decode(parts[1]).unwrap()).unwrap(),
        r#"{"aud":"https://push.example","exp":1700043200,"sub":"mailto:admin@okr.example"}"#
    );
    let sig = Signature::from_slice(&b64url_decode(parts[2]).unwrap()).unwrap();
    let signing_input = format!("{}.{}", parts[0], parts[1]);
    assert!(sk.verifying_key().verify(signing_input.as_bytes(), &sig).is_ok());
}

#[test]
fn vapid_token_refusals() {
    assert_eq!(
        vapid_jwt("https://push.example", "###", "mailto:a@b", 0),
        Err(DomainError::Invalid("malformed base64url".into()))
    );
    // Zero is not a valid P-256 secret scalar.
    assert_eq!(
        vapid_jwt("https://push.example", &b64url_encode(&[0u8; 32]), "mailto:a@b", 0),
        Err(DomainError::Internal("bad VAPID private key".into()))
    );
}

#[test]
fn vapid_claims_escape_text() {
    let private_b64 = b64url_encode(&[5u8; 32]);
    let jwt = vapid_jwt("https://p.example", &private_b64, "mailto:\"x\"@y", -1500).unwrap();
    let claims = b64url_decode(jwt.split('.').nth(1).unwrap()).unwrap();
    // Expiry truncates toward zero: -1500 ms is second -1.
    assert_eq!(
        String::from_utf8(claims).unwrap(),
        r#"{"aud":"https://p.example","exp":43199,"sub":"mailto:\"x\"@y"}"#
    );
}

#[test]
fn push_endpoint_origin() {
    assert_eq!(origin_of("https://fcm.googleapis.com/fcm/send/abc?x=1"), Some("https://fcm.googleapis.com".to_string()));
    assert_eq!(origin_of("https://Push.Example:8443/x"), Some("https://push.example:8443".to_string()));
    assert_eq!(origin_of("https://push.example.com:8443/wpush/abc"), Some("https://push.example.com:8443".to_string()));
    // The scheme's default port is not part of the origin.
    assert_eq!(origin_of("https://push.example.com:443/wpush/abc"), Some("https://push.example.com".to_string()));
    assert_eq!(origin_of("not a url"), None);
    assert_eq!(origin_of("mailto:someone@example.com"), None);
}

#[test]
fn push_helpers() {
    assert_eq!(vapid_authorization("t.t.t", "KEY"), "vapid t=t.t.t, k=KEY");
    assert!(subscription_gone(404));
    assert!(subscription_gone(410));
    assert!(!subscription_gone(201));
    assert!(!subscription_gone(500));
    assert_eq!(vapid_subject("okr.example"), "mailto:admin@okr.example");
}

#[test]
fn tickle_push_headers() {
    let private_b64 = b64url_encode(&[3u8; 32]);
    let h = tickle_headers("https://push.example/send/abc", &private_b64, "PUBKEY", "mailto:admin@okr.example", 0).unwrap();
    assert_eq!(h.len(), 2);
    assert_eq!(h[0], ("TTL".to_string(), "60".to_string()));
    assert_eq!(h[1].0, "Authorization");
    assert!(h[1].1.starts_with("vapid t="));
    assert!(h[1].1.ends_with(", k=PUBKEY"));
    let jwt = &h[1].1["vapid t=".len()..h[1].1.len() - ", k=PUBKEY".len()];
    let claims = b64url_decode(jwt.split('.').nth(1).unwrap()).unwrap();
    assert_eq!(
        String::from_utf8(claims).unwrap(),
        r#"{"aud":"https://push.example","exp":43200,"sub":"mailto:admin@okr.example"}"#
    );
    assert_eq!(
        tickle_headers("nowhere", &private_b64, "K", "s", 0),
        Err(DomainError::Internal("bad push endpoint".into()))
    );
}
