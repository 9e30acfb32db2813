//! Web Push "tickle" notifications authenticated with VAPID.
//!
//! Pushes carry no payload: they only wake the service worker, which then
//! fetches the notification feed in-app. Only the VAPID JWT (ES256) is needed.
use vstd::prelude::*;

use p256::ecdsa::signature::Signer;
use p256::ecdsa::{Signature, SigningKey};

use crate::error::{DomainError, DomainResult};
use crate::fmt::{push_i64, signed_decimal};
use crate::json::{
    char_seq_lt, json_member, json_object, lemma_members_unfold, spec_json_object, spec_json_quote, JsonScalar,
};
use crate::text::{push_str, string_of, string_push};
use crate::webauthn::{b64url_decode, b64url_encode, is_invalid, malformed_b64, spec_b64url_decode, spec_url_safe_encode};

verus! {

/// The 64-byte `r || s` ES256 signature of `msg` made with the P-256 secret
/// scalar `secret` (p256: `SigningKey::from_slice`, `Signer::sign`,
/// `Signature::to_bytes`; RFC 6979 deterministic), or `None` when the secret is
/// not a valid scalar.
pub uninterp spec fn spec_es256_sign(secret: Seq<u8>, msg: Seq<u8>) -> Option<Seq<u8>>;

/// The scheme, host and port of a URL as `url::Url::parse` reads it (`None`
/// when the text is not a URL; the host is `None` when the URL has none; the
/// port is `None` when the URL names none or names the scheme's default port).
pub uninterp spec fn spec_url_scheme_host_port(url: Seq<char>) -> Option<
    (Seq<char>, Option<Seq<char>>, Option<u16>),
>;

/// ES256 signature with a raw P-256 secret scalar (p256).
#[verifier::external_body]
fn es256_sign(secret: &[u8], msg: &[u8]) -> (r: Option<Vec<u8>>)
    ensures
        match r {
            Some(sig) => spec_es256_sign(secret@, msg@) == Some(sig@),
            None => spec_es256_sign(secret@, msg@) is None,
        },
{
    let key = SigningKey::from_slice(secret).ok()?;
    let sig: Signature = key.sign(msg);
    Some(sig.to_bytes().to_vec())
}

/// `url::Url::parse`, then its scheme, host and port (`Url::port`, which
/// leaves out a default port).
#[verifier::external_body]
fn url_scheme_host_port(url: &str) -> (r: Option<(String, Option<String>, Option<u16>)>)
    ensures
        match r {
            Some((scheme, host, port)) => spec_url_scheme_host_port(url@) == Some(
                (
                    scheme@,
                    match host {
                        Some(h) => Some(h@),
                        None => None,
                    },
                    port,
                ),
            ),
            None => spec_url_scheme_host_port(url@) is None,
        },
{
    let u = url::Url::parse(url).ok()?;
    Some((u.scheme().to_string(), u.host_str().map(String::from), u.port()))
}

/// Lifetime of a VAPID token, in seconds (12 hours).
pub const VAPID_TOKEN_LIFETIME_SECS: i64 = 12 * 60 * 60;

/// Integer division truncating toward zero, as Rust's `/` on integers.
pub open spec fn trunc_div(x: int, d: int) -> int {
    if x >= 0 {
        x / d
    } else {
        -((-x) / d)
    }
}

/// The `exp` claim of a token made at `now_ms` (epoch milliseconds).
pub open spec fn vapid_expiry(now_ms: int) -> int {
    trunc_div(now_ms, 1000) + 12 * 60 * 60
}

/// The JOSE header of a VAPID token.
pub open spec fn vapid_header_json() -> Seq<char> {
    seq!['{'] + spec_json_quote("alg"@) + seq![':'] + spec_json_quote("ES256"@) + seq![','] + spec_json_quote(
        "typ"@,
    ) + seq![':'] + spec_json_quote("JWT"@) + seq!['}']
}

/// The claims of a VAPID token, as `serde_json` writes the object (keys in
/// sorted order).
pub open spec fn vapid_claims_json(audience: Seq<char>, exp: int, subject: Seq<char>) -> Seq<char> {
    seq!['{'] + spec_json_quote("aud"@) + seq![':'] + spec_json_quote(audience) + seq![','] + spec_json_quote(
        "exp"@,
    ) + seq![':'] + signed_decimal(exp) + seq![','] + spec_json_quote("sub"@) + seq![':'] + spec_json_quote(
        subject,
    ) + seq!['}']
}

/// The signed part of a VAPID token: `base64url(header).base64url(claims)`.
pub open spec fn vapid_signing_input(audience: Seq<char>, exp: int, subject: Seq<char>) -> Seq<char> {
    spec_url_safe_encode(vstd::utf8::encode_utf8(vapid_header_json())) + "."@
        + spec_url_safe_encode(vstd::utf8::encode_utf8(vapid_claims_json(audience, exp, subject)))
}

/// Build a signed VAPID JWT for the given audience (the push endpoint origin),
/// valid for 12 hours from `now_ms`.
pub fn vapid_jwt(audience: &str, private_key_b64: &str, subject: &str, now_ms: i64) -> (r:
    DomainResult<String>)
    ensures
        ({
            let input = vapid_signing_input(audience@, vapid_expiry(now_ms as int), subject@);
            match spec_b64url_decode(private_key_b64@) {
                None => is_invalid(r, malformed_b64()),
                Some(sk) => match spec_es256_sign(sk, vstd::utf8::encode_utf8(input)) {
                    None => r matches Err(DomainError::Internal(m)) && m@ == "bad VAPID private key"@,
                    Some(sig) => r matches Ok(jwt) && jwt@ == input + "."@ + spec_url_safe_encode(sig),
                },
            }
        }),
{
    let mut head: Vec<(String, JsonScalar)> = Vec::new();
    head.push((string_of("alg"), JsonScalar::Str(string_of("ES256"))));
    head.push((string_of("typ"), JsonScalar::Str(string_of("JWT"))));
    proof {
        reveal_strlit("alg");
        reveal_strlit("typ");
        assert(char_seq_lt("alg"@, "typ"@));
        lemma_members_unfold(head@);
        assert(json_member(head@[0]) == spec_json_quote("alg"@) + seq![':'] + spec_json_quote("ES256"@));
        assert(json_member(head@[1]) == spec_json_quote("typ"@) + seq![':'] + spec_json_quote("JWT"@));
        assert(spec_json_object(head@) =~= vapid_header_json());
    }
    let header_json = json_object(&head);
    let header = b64url_encode(header_json.as_str().as_bytes());
    let exp: i64 = now_ms / 1000 + VAPID_TOKEN_LIFETIME_SECS;
    let mut body: Vec<(String, JsonScalar)> = Vec::new();
    body.push((string_of("aud"), JsonScalar::Str(string_of(audience))));
    body.push((string_of("exp"), JsonScalar::Int(exp)));
    body.push((string_of("sub"), JsonScalar::Str(string_of(subject))));
    proof {
        reveal_strlit("aud");
        reveal_strlit("exp");
        reveal_strlit("sub");
        assert(char_seq_lt("aud"@, "exp"@));
        assert(char_seq_lt("aud"@, "sub"@));
        assert(char_seq_lt("exp"@, "sub"@));
        lemma_members_unfold(body@);
        assert(json_member(body@[0]) == spec_json_quote("aud"@) + seq![':'] + spec_json_quote(audience@));
        assert(json_member(body@[1]) == spec_json_quote("exp"@) + seq![':'] + signed_decimal(exp as int));
        assert(json_member(body@[2]) == spec_json_quote("sub"@) + seq![':'] + spec_json_quote(subject@));
    }
    let claims = json_object(&body);
    assert(exp == vapid_expiry(now_ms as int));
    assert(claims@ =~= vapid_claims_json(audience@, exp as int, subject@));
    let payload = b64url_encode(claims.as_str().as_bytes());
    let mut signing_input = header;
    proof {
        reveal_strlit(".");
    }
    string_push(&mut signing_input, '.');
    push_str(&mut signing_input, payload.as_str());
    assert(signing_input@ =~= vapid_signing_input(audience@, exp as int, subject@));

    let sk_bytes = b64url_decode(private_key_b64)?;
    let sig = match es256_sign(sk_bytes.as_slice(), signing_input.as_str().as_bytes()) {
        Some(sig) => sig,
        None => return Err(DomainError::Internal(string_of("bad VAPID private key"))),
    };
    let sig_b64 = b64url_encode(sig.as_slice());
    let mut jwt = signing_input;
    string_push(&mut jwt, '.');
    push_str(&mut jwt, sig_b64.as_str());
    assert(jwt@ =~= vapid_signing_input(audience@, exp as int, subject@) + "."@
        + spec_url_safe_encode(sig@));
    Ok(jwt)
}

/// The origin of a push endpoint URL: `scheme://host`, followed by `:port`
/// when the URL names a port other than the scheme's default.
pub open spec fn spec_origin_of(endpoint: Seq<char>) -> Option<Seq<char>> {
    match spec_url_scheme_host_port(endpoint) {
        Some((scheme, Some(host), port)) => Some(
            scheme + "://"@ + host + match port {
                Some(p) => ":"@ + signed_decimal(p as int),
                None => Seq::<char>::empty(),
            },
        ),
        _ => None,
    }
}

/// The origin of a push endpoint URL: the audience of its VAPID token.
pub fn origin_of(endpoint: &str) -> (r: Option<String>)
    ensures
        match spec_origin_of(endpoint@) {
            Some(o) => r matches Some(s) && s@ == o,
            None => r is None,
        },
{
    match url_scheme_host_port(endpoint) {
        Some((scheme, Some(host), port)) => {
            let mut s = scheme;
            push_str(&mut s, "://");
            push_str(&mut s, host.as_str());
            match port {
                Some(p) => {
                    push_str(&mut s, ":");
                    push_i64(&mut s, p as i64);
                },
                None => {},
            }
            proof {
                reveal_strlit("://");
                reveal_strlit(":");
            }
            assert(s@ =~= spec_origin_of(endpoint@).unwrap());
            Some(s)
        },
        _ => None,
    }
}

/// The `Authorization` header of a VAPID push: `vapid t=<jwt>, k=<public key>`.
pub fn vapid_authorization(jwt: &str, public_key_b64: &str) -> (r: String)
    ensures
        r@ == "vapid t="@ + jwt@ + ", k="@ + public_key_b64@,
{
    let mut s = string_of("vapid t=");
    push_str(&mut s, jwt);
    push_str(&mut s, ", k=");
    push_str(&mut s, public_key_b64);
    assert(s@ =~= "vapid t="@ + jwt@ + ", k="@ + public_key_b64@);
    s
}

/// Whether a push-service status means the subscription is gone (404, 410),
/// so that it is pruned.
pub fn subscription_gone(status: u16) -> (r: bool)
    ensures
        r == (status == 404 || status == 410),
{
    status == 404 || status == 410
}

/// The VAPID subject: `mailto:admin@<rp_id>`.
pub fn vapid_subject(rp_id: &str) -> (r: String)
    ensures
        r@ == "mailto:admin@"@ + rp_id@,
{
    let mut s = string_of("mailto:admin@");
    push_str(&mut s, rp_id);
    s
}

/// The headers of a tickle push to `endpoint`: `TTL: 60` and the VAPID
/// `Authorization` for the endpoint's origin. A push carries no payload.
pub fn tickle_headers(
    endpoint: &str,
    vapid_private_key_b64: &str,
    vapid_public_key_b64: &str,
    subject: &str,
    now_ms: i64,
) -> (r: DomainResult<Vec<(String, String)>>)
    ensures
        match spec_origin_of(endpoint@) {
            None => r matches Err(DomainError::Internal(m)) && m@ == "bad push endpoint"@,
            Some(aud) => {
                let input = vapid_signing_input(aud, vapid_expiry(now_ms as int), subject@);
                match spec_b64url_decode(vapid_private_key_b64@) {
                    None => is_invalid(r, malformed_b64()),
                    Some(sk) => match spec_es256_sign(sk, vstd::utf8::encode_utf8(input)) {
                        None => r matches Err(DomainError::Internal(m)) && m@ == "bad VAPID private key"@,
                        Some(sig) => r matches Ok(h) && h@.len() == 2 && h@[0].0@ == "TTL"@ && h@[0].1@
                            == "60"@ && h@[1].0@ == "Authorization"@ && h@[1].1@ == "vapid t="@ + input
                            + "."@ + spec_url_safe_encode(sig) + ", k="@ + vapid_public_key_b64@,
                    },
                }
            },
        },
{
    let audience = match origin_of(endpoint) {
        Some(a) => a,
        None => return Err(DomainError::Internal(string_of("bad push endpoint"))),
    };
    let jwt = vapid_jwt(audience.as_str(), vapid_private_key_b64, subject, now_ms)?;
    let mut headers: Vec<(String, String)> = Vec::new();
    headers.push((string_of("TTL"), string_of("60")));
    headers.push((string_of("Authorization"), vapid_authorization(jwt.as_str(), vapid_public_key_b64)));
    Ok(headers)
}

} // verus!
