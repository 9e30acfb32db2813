//! WebAuthn verification for the ES256 (P-256) algorithm.
//!
//! Registration checks the client-data ceremony fields and extracts the COSE
//! EC2 public key (attestation `none`: the statement is not verified).
//! Assertion checks the ECDSA signature over
//! `authenticatorData || SHA-256(clientDataJSON)` and every ceremony invariant:
//! type, challenge, origin, RP-ID hash, user-present flag, sign-count
//! monotonicity.
use vstd::prelude::*;

use base64::engine::general_purpose::{STANDARD_NO_PAD, URL_SAFE_NO_PAD};
use base64::Engine;
use p256::ecdsa::signature::Verifier;
use p256::ecdsa::{Signature, VerifyingKey};
use sha2::{Digest, Sha256};

use crate::cbor::{
    cbor_decode, find_int_key, find_text_key, position_of_int_key, position_of_text_key,
    spec_cbor_decode, CborItem, CborScalar,
};
use crate::error::{DomainError, DomainResult};
use crate::ids::{hex_encode, hex_of};
use crate::text::{chars_of, string_from_chars, string_of, str_eq};

verus! {

broadcast use vstd::utf8::group_utf8_lib;

// ---------------------------------------------------------------------------
// Outside computations
// ---------------------------------------------------------------------------

/// What `base64`'s `URL_SAFE_NO_PAD.decode` yields for `input`.
pub uninterp spec fn spec_url_safe_decode(input: Seq<u8>) -> Option<Seq<u8>>;

/// What `base64`'s `STANDARD_NO_PAD.decode` yields for `input`.
pub uninterp spec fn spec_standard_decode(input: Seq<u8>) -> Option<Seq<u8>>;

/// What `base64`'s `URL_SAFE_NO_PAD.encode` yields for `bytes`.
pub uninterp spec fn spec_url_safe_encode(bytes: Seq<u8>) -> Seq<char>;

/// The SHA-256 digest of `data` (`sha2::Sha256::digest`).
pub uninterp spec fn spec_sha256(data: Seq<u8>) -> Seq<u8>;

/// The string field `key` of the JSON object in `json`, as
/// `serde_json::from_slice::<serde_json::Value>` reads it (`None` when the
/// text is not JSON, or the field is missing or not a string).
pub uninterp spec fn spec_json_str_field(json: Seq<u8>, key: Seq<char>) -> Option<Seq<char>>;

/// The three strings of the JSON array in `json`, as
/// `serde_json::from_slice::<(String, String, String)>` reads them (`None`
/// when the text is not an array of exactly three strings).
pub uninterp spec fn spec_json_string_triple(json: Seq<u8>) -> Option<(Seq<char>, Seq<char>, Seq<char>)>;

/// Whether `VerifyingKey::from_sec1_bytes` (p256) accepts `bytes`.
pub uninterp spec fn spec_sec1_key_valid(bytes: Seq<u8>) -> bool;

/// Whether `Signature::from_der` (p256) accepts `bytes`.
pub uninterp spec fn spec_der_signature_valid(bytes: Seq<u8>) -> bool;

/// `URL_SAFE_NO_PAD.decode` (base64).
#[verifier::external_body]
fn url_safe_decode(input: &[u8]) -> (r: Option<Vec<u8>>)
    ensures
        r matches Some(v) ==> spec_url_safe_decode(input@) == Some(v@),
        r is None <==> spec_url_safe_decode(input@) is None,
{
    URL_SAFE_NO_PAD.decode(input).ok()
}

/// `STANDARD_NO_PAD.decode` (base64).
#[verifier::external_body]
fn standard_decode(input: &[u8]) -> (r: Option<Vec<u8>>)
    ensures
        r matches Some(v) ==> spec_standard_decode(input@) == Some(v@),
        r is None <==> spec_standard_decode(input@) is None,
{
    STANDARD_NO_PAD.decode(input).ok()
}

/// A character of the URL-safe base64 alphabet (RFC 4648 §5).
pub open spec fn url_safe_char(c: char) -> bool {
    ('A' <= c <= 'Z') || ('a' <= c <= 'z') || ('0' <= c <= '9') || c == '-' || c == '_'
}

/// `URL_SAFE_NO_PAD.encode` (base64). The text is written in the URL-safe
/// alphabet without padding, and the same engine decodes it back to `bytes`.
#[verifier::external_body]
fn url_safe_encode(bytes: &[u8]) -> (r: String)
    ensures
        r@ == spec_url_safe_encode(bytes@),
        forall|i: int| 0 <= i < r@.len() ==> url_safe_char(#[trigger] r@[i]),
        spec_url_safe_decode(vstd::utf8::encode_utf8(r@)) == Some(bytes@),
{
    URL_SAFE_NO_PAD.encode(bytes)
}

/// `Sha256::digest` (sha2): a 32-byte digest.
#[verifier::external_body]
fn sha256(data: &[u8]) -> (r: Vec<u8>)
    ensures
        r@ == spec_sha256(data@),
        r@.len() == 32,
{
    Sha256::digest(data).to_vec()
}

/// `serde_json::from_slice::<serde_json::Value>`, then the string field `key`.
#[verifier::external_body]
pub(crate) fn json_str_field(json: &[u8], key: &str) -> (r: Option<String>)
    ensures
        r matches Some(v) ==> spec_json_str_field(json@, key@) == Some(v@),
        r is None <==> spec_json_str_field(json@, key@) is None,
{
    let value: serde_json::Value = serde_json::from_slice(json).ok()?;
    match value.get(key) {
        Some(serde_json::Value::String(s)) => Some(s.clone()),
        _ => None,
    }
}

/// `serde_json::from_slice::<(String, String, String)>`: a JSON array of
/// exactly three strings.
#[verifier::external_body]
fn json_string_triple(json: &[u8]) -> (r: Option<(String, String, String)>)
    ensures
        match r {
            Some((a, b, c)) => spec_json_string_triple(json@) == Some((a@, b@, c@)),
            None => spec_json_string_triple(json@) is None,
        },
{
    serde_json::from_slice::<(String, String, String)>(json).ok()
}

/// Whether `bytes` is accepted by `VerifyingKey::from_sec1_bytes` (p256).
#[verifier::external_body]
fn sec1_key_valid(bytes: &[u8]) -> (r: bool)
    ensures
        r == spec_sec1_key_valid(bytes@),
{
    VerifyingKey::from_sec1_bytes(bytes).is_ok()
}

/// Whether `bytes` is accepted by `Signature::from_der` (p256).
#[verifier::external_body]
fn der_signature_valid(bytes: &[u8]) -> (r: bool)
    ensures
        r == spec_der_signature_valid(bytes@),
{
    Signature::from_der(bytes).is_ok()
}

/// Whether the DER-encoded ECDSA signature `sig_der` of `msg` verifies under
/// the SEC1-encoded P-256 key `key_sec1` (p256: `VerifyingKey::from_sec1_bytes`,
/// `Signature::from_der`, `Verifier::verify`).
pub uninterp spec fn spec_es256_verify(key_sec1: Seq<u8>, msg: Seq<u8>, sig_der: Seq<u8>) -> bool;

/// ES256 verification of `sig_der` over `msg` with the key `key_sec1` (p256).
#[verifier::external_body]
fn es256_verify(key_sec1: &[u8], msg: &[u8], sig_der: &[u8]) -> (r: bool)
    ensures
        r == spec_es256_verify(key_sec1@, msg@, sig_der@),
{
    match (VerifyingKey::from_sec1_bytes(key_sec1), Signature::from_der(sig_der)) {
        (Ok(key), Ok(sig)) => key.verify(msg, &sig).is_ok(),
        _ => false,
    }
}

// ---------------------------------------------------------------------------
// Base64url
// ---------------------------------------------------------------------------

/// `s` without its trailing `=` characters.
pub open spec fn trim_padding(s: Seq<char>) -> Seq<char>
    decreases s.len(),
{
    if s.len() > 0 && s.last() == '=' {
        trim_padding(s.drop_last())
    } else {
        s
    }
}

/// `+` and `/` of the standard alphabet mapped to `-` and `_`.
pub open spec fn to_url_alphabet(s: Seq<char>) -> Seq<char> {
    Seq::new(s.len(), |i: int| if s[i] == '+' { '-' } else if s[i] == '/' { '_' } else { s[i] })
}

/// Base64url decoding that tolerates padding and the standard alphabet: the
/// URL-safe decoding of the unpadded text with `+`/`/` mapped, or else the
/// standard decoding of the unpadded text.
pub open spec fn spec_b64url_decode(s: Seq<char>) -> Option<Seq<u8>> {
    let t = trim_padding(s);
    match spec_url_safe_decode(vstd::utf8::encode_utf8(to_url_alphabet(t))) {
        Some(b) => Some(b),
        None => spec_standard_decode(vstd::utf8::encode_utf8(t)),
    }
}

/// `r` is `Err(Invalid(m))` with the message `m`.
pub open spec fn is_invalid<T>(r: DomainResult<T>, m: Seq<char>) -> bool {
    r matches Err(DomainError::Invalid(e)) && e@ == m
}

pub open spec fn malformed_b64() -> Seq<char> {
    "malformed base64url"@
}

fn trimmed_padding_len(cs: &Vec<char>) -> (r: usize)
    ensures
        r <= cs@.len(),
        cs@.take(r as int) == trim_padding(cs@),
{
    let mut j = cs.len();
    assert(cs@.take(j as int) =~= cs@);
    while j > 0 && cs[j - 1] == '='
        invariant
            j <= cs@.len(),
            trim_padding(cs@) == trim_padding(cs@.take(j as int)),
        decreases j,
    {
        assert(cs@.take(j as int).drop_last() =~= cs@.take(j - 1));
        j -= 1;
    }
    j
}

/// Decode base64url (no padding), tolerating standard-base64 and padded input.
pub fn b64url_decode(s: &str) -> (r: DomainResult<Vec<u8>>)
    ensures
        match spec_b64url_decode(s@) {
            Some(b) => r matches Ok(v) && v@ == b,
            None => is_invalid(r, malformed_b64()),
        },
{
    let cs = chars_of(s);
    let n = trimmed_padding_len(&cs);
    let mut mapped: Vec<char> = Vec::new();
    let mut plain: Vec<char> = Vec::new();
    let mut i: usize = 0;
    while i < n
        invariant
            n <= cs@.len(),
            i <= n,
            plain@ == cs@.take(i as int),
            mapped@ == to_url_alphabet(cs@.take(i as int)),
        decreases n - i,
    {
        let c = cs[i];
        plain.push(c);
        mapped.push(if c == '+' { '-' } else if c == '/' { '_' } else { c });
        i += 1;
        assert(plain@ =~= cs@.take(i as int));
        assert(mapped@ =~= to_url_alphabet(cs@.take(i as int)));
    }
    let t_url = string_from_chars(&mapped);
    match url_safe_decode(t_url.as_str().as_bytes()) {
        Some(b) => Ok(b),
        None => {
            let t = string_from_chars(&plain);
            match standard_decode(t.as_str().as_bytes()) {
                Some(b) => Ok(b),
                None => Err(DomainError::Invalid(string_of("malformed base64url"))),
            }
        },
    }
}

/// Base64url (no padding) encoding. Decoding the encoding gives the bytes
/// back.
pub fn b64url_encode(b: &[u8]) -> (r: String)
    ensures
        r@ == spec_url_safe_encode(b@),
        spec_b64url_decode(r@) == Some(b@),
{
    let r = url_safe_encode(b);
    proof {
        let s = r@;
        if s.len() > 0 {
            assert(url_safe_char(s.last()));
        }
        assert(trim_padding(s) == s);
        assert(to_url_alphabet(s) =~= s) by {
            assert forall|i: int| 0 <= i < s.len() implies to_url_alphabet(s)[i] == s[i] by {
                assert(url_safe_char(s[i]));
            }
        }
    }
    r
}

// ---------------------------------------------------------------------------
// Client data
// ---------------------------------------------------------------------------

/// The ceremony check of `clientDataJSON`: its `type`, `challenge` (compared as
/// decoded bytes) and `origin`. `Err` carries the rejection message.
pub open spec fn client_data_verdict(
    client_data: Seq<u8>,
    expected_type: Seq<char>,
    expected_challenge_b64: Seq<char>,
    rp_origin: Seq<char>,
) -> Result<(), Seq<char>> {
    match client_data_fields(client_data) {
        None => Err("bad clientDataJSON"@),
        Some((typ, challenge, origin)) => if typ != expected_type {
            Err("clientData type mismatch"@)
        } else {
            match spec_b64url_decode(challenge) {
                None => Err(malformed_b64()),
                Some(got) => match spec_b64url_decode(expected_challenge_b64) {
                    None => Err(malformed_b64()),
                    Some(want) => if got != want {
                        Err("challenge mismatch"@)
                    } else if origin != rp_origin {
                        Err("origin mismatch"@)
                    } else {
                        Ok(())
                    },
                },
            }
        },
    }
}

/// The `type`, `challenge` and `origin` of client data: the string fields of
/// a JSON object, or else the three strings of a JSON array in that order.
pub open spec fn client_data_fields(client_data: Seq<u8>) -> Option<(Seq<char>, Seq<char>, Seq<char>)> {
    let typ = spec_json_str_field(client_data, "type"@);
    let challenge = spec_json_str_field(client_data, "challenge"@);
    let origin = spec_json_str_field(client_data, "origin"@);
    if typ is Some && challenge is Some && origin is Some {
        Some((typ->0, challenge->0, origin->0))
    } else {
        spec_json_string_triple(client_data)
    }
}

fn bytes_eq(a: &[u8], b: &[u8]) -> (r: bool)
    ensures
        r == (a@ == b@),
{
    if a.len() != b.len() {
        return false;
    }
    let mut i: usize = 0;
    while i < a.len()
        invariant
            i <= a@.len() == b@.len(),
            forall|k: int| 0 <= k < i ==> a@[k] == b@[k],
        decreases a.len() - i,
    {
        if a[i] != b[i] {
            return false;
        }
        i += 1;
    }
    assert(a@ =~= b@);
    true
}

fn verify_client_data(
    client_data_json: &[u8],
    expected_type: &str,
    expected_challenge_b64: &str,
    rp_origin: &str,
) -> (r: DomainResult<()>)
    ensures
        match client_data_verdict(client_data_json@, expected_type@, expected_challenge_b64@, rp_origin@) {
            Ok(_) => r is Ok,
            Err(m) => is_invalid(r, m),
        },
{
    let typ = json_str_field(client_data_json, "type");
    let challenge = json_str_field(client_data_json, "challenge");
    let origin = json_str_field(client_data_json, "origin");
    let (typ, challenge, origin) = match (typ, challenge, origin) {
        (Some(t), Some(c), Some(o)) => (t, c, o),
        _ => match json_string_triple(client_data_json) {
            Some(fields) => fields,
            None => return Err(DomainError::Invalid(string_of("bad clientDataJSON"))),
        },
    };
    if !str_eq(typ.as_str(), expected_type) {
        return Err(DomainError::Invalid(string_of("clientData type mismatch")));
    }
    // The challenge is base64url in client data: compare the decoded bytes.
    let got = b64url_decode(challenge.as_str())?;
    let want = b64url_decode(expected_challenge_b64)?;
    if !bytes_eq(got.as_slice(), want.as_slice()) {
        return Err(DomainError::Invalid(string_of("challenge mismatch")));
    }
    if !str_eq(origin.as_str(), rp_origin) {
        return Err(DomainError::Invalid(string_of("origin mismatch")));
    }
    Ok(())
}

// ---------------------------------------------------------------------------
// Authenticator data
// ---------------------------------------------------------------------------

/// User-present flag.
pub const FLAG_UP: u8 = 0x01;

/// Attested-credential-data-included flag.
pub const FLAG_AT: u8 = 0x40;

/// Big-endian value of four bytes.
pub open spec fn be_u32(a: u8, b: u8, c: u8, d: u8) -> u32 {
    (a * 16777216 + b * 65536 + c * 256 + d) as u32
}

/// Parsed authenticator data header: RP-ID hash, flags, sign count, and the
/// bytes that follow.
struct AuthData {
    rp_id_hash: Vec<u8>,
    flags: u8,
    sign_count: u32,
    rest: Vec<u8>,
}

fn copy_range(data: &[u8], from: usize, to: usize) -> (r: Vec<u8>)
    requires
        from <= to <= data@.len(),
    ensures
        r@ == data@.subrange(from as int, to as int),
{
    let mut out: Vec<u8> = Vec::new();
    let mut i = from;
    while i < to
        invariant
            from <= i <= to <= data@.len(),
            out@ == data@.subrange(from as int, i as int),
        decreases to - i,
    {
        out.push(data[i]);
        i += 1;
        assert(out@ =~= data@.subrange(from as int, i as int));
    }
    out
}

fn parse_auth_data(data: &[u8]) -> (r: DomainResult<AuthData>)
    ensures
        data@.len() < 37 ==> is_invalid(r, "authenticator data too short"@),
        data@.len() >= 37 ==> (r matches Ok(a) && {
            &&& a.rp_id_hash@ == data@.take(32)
            &&& a.flags == data@[32]
            &&& a.sign_count == be_u32(data@[33], data@[34], data@[35], data@[36])
            &&& a.sign_count as int == data@[33] as int * 16777216 + data@[34] as int * 65536
                + data@[35] as int * 256 + data@[36] as int
            &&& a.rest@ == data@.skip(37)
        }),
{
    if data.len() < 37 {
        return Err(DomainError::Invalid(string_of("authenticator data too short")));
    }
    let sign_count: u32 = (data[33] as u32) * 16777216 + (data[34] as u32) * 65536 + (data[35]
        as u32) * 256 + (data[36] as u32);
    proof {
        law_sign_count_is_big_endian(data@[33], data@[34], data@[35], data@[36]);
    }
    let rp = copy_range(data, 0, 32);
    let rest = copy_range(data, 37, data.len());
    assert(rp@ =~= data@.take(32));
    assert(rest@ =~= data@.skip(37));
    Ok(AuthData { rp_id_hash: rp, flags: data[32], sign_count, rest })
}

pub open spec fn user_present(flags: u8) -> bool {
    flags % 2 == 1
}

pub open spec fn attested(flags: u8) -> bool {
    (flags / 64) % 2 == 1
}

fn flag_up(flags: u8) -> (r: bool)
    ensures
        r == user_present(flags),
{
    assert((flags & 0x01u8 != 0u8) == (flags % 2 == 1)) by (bit_vector);
    flags & FLAG_UP != 0
}

fn flag_at(flags: u8) -> (r: bool)
    ensures
        r == attested(flags),
{
    assert((flags & 0x40u8 != 0u8) == ((flags / 64) % 2 == 1)) by (bit_vector);
    flags & FLAG_AT != 0
}

fn rp_id_hash_ok(rp_id_hash: &Vec<u8>, rp_id: &str) -> (r: bool)
    ensures
        r == (rp_id_hash@ == spec_sha256(vstd::utf8::encode_utf8(rp_id@))),
{
    let expected = sha256(rp_id.as_bytes());
    bytes_eq(rp_id_hash.as_slice(), expected.as_slice())
}

// ---------------------------------------------------------------------------
// COSE key
// ---------------------------------------------------------------------------

/// Conversion of a COSE EC2 P-256 key (a CBOR map) to the SEC1 uncompressed
/// point `0x04 || x || y`. `Err` carries the rejection message.
pub open spec fn cose_verdict(cose: Seq<u8>) -> Result<Seq<u8>, Seq<char>> {
    match spec_cbor_decode(cose) {
        None => Err("bad COSE key"@),
        Some(CborItem::NotMap) => Err("COSE key not a map"@),
        Some(CborItem::Entries(m)) => {
            let m = m@;
            if !(find_int_key(m, 1) matches Some(CborScalar::Integer(k)) && k == 2) {
                Err("unsupported key type (only EC2/ES256 supported)"@)
            } else if !(find_int_key(m, 3) matches Some(CborScalar::Integer(a)) && a == -7) {
                Err("unsupported algorithm (only ES256 supported)"@)
            } else if !(find_int_key(m, -1) matches Some(CborScalar::Integer(c)) && c == 1) {
                Err("unsupported curve (only P-256 supported)"@)
            } else {
                match find_int_key(m, -2) {
                    Some(CborScalar::Bytes(x)) => match find_int_key(m, -3) {
                        Some(CborScalar::Bytes(y)) => if x@.len() != 32 || y@.len() != 32 {
                            Err("bad EC coordinate length"@)
                        } else {
                            Ok(seq![4u8] + x@ + y@)
                        },
                        _ => Err("missing EC y"@),
                    },
                    _ => Err("missing EC x"@),
                }
            }
        },
    }
}

fn cose_ec2_to_sec1(cose: &[u8]) -> (r: DomainResult<Vec<u8>>)
    ensures
        match cose_verdict(cose@) {
            Ok(p) => r matches Ok(v) && v@ == p,
            Err(m) => is_invalid(r, m),
        },
{
    let item = cbor_decode(cose);
    let m = match item {
        None => return Err(DomainError::Invalid(string_of("bad COSE key"))),
        Some(CborItem::NotMap) => return Err(DomainError::Invalid(string_of("COSE key not a map"))),
        Some(CborItem::Entries(m)) => m,
    };
    // kty must be EC2 (2), alg must be ES256 (-7), crv must be P-256 (1).
    let kty_ok = match position_of_int_key(&m, 1) {
        Some(i) => match &m[i].1 {
            CborScalar::Integer(k) => *k == 2,
            _ => false,
        },
        None => false,
    };
    if !kty_ok {
        return Err(DomainError::Invalid(string_of("unsupported key type (only EC2/ES256 supported)")));
    }
    let alg_ok = match position_of_int_key(&m, 3) {
        Some(i) => match &m[i].1 {
            CborScalar::Integer(a) => *a == -7,
            _ => false,
        },
        None => false,
    };
    if !alg_ok {
        return Err(DomainError::Invalid(string_of("unsupported algorithm (only ES256 supported)")));
    }
    let crv_ok = match position_of_int_key(&m, -1) {
        Some(i) => match &m[i].1 {
            CborScalar::Integer(c) => *c == 1,
            _ => false,
        },
        None => false,
    };
    if !crv_ok {
        return Err(DomainError::Invalid(string_of("unsupported curve (only P-256 supported)")));
    }
    let xi = match position_of_int_key(&m, -2) {
        Some(i) => match &m[i].1 {
            CborScalar::Bytes(_) => i,
            _ => return Err(DomainError::Invalid(string_of("missing EC x"))),
        },
        None => return Err(DomainError::Invalid(string_of("missing EC x"))),
    };
    let yi = match position_of_int_key(&m, -3) {
        Some(i) => match &m[i].1 {
            CborScalar::Bytes(_) => i,
            _ => return Err(DomainError::Invalid(string_of("missing EC y"))),
        },
        None => return Err(DomainError::Invalid(string_of("missing EC y"))),
    };
    match (&m[xi].1, &m[yi].1) {
        (CborScalar::Bytes(x), CborScalar::Bytes(y)) => {
            if x.len() != 32 || y.len() != 32 {
                return Err(DomainError::Invalid(string_of("bad EC coordinate length")));
            }
            let mut out: Vec<u8> = Vec::new();
            out.push(4u8);
            let xs = copy_range(x.as_slice(), 0, 32);
            let ys = copy_range(y.as_slice(), 0, 32);
            let mut k: usize = 0;
            while k < 32
                invariant
                    k <= 32,
                    xs@.len() == 32,
                    out@ == seq![4u8] + xs@.take(k as int),
                decreases 32 - k,
            {
                out.push(xs[k]);
                k += 1;
                assert(out@ =~= seq![4u8] + xs@.take(k as int));
            }
            let mut k: usize = 0;
            while k < 32
                invariant
                    k <= 32,
                    xs@.len() == 32,
                    ys@.len() == 32,
                    out@ == seq![4u8] + xs@ + ys@.take(k as int),
                decreases 32 - k,
            {
                out.push(ys[k]);
                k += 1;
                assert(out@ =~= seq![4u8] + xs@ + ys@.take(k as int));
            }
            assert(xs@ =~= x@);
            assert(ys@ =~= y@);
            assert(ys@.take(32) =~= ys@);
            Ok(out)
        },
        _ => Err(DomainError::Invalid(string_of("missing EC x"))),
    }
}

// ---------------------------------------------------------------------------
// Ceremonies
// ---------------------------------------------------------------------------

/// Result of a verified registration.
pub struct RegistrationResult {
    /// Base64url credential id.
    pub credential_id: String,
    /// Base64url of the SEC1 point `0x04 || x || y`.
    pub public_key_sec1: String,
    pub sign_count: u32,
    /// Lower-case hex of the authenticator's AAGUID.
    pub aaguid: String,
}

/// The values a successful registration yields, before encoding.
pub struct RegistrationFacts {
    pub credential_id: Seq<u8>,
    pub public_key_sec1: Seq<u8>,
    pub sign_count: u32,
    pub aaguid: Seq<u8>,
}

/// The registration checks on the authenticator data `ad`, in order.
pub open spec fn registration_auth_verdict(ad: Seq<u8>, rp_id: Seq<char>) -> Result<
    RegistrationFacts,
    Seq<char>,
> {
    if ad.len() < 37 {
        Err("authenticator data too short"@)
    } else if !user_present(ad[32]) {
        Err("user-present flag not set"@)
    } else if !attested(ad[32]) {
        Err("no attested credential data"@)
    } else if ad.take(32) != spec_sha256(vstd::utf8::encode_utf8(rp_id)) {
        Err("RP ID hash mismatch"@)
    } else {
        // attestedCredentialData: aaguid(16) | credIdLen(2) | credId | COSEKey
        let rest = ad.skip(37);
        if rest.len() < 18 {
            Err("attested credential data truncated"@)
        } else {
            let end = 18 + rest[16] * 256 + rest[17];
            if rest.len() < end {
                Err("credential id truncated"@)
            } else {
                match cose_verdict(rest.skip(end)) {
                    Err(m) => Err(m),
                    Ok(sec1) => Ok(
                        RegistrationFacts {
                            credential_id: rest.subrange(18, end),
                            public_key_sec1: sec1,
                            sign_count: be_u32(ad[33], ad[34], ad[35], ad[36]),
                            aaguid: rest.take(16),
                        },
                    ),
                }
            }
        }
    }
}

/// The whole registration check, in order: client data (type
/// `webauthn.create`), the attestation object (a CBOR map holding `authData`
/// bytes), then the authenticator data.
pub open spec fn registration_verdict(
    attestation_object_b64: Seq<char>,
    client_data_json_b64: Seq<char>,
    expected_challenge_b64: Seq<char>,
    rp_id: Seq<char>,
    rp_origin: Seq<char>,
) -> Result<RegistrationFacts, Seq<char>> {
    match spec_b64url_decode(client_data_json_b64) {
        None => Err(malformed_b64()),
        Some(cd) => match client_data_verdict(
            cd,
            "webauthn.create"@,
            expected_challenge_b64,
            rp_origin,
        ) {
            Err(m) => Err(m),
            Ok(_) => match spec_b64url_decode(attestation_object_b64) {
                None => Err(malformed_b64()),
                Some(att) => match spec_cbor_decode(att) {
                    None => Err("bad attestationObject"@),
                    Some(CborItem::NotMap) => Err("attestationObject not a map"@),
                    Some(CborItem::Entries(m)) => match find_text_key(m@, "authData"@) {
                        Some(CborScalar::Bytes(ad)) => registration_auth_verdict(ad@, rp_id),
                        _ => Err("missing authData"@),
                    },
                },
            },
        },
    }
}

/// Verify a registration (`navigator.credentials.create`) response.
pub fn verify_registration(
    attestation_object_b64: &str,
    client_data_json_b64: &str,
    expected_challenge_b64: &str,
    rp_id: &str,
    rp_origin: &str,
) -> (r: DomainResult<RegistrationResult>)
    ensures
        match registration_verdict(
            attestation_object_b64@,
            client_data_json_b64@,
            expected_challenge_b64@,
            rp_id@,
            rp_origin@,
        ) {
            Ok(f) => r matches Ok(res) && {
                &&& res.credential_id@ == spec_url_safe_encode(f.credential_id)
                &&& res.public_key_sec1@ == spec_url_safe_encode(f.public_key_sec1)
                &&& spec_b64url_decode(res.credential_id@) == Some(f.credential_id)
                &&& spec_b64url_decode(res.public_key_sec1@) == Some(f.public_key_sec1)
                &&& f.public_key_sec1.len() == 65
                &&& f.public_key_sec1[0] == 4u8
                &&& res.sign_count == f.sign_count
                &&& res.aaguid@ == hex_of(f.aaguid)
            },
            Err(m) => is_invalid(r, m),
        },
{
    let client_data = b64url_decode(client_data_json_b64)?;
    verify_client_data(client_data.as_slice(), "webauthn.create", expected_challenge_b64, rp_origin)?;

    let att = b64url_decode(attestation_object_b64)?;
    let m = match cbor_decode(att.as_slice()) {
        None => return Err(DomainError::Invalid(string_of("bad attestationObject"))),
        Some(CborItem::NotMap) => return Err(DomainError::Invalid(string_of("attestationObject not a map"))),
        Some(CborItem::Entries(m)) => m,
    };
    let ai = match position_of_text_key(&m, "authData") {
        Some(i) => i,
        None => return Err(DomainError::Invalid(string_of("missing authData"))),
    };
    let auth_data_bytes: &Vec<u8> = match &m[ai].1 {
        CborScalar::Bytes(b) => b,
        _ => return Err(DomainError::Invalid(string_of("missing authData"))),
    };
    let ghost ad = auth_data_bytes@;

    let auth = parse_auth_data(auth_data_bytes.as_slice())?;
    if !flag_up(auth.flags) {
        return Err(DomainError::Invalid(string_of("user-present flag not set")));
    }
    if !flag_at(auth.flags) {
        return Err(DomainError::Invalid(string_of("no attested credential data")));
    }
    if !rp_id_hash_ok(&auth.rp_id_hash, rp_id) {
        return Err(DomainError::Invalid(string_of("RP ID hash mismatch")));
    }

    let rest = &auth.rest;
    if rest.len() < 18 {
        return Err(DomainError::Invalid(string_of("attested credential data truncated")));
    }
    let cred_id_len: usize = (rest[16] as usize) * 256 + (rest[17] as usize);
    let cred_id_end: usize = 18 + cred_id_len;
    if rest.len() < cred_id_end {
        return Err(DomainError::Invalid(string_of("credential id truncated")));
    }
    let aaguid = copy_range(rest.as_slice(), 0, 16);
    let cred_id = copy_range(rest.as_slice(), 18, cred_id_end);
    let cose_bytes = copy_range(rest.as_slice(), cred_id_end, rest.len());
    assert(aaguid@ =~= rest@.take(16));
    assert(cose_bytes@ =~= rest@.skip(cred_id_end as int));

    let public_key_sec1 = cose_ec2_to_sec1(cose_bytes.as_slice())?;

    Ok(RegistrationResult {
        credential_id: b64url_encode(cred_id.as_slice()),
        public_key_sec1: b64url_encode(public_key_sec1.as_slice()),
        sign_count: auth.sign_count,
        aaguid: hex_encode(aaguid.as_slice()),
    })
}

/// The outcome of an assertion check: rejected as invalid input with a
/// message, refused because the signature does not verify, or accepted with
/// the sign count to persist.
pub enum AssertionVerdict {
    Reject(Seq<char>),
    BadSignature,
    Accept(u32),
}

/// The assertion checks, in order: client data (type `webauthn.get`), the
/// authenticator data (user present, RP-ID hash), the sign count (a count that
/// does not increase is rejected as a possible clone, unless either count is
/// 0), then the encodings of the stored key and the signature.
pub open spec fn assertion_verdict(
    authenticator_data_b64: Seq<char>,
    client_data_json_b64: Seq<char>,
    signature_b64: Seq<char>,
    public_key_sec1_b64: Seq<char>,
    stored_sign_count: u32,
    expected_challenge_b64: Seq<char>,
    rp_id: Seq<char>,
    rp_origin: Seq<char>,
) -> AssertionVerdict {
    match spec_b64url_decode(client_data_json_b64) {
        None => AssertionVerdict::Reject(malformed_b64()),
        Some(cd) => match client_data_verdict(cd, "webauthn.get"@, expected_challenge_b64, rp_origin) {
            Err(m) => AssertionVerdict::Reject(m),
            Ok(_) => match spec_b64url_decode(authenticator_data_b64) {
                None => AssertionVerdict::Reject(malformed_b64()),
                Some(ad) => if ad.len() < 37 {
                    AssertionVerdict::Reject("authenticator data too short"@)
                } else if !user_present(ad[32]) {
                    AssertionVerdict::Reject("user-present flag not set"@)
                } else if ad.take(32) != spec_sha256(vstd::utf8::encode_utf8(rp_id)) {
                    AssertionVerdict::Reject("RP ID hash mismatch"@)
                } else {
                    let count = be_u32(ad[33], ad[34], ad[35], ad[36]);
                    if count != 0 && stored_sign_count != 0 && count <= stored_sign_count {
                        AssertionVerdict::Reject("sign count did not increase (possible cloned key)"@)
                    } else {
                        match spec_b64url_decode(public_key_sec1_b64) {
                            None => AssertionVerdict::Reject(malformed_b64()),
                            Some(pk) => if !spec_sec1_key_valid(pk) {
                                AssertionVerdict::Reject("bad stored public key"@)
                            } else {
                                match spec_b64url_decode(signature_b64) {
                                    None => AssertionVerdict::Reject(malformed_b64()),
                                    Some(sig) => if !spec_der_signature_valid(sig) {
                                        AssertionVerdict::Reject("bad signature encoding"@)
                                    } else if !spec_es256_verify(pk, ad + spec_sha256(cd), sig) {
                                        // Signed message: authenticatorData || SHA-256(clientDataJSON).
                                        AssertionVerdict::BadSignature
                                    } else if count >= stored_sign_count {
                                        AssertionVerdict::Accept(count)
                                    } else {
                                        AssertionVerdict::Accept(stored_sign_count)
                                    },
                                }
                            },
                        }
                    }
                },
            },
        },
    }
}

/// Verify an assertion (`navigator.credentials.get`) response against a stored
/// SEC1 public key. Returns the new sign count to persist.
pub fn verify_assertion(
    authenticator_data_b64: &str,
    client_data_json_b64: &str,
    signature_b64: &str,
    public_key_sec1_b64: &str,
    stored_sign_count: u32,
    expected_challenge_b64: &str,
    rp_id: &str,
    rp_origin: &str,
) -> (r: DomainResult<u32>)
    ensures
        match assertion_verdict(
            authenticator_data_b64@,
            client_data_json_b64@,
            signature_b64@,
            public_key_sec1_b64@,
            stored_sign_count,
            expected_challenge_b64@,
            rp_id@,
            rp_origin@,
        ) {
            AssertionVerdict::Reject(m) => is_invalid(r, m),
            AssertionVerdict::BadSignature => r == Err::<u32, DomainError>(DomainError::Unauthenticated),
            AssertionVerdict::Accept(n) => r == Ok::<u32, DomainError>(n),
        },
{
    let client_data = b64url_decode(client_data_json_b64)?;
    verify_client_data(client_data.as_slice(), "webauthn.get", expected_challenge_b64, rp_origin)?;

    let auth_data = b64url_decode(authenticator_data_b64)?;
    let auth = parse_auth_data(auth_data.as_slice())?;
    if !flag_up(auth.flags) {
        return Err(DomainError::Invalid(string_of("user-present flag not set")));
    }
    if !rp_id_hash_ok(&auth.rp_id_hash, rp_id) {
        return Err(DomainError::Invalid(string_of("RP ID hash mismatch")));
    }

    // Clone detection: reject a sign count that goes backwards, but accept an
    // authenticator that reports a constant 0.
    if auth.sign_count != 0 && stored_sign_count != 0 && auth.sign_count <= stored_sign_count {
        return Err(DomainError::Invalid(string_of("sign count did not increase (possible cloned key)")));
    }

    // Signed message = authenticatorData || SHA-256(clientDataJSON).
    let client_hash = sha256(client_data.as_slice());
    let mut message = copy_range(auth_data.as_slice(), 0, auth_data.len());
    let mut k: usize = 0;
    while k < client_hash.len()
        invariant
            k <= client_hash@.len(),
            message@ == auth_data@ + client_hash@.take(k as int),
        decreases client_hash.len() - k,
    {
        message.push(client_hash[k]);
        k += 1;
        assert(message@ =~= auth_data@ + client_hash@.take(k as int));
    }
    assert(client_hash@.take(client_hash@.len() as int) =~= client_hash@);
    assert(auth_data@.subrange(0, auth_data@.len() as int) =~= auth_data@);

    let sec1 = b64url_decode(public_key_sec1_b64)?;
    if !sec1_key_valid(sec1.as_slice()) {
        return Err(DomainError::Invalid(string_of("bad stored public key")));
    }
    let sig_der = b64url_decode(signature_b64)?;
    if !der_signature_valid(sig_der.as_slice()) {
        return Err(DomainError::Invalid(string_of("bad signature encoding")));
    }
    if !es256_verify(sec1.as_slice(), message.as_slice(), sig_der.as_slice()) {
        return Err(DomainError::Unauthenticated);
    }
    Ok(if auth.sign_count >= stored_sign_count { auth.sign_count } else { stored_sign_count })
}

/// The sign count the authenticator data (base64url) reports, when it is
/// long enough to hold one.
pub open spec fn reported_sign_count(authenticator_data_b64: Seq<char>) -> Option<u32> {
    match spec_b64url_decode(authenticator_data_b64) {
        Some(ad) => if ad.len() >= 37 {
            Some(be_u32(ad[33], ad[34], ad[35], ad[36]))
        } else {
            None
        },
        None => None,
    }
}

/// Clone detection: an accepted assertion never moves the stored sign count
/// backwards; an authenticator that reports a non-zero count is accepted only
/// with a count above a non-zero stored one, and that count is what is stored.
pub proof fn law_sign_count_never_goes_back(
    authenticator_data_b64: Seq<char>,
    client_data_json_b64: Seq<char>,
    signature_b64: Seq<char>,
    public_key_sec1_b64: Seq<char>,
    stored_sign_count: u32,
    expected_challenge_b64: Seq<char>,
    rp_id: Seq<char>,
    rp_origin: Seq<char>,
)
    ensures
        ({
            let v = assertion_verdict(
                authenticator_data_b64,
                client_data_json_b64,
                signature_b64,
                public_key_sec1_b64,
                stored_sign_count,
                expected_challenge_b64,
                rp_id,
                rp_origin,
            );
            &&& v matches AssertionVerdict::Accept(n) ==> n >= stored_sign_count
            &&& v matches AssertionVerdict::Accept(n) ==> (reported_sign_count(authenticator_data_b64)
                matches Some(c) && (c != 0 ==> n == c && (stored_sign_count != 0 ==> c > stored_sign_count)))
        }),
{
}

/// The sign count an authenticator reports is the big-endian number in its
/// four bytes: the first byte counts 2^24, the next 2^16, then 2^8, then 1.
pub proof fn law_sign_count_is_big_endian(a: u8, b: u8, c: u8, d: u8)
    ensures
        be_u32(a, b, c, d) as int == a as int * 16777216 + b as int * 65536 + c as int * 256 + d as int,
{
    let x: int = a as int * 16777216 + b as int * 65536 + c as int * 256 + d as int;
    assert(0 <= x <= 0xffff_ffff);
}

/// The big-endian sign count in bytes 33..37 of authenticator data.
pub open spec fn reported_count(ad: Seq<u8>) -> int {
    ad[33] as int * 16777216 + ad[34] as int * 65536 + ad[35] as int * 256 + ad[36] as int
}

/// Sign-count clone detection reads the count the authenticator reports (its
/// bytes 33..37, big-endian): an accepted assertion yields the larger of that
/// count and the stored one, and the clone refusal comes only when both
/// counts are non-zero and the reported one did not grow.
pub proof fn law_assertion_sign_count(
    authenticator_data_b64: Seq<char>,
    client_data_json_b64: Seq<char>,
    signature_b64: Seq<char>,
    public_key_sec1_b64: Seq<char>,
    stored_sign_count: u32,
    expected_challenge_b64: Seq<char>,
    rp_id: Seq<char>,
    rp_origin: Seq<char>,
)
    ensures
        ({
            let v = assertion_verdict(
                authenticator_data_b64,
                client_data_json_b64,
                signature_b64,
                public_key_sec1_b64,
                stored_sign_count,
                expected_challenge_b64,
                rp_id,
                rp_origin,
            );
            let ad = spec_b64url_decode(authenticator_data_b64);
            &&& (v matches AssertionVerdict::Accept(n) ==> (ad matches Some(a) && a.len() >= 37 && n as int
                == if reported_count(a) >= stored_sign_count { reported_count(a) } else { stored_sign_count as int }))
            &&& (v == AssertionVerdict::Reject("sign count did not increase (possible cloned key)"@) ==> (ad matches Some(
                a,
            ) && a.len() >= 37 && reported_count(a) != 0 && stored_sign_count != 0 && reported_count(a)
                <= stored_sign_count))
        }),
{
    reveal_strlit("sign count did not increase (possible cloned key)");
    reveal_strlit("malformed base64url");
    reveal_strlit("bad clientDataJSON");
    reveal_strlit("clientData type mismatch");
    reveal_strlit("challenge mismatch");
    reveal_strlit("origin mismatch");
    reveal_strlit("authenticator data too short");
    reveal_strlit("user-present flag not set");
    reveal_strlit("RP ID hash mismatch");
    reveal_strlit("bad stored public key");
    reveal_strlit("bad signature encoding");
    let clone = "sign count did not increase (possible cloned key)"@;
    assert(clone.len() == 49);
    assert("malformed base64url"@.len() != 49);
    assert("bad clientDataJSON"@.len() != 49);
    assert("clientData type mismatch"@.len() != 49);
    assert("challenge mismatch"@.len() != 49);
    assert("origin mismatch"@.len() != 49);
    assert("authenticator data too short"@.len() != 49);
    assert("user-present flag not set"@.len() != 49);
    assert("RP ID hash mismatch"@.len() != 49);
    assert("bad stored public key"@.len() != 49);
    assert("bad signature encoding"@.len() != 49);
    match spec_b64url_decode(authenticator_data_b64) {
        Some(a) => if a.len() >= 37 {
            law_sign_count_is_big_endian(a[33], a[34], a[35], a[36]);
        },
        None => {},
    }
}

} // verus!
