//! Registration-code and setup-secret verification.
//!
//! Comparisons are constant-time (`subtle`) so that the match position does not
//! leak through timing. Codes are single-use and expire 24h after creation.
use vstd::prelude::*;

use subtle::ConstantTimeEq;

use crate::error::{DomainError, DomainResult};
use crate::ids::{law_normalise_idempotent, normalise_code, normalised};
use crate::model::{Millis, RegCode};

verus! {

broadcast use vstd::utf8::group_utf8_lib;

/// Registration codes expire 24h after creation.
pub const REG_CODE_TTL_MS: Millis = 24 * 60 * 60 * 1000;

/// Sessions live one week.
pub const SESSION_TTL_MS: Millis = 7 * 24 * 60 * 60 * 1000;

/// `<[u8] as subtle::ConstantTimeEq>::ct_eq`, read as a `bool`: true exactly
/// when the two byte slices are equal (the crate returns false for slices of
/// different lengths and otherwise compares every byte).
#[verifier::external_body]
fn bytes_ct_eq(a: &[u8], b: &[u8]) -> (r: bool)
    ensures
        r == (a@ == b@),
{
    bool::from(a.ct_eq(b))
}

/// Constant-time string equality (on the UTF-8 bytes).
pub fn ct_eq(a: &str, b: &str) -> (r: bool)
    ensures
        r == (a@ == b@),
{
    let ab = a.as_bytes();
    let bb = b.as_bytes();
    // Length is not secret; comparing it first keeps the byte comparison
    // itself constant-time.
    if ab.len() != bb.len() {
        proof {
            if a@ == b@ {
                assert(ab@ == bb@);
            }
        }
        return false;
    }
    let r = bytes_ct_eq(ab, bb);
    proof {
        vstd::utf8::encode_utf8_decode_utf8(a@);
        vstd::utf8::encode_utf8_decode_utf8(b@);
    }
    r
}

/// Verify a candidate setup secret against the configured value. An empty
/// configured secret never matches.
pub fn verify_setup_secret(provided: &str, expected: &str) -> (r: DomainResult<()>)
    ensures
        r is Ok <==> (expected@.len() > 0 && provided@ == expected@),
        r is Err ==> r == Err::<(), DomainError>(DomainError::Forbidden),
{
    if expected.is_empty() {
        return Err(DomainError::Forbidden);
    }
    if ct_eq(provided, expected) {
        Ok(())
    } else {
        Err(DomainError::Forbidden)
    }
}

/// When a stored registration code accepts the entered text at `now`: the
/// normalised entry matches, the code is unused, and it has not expired.
pub open spec fn code_accepts(stored: RegCode, entered: Seq<char>, now: Millis) -> bool {
    &&& normalised(entered) == stored.code@
    &&& stored.used_at is None
    &&& now < stored.expires_at
}

/// Validate a user-entered registration code against a stored `RegCode`.
/// Checks, in order: code match (constant-time), single use, expiry.
pub fn validate_reg_code(stored: &RegCode, entered: &str, now: Millis) -> (r: DomainResult<()>)
    ensures
        r is Ok <==> code_accepts(*stored, entered@, now),
        r is Err ==> r == Err::<(), DomainError>(DomainError::BadRegistrationCode),
{
    let candidate = normalise_code(entered);
    if !ct_eq(candidate.as_str(), stored.code.as_str()) {
        return Err(DomainError::BadRegistrationCode);
    }
    if stored.used_at.is_some() {
        return Err(DomainError::BadRegistrationCode);
    }
    if now >= stored.expires_at {
        return Err(DomainError::BadRegistrationCode);
    }
    Ok(())
}

/// A code is accepted before its expiry and rejected from the expiry instant
/// on, whatever is entered.
pub proof fn law_code_expiry(stored: RegCode, entered: Seq<char>, now: Millis)
    requires
        now >= stored.expires_at,
    ensures
        !code_accepts(stored, entered, now),
{
}

/// A used code is never accepted again.
pub proof fn law_code_single_use(stored: RegCode, entered: Seq<char>, now: Millis)
    requires
        stored.used_at is Some,
    ensures
        !code_accepts(stored, entered, now),
{
}

/// An issued code (stored in the normalised form of what was shown) is
/// accepted until it expires, whether typed back as shown or already in
/// canonical form.
pub proof fn law_issued_code_accepted(stored: RegCode, shown: Seq<char>, now: Millis)
    requires
        stored.code@ == normalised(shown),
        stored.used_at is None,
        now < stored.expires_at,
    ensures
        code_accepts(stored, shown, now),
        code_accepts(stored, normalised(shown), now),
{
    law_normalise_idempotent(shown);
}

} // verus!
