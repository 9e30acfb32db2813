//! Domain error type, mapped to HTTP status codes by the request layer.
use vstd::prelude::*;

use crate::text::{push_str, string_of};

verus! {

/// The errors of the domain rules.
#[derive(Debug, Clone, PartialEq, Eq)]
pub enum DomainError {
    /// Authentication required / session invalid (HTTP 401).
    Unauthenticated,
    /// Authenticated but not permitted (HTTP 403).
    Forbidden,
    /// Entity not found (HTTP 404).
    NotFound(String),
    /// Input failed validation at the trust boundary (HTTP 400).
    Invalid(String),
    /// State conflict, e.g. reverting to a burned or unknown version (HTTP 409).
    Conflict(String),
    /// Registration code expired, used, or unknown.
    BadRegistrationCode,
    /// The bootstrap path is closed because the system already has users.
    SetupClosed,
    /// Rate limit exceeded (HTTP 429).
    RateLimited,
    /// Unexpected server-side failure. The detail is for logs only.
    Internal(String),
}

pub type DomainResult<T> = Result<T, DomainError>;

/// The human-readable message of an error.
pub open spec fn spec_message(e: DomainError) -> Seq<char> {
    match e {
        DomainError::Unauthenticated => "unauthenticated"@,
        DomainError::Forbidden => "forbidden"@,
        DomainError::NotFound(d) => "not found: "@ + d@,
        DomainError::Invalid(d) => "invalid input: "@ + d@,
        DomainError::Conflict(d) => "conflict: "@ + d@,
        DomainError::BadRegistrationCode => "registration code rejected"@,
        DomainError::SetupClosed => "setup already completed"@,
        DomainError::RateLimited => "rate limited"@,
        DomainError::Internal(_) => "internal error"@,
    }
}

/// The snake-case tag under which the error is serialised (`"error"` field).
pub open spec fn spec_tag(e: DomainError) -> Seq<char> {
    match e {
        DomainError::Unauthenticated => "unauthenticated"@,
        DomainError::Forbidden => "forbidden"@,
        DomainError::NotFound(_) => "not_found"@,
        DomainError::Invalid(_) => "invalid"@,
        DomainError::Conflict(_) => "conflict"@,
        DomainError::BadRegistrationCode => "bad_registration_code"@,
        DomainError::SetupClosed => "setup_closed"@,
        DomainError::RateLimited => "rate_limited"@,
        DomainError::Internal(_) => "internal"@,
    }
}

impl DomainError {
    /// The message shown for this error (its display text).
    pub fn message(&self) -> (r: String)
        ensures
            r@ == spec_message(*self),
    {
        match self {
            DomainError::Unauthenticated => string_of("unauthenticated"),
            DomainError::Forbidden => string_of("forbidden"),
            DomainError::NotFound(d) => {
                let mut s = string_of("not found: ");
                push_str(&mut s, d.as_str());
                s
            },
            DomainError::Invalid(d) => {
                let mut s = string_of("invalid input: ");
                push_str(&mut s, d.as_str());
                s
            },
            DomainError::Conflict(d) => {
                let mut s = string_of("conflict: ");
                push_str(&mut s, d.as_str());
                s
            },
            DomainError::BadRegistrationCode => string_of("registration code rejected"),
            DomainError::SetupClosed => string_of("setup already completed"),
            DomainError::RateLimited => string_of("rate limited"),
            DomainError::Internal(_) => string_of("internal error"),
        }
    }

    /// The serialisation tag of this error.
    pub fn tag(&self) -> (r: &'static str)
        ensures
            r@ == spec_tag(*self),
    {
        match self {
            DomainError::Unauthenticated => "unauthenticated",
            DomainError::Forbidden => "forbidden",
            DomainError::NotFound(_) => "not_found",
            DomainError::Invalid(_) => "invalid",
            DomainError::Conflict(_) => "conflict",
            DomainError::BadRegistrationCode => "bad_registration_code",
            DomainError::SetupClosed => "setup_closed",
            DomainError::RateLimited => "rate_limited",
            DomainError::Internal(_) => "internal",
        }
    }

    /// The detail carried by the error, if any.
    pub fn detail(&self) -> (r: Option<String>)
        ensures
            r == match *self {
                DomainError::NotFound(d) => Some(d),
                DomainError::Invalid(d) => Some(d),
                DomainError::Conflict(d) => Some(d),
                DomainError::Internal(d) => Some(d),
                _ => None::<String>,
            },
    {
        match self {
            DomainError::NotFound(d) => Some(d.clone()),
            DomainError::Invalid(d) => Some(d.clone()),
            DomainError::Conflict(d) => Some(d.clone()),
            DomainError::Internal(d) => Some(d.clone()),
            _ => None,
        }
    }
}

} // verus!
