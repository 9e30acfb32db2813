//! Persisted entities. Field names mirror the storage columns. Times are
//! epoch-milliseconds UTC (`i64`).
use vstd::prelude::*;

verus! {

/// A JSON document, carried through unchanged (a notification's payload).
#[verifier::external_type_specification]
#[verifier::external_body]
pub struct ExJsonValue(serde_json::Value);

/// `serde_json::Value::clone`: the copy is trusted to be a deep copy; nothing
/// about its content is claimed here.
pub assume_specification[ <serde_json::Value as Clone>::clone ](v: &serde_json::Value) -> serde_json::Value;

pub type Millis = i64;

#[derive(Debug, Clone, Copy, PartialEq, Eq, Structural)]
pub enum UserStatus {
    Active,
    Deleted,
}

#[derive(Debug, Clone, PartialEq, Eq)]
pub struct User {
    pub id: String,
    pub name: String,
    /// Auto-generated, unique, immutable handle.
    pub short_name: String,
    /// Stable per-user random WebAuthn handle.
    pub webauthn_handle: String,
    pub is_admin: bool,
    pub status: UserStatus,
    pub created_at: Millis,
}

#[derive(Debug, Clone, PartialEq, Eq)]
pub struct Credential {
    pub id: String,
    pub user_id: String,
    /// Base64url WebAuthn credential id.
    pub webauthn_credential_id: String,
    /// Public key (base64url of the SEC1 point).
    pub public_key: String,
    pub sign_count: u32,
    pub aaguid: String,
    pub transports: Vec<String>,
    pub created_at: Millis,
}

#[derive(Debug, Clone, PartialEq, Eq)]
pub struct RegCode {
    /// Canonical (ungrouped) code string.
    pub code: String,
    pub user_id: String,
    pub created_at: Millis,
    pub expires_at: Millis,
    pub used_at: Option<Millis>,
}

#[derive(Debug, Clone, PartialEq, Eq)]
pub struct Session {
    pub id: String,
    pub user_id: String,
    pub created_at: Millis,
    pub expires_at: Millis,
}

#[derive(Debug, Clone, PartialEq, Eq)]
pub struct Group {
    pub id: String,
    pub human_ref: String,
    pub current_version: u64,
    pub next_version_counter: u64,
    pub created_at: Millis,
}

#[derive(Debug, Clone, PartialEq, Eq)]
pub struct GroupVersion {
    pub group_id: String,
    pub version: u64,
    pub name: String,
    pub description_md: String,
    pub valid: bool,
    pub author_id: String,
    pub created_at: Millis,
}

#[derive(Debug, Clone, PartialEq, Eq)]
pub struct Okr {
    pub id: String,
    pub human_ref: String,
    pub group_id: String,
    pub current_version: u64,
    pub next_version_counter: u64,
    pub created_at: Millis,
}

#[derive(Debug, Clone, PartialEq, Eq)]
pub struct OkrVersion {
    pub okr_id: String,
    pub version: u64,
    pub objective_md: String,
    pub key_results_md: String,
    pub valid: bool,
    pub author_id: String,
    pub created_at: Millis,
}

#[derive(Debug, Clone, PartialEq, Eq)]
pub struct OkrDone {
    pub okr_id: String,
    pub version: u64,
    pub done: bool,
    pub set_by: String,
    pub set_at: Millis,
}

#[derive(Debug, Clone, PartialEq, Eq)]
pub struct Update {
    pub id: String,
    pub okr_id: String,
    /// OKR version current when the update was posted.
    pub version: u64,
    pub author_id: String,
    pub body_md: String,
    pub created_at: Millis,
    pub edited_at: Option<Millis>,
}

#[derive(Debug, Clone, Copy, PartialEq, Eq)]
pub enum NotificationKind {
    OkrAssigned,
    OkrChanged,
    UpdatePosted,
}

#[derive(Debug, Clone, PartialEq, Eq)]
pub struct Notification {
    pub id: String,
    pub user_id: String,
    pub kind: NotificationKind,
    /// Minimal JSON payload (human ref + event type).
    pub payload: serde_json::Value,
    pub created_at: Millis,
    pub read_at: Option<Millis>,
}

#[derive(Debug, Clone, PartialEq, Eq)]
pub struct PushSubscription {
    pub id: String,
    pub user_id: String,
    pub endpoint: String,
    pub p256dh: String,
    pub auth: String,
    pub created_at: Millis,
}

/// The authenticated principal derived from a validated session. It is built
/// from server-side state only, never from client-supplied claims.
#[derive(Debug, Clone, PartialEq, Eq)]
pub struct Actor {
    pub user_id: String,
    pub is_admin: bool,
}

} // verus!
