//! Rows as the SQLite store holds them, and their conversion to the domain
//! entities: flags are stored as integers, statuses and notification kinds as
//! text, credential transports and notification payloads as JSON text.
use vstd::prelude::*;

use vstd::std_specs::convert::FromSpecImpl;

use crate::model::{
    Credential, GroupVersion, Millis, Notification, NotificationKind, OkrDone, OkrVersion, User,
    UserStatus,
};
use crate::text::str_eq;

verus! {

/// The strings of a JSON array of strings, as `serde_json::from_str::<Vec<String>>`
/// reads them (`None` when the text is not such an array).
pub uninterp spec fn spec_json_string_list(text: Seq<char>) -> Option<Seq<Seq<char>>>;

/// `serde_json::from_str::<Vec<String>>`.
#[verifier::external_body]
fn json_string_list(text: &str) -> (r: Option<Vec<String>>)
    ensures
        match r {
            Some(v) => spec_json_string_list(text@) == Some(v@.map_values(|s: String| s@)),
            None => spec_json_string_list(text@) is None,
        },
{
    serde_json::from_str::<Vec<String>>(text).ok()
}

/// `serde_json::from_str::<serde_json::Value>`, or `Value::Null` when the text
/// is not JSON. The value is carried through unread.
#[verifier::external_body]
fn json_value_or_null(text: &str) -> serde_json::Value {
    match serde_json::from_str(text) {
        Ok(v) => v,
        Err(_) => serde_json::Value::Null,
    }
}

/// A `users` row.
pub struct UserRow {
    pub id: String,
    pub name: String,
    pub short_name: String,
    pub webauthn_handle: String,
    pub is_admin: i64,
    pub status: String,
    pub created_at: i64,
}

/// The status a `status` column holds: `"deleted"`, else active.
pub open spec fn status_of_text(t: Seq<char>) -> UserStatus {
    if t == "deleted"@ {
        UserStatus::Deleted
    } else {
        UserStatus::Active
    }
}

impl From<UserRow> for User {
    fn from(r: UserRow) -> (u: User) {
        let status = if str_eq(r.status.as_str(), "deleted") {
            UserStatus::Deleted
        } else {
            UserStatus::Active
        };
        User {
            id: r.id,
            name: r.name,
            short_name: r.short_name,
            webauthn_handle: r.webauthn_handle,
            is_admin: r.is_admin != 0,
            status,
            created_at: r.created_at,
        }
    }
}

impl FromSpecImpl<UserRow> for User {
    open spec fn obeys_from_spec() -> bool {
        true
    }

    open spec fn from_spec(r: UserRow) -> User {
        User {
            id: r.id,
            name: r.name,
            short_name: r.short_name,
            webauthn_handle: r.webauthn_handle,
            is_admin: r.is_admin != 0,
            status: status_of_text(r.status@),
            created_at: r.created_at,
        }
    }
}

/// The text a `status` column stores for a status.
pub fn status_text(s: UserStatus) -> (r: &'static str)
    ensures
        r@ == (match s {
            UserStatus::Deleted => "deleted"@,
            UserStatus::Active => "active"@,
        }),
        status_of_text(r@) == s,
{
    proof {
        reveal_strlit("active");
        reveal_strlit("deleted");
        assert("active"@[0] != "deleted"@[0]);
    }
    match s {
        UserStatus::Deleted => "deleted",
        UserStatus::Active => "active",
    }
}

/// A `credentials` row.
pub struct CredRow {
    pub id: String,
    pub user_id: String,
    pub webauthn_credential_id: String,
    pub public_key: String,
    pub sign_count: i64,
    pub aaguid: String,
    pub transports: String,
    pub created_at: i64,
}

/// A credential read from its row: the columns as they are, the sign count
/// truncated to 32 bits, the transports decoded (none when the column is not
/// a JSON array of strings).
pub open spec fn credential_of_row(r: CredRow, c: Credential) -> bool {
    &&& c.id == r.id
    &&& c.user_id == r.user_id
    &&& c.webauthn_credential_id == r.webauthn_credential_id
    &&& c.public_key == r.public_key
    &&& c.sign_count == r.sign_count as u32
    &&& c.aaguid == r.aaguid
    &&& c.created_at == r.created_at
    &&& match spec_json_string_list(r.transports@) {
        Some(ts) => c.transports@.map_values(|s: String| s@) == ts,
        None => c.transports@.len() == 0,
    }
}

/// Read a credential from its row.
pub fn credential_from_row(r: CredRow) -> (c: Credential)
    ensures
        credential_of_row(r, c),
{
    let ghost row = r;
    let transports = match json_string_list(r.transports.as_str()) {
        Some(v) => v,
        None => Vec::new(),
    };
    Credential {
        id: r.id,
        user_id: r.user_id,
        webauthn_credential_id: r.webauthn_credential_id,
        public_key: r.public_key,
        sign_count: #[verifier::truncate] (r.sign_count as u32),
        aaguid: r.aaguid,
        transports,
        created_at: r.created_at,
    }
}

/// A `group_versions` row.
pub struct GvRow {
    pub group_id: String,
    pub version: i64,
    pub name: String,
    pub description_md: String,
    pub valid: i64,
    pub author_id: String,
    pub created_at: i64,
}

impl From<GvRow> for GroupVersion {
    fn from(r: GvRow) -> (v: GroupVersion) {
        GroupVersion {
            group_id: r.group_id,
            version: r.version as u64,
            name: r.name,
            description_md: r.description_md,
            valid: r.valid != 0,
            author_id: r.author_id,
            created_at: r.created_at,
        }
    }
}

impl FromSpecImpl<GvRow> for GroupVersion {
    open spec fn obeys_from_spec() -> bool {
        true
    }

    open spec fn from_spec(r: GvRow) -> GroupVersion {
        GroupVersion {
            group_id: r.group_id,
            version: r.version as u64,
            name: r.name,
            description_md: r.description_md,
            valid: r.valid != 0,
            author_id: r.author_id,
            created_at: r.created_at,
        }
    }
}

/// An `okr_versions` row.
pub struct OvRow {
    pub okr_id: String,
    pub version: i64,
    pub objective_md: String,
    pub key_results_md: String,
    pub valid: i64,
    pub author_id: String,
    pub created_at: i64,
}

impl From<OvRow> for OkrVersion {
    fn from(r: OvRow) -> (v: OkrVersion) {
        OkrVersion {
            okr_id: r.okr_id,
            version: r.version as u64,
            objective_md: r.objective_md,
            key_results_md: r.key_results_md,
            valid: r.valid != 0,
            author_id: r.author_id,
            created_at: r.created_at,
        }
    }
}

impl FromSpecImpl<OvRow> for OkrVersion {
    open spec fn obeys_from_spec() -> bool {
        true
    }

    open spec fn from_spec(r: OvRow) -> OkrVersion {
        OkrVersion {
            okr_id: r.okr_id,
            version: r.version as u64,
            objective_md: r.objective_md,
            key_results_md: r.key_results_md,
            valid: r.valid != 0,
            author_id: r.author_id,
            created_at: r.created_at,
        }
    }
}

/// An `okr_done` row.
pub struct OdRow {
    pub okr_id: String,
    pub version: i64,
    pub done: i64,
    pub set_by: String,
    pub set_at: i64,
}

impl From<OdRow> for OkrDone {
    fn from(r: OdRow) -> (d: OkrDone) {
        OkrDone {
            okr_id: r.okr_id,
            version: r.version as u64,
            done: r.done != 0,
            set_by: r.set_by,
            set_at: r.set_at,
        }
    }
}

impl FromSpecImpl<OdRow> for OkrDone {
    open spec fn obeys_from_spec() -> bool {
        true
    }

    open spec fn from_spec(r: OdRow) -> OkrDone {
        OkrDone {
            okr_id: r.okr_id,
            version: r.version as u64,
            done: r.done != 0,
            set_by: r.set_by,
            set_at: r.set_at,
        }
    }
}

/// The kind a `kind` column holds: `"okr_assigned"`, `"okr_changed"`, else an
/// update was posted.
pub open spec fn kind_of_text(t: Seq<char>) -> NotificationKind {
    if t == "okr_assigned"@ {
        NotificationKind::OkrAssigned
    } else if t == "okr_changed"@ {
        NotificationKind::OkrChanged
    } else {
        NotificationKind::UpdatePosted
    }
}

/// Read a notification kind from its column text.
pub fn kind_from_text(t: &str) -> (r: NotificationKind)
    ensures
        r == kind_of_text(t@),
{
    if str_eq(t, "okr_assigned") {
        NotificationKind::OkrAssigned
    } else if str_eq(t, "okr_changed") {
        NotificationKind::OkrChanged
    } else {
        NotificationKind::UpdatePosted
    }
}

/// The text a `kind` column stores for a notification kind.
pub fn kind_text(kind: NotificationKind) -> (r: &'static str)
    ensures
        r@ == (match kind {
            NotificationKind::OkrAssigned => "okr_assigned"@,
            NotificationKind::OkrChanged => "okr_changed"@,
            NotificationKind::UpdatePosted => "update_posted"@,
        }),
        kind_of_text(r@) == kind,
{
    proof {
        reveal_strlit("okr_assigned");
        reveal_strlit("okr_changed");
        reveal_strlit("update_posted");
        assert("okr_assigned"@[4] != "okr_changed"@[4]);
        assert("update_posted"@[0] != "okr_changed"@[0]);
        assert("update_posted"@[0] != "okr_assigned"@[0]);
    }
    match kind {
        NotificationKind::OkrAssigned => "okr_assigned",
        NotificationKind::OkrChanged => "okr_changed",
        NotificationKind::UpdatePosted => "update_posted",
    }
}

/// A `notifications` row.
pub struct NotifRow {
    pub id: String,
    pub user_id: String,
    pub kind: String,
    pub payload: String,
    pub created_at: i64,
    pub read_at: Option<i64>,
}

/// Read a notification from its row; a payload that is not JSON reads as
/// `null`.
pub fn notification_from_row(r: NotifRow) -> (n: Notification)
    ensures
        n.id == r.id,
        n.user_id == r.user_id,
        n.kind == kind_of_text(r.kind@),
        n.created_at == r.created_at,
        n.read_at == r.read_at,
{
    let kind = kind_from_text(r.kind.as_str());
    let payload = json_value_or_null(r.payload.as_str());
    Notification { id: r.id, user_id: r.user_id, kind, payload, created_at: r.created_at, read_at: r.read_at }
}

} // verus!
