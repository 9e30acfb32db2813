//! The decisions of the request handlers. Each handler of the API alternates
//! storage reads and writes with rules; the rules are here, as functions from
//! what was read (and the request) to what is to be written or answered.
use vstd::prelude::*;

use crate::authz::{allows, listed, permits, require, Capability};
use crate::code::{verify_setup_secret, REG_CODE_TTL_MS, SESSION_TTL_MS};
use crate::done::{law_no_record_not_done, spec_effective_done};
use crate::error::{DomainError, DomainResult};
use crate::ids::{display_name_result, new_uuid, normalise_code, normalised, validate_display_name};
use crate::markdown::MAX_MARKDOWN_LEN;
use crate::model::{
    Actor, Credential, Group, GroupVersion, Millis, Notification, NotificationKind, Okr, OkrDone, OkrVersion,
    PushSubscription, RegCode, Session, Update, User, UserStatus,
};
use crate::config::Config;
use crate::fmt::decimal;
use crate::json::{char_seq_lt, json_member, json_object, lemma_members_unfold, spec_json_quote, JsonScalar};
use crate::webauthn::{json_str_field, spec_json_str_field, RegistrationResult};
use crate::text::{chars_of, push_str, str_eq, string_of, trim, trim_bounds};
use crate::sorted::set_of;
use crate::versioning::{revert_refusal, VersionState, VersionView};

verus! {

/// Lifetime of a WebAuthn challenge (5 minutes).
pub const CHALLENGE_TTL_MS: Millis = 5 * 60 * 1000;

/// Window of the auth/registration rate limit (1 minute).
pub const RL_WINDOW_MS: Millis = 60 * 1000;

/// Hits allowed per window on the auth/registration endpoints.
pub const RL_MAX_HITS: u32 = 30;

// ---------------------------------------------------------------------------
// Sessions and actors
// ---------------------------------------------------------------------------

/// What a session found by the session cookie allows.
#[derive(Debug, Clone, Copy, PartialEq, Eq, Structural)]
pub enum SessionVerdict {
    /// No such session: unauthenticated.
    Missing,
    /// Expired: delete it; unauthenticated.
    Expired,
    /// Live: look its user up.
    Live,
}

/// The fate of a request's session at `now`: none, expired (at or after its
/// expiry instant), or live.
pub fn session_verdict(session: &Option<Session>, now: Millis) -> (r: SessionVerdict)
    ensures
        r == match *session {
            None => SessionVerdict::Missing,
            Some(s) => if s.expires_at <= now {
                SessionVerdict::Expired
            } else {
                SessionVerdict::Live
            },
        },
{
    match session {
        None => SessionVerdict::Missing,
        Some(s) => if s.expires_at <= now {
            SessionVerdict::Expired
        } else {
            SessionVerdict::Live
        },
    }
}

/// What the user of a live session allows.
pub enum UserVerdict {
    /// The user is gone: the session is dead and is deleted.
    Gone,
    /// The user is not active: unauthenticated.
    Inactive,
    /// The actor of the request.
    Acting(Actor),
}

/// The actor of a live session's user: only an active user acts, with the
/// admin flag stored for it (never a client-supplied one).
pub fn user_verdict(user: &Option<User>) -> (r: UserVerdict)
    ensures
        match *user {
            None => r is Gone,
            Some(u) => if u.status != UserStatus::Active {
                r is Inactive
            } else {
                r matches UserVerdict::Acting(a) && a.user_id@ == u.id@ && a.is_admin == u.is_admin
            },
        },
{
    match user {
        None => UserVerdict::Gone,
        Some(u) => {
            if u.status != UserStatus::Active {
                UserVerdict::Inactive
            } else {
                UserVerdict::Acting(Actor { user_id: u.id.clone(), is_admin: u.is_admin })
            }
        },
    }
}

/// An endpoint that needs an actor answers `Unauthenticated` without one.
pub fn require_actor(actor: Option<Actor>) -> (r: DomainResult<Actor>)
    ensures
        match actor {
            Some(a) => r == Ok::<Actor, DomainError>(a),
            None => r == Err::<Actor, DomainError>(DomainError::Unauthenticated),
        },
{
    match actor {
        Some(a) => Ok(a),
        None => Err(DomainError::Unauthenticated),
    }
}

/// The rate limit: more than 30 hits in the window is refused.
pub fn rate_limit_verdict(hits: u32) -> (r: DomainResult<()>)
    ensures
        hits > 30 ==> r == Err::<(), DomainError>(DomainError::RateLimited),
        hits <= 30 ==> r is Ok,
{
    if hits > RL_MAX_HITS {
        Err(DomainError::RateLimited)
    } else {
        Ok(())
    }
}

/// The bootstrap path is open only while no user has ever existed.
pub fn bootstrap_open(user_count: u64) -> (r: DomainResult<()>)
    ensures
        user_count > 0 ==> r == Err::<(), DomainError>(DomainError::SetupClosed),
        user_count == 0 ==> r is Ok,
{
    if user_count > 0 {
        Err(DomainError::SetupClosed)
    } else {
        Ok(())
    }
}

/// A new session for `user_id`, living one week from `now`.
pub fn new_session(id: String, user_id: &str, now: Millis) -> (r: Session)
    requires
        now + SESSION_TTL_MS <= i64::MAX,
    ensures
        r.id == id,
        r.user_id@ == user_id@,
        r.created_at == now,
        r.expires_at == now + SESSION_TTL_MS,
{
    Session { id, user_id: string_of(user_id), created_at: now, expires_at: now + SESSION_TTL_MS }
}

/// A registration code record for a freshly generated (grouped) code: stored
/// in canonical form, expiring 24h after `now`.
pub fn new_reg_code(display: &str, user_id: &str, now: Millis) -> (r: RegCode)
    requires
        now + REG_CODE_TTL_MS <= i64::MAX,
    ensures
        r.code@ == normalised(display@),
        r.user_id@ == user_id@,
        r.created_at == now,
        r.expires_at == now + REG_CODE_TTL_MS,
        r.used_at is None,
{
    RegCode {
        code: normalise_code(display),
        user_id: string_of(user_id),
        created_at: now,
        expires_at: now + REG_CODE_TTL_MS,
        used_at: None,
    }
}

/// A stored WebAuthn challenge.
pub struct ChallengeRow {
    pub id: String,
    pub kind: String,
    pub challenge: String,
    pub user_id: String,
    pub data: String,
    pub expires_at: i64,
}

/// The first challenge row still usable at `now`: not expired, with an id.
pub open spec fn spec_live_challenge(rows: Seq<ChallengeRow>, now: i64) -> Option<int>
    decreases rows.len(),
{
    if rows.len() == 0 {
        None
    } else if rows[0].expires_at > now && rows[0].id@.len() > 0 {
        Some(0)
    } else {
        match spec_live_challenge(rows.drop_first(), now) {
            Some(k) => Some(k + 1),
            None => None,
        }
    }
}

/// Index of the first challenge row still usable at `now` (a challenge is
/// consumed whether or not it is usable).
pub fn live_challenge(rows: &Vec<ChallengeRow>, now: i64) -> (r: Option<usize>)
    ensures
        match r {
            Some(i) => spec_live_challenge(rows@, now) == Some(i as int) && i < rows@.len(),
            None => spec_live_challenge(rows@, now) is None,
        },
{
    let mut i: usize = 0;
    assert(rows@.skip(0) =~= rows@);
    while i < rows.len()
        invariant
            i <= rows@.len(),
            spec_live_challenge(rows@, now) == match spec_live_challenge(rows@.skip(i as int), now) {
                Some(k) => Some(k + i),
                None => None,
            },
        decreases rows.len() - i,
    {
        assert(rows@.skip(i as int)[0] == rows@[i as int]);
        assert(rows@.skip(i as int).drop_first() =~= rows@.skip(i + 1));
        if rows[i].expires_at > now && !rows[i].id.as_str().is_empty() {
            return Some(i);
        }
        i += 1;
    }
    None
}

// ---------------------------------------------------------------------------
// Content validation
// ---------------------------------------------------------------------------

/// Markdown source longer than `MAX_MARKDOWN_LEN` bytes is refused.
pub fn validate_md(md: &str) -> (r: DomainResult<String>)
    ensures
        vstd::utf8::encode_utf8(md@).len() > 50_000 ==> (r matches Err(DomainError::Invalid(m))
            && m@ == "markdown too long"@),
        vstd::utf8::encode_utf8(md@).len() <= 50_000 ==> (r matches Ok(s) && s@ == md@),
{
    if md.as_bytes().len() > MAX_MARKDOWN_LEN {
        return Err(DomainError::Invalid(string_of("markdown too long")));
    }
    Ok(string_of(md))
}

/// The body of a progress update: valid Markdown that is not blank.
pub fn validate_update_body(md: &str) -> (r: DomainResult<String>)
    ensures
        vstd::utf8::encode_utf8(md@).len() > 50_000 ==> (r matches Err(DomainError::Invalid(m))
            && m@ == "markdown too long"@),
        vstd::utf8::encode_utf8(md@).len() <= 50_000 && trim(md@).len() == 0 ==> (r matches Err(
            DomainError::Invalid(m),
        ) && m@ == "update body must not be empty"@),
        vstd::utf8::encode_utf8(md@).len() <= 50_000 && trim(md@).len() > 0 ==> (r matches Ok(s)
            && s@ == md@),
{
    let body = validate_md(md)?;
    let cs = chars_of(body.as_str());
    let (a, b) = trim_bounds(&cs);
    if a == b {
        return Err(DomainError::Invalid(string_of("update body must not be empty")));
    }
    Ok(body)
}

// ---------------------------------------------------------------------------
// Versioned entities
// ---------------------------------------------------------------------------

/// The version numbers of the rows still marked valid, in row order.
pub open spec fn valid_group_version_numbers(rows: Seq<GroupVersion>) -> Seq<u64>
    decreases rows.len(),
{
    if rows.len() == 0 {
        Seq::empty()
    } else if rows.last().valid {
        valid_group_version_numbers(rows.drop_last()).push(rows.last().version)
    } else {
        valid_group_version_numbers(rows.drop_last())
    }
}

pub open spec fn valid_okr_version_numbers(rows: Seq<OkrVersion>) -> Seq<u64>
    decreases rows.len(),
{
    if rows.len() == 0 {
        Seq::empty()
    } else if rows.last().valid {
        valid_okr_version_numbers(rows.drop_last()).push(rows.last().version)
    } else {
        valid_okr_version_numbers(rows.drop_last())
    }
}

/// The numbers of a group's version rows still marked valid, in row order.
pub fn valid_group_versions(rows: &Vec<GroupVersion>) -> (r: Vec<u64>)
    ensures
        r@ == valid_group_version_numbers(rows@),
        forall|v: u64|
            r@.contains(v) <==> exists|i: int|
                0 <= i < rows@.len() && (#[trigger] rows@[i]).valid && rows@[i].version == v,
{
    let mut out: Vec<u64> = Vec::new();
    let mut i: usize = 0;
    while i < rows.len()
        invariant
            i <= rows@.len(),
            out@ == valid_group_version_numbers(rows@.take(i as int)),
        decreases rows.len() - i,
    {
        assert(rows@.take(i + 1).drop_last() =~= rows@.take(i as int));
        if rows[i].valid {
            out.push(rows[i].version);
        }
        i += 1;
    }
    assert(rows@.take(rows@.len() as int) =~= rows@);
    proof {
        assert forall|v: u64| out@.contains(v) <==> exists|i: int|
            0 <= i < rows@.len() && (#[trigger] rows@[i]).valid && rows@[i].version == v by {
            law_valid_group_versions_are_valid_rows(rows@, v);
        }
    }
    out
}

/// The numbers of an OKR's version rows still marked valid, in row order.
pub fn valid_okr_versions(rows: &Vec<OkrVersion>) -> (r: Vec<u64>)
    ensures
        r@ == valid_okr_version_numbers(rows@),
        forall|v: u64|
            r@.contains(v) <==> exists|i: int|
                0 <= i < rows@.len() && (#[trigger] rows@[i]).valid && rows@[i].version == v,
{
    let mut out: Vec<u64> = Vec::new();
    let mut i: usize = 0;
    while i < rows.len()
        invariant
            i <= rows@.len(),
            out@ == valid_okr_version_numbers(rows@.take(i as int)),
        decreases rows.len() - i,
    {
        assert(rows@.take(i + 1).drop_last() =~= rows@.take(i as int));
        if rows[i].valid {
            out.push(rows[i].version);
        }
        i += 1;
    }
    assert(rows@.take(rows@.len() as int) =~= rows@);
    proof {
        assert forall|v: u64| out@.contains(v) <==> exists|i: int|
            0 <= i < rows@.len() && (#[trigger] rows@[i]).valid && rows@[i].version == v by {
            law_valid_okr_versions_are_valid_rows(rows@, v);
        }
    }
    out
}

/// The versioning state of an entity from its persisted columns and the
/// numbers of its valid versions.
pub fn version_state(current: u64, counter: u64, versions: &Vec<u64>) -> (r: VersionState)
    ensures
        r@ == (VersionView { counter, current, valid: versions@.to_set() }),
{
    let set = set_of(versions);
    VersionState { next_version_counter: counter, current_version: current, valid_versions: set }
}

/// Markdown source over the length limit (in UTF-8 bytes).
pub open spec fn md_too_long(md: Seq<char>) -> bool {
    vstd::utf8::encode_utf8(md).len() > 50_000
}

/// A display name that validation accepts.
pub open spec fn name_ok(name: Seq<char>) -> bool {
    let t = trim(name);
    0 < t.len() <= 80 && !crate::ids::has_control(t)
}

/// The versioning state of a group as persisted: its two columns and the
/// numbers of the version rows still marked valid.
pub open spec fn group_view(g: Group, rows: Seq<GroupVersion>) -> VersionView {
    VersionView {
        counter: g.next_version_counter,
        current: g.current_version,
        valid: valid_group_version_numbers(rows).to_set(),
    }
}

/// The versioning state of an OKR as persisted.
pub open spec fn okr_view(o: Okr, rows: Seq<OkrVersion>) -> VersionView {
    VersionView {
        counter: o.next_version_counter,
        current: o.current_version,
        valid: valid_okr_version_numbers(rows).to_set(),
    }
}

/// The outcome of the content checks of a group (name, then description) and
/// what is written when they pass.
pub open spec fn group_content_result(
    name: Seq<char>,
    md: Seq<char>,
    r: DomainResult<(Group, GroupVersion)>,
    g: Group,
    v_version: u64,
    author: Seq<char>,
    now: Millis,
) -> bool {
    if !name_ok(name) {
        r matches Err(e) && display_name_result(name, Err(e))
    } else if md_too_long(md) {
        r matches Err(DomainError::Invalid(m)) && m@ == "markdown too long"@
    } else {
        r matches Ok((g2, v)) && {
            &&& g2 == g
            &&& v.group_id@ == g.id@
            &&& v.version == v_version
            &&& v.name@ == trim(name)
            &&& v.description_md@ == md
            &&& v.valid
            &&& v.author_id@ == author
            &&& v.created_at == now
        }
    }
}

/// A new group version row for `group`, after the content checks.
fn group_version_row(
    group: Group,
    version: u64,
    name: &str,
    description_md: &str,
    author: &String,
    now: Millis,
) -> (r: DomainResult<(Group, GroupVersion)>)
    ensures
        group_content_result(name@, description_md@, r, group, version, author@, now),
{
    let name = match validate_display_name(name) {
        Ok(n) => n,
        Err(e) => return Err(e),
    };
    let desc = match validate_md(description_md) {
        Ok(d) => d,
        Err(e) => return Err(e),
    };
    let v = GroupVersion {
        group_id: group.id.clone(),
        version,
        name,
        description_md: desc,
        valid: true,
        author_id: author.clone(),
        created_at: now,
    };
    Ok((group, v))
}

/// Creating a group (admin only): version 1 of a fresh group with the given
/// id and human reference.
pub fn plan_create_group(
    actor: &Actor,
    name: &str,
    description_md: &str,
    id: String,
    human_ref: String,
    now: Millis,
) -> (r: DomainResult<(Group, GroupVersion)>)
    ensures
        !actor.is_admin ==> r == Err::<(Group, GroupVersion), DomainError>(DomainError::Forbidden),
        actor.is_admin ==> group_content_result(
            name@,
            description_md@,
            r,
            Group { id, human_ref, current_version: 1, next_version_counter: 2, created_at: now },
            1,
            actor.user_id@,
            now,
        ),
{
    if !allows(actor, &Capability::ManageOkrs) {
        return Err(DomainError::Forbidden);
    }
    let outcome = VersionState::create();
    let group = Group {
        id,
        human_ref,
        current_version: outcome.state.current_version,
        next_version_counter: outcome.state.next_version_counter,
        created_at: now,
    };
    group_version_row(group, outcome.new_version, name, description_md, &actor.user_id, now)
}

/// Editing a group (admin only): a new version from the counter becomes
/// current.
pub fn plan_edit_group(
    actor: &Actor,
    group: Option<Group>,
    versions: &Vec<GroupVersion>,
    name: &str,
    description_md: &str,
    now: Millis,
) -> (r: DomainResult<(Group, GroupVersion)>)
    requires
        group matches Some(g) ==> g.next_version_counter < u64::MAX,
    ensures
        !actor.is_admin ==> r == Err::<(Group, GroupVersion), DomainError>(DomainError::Forbidden),
        actor.is_admin && group is None ==> (r matches Err(DomainError::NotFound(m)) && m@
            == "group"@),
        actor.is_admin && group is Some ==> group_content_result(
            name@,
            description_md@,
            r,
            Group {
                current_version: group->0.next_version_counter,
                next_version_counter: (group->0.next_version_counter + 1) as u64,
                ..group->0
            },
            group->0.next_version_counter,
            actor.user_id@,
            now,
        ),
{
    if !allows(actor, &Capability::ManageOkrs) {
        return Err(DomainError::Forbidden);
    }
    let g = match group {
        Some(g) => g,
        None => return Err(DomainError::NotFound(string_of("group"))),
    };
    let valid = valid_group_versions(versions);
    let outcome = version_state(g.current_version, g.next_version_counter, &valid).edit();
    let g2 = Group {
        id: g.id,
        human_ref: g.human_ref,
        current_version: outcome.state.current_version,
        next_version_counter: outcome.state.next_version_counter,
        created_at: g.created_at,
    };
    group_version_row(g2, outcome.new_version, name, description_md, &actor.user_id, now)
}

/// What a permitted revert writes: the entity's new current version and the
/// versions to mark burned, in increasing order.
pub open spec fn revert_result(view: VersionView, n: u64, cur: u64, burned: Seq<u64>) -> bool {
    &&& cur == n
    &&& burned.to_set() == view.burned_by(n)
    &&& crate::sorted::strictly_increasing(burned)
}

/// The outcome of a revert request on an entity whose state is `view`: a
/// permitted revert answers its new current version and burned versions; a
/// refused one a conflict that says why.
pub open spec fn revert_outcome<T>(
    view: VersionView,
    target: u64,
    r: DomainResult<(T, Vec<u64>)>,
    current_of: spec_fn(T) -> u64,
) -> bool {
    &&& r is Ok <==> view.can_revert_to(target)
    &&& (r matches Err(e) ==> (e matches DomainError::Conflict(m) && m@ == revert_refusal(view, target)))
    &&& (r matches Ok((t, b)) ==> revert_result(view, target, current_of(t), b@))
}

/// Reverting a group (admin only) to the valid, non-current version `target`.
pub fn plan_revert_group(actor: &Actor, group: Option<Group>, versions: &Vec<GroupVersion>, target: u64) -> (r:
    DomainResult<(Group, Vec<u64>)>)
    ensures
        !actor.is_admin ==> r == Err::<(Group, Vec<u64>), DomainError>(DomainError::Forbidden),
        actor.is_admin && group is None ==> (r matches Err(DomainError::NotFound(m)) && m@
            == "group"@),
        actor.is_admin && group is Some ==> revert_outcome(
            group_view(group->0, versions@),
            target,
            r,
            |g: Group| g.current_version,
        ),
        r matches Ok((g2, _)) ==> g2 == (Group { current_version: target, ..group->0 }),
{
    if !allows(actor, &Capability::ManageOkrs) {
        return Err(DomainError::Forbidden);
    }
    let g = match group {
        Some(g) => g,
        None => return Err(DomainError::NotFound(string_of("group"))),
    };
    let valid = valid_group_versions(versions);
    let outcome = match version_state(g.current_version, g.next_version_counter, &valid).revert_to(target) {
        Ok(o) => o,
        Err(e) => return Err(e),
    };
    let g2 = Group {
        id: g.id,
        human_ref: g.human_ref,
        current_version: outcome.state.current_version,
        next_version_counter: g.next_version_counter,
        created_at: g.created_at,
    };
    Ok((g2, outcome.burned))
}

/// The outcome of the content checks of an OKR (objective, then key results)
/// and what is written when they pass.
pub open spec fn okr_content_result(
    objective: Seq<char>,
    key_results: Seq<char>,
    r: DomainResult<(Okr, OkrVersion)>,
    o: Okr,
    v_version: u64,
    author: Seq<char>,
    now: Millis,
) -> bool {
    if md_too_long(objective) || md_too_long(key_results) {
        r matches Err(DomainError::Invalid(m)) && m@ == "markdown too long"@
    } else {
        r matches Ok((o2, v)) && {
            &&& o2 == o
            &&& v.okr_id@ == o.id@
            &&& v.version == v_version
            &&& v.objective_md@ == objective
            &&& v.key_results_md@ == key_results
            &&& v.valid
            &&& v.author_id@ == author
            &&& v.created_at == now
        }
    }
}

/// A new OKR version row for `okr`, after the content checks.
fn okr_version_row(
    okr: Okr,
    version: u64,
    objective_md: &str,
    key_results_md: &str,
    author: &String,
    now: Millis,
) -> (r: DomainResult<(Okr, OkrVersion)>)
    ensures
        okr_content_result(objective_md@, key_results_md@, r, okr, version, author@, now),
{
    let objective = match validate_md(objective_md) {
        Ok(d) => d,
        Err(e) => return Err(e),
    };
    let key_results = match validate_md(key_results_md) {
        Ok(d) => d,
        Err(e) => return Err(e),
    };
    let v = OkrVersion {
        okr_id: okr.id.clone(),
        version,
        objective_md: objective,
        key_results_md: key_results,
        valid: true,
        author_id: author.clone(),
        created_at: now,
    };
    Ok((okr, v))
}

/// Creating an OKR in an existing group (admin only): version 1 of a fresh
/// OKR with the given id and human reference.
pub fn plan_create_okr(
    actor: &Actor,
    group_exists: bool,
    group_id: String,
    objective_md: &str,
    key_results_md: &str,
    id: String,
    human_ref: String,
    now: Millis,
) -> (r: DomainResult<(Okr, OkrVersion)>)
    ensures
        !actor.is_admin ==> r == Err::<(Okr, OkrVersion), DomainError>(DomainError::Forbidden),
        actor.is_admin && !group_exists ==> (r matches Err(DomainError::NotFound(m)) && m@
            == "group"@),
        actor.is_admin && group_exists ==> okr_content_result(
            objective_md@,
            key_results_md@,
            r,
            Okr { id, human_ref, group_id, current_version: 1, next_version_counter: 2, created_at: now },
            1,
            actor.user_id@,
            now,
        ),
{
    if !allows(actor, &Capability::ManageOkrs) {
        return Err(DomainError::Forbidden);
    }
    if !group_exists {
        return Err(DomainError::NotFound(string_of("group")));
    }
    let outcome = VersionState::create();
    let okr = Okr {
        id,
        human_ref,
        group_id,
        current_version: outcome.state.current_version,
        next_version_counter: outcome.state.next_version_counter,
        created_at: now,
    };
    okr_version_row(okr, outcome.new_version, objective_md, key_results_md, &actor.user_id, now)
}

/// Editing an OKR (admin only): a new version from the counter becomes
/// current.
pub fn plan_edit_okr(
    actor: &Actor,
    okr: Option<Okr>,
    versions: &Vec<OkrVersion>,
    objective_md: &str,
    key_results_md: &str,
    now: Millis,
) -> (r: DomainResult<(Okr, OkrVersion)>)
    requires
        okr matches Some(o) ==> o.next_version_counter < u64::MAX,
    ensures
        !actor.is_admin ==> r == Err::<(Okr, OkrVersion), DomainError>(DomainError::Forbidden),
        actor.is_admin && okr is None ==> (r matches Err(DomainError::NotFound(m)) && m@ == "okr"@),
        actor.is_admin && okr is Some ==> okr_content_result(
            objective_md@,
            key_results_md@,
            r,
            Okr {
                current_version: okr->0.next_version_counter,
                next_version_counter: (okr->0.next_version_counter + 1) as u64,
                ..okr->0
            },
            okr->0.next_version_counter,
            actor.user_id@,
            now,
        ),
{
    if !allows(actor, &Capability::ManageOkrs) {
        return Err(DomainError::Forbidden);
    }
    let o = match okr {
        Some(o) => o,
        None => return Err(DomainError::NotFound(string_of("okr"))),
    };
    let valid = valid_okr_versions(versions);
    let outcome = version_state(o.current_version, o.next_version_counter, &valid).edit();
    let o2 = Okr {
        id: o.id,
        human_ref: o.human_ref,
        group_id: o.group_id,
        current_version: outcome.state.current_version,
        next_version_counter: outcome.state.next_version_counter,
        created_at: o.created_at,
    };
    okr_version_row(o2, outcome.new_version, objective_md, key_results_md, &actor.user_id, now)
}

/// Reverting an OKR (admin only) to the valid, non-current version `target`.
pub fn plan_revert_okr(actor: &Actor, okr: Option<Okr>, versions: &Vec<OkrVersion>, target: u64) -> (r:
    DomainResult<(Okr, Vec<u64>)>)
    ensures
        !actor.is_admin ==> r == Err::<(Okr, Vec<u64>), DomainError>(DomainError::Forbidden),
        actor.is_admin && okr is None ==> (r matches Err(DomainError::NotFound(m)) && m@ == "okr"@),
        actor.is_admin && okr is Some ==> revert_outcome(
            okr_view(okr->0, versions@),
            target,
            r,
            |o: Okr| o.current_version,
        ),
        r matches Ok((o2, _)) ==> o2 == (Okr { current_version: target, ..okr->0 }),
{
    if !allows(actor, &Capability::ManageOkrs) {
        return Err(DomainError::Forbidden);
    }
    let o = match okr {
        Some(o) => o,
        None => return Err(DomainError::NotFound(string_of("okr"))),
    };
    let valid = valid_okr_versions(versions);
    let outcome = match version_state(o.current_version, o.next_version_counter, &valid).revert_to(target) {
        Ok(out) => out,
        Err(e) => return Err(e),
    };
    let o2 = Okr {
        id: o.id,
        human_ref: o.human_ref,
        group_id: o.group_id,
        current_version: outcome.state.current_version,
        next_version_counter: o.next_version_counter,
        created_at: o.created_at,
    };
    Ok((o2, outcome.burned))
}

// ---------------------------------------------------------------------------
// Contributions: done flags and progress updates
// ---------------------------------------------------------------------------

/// Setting the done flag of an OKR: only its assignees may, admins included;
/// the flag is recorded against the OKR's current version.
pub fn plan_set_done(
    actor: &Actor,
    okr: Option<Okr>,
    okr_id: &str,
    assignees: Vec<String>,
    done: bool,
    now: Millis,
) -> (r: DomainResult<OkrDone>)
    ensures
        okr is None ==> (r matches Err(DomainError::NotFound(m)) && m@ == "okr"@),
        okr is Some && !listed(assignees@, actor.user_id@) ==> r == Err::<OkrDone, DomainError>(
            DomainError::Forbidden,
        ),
        okr is Some && listed(assignees@, actor.user_id@) ==> (r matches Ok(rec) && {
            &&& rec.okr_id@ == okr_id@
            &&& rec.version == okr->0.current_version
            &&& rec.done == done
            &&& rec.set_by@ == actor.user_id@
            &&& rec.set_at == now
        }),
{
    let o = match okr {
        Some(o) => o,
        None => return Err(DomainError::NotFound(string_of("okr"))),
    };
    if !allows(actor, &Capability::ContributeToOkr { assignees }) {
        return Err(DomainError::Forbidden);
    }
    Ok(OkrDone {
        okr_id: string_of(okr_id),
        version: o.current_version,
        done,
        set_by: actor.user_id.clone(),
        set_at: now,
    })
}

/// Posting a progress update: only the OKR's assignees may, admins included;
/// the body must be valid, non-blank Markdown; the update is recorded
/// against the OKR's current version.
pub fn plan_post_update(
    actor: &Actor,
    okr: Option<Okr>,
    okr_id: &str,
    assignees: Vec<String>,
    body_md: &str,
    id: String,
    now: Millis,
) -> (r: DomainResult<Update>)
    ensures
        okr is None ==> (r matches Err(DomainError::NotFound(m)) && m@ == "okr"@),
        okr is Some && !listed(assignees@, actor.user_id@) ==> r == Err::<Update, DomainError>(
            DomainError::Forbidden,
        ),
        okr is Some && listed(assignees@, actor.user_id@) ==> {
            if md_too_long(body_md@) {
                r matches Err(DomainError::Invalid(m)) && m@ == "markdown too long"@
            } else if trim(body_md@).len() == 0 {
                r matches Err(DomainError::Invalid(m)) && m@ == "update body must not be empty"@
            } else {
                r matches Ok(u) && {
                    &&& u.id == id
                    &&& u.okr_id@ == okr_id@
                    &&& u.version == okr->0.current_version
                    &&& u.author_id@ == actor.user_id@
                    &&& u.body_md@ == body_md@
                    &&& u.created_at == now
                    &&& u.edited_at is None
                }
            }
        },
{
    let o = match okr {
        Some(o) => o,
        None => return Err(DomainError::NotFound(string_of("okr"))),
    };
    if !allows(actor, &Capability::ContributeToOkr { assignees }) {
        return Err(DomainError::Forbidden);
    }
    let body = match validate_update_body(body_md) {
        Ok(b) => b,
        Err(e) => return Err(e),
    };
    Ok(Update {
        id,
        okr_id: string_of(okr_id),
        version: o.current_version,
        author_id: actor.user_id.clone(),
        body_md: body,
        created_at: now,
        edited_at: None,
    })
}

/// Editing an update: its author or an admin may; the new body must be
/// valid Markdown; the edit time is recorded.
pub fn plan_edit_update(actor: &Actor, update: Option<Update>, body_md: &str, now: Millis) -> (r:
    DomainResult<Update>)
    ensures
        update is None ==> (r matches Err(DomainError::NotFound(m)) && m@ == "update"@),
        update is Some && !(actor.is_admin || update->0.author_id@ == actor.user_id@) ==> r
            == Err::<Update, DomainError>(DomainError::Forbidden),
        update is Some && (actor.is_admin || update->0.author_id@ == actor.user_id@) ==> {
            if md_too_long(body_md@) {
                r matches Err(DomainError::Invalid(m)) && m@ == "markdown too long"@
            } else {
                r matches Ok(u) && u.body_md@ == body_md@ && u == (Update {
                    body_md: u.body_md,
                    edited_at: Some(now),
                    ..update->0
                })
            }
        },
{
    let u = match update {
        Some(u) => u,
        None => return Err(DomainError::NotFound(string_of("update"))),
    };
    if !allows(actor, &Capability::ModifyUpdate { author_id: u.author_id.clone() }) {
        return Err(DomainError::Forbidden);
    }
    let body = match validate_md(body_md) {
        Ok(b) => b,
        Err(e) => return Err(e),
    };
    Ok(Update {
        id: u.id,
        okr_id: u.okr_id,
        version: u.version,
        author_id: u.author_id,
        body_md: body,
        created_at: u.created_at,
        edited_at: Some(now),
    })
}

/// Deleting an update: its author or an admin may.
pub fn plan_delete_update(actor: &Actor, update: &Option<Update>) -> (r: DomainResult<()>)
    ensures
        update is None ==> (r matches Err(DomainError::NotFound(m)) && m@ == "update"@),
        update is Some && !(actor.is_admin || update->0.author_id@ == actor.user_id@) ==> r
            == Err::<(), DomainError>(DomainError::Forbidden),
        update is Some && (actor.is_admin || update->0.author_id@ == actor.user_id@) ==> r is Ok,
{
    match update {
        None => Err(DomainError::NotFound(string_of("update"))),
        Some(u) => {
            if allows(actor, &Capability::ModifyUpdate { author_id: u.author_id.clone() }) {
                Ok(())
            } else {
                Err(DomainError::Forbidden)
            }
        },
    }
}

// ---------------------------------------------------------------------------
// Assignment
// ---------------------------------------------------------------------------

/// The views of a list of strings.
pub open spec fn views(s: Seq<String>) -> Seq<Seq<char>> {
    s.map_values(|x: String| x@)
}

/// The requested assignees who were not assigned before, in request order.
pub open spec fn newly_added(requested: Seq<String>, before: Seq<String>) -> Seq<Seq<char>>
    decreases requested.len(),
{
    if requested.len() == 0 {
        Seq::empty()
    } else {
        let rest = newly_added(requested.drop_last(), before);
        if listed(before, requested.last()@) {
            rest
        } else {
            rest.push(requested.last()@)
        }
    }
}

fn is_assigned(ids: &Vec<String>, user: &String) -> (r: bool)
    ensures
        r == listed(ids@, user@),
{
    let mut i: usize = 0;
    while i < ids.len()
        invariant
            i <= ids@.len(),
            forall|k: int| 0 <= k < i ==> (#[trigger] ids@[k])@ != user@,
        decreases ids.len() - i,
    {
        if str_eq(ids[i].as_str(), user.as_str()) {
            return true;
        }
        i += 1;
    }
    false
}

/// Setting the assignees of an OKR (admin only). The answer is the users to
/// notify: the requested assignees who were not assigned before.
pub fn plan_set_assignees(
    actor: &Actor,
    okr_exists: bool,
    requested: &Vec<String>,
    before: &Vec<String>,
) -> (r: DomainResult<Vec<String>>)
    ensures
        !actor.is_admin ==> r == Err::<Vec<String>, DomainError>(DomainError::Forbidden),
        actor.is_admin && !okr_exists ==> (r matches Err(DomainError::NotFound(m)) && m@ == "okr"@),
        actor.is_admin && okr_exists ==> (r matches Ok(added) && views(added@) == newly_added(
            requested@,
            before@,
        )),
{
    if !allows(actor, &Capability::ManageOkrs) {
        return Err(DomainError::Forbidden);
    }
    if !okr_exists {
        return Err(DomainError::NotFound(string_of("okr")));
    }
    let mut added: Vec<String> = Vec::new();
    let mut i: usize = 0;
    while i < requested.len()
        invariant
            i <= requested@.len(),
            views(added@) == newly_added(requested@.take(i as int), before@),
        decreases requested.len() - i,
    {
        assert(requested@.take(i + 1).drop_last() =~= requested@.take(i as int));
        if !is_assigned(before, &requested[i]) {
            let ghost prev = added@;
            added.push(string_of(requested[i].as_str()));
            assert(views(added@) =~= views(prev).push(requested@[i as int]@));
        }
        i += 1;
    }
    assert(requested@.take(requested@.len() as int) =~= requested@);
    Ok(added)
}

// ---------------------------------------------------------------------------
// Users and profiles
// ---------------------------------------------------------------------------

/// Creating a user (admin only): an active account with the trimmed name.
pub fn plan_create_user(
    actor: &Actor,
    name: &str,
    is_admin: bool,
    id: String,
    short_name: String,
    webauthn_handle: String,
    now: Millis,
) -> (r: DomainResult<User>)
    ensures
        !actor.is_admin ==> r == Err::<User, DomainError>(DomainError::Forbidden),
        actor.is_admin && !name_ok(name@) ==> (r matches Err(e) && display_name_result(
            name@,
            Err(e),
        )),
        actor.is_admin && name_ok(name@) ==> (r matches Ok(u) && u.name@ == trim(name@) && u == (User {
            id,
            name: u.name,
            short_name,
            webauthn_handle,
            is_admin,
            status: UserStatus::Active,
            created_at: now,
        })),
{
    if !allows(actor, &Capability::ManageUsers) {
        return Err(DomainError::Forbidden);
    }
    let name = match validate_display_name(name) {
        Ok(n) => n,
        Err(e) => return Err(e),
    };
    Ok(User { id, name, short_name, webauthn_handle, is_admin, status: UserStatus::Active, created_at: now })
}

/// Editing a user (admin only): the name when one is given (validated), the
/// admin flag when one is given. Demoting the last admin is allowed.
pub fn plan_patch_user(actor: &Actor, user: Option<User>, name: Option<&str>, is_admin: Option<bool>) -> (r:
    DomainResult<User>)
    ensures
        !actor.is_admin ==> r == Err::<User, DomainError>(DomainError::Forbidden),
        actor.is_admin && user is None ==> (r matches Err(DomainError::NotFound(m)) && m@ == "user"@),
        actor.is_admin && user is Some && (name matches Some(n) && !name_ok(n@)) ==> (r matches Err(e)
            && display_name_result(name->0@, Err(e))),
        actor.is_admin && user is Some && !(name matches Some(n) && !name_ok(n@)) ==> (r matches Ok(u)
            && u.name@ == (match name {
            Some(n) => trim(n@),
            None => user->0.name@,
        }) && u == (User {
            name: u.name,
            is_admin: match is_admin {
                Some(b) => b,
                None => user->0.is_admin,
            },
            ..user->0
        })),
{
    if !allows(actor, &Capability::ManageUsers) {
        return Err(DomainError::Forbidden);
    }
    let u = match user {
        Some(u) => u,
        None => return Err(DomainError::NotFound(string_of("user"))),
    };
    let new_name = match name {
        Some(n) => match validate_display_name(n) {
            Ok(v) => v,
            Err(e) => return Err(e),
        },
        None => u.name,
    };
    let new_admin = match is_admin {
        Some(b) => b,
        None => u.is_admin,
    };
    Ok(User {
        id: u.id,
        name: new_name,
        short_name: u.short_name,
        webauthn_handle: u.webauthn_handle,
        is_admin: new_admin,
        status: u.status,
        created_at: u.created_at,
    })
}

/// Renaming oneself: the acting user must still exist; the name is
/// validated and stored trimmed.
pub fn plan_patch_me(user: Option<User>, name: &str) -> (r: DomainResult<User>)
    ensures
        user is None ==> r == Err::<User, DomainError>(DomainError::Unauthenticated),
        user is Some && !name_ok(name@) ==> (r matches Err(e) && display_name_result(name@, Err(e))),
        user is Some && name_ok(name@) ==> (r matches Ok(u) && u.name@ == trim(name@) && u == (User {
            name: u.name,
            ..user->0
        })),
{
    let u = match user {
        Some(u) => u,
        None => return Err(DomainError::Unauthenticated),
    };
    let new_name = match validate_display_name(name) {
        Ok(v) => v,
        Err(e) => return Err(e),
    };
    Ok(User {
        id: u.id,
        name: new_name,
        short_name: u.short_name,
        webauthn_handle: u.webauthn_handle,
        is_admin: u.is_admin,
        status: u.status,
        created_at: u.created_at,
    })
}

/// A push subscription of the acting user; one without an endpoint is
/// refused.
pub fn plan_push_subscription(
    actor: &Actor,
    id: String,
    endpoint: &str,
    p256dh: &str,
    auth: &str,
    now: Millis,
) -> (r: DomainResult<PushSubscription>)
    ensures
        endpoint@.len() == 0 ==> (r matches Err(DomainError::Invalid(m)) && m@ == "missing endpoint"@),
        endpoint@.len() > 0 ==> (r matches Ok(s) && {
            &&& s.id == id
            &&& s.user_id@ == actor.user_id@
            &&& s.endpoint@ == endpoint@
            &&& s.p256dh@ == p256dh@
            &&& s.auth@ == auth@
            &&& s.created_at == now
        }),
{
    if endpoint.is_empty() {
        return Err(DomainError::Invalid(string_of("missing endpoint")));
    }
    Ok(PushSubscription {
        id,
        user_id: actor.user_id.clone(),
        endpoint: string_of(endpoint),
        p256dh: string_of(p256dh),
        auth: string_of(auth),
        created_at: now,
    })
}

/// The credential row a successful registration stores for `user_id`.
pub fn new_credential(id: String, user_id: &str, reg: &RegistrationResult, now: Millis) -> (r: Credential)
    ensures
        r.id == id,
        r.user_id@ == user_id@,
        r.webauthn_credential_id@ == reg.credential_id@,
        r.public_key@ == reg.public_key_sec1@,
        r.sign_count == reg.sign_count,
        r.aaguid@ == reg.aaguid@,
        r.transports@.len() == 0,
        r.created_at == now,
{
    Credential {
        id,
        user_id: string_of(user_id),
        webauthn_credential_id: string_of(reg.credential_id.as_str()),
        public_key: string_of(reg.public_key_sec1.as_str()),
        sign_count: reg.sign_count,
        aaguid: string_of(reg.aaguid.as_str()),
        transports: Vec::new(),
        created_at: now,
    }
}

// ---------------------------------------------------------------------------
// Ceremonies
// ---------------------------------------------------------------------------

/// A consumed challenge serves a ceremony only if it was issued for it.
pub fn challenge_for(row: Option<ChallengeRow>, kind: &str, refusal: DomainError) -> (r: DomainResult<
    ChallengeRow,
>)
    ensures
        match row {
            Some(c) => if c.kind@ == kind@ {
                r == Ok::<ChallengeRow, DomainError>(c)
            } else {
                r == Err::<ChallengeRow, DomainError>(refusal)
            },
            None => r == Err::<ChallengeRow, DomainError>(refusal),
        },
{
    match row {
        Some(c) => {
            if str_eq(c.kind.as_str(), kind) {
                Ok(c)
            } else {
                Err(refusal)
            }
        },
        None => Err(refusal),
    }
}

/// Only an active account can log in.
pub fn login_account(user: Option<User>) -> (r: DomainResult<User>)
    ensures
        match user {
            Some(u) => if u.status == UserStatus::Active {
                r == Ok::<User, DomainError>(u)
            } else {
                r == Err::<User, DomainError>(DomainError::Unauthenticated)
            },
            None => r == Err::<User, DomainError>(DomainError::Unauthenticated),
        },
{
    match user {
        Some(u) => {
            if u.status == UserStatus::Active {
                Ok(u)
            } else {
                Err(DomainError::Unauthenticated)
            }
        },
        None => Err(DomainError::Unauthenticated),
    }
}

/// The string field `key` of a JSON text, or the empty text when the text
/// is not JSON or has no such string field.
pub open spec fn json_text_field(json: Seq<char>, key: Seq<char>) -> Seq<char> {
    match spec_json_str_field(vstd::utf8::encode_utf8(json), key) {
        Some(v) => v,
        None => Seq::empty(),
    }
}

/// The string field `key` of the JSON text `json` (empty when absent).
pub fn str_field(json: &str, key: &str) -> (r: String)
    ensures
        r@ == json_text_field(json@, key@),
{
    match json_str_field(json.as_bytes(), key) {
        Some(v) => v,
        None => String::new(),
    }
}

/// The pending data of a bootstrap ceremony: the new admin's WebAuthn handle
/// and short name, as the JSON object `{"handle","is_admin","short_name"}`.
pub open spec fn spec_bootstrap_data(handle_b64: Seq<char>, short_name: Seq<char>) -> Seq<char> {
    seq!['{'] + spec_json_quote("handle"@) + seq![':'] + spec_json_quote(handle_b64) + seq![','] + spec_json_quote(
        "is_admin"@,
    ) + seq![':'] + "true"@ + seq![','] + spec_json_quote("short_name"@) + seq![':'] + spec_json_quote(
        short_name,
    ) + seq!['}']
}

/// The pending data of a bootstrap ceremony, as JSON text.
pub fn bootstrap_data(handle_b64: &str, short_name: &str) -> (r: String)
    ensures
        r@ == spec_bootstrap_data(handle_b64@, short_name@),
{
    let mut es: Vec<(String, JsonScalar)> = Vec::new();
    es.push((string_of("handle"), JsonScalar::Str(string_of(handle_b64))));
    es.push((string_of("is_admin"), JsonScalar::Bool(true)));
    es.push((string_of("short_name"), JsonScalar::Str(string_of(short_name))));
    proof {
        reveal_strlit("handle");
        reveal_strlit("is_admin");
        reveal_strlit("short_name");
        assert(char_seq_lt("handle"@, "is_admin"@));
        assert(char_seq_lt("handle"@, "short_name"@));
        assert(char_seq_lt("is_admin"@, "short_name"@));
        lemma_members_unfold(es@);
        assert(json_member(es@[0]) == spec_json_quote("handle"@) + seq![':'] + spec_json_quote(handle_b64@));
        assert(json_member(es@[1]) == spec_json_quote("is_admin"@) + seq![':'] + "true"@);
        assert(json_member(es@[2]) == spec_json_quote("short_name"@) + seq![':'] + spec_json_quote(short_name@));
    }
    let r = json_object(&es);
    assert(r@ =~= spec_bootstrap_data(handle_b64@, short_name@));
    r
}

/// The pending data of a registration ceremony: the code being redeemed, as
/// the JSON object `{"code"}`.
pub fn registration_data(code: &str) -> (r: String)
    ensures
        r@ == seq!['{'] + spec_json_quote("code"@) + seq![':'] + spec_json_quote(code@) + seq!['}'],
{
    let mut es: Vec<(String, JsonScalar)> = Vec::new();
    es.push((string_of("code"), JsonScalar::Str(string_of(code))));
    proof {
        reveal_strlit("code");
        lemma_members_unfold(es@);
    }
    let r = json_object(&es);
    assert(r@ =~= seq!['{'] + spec_json_quote("code"@) + seq![':'] + spec_json_quote(code@) + seq!['}']);
    r
}

/// The first administrator created by a bootstrap ceremony, from its
/// pending data.
pub fn bootstrap_admin(id: String, pending: &str, now: Millis) -> (r: User)
    ensures
        r.id == id,
        r.name@ == "Administrator"@,
        r.short_name@ == json_text_field(pending@, "short_name"@),
        r.webauthn_handle@ == json_text_field(pending@, "handle"@),
        r.is_admin,
        r.status == UserStatus::Active,
        r.created_at == now,
{
    User {
        id,
        name: string_of("Administrator"),
        short_name: str_field(pending, "short_name"),
        webauthn_handle: str_field(pending, "handle"),
        is_admin: true,
        status: UserStatus::Active,
        created_at: now,
    }
}

/// Whether tickle pushes can be sent: both VAPID keys are configured.
pub fn push_enabled(cfg: &Config) -> (r: bool)
    ensures
        r == (cfg.vapid_private_key@.len() > 0 && cfg.vapid_public_key@.len() > 0),
{
    !cfg.vapid_private_key.as_str().is_empty() && !cfg.vapid_public_key.as_str().is_empty()
}

/// An entity a request needs: a missing one answers `NotFound(what)`.
pub fn found<T>(item: Option<T>, what: &str) -> (r: DomainResult<T>)
    ensures
        match item {
            Some(x) => r == Ok::<T, DomainError>(x),
            None => r matches Err(DomainError::NotFound(m)) && m@ == what@,
        },
{
    match item {
        Some(x) => Ok(x),
        None => Err(DomainError::NotFound(string_of(what))),
    }
}

/// Rust's `%` on integers: the remainder of the division truncated toward
/// zero (it has the sign of `x`).
pub open spec fn trunc_rem(x: int, d: int) -> int {
    if x >= 0 {
        x % d
    } else {
        -((-x) % d)
    }
}

/// The start of the rate-limit window holding `now`: `now` minus its
/// remainder by the window (a window under 1 ms counts as 1 ms).
pub open spec fn window_start(now: int, window_ms: int) -> int {
    let w = if window_ms >= 1 {
        window_ms
    } else {
        1
    };
    now - trunc_rem(now, w)
}

/// The start of the current rate-limit window.
pub fn rate_window_start(now: i64, window_ms: i64) -> (r: i64)
    ensures
        r == window_start(now as int, window_ms as int),
{
    let w: i64 = if window_ms >= 1 {
        window_ms
    } else {
        1
    };
    match now.checked_rem(w) {
        Some(rem) => {
            proof {
                if now >= 0 {
                    vstd::arithmetic::div_mod::lemma_mod_decreases(now as nat, w as nat);
                } else {
                    vstd::arithmetic::div_mod::lemma_mod_decreases((-now) as nat, w as nat);
                }
            }
            now - rem
        },
        None => now,
    }
}

/// Attempts at drawing an unused human reference or short name before
/// giving up.
pub const MAX_ALLOCATION_ATTEMPTS: u32 = 20;

/// The failure answered when no unused `what` was drawn in
/// `MAX_ALLOCATION_ATTEMPTS` attempts.
pub fn allocation_failure(what: &str) -> (r: DomainError)
    ensures
        r matches DomainError::Internal(m) && m@ == what@ + " allocation failed"@,
{
    let mut m = string_of(what);
    push_str(&mut m, " allocation failed");
    DomainError::Internal(m)
}

/// The session cookie set at login: it lives as long as the session.
pub fn login_cookie(session_id: &str) -> (r: String)
    ensures
        r@ == crate::http::spec_session_cookie(session_id@, SESSION_TTL_MS / 1000),
{
    crate::http::set_session_cookie(session_id, SESSION_TTL_MS / 1000)
}

/// When a ceremony challenge issued at `now` expires.
pub fn challenge_expires_at(now: Millis) -> (r: Millis)
    requires
        now + CHALLENGE_TTL_MS <= i64::MAX,
    ensures
        r == now + CHALLENGE_TTL_MS,
{
    now + CHALLENGE_TTL_MS
}

/// What to do with a freshly drawn identifier.
#[derive(Debug, Clone, Copy, PartialEq, Eq, Structural)]
pub enum AllocationStep {
    /// It is unused: take it.
    Use,
    /// It is taken: draw another.
    Retry,
    /// It is taken and the attempts are spent: fail.
    GiveUp,
}

/// The retry rule of identifier allocation, after `attempts` draws (this one
/// included): an unused candidate is taken; a taken one is retried until
/// `MAX_ALLOCATION_ATTEMPTS` draws were made.
pub fn allocation_step(attempts: u32, taken: bool) -> (r: AllocationStep)
    ensures
        !taken ==> r == AllocationStep::Use,
        taken && attempts < 20 ==> r == AllocationStep::Retry,
        taken && attempts >= 20 ==> r == AllocationStep::GiveUp,
{
    if !taken {
        AllocationStep::Use
    } else if attempts < MAX_ALLOCATION_ATTEMPTS {
        AllocationStep::Retry
    } else {
        AllocationStep::GiveUp
    }
}

/// Admission of a bootstrap ceremony: closed for good once any user exists
/// (`SetupClosed`), and refused (`Forbidden`) unless the setup secret sent
/// matches the configured, non-empty one.
pub fn bootstrap_admission(user_count: u64, provided_secret: &str, setup_secret: &str) -> (r:
    DomainResult<()>)
    ensures
        user_count > 0 ==> r == Err::<(), DomainError>(DomainError::SetupClosed),
        user_count == 0 && !(setup_secret@.len() > 0 && provided_secret@ == setup_secret@) ==> r == Err::<
            (),
            DomainError,
        >(DomainError::Forbidden),
        user_count == 0 && setup_secret@.len() > 0 && provided_secret@ == setup_secret@ ==> r is Ok,
{
    bootstrap_open(user_count)?;
    verify_setup_secret(provided_secret, setup_secret)
}

/// A challenge row to store for a ceremony.
pub struct NewChallenge {
    pub id: String,
    pub kind: String,
    pub challenge: String,
    pub user_id: Option<String>,
    pub data: Option<String>,
    pub expires_at: Millis,
}

/// The one challenge a bootstrap ceremony stores: of kind `bootstrap`, with no
/// user, expiring five minutes after `now`, holding the pending administrator
/// (`is_admin: true`, its WebAuthn handle and short name).
pub fn bootstrap_challenge(
    challenge_id: String,
    challenge: String,
    handle_b64: &str,
    short_name: &str,
    now: Millis,
) -> (r: NewChallenge)
    requires
        now + CHALLENGE_TTL_MS <= i64::MAX,
    ensures
        r.id == challenge_id,
        r.kind@ == "bootstrap"@,
        r.challenge == challenge,
        r.user_id is None,
        r.data matches Some(d) && d@ == spec_bootstrap_data(handle_b64@, short_name@),
        r.expires_at == now + 300_000,
{
    NewChallenge {
        id: challenge_id,
        kind: string_of("bootstrap"),
        challenge,
        user_id: None,
        data: Some(bootstrap_data(handle_b64, short_name)),
        expires_at: challenge_expires_at(now),
    }
}

/// One in-app notification per recipient, in order: of `kind`, made at
/// `now`, unread, each with a fresh UUID and a copy of `payload`.
pub fn notifications_for(
    user_ids: &Vec<String>,
    kind: NotificationKind,
    payload: &serde_json::Value,
    now: Millis,
) -> (r: Vec<Notification>)
    ensures
        r@.len() == user_ids@.len(),
        forall|i: int|
            0 <= i < r@.len() ==> {
                &&& (#[trigger] r@[i]).user_id@ == user_ids@[i]@
                &&& r@[i].kind == kind
                &&& r@[i].created_at == now
                &&& r@[i].read_at is None
                &&& r@[i].id@.len() == 36
            },
{
    let mut out: Vec<Notification> = Vec::new();
    let mut i: usize = 0;
    while i < user_ids.len()
        invariant
            i <= user_ids@.len(),
            out@.len() == i,
            forall|k: int|
                0 <= k < i ==> {
                    &&& (#[trigger] out@[k]).user_id@ == user_ids@[k]@
                    &&& out@[k].kind == kind
                    &&& out@[k].created_at == now
                    &&& out@[k].read_at is None
                    &&& out@[k].id@.len() == 36
                },
        decreases user_ids.len() - i,
    {
        let n = Notification {
            id: new_uuid(),
            user_id: string_of(user_ids[i].as_str()),
            kind,
            payload: payload.clone(),
            created_at: now,
            read_at: None,
        };
        out.push(n);
        i += 1;
    }
    out
}

/// An edit leaves the OKR not done: the new current version is the counter
/// `k`, and while the done records only name versions below the counter (each
/// names a version that exists), none of them is for `k`.
pub proof fn law_edited_okr_not_done(records: Seq<OkrDone>, counter: u64)
    requires
        forall|j: int| 0 <= j < records.len() ==> (#[trigger] records[j]).version < counter,
    ensures
        !spec_effective_done(records, counter),
{
    assert forall|j: int| 0 <= j < records.len() implies (#[trigger] records[j]).version != counter by {
    }
    law_no_record_not_done(records, counter);
}

/// A version number is among an OKR's valid versions exactly when some row
/// of that number is still marked valid: a burned row never contributes it.
pub proof fn law_valid_okr_versions_are_valid_rows(rows: Seq<OkrVersion>, v: u64)
    ensures
        valid_okr_version_numbers(rows).contains(v) <==> exists|i: int|
            0 <= i < rows.len() && (#[trigger] rows[i]).valid && rows[i].version == v,
    decreases rows.len(),
{
    if rows.len() > 0 {
        let d = rows.drop_last();
        law_valid_okr_versions_are_valid_rows(d, v);
        let p = valid_okr_version_numbers(d);
        if exists|i: int| 0 <= i < d.len() && (#[trigger] d[i]).valid && d[i].version == v {
            let i = choose|i: int| 0 <= i < d.len() && (#[trigger] d[i]).valid && d[i].version == v;
            assert(rows[i] == d[i]);
            let k = choose|k: int| 0 <= k < p.len() && p[k] == v;
            if rows.last().valid {
                assert(p.push(rows.last().version)[k] == v);
            }
        }
        if valid_okr_version_numbers(rows).contains(v) {
            if rows.last().valid && rows.last().version == v {
                assert(rows[rows.len() - 1].valid);
            } else {
                let q = valid_okr_version_numbers(rows);
                let k = choose|k: int| 0 <= k < q.len() && q[k] == v;
                if rows.last().valid {
                    assert(k < p.len());
                    assert(p[k] == v);
                }
                assert(p.contains(v));
                let i = choose|i: int| 0 <= i < d.len() && (#[trigger] d[i]).valid && d[i].version == v;
                assert(rows[i] == d[i]);
            }
        } else {
            assert forall|i: int| 0 <= i < rows.len() && (#[trigger] rows[i]).valid implies rows[i].version != v by {
                if i < d.len() {
                    assert(rows[i] == d[i]);
                    if rows[i].version == v {
                        let k = choose|k: int| 0 <= k < p.len() && p[k] == v;
                        if rows.last().valid {
                            assert(valid_okr_version_numbers(rows)[k] == v);
                        }
                    }
                } else {
                    if rows[i].version == v {
                        let q = valid_okr_version_numbers(rows);
                        assert(q[q.len() - 1] == v);
                    }
                }
            }
        }
    }
}

/// The same for a group's versions.
pub proof fn law_valid_group_versions_are_valid_rows(rows: Seq<GroupVersion>, v: u64)
    ensures
        valid_group_version_numbers(rows).contains(v) <==> exists|i: int|
            0 <= i < rows.len() && (#[trigger] rows[i]).valid && rows[i].version == v,
    decreases rows.len(),
{
    if rows.len() > 0 {
        let d = rows.drop_last();
        law_valid_group_versions_are_valid_rows(d, v);
        let p = valid_group_version_numbers(d);
        if exists|i: int| 0 <= i < d.len() && (#[trigger] d[i]).valid && d[i].version == v {
            let i = choose|i: int| 0 <= i < d.len() && (#[trigger] d[i]).valid && d[i].version == v;
            assert(rows[i] == d[i]);
            let k = choose|k: int| 0 <= k < p.len() && p[k] == v;
            if rows.last().valid {
                assert(p.push(rows.last().version)[k] == v);
            }
        }
        if valid_group_version_numbers(rows).contains(v) {
            if rows.last().valid && rows.last().version == v {
                assert(rows[rows.len() - 1].valid);
            } else {
                let q = valid_group_version_numbers(rows);
                let k = choose|k: int| 0 <= k < q.len() && q[k] == v;
                if rows.last().valid {
                    assert(k < p.len());
                    assert(p[k] == v);
                }
                assert(p.contains(v));
                let i = choose|i: int| 0 <= i < d.len() && (#[trigger] d[i]).valid && d[i].version == v;
                assert(rows[i] == d[i]);
            }
        } else {
            assert forall|i: int| 0 <= i < rows.len() && (#[trigger] rows[i]).valid implies rows[i].version != v by {
                if i < d.len() {
                    assert(rows[i] == d[i]);
                    if rows[i].version == v {
                        let k = choose|k: int| 0 <= k < p.len() && p[k] == v;
                        if rows.last().valid {
                            assert(valid_group_version_numbers(rows)[k] == v);
                        }
                    }
                } else {
                    if rows[i].version == v {
                        let q = valid_group_version_numbers(rows);
                        assert(q[q.len() - 1] == v);
                    }
                }
            }
        }
    }
}

/// Reverting an OKR to a version none of whose rows is valid (a burned
/// version) is refused with a conflict, and nothing becomes current.
pub proof fn law_revert_okr_to_burned_refused(
    o: Okr,
    rows: Seq<OkrVersion>,
    target: u64,
    r: DomainResult<(Okr, Vec<u64>)>,
)
    requires
        forall|i: int| 0 <= i < rows.len() && (#[trigger] rows[i]).version == target ==> !rows[i].valid,
        revert_outcome(okr_view(o, rows), target, r, |x: Okr| x.current_version),
    ensures
        r matches Err(DomainError::Conflict(m)) && m@ == "cannot revert to version "@ + decimal(target as int)
            + ": not a valid version"@,
{
    law_valid_okr_versions_are_valid_rows(rows, target);
    assert(!valid_okr_version_numbers(rows).to_set().contains(target));
}

/// Reverting a group to a burned version is refused with a conflict.
pub proof fn law_revert_group_to_burned_refused(
    g: Group,
    rows: Seq<GroupVersion>,
    target: u64,
    r: DomainResult<(Group, Vec<u64>)>,
)
    requires
        forall|i: int| 0 <= i < rows.len() && (#[trigger] rows[i]).version == target ==> !rows[i].valid,
        revert_outcome(group_view(g, rows), target, r, |x: Group| x.current_version),
    ensures
        r matches Err(DomainError::Conflict(m)) && m@ == "cannot revert to version "@ + decimal(target as int)
            + ": not a valid version"@,
{
    law_valid_group_versions_are_valid_rows(rows, target);
    assert(!valid_group_version_numbers(rows).to_set().contains(target));
}

} // verus!
