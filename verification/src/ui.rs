//! The decisions of the web client: how it labels assignees, toggles an
//! assignment, groups OKRs, guards its forms, addresses and reads API answers, and words failed
//! passkey ceremonies.
use vstd::prelude::*;

use crate::fmt::{push_i64, signed_decimal};
use crate::requests::Method;
use crate::text::{chars_of, push_str, str_eq, string_of, trim, trim_bounds};

verus! {

/// What the client knows of a user from the user list: the `id` and
/// `shortName` fields, each absent when the listing lacks it.
pub struct DirectoryEntry {
    pub id: Option<String>,
    pub short_name: Option<String>,
}

/// The first entry whose id is `uid`.
pub open spec fn first_entry_of(users: Seq<DirectoryEntry>, uid: Seq<char>) -> Option<int>
    decreases users.len(),
{
    if users.len() == 0 {
        None
    } else if users[0].id matches Some(i) && i@ == uid {
        Some(0)
    } else {
        match first_entry_of(users.drop_first(), uid) {
            Some(k) => Some(k + 1),
            None => None,
        }
    }
}

/// How an assignee is shown: the short name of the first listed user with
/// that id, or `?` when there is none (or it has no short name).
pub open spec fn assignee_name(users: Seq<DirectoryEntry>, uid: Seq<char>) -> Seq<char> {
    match first_entry_of(users, uid) {
        Some(k) => match users[k].short_name {
            Some(s) => s@,
            None => "?"@,
        },
        None => "?"@,
    }
}

/// `parts` joined with `sep`.
pub open spec fn joined(parts: Seq<Seq<char>>, sep: Seq<char>) -> Seq<char>
    decreases parts.len(),
{
    if parts.len() == 0 {
        Seq::empty()
    } else if parts.len() == 1 {
        parts[0]
    } else {
        joined(parts.drop_last(), sep) + sep + parts.last()
    }
}

/// The assignee line of an OKR card: the names joined with `, `, or
/// `unassigned`.
pub open spec fn assignee_line(assignees: Seq<String>, users: Seq<DirectoryEntry>) -> Seq<char> {
    if assignees.len() == 0 {
        "unassigned"@
    } else {
        joined(assignees.map_values(|a: String| assignee_name(users, a@)), ", "@)
    }
}

fn entry_name(users: &Vec<DirectoryEntry>, uid: &str) -> (r: String)
    ensures
        r@ == assignee_name(users@, uid@),
{
    let mut i: usize = 0;
    assert(users@.skip(0) =~= users@);
    while i < users.len()
        invariant
            i <= users@.len(),
            match first_entry_of(users@, uid@) {
                Some(k) => match first_entry_of(users@.skip(i as int), uid@) {
                    Some(j) => k == j + i,
                    None => false,
                },
                None => first_entry_of(users@.skip(i as int), uid@) is None,
            },
        decreases users.len() - i,
    {
        assert(users@.skip(i as int)[0] == users@[i as int]);
        assert(users@.skip(i as int).drop_first() =~= users@.skip(i + 1));
        let hit = match &users[i].id {
            Some(id) => str_eq(id.as_str(), uid),
            None => false,
        };
        if hit {
            return match &users[i].short_name {
                Some(s) => string_of(s.as_str()),
                None => string_of("?"),
            };
        }
        i += 1;
    }
    string_of("?")
}

/// The assignee line shown on an OKR card.
pub fn assignee_label(assignees: &Vec<String>, users: &Vec<DirectoryEntry>) -> (r: String)
    ensures
        r@ == assignee_line(assignees@, users@),
{
    if assignees.len() == 0 {
        return string_of("unassigned");
    }
    let ghost names = assignees@.map_values(|a: String| assignee_name(users@, a@));
    let mut out = entry_name(users, assignees[0].as_str());
    let mut i: usize = 1;
    assert(names.take(1).drop_last() =~= Seq::<Seq<char>>::empty());
    while i < assignees.len()
        invariant
            1 <= i <= assignees@.len(),
            names == assignees@.map_values(|a: String| assignee_name(users@, a@)),
            out@ == joined(names.take(i as int), ", "@),
        decreases assignees.len() - i,
    {
        let name = entry_name(users, assignees[i].as_str());
        push_str(&mut out, ", ");
        push_str(&mut out, name.as_str());
        i += 1;
        assert(names.take(i as int).drop_last() =~= names.take(i - 1));
        assert(names.take(i as int).last() == names[i - 1]);
    }
    assert(names.take(i as int) =~= names);
    out
}

/// The first position of `uid` among `ids`.
pub open spec fn position_of(ids: Seq<String>, uid: Seq<char>) -> Option<int>
    decreases ids.len(),
{
    if ids.len() == 0 {
        None
    } else if ids[0]@ == uid {
        Some(0)
    } else {
        match position_of(ids.drop_first(), uid) {
            Some(k) => Some(k + 1),
            None => None,
        }
    }
}

/// Toggling a user in the assignee list: an assigned user is removed (its
/// first occurrence), anyone else is appended.
pub open spec fn toggled(ids: Seq<String>, uid: Seq<char>) -> Seq<Seq<char>> {
    let v = ids.map_values(|s: String| s@);
    match position_of(ids, uid) {
        Some(p) => v.remove(p),
        None => v.push(uid),
    }
}

fn position_in(ids: &Vec<String>, uid: &str) -> (r: Option<usize>)
    ensures
        match position_of(ids@, uid@) {
            Some(k) => r == Some(k as usize) && 0 <= k < ids@.len(),
            None => r is None,
        },
{
    let mut i: usize = 0;
    assert(ids@.skip(0) =~= ids@);
    while i < ids.len()
        invariant
            i <= ids@.len(),
            match position_of(ids@, uid@) {
                Some(k) => match position_of(ids@.skip(i as int), uid@) {
                    Some(j) => k == j + i,
                    None => false,
                },
                None => position_of(ids@.skip(i as int), uid@) is None,
            },
        decreases ids.len() - i,
    {
        assert(ids@.skip(i as int)[0] == ids@[i as int]);
        assert(ids@.skip(i as int).drop_first() =~= ids@.skip(i + 1));
        if str_eq(ids[i].as_str(), uid) {
            return Some(i);
        }
        i += 1;
    }
    None
}

/// The assignee list after toggling `uid`.
pub fn toggle_assignee(ids: &Vec<String>, uid: &str) -> (r: Vec<String>)
    ensures
        r@.map_values(|s: String| s@) == toggled(ids@, uid@),
{
    let pos = position_in(ids, uid);
    let mut out: Vec<String> = Vec::new();
    let mut i: usize = 0;
    let ghost v = ids@.map_values(|s: String| s@);
    while i < ids.len()
        invariant
            i <= ids@.len(),
            v == ids@.map_values(|s: String| s@),
            pos matches Some(p) ==> p < ids@.len(),
            out@.map_values(|s: String| s@) == (match pos {
                Some(p) => if i <= p {
                    v.take(i as int)
                } else {
                    v.take(i as int).remove(p as int)
                },
                None => v.take(i as int),
            }),
        decreases ids.len() - i,
    {
        let ghost before = out@;
        let skip = match pos {
            Some(p) => p == i,
            None => false,
        };
        if !skip {
            out.push(string_of(ids[i].as_str()));
            assert(out@.map_values(|s: String| s@) =~= before.map_values(|s: String| s@).push(v[i as int]));
        }
        i += 1;
        proof {
            match pos {
                Some(p) => {
                    if i <= p {
                        assert(v.take(i as int) =~= v.take(i - 1).push(v[i - 1]));
                    } else if i == p + 1 {
                        assert(v.take(i as int).remove(p as int) =~= v.take(i - 1));
                    } else {
                        assert(v.take(i as int).remove(p as int) =~= v.take(i - 1).remove(p as int).push(
                            v[i - 1],
                        ));
                    }
                },
                None => {
                    assert(v.take(i as int) =~= v.take(i - 1).push(v[i - 1]));
                },
            }
        }
    }
    assert(v.take(ids@.len() as int) =~= v);
    match pos {
        Some(_) => {},
        None => {
            let ghost before = out@;
            out.push(string_of(uid));
            assert(out@.map_values(|s: String| s@) =~= before.map_values(|s: String| s@).push(uid@));
        },
    }
    out
}

/// Whether the acting user may contribute to an OKR: it is one of its
/// assignees.
pub fn can_contribute(assignees: &Vec<String>, me: &str) -> (r: bool)
    ensures
        r == (position_of(assignees@, me@) is Some),
{
    position_in(assignees, me).is_some()
}

/// The positions of the OKRs (by their `groupId`, absent when missing) that
/// belong to the group `group_id`, in order.
pub open spec fn in_group(okr_groups: Seq<Option<String>>, group_id: Seq<char>) -> Seq<int>
    decreases okr_groups.len(),
{
    if okr_groups.len() == 0 {
        Seq::empty()
    } else {
        let rest = in_group(okr_groups.drop_last(), group_id);
        if okr_groups.last() matches Some(g) && g@ == group_id {
            rest.push(okr_groups.len() - 1)
        } else {
            rest
        }
    }
}

/// The OKRs shown under a group card.
pub fn okrs_in_group(okr_groups: &Vec<Option<String>>, group_id: &str) -> (r: Vec<usize>)
    ensures
        r@.map_values(|p: usize| p as int) == in_group(okr_groups@, group_id@),
{
    let mut out: Vec<usize> = Vec::new();
    let mut i: usize = 0;
    while i < okr_groups.len()
        invariant
            i <= okr_groups@.len(),
            out@.map_values(|p: usize| p as int) == in_group(okr_groups@.take(i as int), group_id@),
        decreases okr_groups.len() - i,
    {
        assert(okr_groups@.take(i + 1).drop_last() =~= okr_groups@.take(i as int));
        let hit = match &okr_groups[i] {
            Some(g) => str_eq(g.as_str(), group_id),
            None => false,
        };
        if hit {
            let ghost before = out@;
            out.push(i);
            assert(out@.map_values(|p: usize| p as int) =~= before.map_values(|p: usize| p as int).push(
                i as int,
            ));
        }
        i += 1;
    }
    assert(okr_groups@.take(okr_groups@.len() as int) =~= okr_groups@);
    out
}

/// A form field left blank (only white space): the client does not submit
/// it.
pub fn is_blank(text: &str) -> (r: bool)
    ensures
        r == (trim(text@).len() == 0),
{
    let cs = chars_of(text);
    let (a, b) = trim_bounds(&cs);
    a == b
}

/// The request method the API client uses for a method name; unknown names
/// are sent as `GET`.
pub fn request_method(name: &str) -> (r: Method)
    ensures
        r == (if name@ == "POST"@ {
            Method::Post
        } else if name@ == "PATCH"@ {
            Method::Patch
        } else if name@ == "PUT"@ {
            Method::Put
        } else if name@ == "DELETE"@ {
            Method::Delete
        } else {
            Method::Get
        }),
{
    if str_eq(name, "POST") {
        Method::Post
    } else if str_eq(name, "PATCH") {
        Method::Patch
    } else if str_eq(name, "PUT") {
        Method::Put
    } else if str_eq(name, "DELETE") {
        Method::Delete
    } else {
        Method::Get
    }
}

/// An API answer succeeded when its status is in `200..300`.
pub fn api_succeeded(status: u16) -> (r: bool)
    ensures
        r == (200 <= status < 300),
{
    200 <= status && status < 300
}

/// Prefix of every API path.
pub const API_BASE: &'static str = "/api/v1";

/// The URL the client requests for an API path.
pub fn api_url(path: &str) -> (r: String)
    ensures
        r@ == "/api/v1"@ + path@,
{
    let mut s = string_of(API_BASE);
    push_str(&mut s, path);
    s
}

/// The ways a passkey ceremony fails at the server.
#[derive(Debug, Clone, Copy, PartialEq, Eq, Structural)]
pub enum CeremonyFailure {
    /// The bootstrap options request was refused.
    SetupRejected,
    /// The registration code was refused.
    CodeRejected,
    /// The registration was not verified.
    RegistrationFailed,
    /// The login options request failed.
    LoginInitFailed,
    /// The login was not verified.
    LoginFailed,
}

/// The message shown for a failed ceremony step answered with `status`;
/// refused codes and registrations also show the answer's JSON body.
pub open spec fn spec_failure_message(kind: CeremonyFailure, status: u16, body: Seq<char>) -> Seq<char> {
    let code = signed_decimal(status as int);
    match kind {
        CeremonyFailure::SetupRejected => "setup rejected (HTTP "@ + code + ")"@,
        CeremonyFailure::CodeRejected => "code rejected (HTTP "@ + code + "): "@ + body,
        CeremonyFailure::RegistrationFailed => "registration failed (HTTP "@ + code + "): "@ + body,
        CeremonyFailure::LoginInitFailed => "login init failed (HTTP "@ + code + ")"@,
        CeremonyFailure::LoginFailed => "login failed (HTTP "@ + code + ")"@,
    }
}

/// The message of a failed ceremony step.
pub fn failure_message(kind: CeremonyFailure, status: u16, body: &str) -> (r: String)
    ensures
        r@ == spec_failure_message(kind, status, body@),
{
    let mut s = match kind {
        CeremonyFailure::SetupRejected => string_of("setup rejected (HTTP "),
        CeremonyFailure::CodeRejected => string_of("code rejected (HTTP "),
        CeremonyFailure::RegistrationFailed => string_of("registration failed (HTTP "),
        CeremonyFailure::LoginInitFailed => string_of("login init failed (HTTP "),
        CeremonyFailure::LoginFailed => string_of("login failed (HTTP "),
    };
    push_i64(&mut s, status as i64);
    match kind {
        CeremonyFailure::CodeRejected | CeremonyFailure::RegistrationFailed => {
            push_str(&mut s, "): ");
            push_str(&mut s, body);
        },
        _ => push_str(&mut s, ")"),
    }
    s
}

} // verus!
