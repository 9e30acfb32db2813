//! Request routing and admission for the `/api/v1` surface.
use vstd::prelude::*;

use crate::error::{DomainError, DomainResult};
use crate::http::{is_same_site, spec_same_site, split_parts};
use crate::text::{chars_of, str_eq, string_from_chars, string_of};

verus! {

/// HTTP request methods.
#[derive(Debug, Clone, Copy, PartialEq, Eq, Structural)]
pub enum Method {
    Get,
    Head,
    Post,
    Put,
    Patch,
    Delete,
    Options,
    Connect,
    Trace,
}

/// Whether a method changes state (anything but `GET` and `HEAD`).
pub open spec fn spec_is_mutation(m: Method) -> bool {
    !(m == Method::Get || m == Method::Head)
}

/// Whether a request with method `m` changes state.
pub fn is_mutation(m: Method) -> (r: bool)
    ensures
        r == spec_is_mutation(m),
{
    !(m == Method::Get || m == Method::Head)
}

/// Largest accepted request body of a mutation, in bytes.
pub const MAX_BODY_LEN: usize = 200_000;

/// Admission of a request before routing: a mutation must pass the CSRF check
/// (else `Forbidden`) and carry a body of at most 200 000 bytes (else
/// `Invalid`). Reads are always admitted.
pub fn check_request(method: Method, same_site: bool, body_len: usize) -> (r: DomainResult<()>)
    ensures
        !spec_is_mutation(method) ==> r is Ok,
        spec_is_mutation(method) && !same_site ==> r == Err::<(), DomainError>(DomainError::Forbidden),
        spec_is_mutation(method) && same_site && body_len > 200_000 ==> (r matches Err(DomainError::Invalid(m)) && m@ == "request body too large"@),
        spec_is_mutation(method) && same_site && body_len <= 200_000 ==> r is Ok,
{
    if !is_mutation(method) {
        return Ok(());
    }
    if !same_site {
        return Err(DomainError::Forbidden);
    }
    if body_len > MAX_BODY_LEN {
        return Err(DomainError::Invalid(string_of("request body too large")));
    }
    Ok(())
}

/// `str::trim_start_matches(p)`: every leading repetition of `p` removed.
pub open spec fn strip_all(s: Seq<char>, p: Seq<char>) -> Seq<char>
    decreases s.len(),
{
    if p.len() > 0 && p.len() <= s.len() && s.take(p.len() as int) == p {
        strip_all(s.skip(p.len() as int), p)
    } else {
        s
    }
}

/// The non-empty pieces of `ps`, in order.
pub open spec fn non_empty(ps: Seq<Seq<char>>) -> Seq<Seq<char>>
    decreases ps.len(),
{
    if ps.len() == 0 {
        ps
    } else if ps.last().len() > 0 {
        non_empty(ps.drop_last()).push(ps.last())
    } else {
        non_empty(ps.drop_last())
    }
}

/// The path segments addressed under `/api/v1/`: leading `/api/v1/` prefixes
/// removed, the rest split at `/`, empty pieces dropped.
pub open spec fn segments(path: Seq<char>) -> Seq<Seq<char>> {
    non_empty(split_parts(strip_all(path, "/api/v1/"@), '/'))
}

fn starts_at(cs: &Vec<char>, i: usize, p: &Vec<char>) -> (r: bool)
    requires
        i <= cs@.len(),
    ensures
        r == (p@.len() <= cs@.len() - i && cs@.skip(i as int).take(p@.len() as int) == p@),
{
    if p.len() > cs.len() - i {
        return false;
    }
    let mut k: usize = 0;
    while k < p.len()
        invariant
            k <= p@.len(),
            i + p@.len() <= cs@.len(),
            cs@.len() == cs.len(),
            forall|j: int| 0 <= j < k ==> cs@[i + j] == p@[j],
        decreases p.len() - k,
    {
        if cs[i + k] != p[k] {
            assert(cs@.skip(i as int).take(p@.len() as int)[k as int] != p@[k as int]);
            return false;
        }
        k += 1;
    }
    assert(cs@.skip(i as int).take(p@.len() as int) =~= p@);
    true
}

/// The path segments of a request path.
pub fn path_segments(path: &str) -> (r: Vec<String>)
    ensures
        r@.map_values(|s: String| s@) == segments(path@),
{
    let cs = chars_of(path);
    let prefix = chars_of("/api/v1/");
    proof {
        reveal_strlit("/api/v1/");
    }
    assert(prefix@.len() == 8);
    let mut start: usize = 0;
    assert(cs@.skip(0) =~= cs@);
    while starts_at(&cs, start, &prefix)
        invariant
            start <= cs@.len(),
            cs@.len() == cs.len(),
            prefix@ == "/api/v1/"@,
            prefix@.len() == 8,
            strip_all(cs@, prefix@) == strip_all(cs@.skip(start as int), prefix@),
        decreases cs@.len() - start,
    {
        assert(cs@.skip(start as int).skip(8) =~= cs@.skip(start + 8));
        start += 8;
    }
    let ghost rest = cs@.skip(start as int);
    assert(strip_all(rest, prefix@) == rest);
    // Split the rest at '/', keeping non-empty pieces.
    let mut out: Vec<String> = Vec::new();
    let mut cur: Vec<char> = Vec::new();
    let mut i = start;
    proof {
        assert(rest.take(0) =~= Seq::<char>::empty());
    }
    while i < cs.len()
        invariant
            start <= i <= cs@.len(),
            rest == cs@.skip(start as int),
            ({
                let ps = split_parts(rest.take(i - start), '/');
                &&& ps.len() >= 1
                &&& out@.map_values(|s: String| s@) == non_empty(ps.drop_last())
                &&& cur@ == ps.last()
            }),
        decreases cs.len() - i,
    {
        let ghost pre = split_parts(rest.take(i - start), '/');
        let c = cs[i];
        assert(rest.take(i + 1 - start).drop_last() =~= rest.take(i - start));
        assert(rest.take(i + 1 - start).last() == c);
        if c == '/' {
            if cur.len() > 0 {
                let piece = string_from_chars(&cur);
                out.push(piece);
            }
            cur = Vec::new();
            i += 1;
            proof {
                let ps = split_parts(rest.take(i - start), '/');
                assert(ps == pre.push(Seq::<char>::empty()));
                assert(ps.drop_last() =~= pre);
                assert(out@.map_values(|s: String| s@) =~= non_empty(pre));
                assert(cur@ =~= ps.last());
            }
        } else {
            cur.push(c);
            i += 1;
            proof {
                let ps = split_parts(rest.take(i - start), '/');
                assert(ps == pre.update(pre.len() - 1, pre.last().push(c)));
                assert(ps.drop_last() =~= pre.drop_last());
                assert(cur@ =~= ps.last());
                crate::http::lemma_split_parts_nonempty(rest.take(i - start), '/');
            }
        }
    }
    assert(rest.take(cs@.len() - start) =~= rest);
    if cur.len() > 0 {
        let piece = string_from_chars(&cur);
        out.push(piece);
    }
    proof {
        let ps = split_parts(rest, '/');
        assert(out@.map_values(|s: String| s@) =~= non_empty(ps));
    }
    out
}

fn seg_is(segs: &Vec<String>, i: usize, lit: &str) -> (r: bool)
    requires
        i < segs@.len(),
    ensures
        r == (segs@[i as int]@ == lit@),
{
    str_eq(segs[i].as_str(), lit)
}

/// The endpoint a request addresses.
#[derive(Debug, Clone, Copy, PartialEq, Eq, Structural)]
pub enum Endpoint {
    BootstrapOptions,
    BootstrapVerify,
    RegisterOptions,
    RegisterVerify,
    LoginOptions,
    LoginVerify,
    Logout,
    Me,
    PatchMe,
    DeleteMyCredential,
    ListUsers,
    CreateUser,
    PatchUser,
    DeleteUser,
    ReissueCode,
    ListGroups,
    CreateGroup,
    EditGroup,
    GroupVersions,
    RevertGroup,
    DeleteGroup,
    ListOkrs,
    CreateOkr,
    EditOkr,
    OkrVersions,
    RevertOkr,
    DeleteOkr,
    SetAssignees,
    SetDone,
    ListUpdates,
    PostUpdate,
    EditUpdate,
    DeleteUpdate,
    ListNotifications,
    ReadNotifications,
    VapidPublicKey,
    PushSubscribe,
    PushUnsubscribe,
    NotFound,
}

/// The endpoint of `method` on the path segments `segs`.
pub open spec fn spec_endpoint(method: Method, segs: Seq<Seq<char>>) -> Endpoint {
    if method == Method::Post && segs.len() == 3 && segs[0] == "auth"@ && segs[1] == "bootstrap"@ && segs[2] == "options"@ {
        Endpoint::BootstrapOptions
    } else if method == Method::Post && segs.len() == 3 && segs[0] == "auth"@ && segs[1] == "bootstrap"@ && segs[2] == "verify"@ {
        Endpoint::BootstrapVerify
    } else if method == Method::Post && segs.len() == 3 && segs[0] == "auth"@ && segs[1] == "register"@ && segs[2] == "options"@ {
        Endpoint::RegisterOptions
    } else if method == Method::Post && segs.len() == 3 && segs[0] == "auth"@ && segs[1] == "register"@ && segs[2] == "verify"@ {
        Endpoint::RegisterVerify
    } else if method == Method::Post && segs.len() == 3 && segs[0] == "auth"@ && segs[1] == "login"@ && segs[2] == "options"@ {
        Endpoint::LoginOptions
    } else if method == Method::Post && segs.len() == 3 && segs[0] == "auth"@ && segs[1] == "login"@ && segs[2] == "verify"@ {
        Endpoint::LoginVerify
    } else if method == Method::Post && segs.len() == 2 && segs[0] == "auth"@ && segs[1] == "logout"@ {
        Endpoint::Logout
    } else if method == Method::Get && segs.len() == 1 && segs[0] == "me"@ {
        Endpoint::Me
    } else if method == Method::Patch && segs.len() == 1 && segs[0] == "me"@ {
        Endpoint::PatchMe
    } else if method == Method::Delete && segs.len() == 3 && segs[0] == "me"@ && segs[1] == "credentials"@ {
        Endpoint::DeleteMyCredential
    } else if method == Method::Get && segs.len() == 1 && segs[0] == "users"@ {
        Endpoint::ListUsers
    } else if method == Method::Post && segs.len() == 1 && segs[0] == "users"@ {
        Endpoint::CreateUser
    } else if method == Method::Patch && segs.len() == 2 && segs[0] == "users"@ {
        Endpoint::PatchUser
    } else if method == Method::Delete && segs.len() == 2 && segs[0] == "users"@ {
        Endpoint::DeleteUser
    } else if method == Method::Post && segs.len() == 3 && segs[0] == "users"@ && segs[2] == "code"@ {
        Endpoint::ReissueCode
    } else if method == Method::Get && segs.len() == 1 && segs[0] == "groups"@ {
        Endpoint::ListGroups
    } else if method == Method::Post && segs.len() == 1 && segs[0] == "groups"@ {
        Endpoint::CreateGroup
    } else if method == Method::Patch && segs.len() == 2 && segs[0] == "groups"@ {
        Endpoint::EditGroup
    } else if method == Method::Get && segs.len() == 3 && segs[0] == "groups"@ && segs[2] == "versions"@ {
        Endpoint::GroupVersions
    } else if method == Method::Post && segs.len() == 3 && segs[0] == "groups"@ && segs[2] == "revert"@ {
        Endpoint::RevertGroup
    } else if method == Method::Delete && segs.len() == 2 && segs[0] == "groups"@ {
        Endpoint::DeleteGroup
    } else if method == Method::Get && segs.len() == 1 && segs[0] == "okrs"@ {
        Endpoint::ListOkrs
    } else if method == Method::Post && segs.len() == 1 && segs[0] == "okrs"@ {
        Endpoint::CreateOkr
    } else if method == Method::Patch && segs.len() == 2 && segs[0] == "okrs"@ {
        Endpoint::EditOkr
    } else if method == Method::Get && segs.len() == 3 && segs[0] == "okrs"@ && segs[2] == "versions"@ {
        Endpoint::OkrVersions
    } else if method == Method::Post && segs.len() == 3 && segs[0] == "okrs"@ && segs[2] == "revert"@ {
        Endpoint::RevertOkr
    } else if method == Method::Delete && segs.len() == 2 && segs[0] == "okrs"@ {
        Endpoint::DeleteOkr
    } else if method == Method::Put && segs.len() == 3 && segs[0] == "okrs"@ && segs[2] == "assignees"@ {
        Endpoint::SetAssignees
    } else if method == Method::Put && segs.len() == 3 && segs[0] == "okrs"@ && segs[2] == "done"@ {
        Endpoint::SetDone
    } else if method == Method::Get && segs.len() == 3 && segs[0] == "okrs"@ && segs[2] == "updates"@ {
        Endpoint::ListUpdates
    } else if method == Method::Post && segs.len() == 3 && segs[0] == "okrs"@ && segs[2] == "updates"@ {
        Endpoint::PostUpdate
    } else if method == Method::Patch && segs.len() == 2 && segs[0] == "updates"@ {
        Endpoint::EditUpdate
    } else if method == Method::Delete && segs.len() == 2 && segs[0] == "updates"@ {
        Endpoint::DeleteUpdate
    } else if method == Method::Get && segs.len() == 1 && segs[0] == "notifications"@ {
        Endpoint::ListNotifications
    } else if method == Method::Post && segs.len() == 2 && segs[0] == "notifications"@ && segs[1] == "read"@ {
        Endpoint::ReadNotifications
    } else if method == Method::Get && segs.len() == 2 && segs[0] == "push"@ && segs[1] == "vapid-public-key"@ {
        Endpoint::VapidPublicKey
    } else if method == Method::Post && segs.len() == 2 && segs[0] == "push"@ && segs[1] == "subscribe"@ {
        Endpoint::PushSubscribe
    } else if method == Method::Delete && segs.len() == 2 && segs[0] == "push"@ && segs[1] == "subscribe"@ {
        Endpoint::PushUnsubscribe
    } else {
        Endpoint::NotFound
    }
}

/// The position of the entity id among the segments, for endpoints that carry one.
pub open spec fn id_position(e: Endpoint) -> Option<int> {
    match e {
        Endpoint::DeleteMyCredential => Some(2),
        Endpoint::PatchUser => Some(1),
        Endpoint::DeleteUser => Some(1),
        Endpoint::ReissueCode => Some(1),
        Endpoint::EditGroup => Some(1),
        Endpoint::GroupVersions => Some(1),
        Endpoint::RevertGroup => Some(1),
        Endpoint::DeleteGroup => Some(1),
        Endpoint::EditOkr => Some(1),
        Endpoint::OkrVersions => Some(1),
        Endpoint::RevertOkr => Some(1),
        Endpoint::DeleteOkr => Some(1),
        Endpoint::SetAssignees => Some(1),
        Endpoint::SetDone => Some(1),
        Endpoint::ListUpdates => Some(1),
        Endpoint::PostUpdate => Some(1),
        Endpoint::EditUpdate => Some(1),
        Endpoint::DeleteUpdate => Some(1),
        _ => None,
    }
}

fn endpoint_of(method: Method, segs: &Vec<String>) -> (r: Endpoint)
    ensures
        r == spec_endpoint(method, segs@.map_values(|s: String| s@)),
{
    let n = segs.len();
    let ghost sv = segs@.map_values(|s: String| s@);
    assert(sv.len() == n);
    assert(forall|i: int| 0 <= i < n ==> sv[i] == (#[trigger] segs@[i])@);
    if method == Method::Post && n == 3 && seg_is(segs, 0, "auth") && seg_is(segs, 1, "bootstrap") && seg_is(segs, 2, "options") {
        Endpoint::BootstrapOptions
    } else if method == Method::Post && n == 3 && seg_is(segs, 0, "auth") && seg_is(segs, 1, "bootstrap") && seg_is(segs, 2, "verify") {
        Endpoint::BootstrapVerify
    } else if method == Method::Post && n == 3 && seg_is(segs, 0, "auth") && seg_is(segs, 1, "register") && seg_is(segs, 2, "options") {
        Endpoint::RegisterOptions
    } else if method == Method::Post && n == 3 && seg_is(segs, 0, "auth") && seg_is(segs, 1, "register") && seg_is(segs, 2, "verify") {
        Endpoint::RegisterVerify
    } else if method == Method::Post && n == 3 && seg_is(segs, 0, "auth") && seg_is(segs, 1, "login") && seg_is(segs, 2, "options") {
        Endpoint::LoginOptions
    } else if method == Method::Post && n == 3 && seg_is(segs, 0, "auth") && seg_is(segs, 1, "login") && seg_is(segs, 2, "verify") {
        Endpoint::LoginVerify
    } else if method == Method::Post && n == 2 && seg_is(segs, 0, "auth") && seg_is(segs, 1, "logout") {
        Endpoint::Logout
    } else if method == Method::Get && n == 1 && seg_is(segs, 0, "me") {
        Endpoint::Me
    } else if method == Method::Patch && n == 1 && seg_is(segs, 0, "me") {
        Endpoint::PatchMe
    } else if method == Method::Delete && n == 3 && seg_is(segs, 0, "me") && seg_is(segs, 1, "credentials") {
        Endpoint::DeleteMyCredential
    } else if method == Method::Get && n == 1 && seg_is(segs, 0, "users") {
        Endpoint::ListUsers
    } else if method == Method::Post && n == 1 && seg_is(segs, 0, "users") {
        Endpoint::CreateUser
    } else if method == Method::Patch && n == 2 && seg_is(segs, 0, "users") {
        Endpoint::PatchUser
    } else if method == Method::Delete && n == 2 && seg_is(segs, 0, "users") {
        Endpoint::DeleteUser
    } else if method == Method::Post && n == 3 && seg_is(segs, 0, "users") && seg_is(segs, 2, "code") {
        Endpoint::ReissueCode
    } else if method == Method::Get && n == 1 && seg_is(segs, 0, "groups") {
        Endpoint::ListGroups
    } else if method == Method::Post && n == 1 && seg_is(segs, 0, "groups") {
        Endpoint::CreateGroup
    } else if method == Method::Patch && n == 2 && seg_is(segs, 0, "groups") {
        Endpoint::EditGroup
    } else if method == Method::Get && n == 3 && seg_is(segs, 0, "groups") && seg_is(segs, 2, "versions") {
        Endpoint::GroupVersions
    } else if method == Method::Post && n == 3 && seg_is(segs, 0, "groups") && seg_is(segs, 2, "revert") {
        Endpoint::RevertGroup
    } else if method == Method::Delete && n == 2 && seg_is(segs, 0, "groups") {
        Endpoint::DeleteGroup
    } else if method == Method::Get && n == 1 && seg_is(segs, 0, "okrs") {
        Endpoint::ListOkrs
    } else if method == Method::Post && n == 1 && seg_is(segs, 0, "okrs") {
        Endpoint::CreateOkr
    } else if method == Method::Patch && n == 2 && seg_is(segs, 0, "okrs") {
        Endpoint::EditOkr
    } else if method == Method::Get && n == 3 && seg_is(segs, 0, "okrs") && seg_is(segs, 2, "versions") {
        Endpoint::OkrVersions
    } else if method == Method::Post && n == 3 && seg_is(segs, 0, "okrs") && seg_is(segs, 2, "revert") {
        Endpoint::RevertOkr
    } else if method == Method::Delete && n == 2 && seg_is(segs, 0, "okrs") {
        Endpoint::DeleteOkr
    } else if method == Method::Put && n == 3 && seg_is(segs, 0, "okrs") && seg_is(segs, 2, "assignees") {
        Endpoint::SetAssignees
    } else if method == Method::Put && n == 3 && seg_is(segs, 0, "okrs") && seg_is(segs, 2, "done") {
        Endpoint::SetDone
    } else if method == Method::Get && n == 3 && seg_is(segs, 0, "okrs") && seg_is(segs, 2, "updates") {
        Endpoint::ListUpdates
    } else if method == Method::Post && n == 3 && seg_is(segs, 0, "okrs") && seg_is(segs, 2, "updates") {
        Endpoint::PostUpdate
    } else if method == Method::Patch && n == 2 && seg_is(segs, 0, "updates") {
        Endpoint::EditUpdate
    } else if method == Method::Delete && n == 2 && seg_is(segs, 0, "updates") {
        Endpoint::DeleteUpdate
    } else if method == Method::Get && n == 1 && seg_is(segs, 0, "notifications") {
        Endpoint::ListNotifications
    } else if method == Method::Post && n == 2 && seg_is(segs, 0, "notifications") && seg_is(segs, 1, "read") {
        Endpoint::ReadNotifications
    } else if method == Method::Get && n == 2 && seg_is(segs, 0, "push") && seg_is(segs, 1, "vapid-public-key") {
        Endpoint::VapidPublicKey
    } else if method == Method::Post && n == 2 && seg_is(segs, 0, "push") && seg_is(segs, 1, "subscribe") {
        Endpoint::PushSubscribe
    } else if method == Method::Delete && n == 2 && seg_is(segs, 0, "push") && seg_is(segs, 1, "subscribe") {
        Endpoint::PushUnsubscribe
    } else {
        Endpoint::NotFound
    }
}

fn id_position_of(e: Endpoint) -> (r: Option<usize>)
    ensures
        match id_position(e) {
            Some(p) => r == Some(p as usize),
            None => r is None,
        },
{
    match e {
        Endpoint::DeleteMyCredential => Some(2),
        Endpoint::PatchUser => Some(1),
        Endpoint::DeleteUser => Some(1),
        Endpoint::ReissueCode => Some(1),
        Endpoint::EditGroup => Some(1),
        Endpoint::GroupVersions => Some(1),
        Endpoint::RevertGroup => Some(1),
        Endpoint::DeleteGroup => Some(1),
        Endpoint::EditOkr => Some(1),
        Endpoint::OkrVersions => Some(1),
        Endpoint::RevertOkr => Some(1),
        Endpoint::DeleteOkr => Some(1),
        Endpoint::SetAssignees => Some(1),
        Endpoint::SetDone => Some(1),
        Endpoint::ListUpdates => Some(1),
        Endpoint::PostUpdate => Some(1),
        Endpoint::EditUpdate => Some(1),
        Endpoint::DeleteUpdate => Some(1),
        _ => None,
    }
}


/// A routed request: its endpoint and, for endpoints that address one entity,
/// the entity id taken from the path.
pub struct Route {
    pub endpoint: Endpoint,
    pub id: Option<String>,
}

/// The endpoint a method and path address, without admission.
pub fn route_path(method: Method, path: &str) -> (r: Route)
    ensures
        r.endpoint == spec_endpoint(method, segments(path@)),
        match id_position(r.endpoint) {
            Some(p) => r.id matches Some(id) && id@ == segments(path@)[p],
            None => r.id is None,
        },
{
    let segs = path_segments(path);
    let endpoint = endpoint_of(method, &segs);
    let ghost sv = segs@.map_values(|s: String| s@);
    let id = match id_position_of(endpoint) {
        Some(p) => {
            assert(p < segs@.len()) by {
                assert(sv.len() == segs@.len());
            }
            Some(segs[p].clone())
        },
        None => None,
    };
    Route { endpoint, id }
}

/// The error answered for a path that no endpoint serves.
pub fn no_route() -> (r: DomainError)
    ensures
        r matches DomainError::NotFound(m) && m@ == "route"@,
{
    DomainError::NotFound(string_of("route"))
}

/// A header value as a character sequence, when present.
pub open spec fn header_view(h: Option<&str>) -> Option<Seq<char>> {
    match h {
        Some(v) => Some(v@),
        None => None,
    }
}

/// Route a request, admitting it first. A mutation without a same-site signal
/// (`Sec-Fetch-Site` `same-origin`/`none`, or an `Origin` equal to
/// `rp_origin`) is refused with `Forbidden`, and a same-site mutation whose
/// body exceeds 200 000 bytes with `Invalid`, before any endpoint is chosen.
/// Every other request is routed by method and path.
pub fn route(
    method: Method,
    path: &str,
    sec_fetch_site: Option<&str>,
    origin: Option<&str>,
    rp_origin: &str,
    body_len: usize,
) -> (r: DomainResult<Route>)
    ensures
        ({
            let same_site = spec_same_site(header_view(sec_fetch_site), header_view(origin), rp_origin@);
            &&& spec_is_mutation(method) && !same_site ==> (r matches Err(DomainError::Forbidden))
            &&& spec_is_mutation(method) && same_site && body_len > 200_000 ==> (r matches Err(
                DomainError::Invalid(m),
            ) && m@ == "request body too large"@)
            &&& (!spec_is_mutation(method) || (same_site && body_len <= 200_000)) ==> (r matches Ok(
                rt,
            ) && rt.endpoint == spec_endpoint(method, segments(path@)) && match id_position(
                rt.endpoint,
            ) {
                Some(p) => rt.id matches Some(id) && id@ == segments(path@)[p],
                None => rt.id is None,
            })
        }),
{
    let same_site = is_same_site(sec_fetch_site, origin, rp_origin);
    match check_request(method, same_site, body_len) {
        Err(e) => Err(e),
        Ok(()) => Ok(route_path(method, path)),
    }
}

/// The route table: each method and segment pattern of the API, with any
/// entity id `x` in its place, is served by its endpoint.
#[verifier::rlimit(100)]
pub proof fn law_route_table(x: Seq<char>)
    ensures
        spec_endpoint(Method::Post, seq!["auth"@, "bootstrap"@, "options"@]) == Endpoint::BootstrapOptions,
        spec_endpoint(Method::Post, seq!["auth"@, "bootstrap"@, "verify"@]) == Endpoint::BootstrapVerify,
        spec_endpoint(Method::Post, seq!["auth"@, "register"@, "options"@]) == Endpoint::RegisterOptions,
        spec_endpoint(Method::Post, seq!["auth"@, "register"@, "verify"@]) == Endpoint::RegisterVerify,
        spec_endpoint(Method::Post, seq!["auth"@, "login"@, "options"@]) == Endpoint::LoginOptions,
        spec_endpoint(Method::Post, seq!["auth"@, "login"@, "verify"@]) == Endpoint::LoginVerify,
        spec_endpoint(Method::Post, seq!["auth"@, "logout"@]) == Endpoint::Logout,
        spec_endpoint(Method::Get, seq!["me"@]) == Endpoint::Me,
        spec_endpoint(Method::Patch, seq!["me"@]) == Endpoint::PatchMe,
        spec_endpoint(Method::Delete, seq!["me"@, "credentials"@, x]) == Endpoint::DeleteMyCredential,
        spec_endpoint(Method::Get, seq!["users"@]) == Endpoint::ListUsers,
        spec_endpoint(Method::Post, seq!["users"@]) == Endpoint::CreateUser,
        spec_endpoint(Method::Patch, seq!["users"@, x]) == Endpoint::PatchUser,
        spec_endpoint(Method::Delete, seq!["users"@, x]) == Endpoint::DeleteUser,
        spec_endpoint(Method::Post, seq!["users"@, x, "code"@]) == Endpoint::ReissueCode,
        spec_endpoint(Method::Get, seq!["groups"@]) == Endpoint::ListGroups,
        spec_endpoint(Method::Post, seq!["groups"@]) == Endpoint::CreateGroup,
        spec_endpoint(Method::Patch, seq!["groups"@, x]) == Endpoint::EditGroup,
        spec_endpoint(Method::Get, seq!["groups"@, x, "versions"@]) == Endpoint::GroupVersions,
        spec_endpoint(Method::Post, seq!["groups"@, x, "revert"@]) == Endpoint::RevertGroup,
        spec_endpoint(Method::Delete, seq!["groups"@, x]) == Endpoint::DeleteGroup,
        spec_endpoint(Method::Get, seq!["okrs"@]) == Endpoint::ListOkrs,
        spec_endpoint(Method::Post, seq!["okrs"@]) == Endpoint::CreateOkr,
        spec_endpoint(Method::Patch, seq!["okrs"@, x]) == Endpoint::EditOkr,
        spec_endpoint(Method::Get, seq!["okrs"@, x, "versions"@]) == Endpoint::OkrVersions,
        spec_endpoint(Method::Post, seq!["okrs"@, x, "revert"@]) == Endpoint::RevertOkr,
        spec_endpoint(Method::Delete, seq!["okrs"@, x]) == Endpoint::DeleteOkr,
        spec_endpoint(Method::Put, seq!["okrs"@, x, "assignees"@]) == Endpoint::SetAssignees,
        spec_endpoint(Method::Put, seq!["okrs"@, x, "done"@]) == Endpoint::SetDone,
        spec_endpoint(Method::Get, seq!["okrs"@, x, "updates"@]) == Endpoint::ListUpdates,
        spec_endpoint(Method::Post, seq!["okrs"@, x, "updates"@]) == Endpoint::PostUpdate,
        spec_endpoint(Method::Patch, seq!["updates"@, x]) == Endpoint::EditUpdate,
        spec_endpoint(Method::Delete, seq!["updates"@, x]) == Endpoint::DeleteUpdate,
        spec_endpoint(Method::Get, seq!["notifications"@]) == Endpoint::ListNotifications,
        spec_endpoint(Method::Post, seq!["notifications"@, "read"@]) == Endpoint::ReadNotifications,
        spec_endpoint(Method::Get, seq!["push"@, "vapid-public-key"@]) == Endpoint::VapidPublicKey,
        spec_endpoint(Method::Post, seq!["push"@, "subscribe"@]) == Endpoint::PushSubscribe,
        spec_endpoint(Method::Delete, seq!["push"@, "subscribe"@]) == Endpoint::PushUnsubscribe,
{
    reveal_strlit("assignees");
    reveal_strlit("auth");
    reveal_strlit("bootstrap");
    reveal_strlit("code");
    reveal_strlit("credentials");
    reveal_strlit("done");
    reveal_strlit("groups");
    reveal_strlit("login");
    reveal_strlit("logout");
    reveal_strlit("me");
    reveal_strlit("notifications");
    reveal_strlit("okrs");
    reveal_strlit("options");
    reveal_strlit("push");
    reveal_strlit("read");
    reveal_strlit("register");
    reveal_strlit("revert");
    reveal_strlit("subscribe");
    reveal_strlit("updates");
    reveal_strlit("users");
    reveal_strlit("vapid-public-key");
    reveal_strlit("verify");
    reveal_strlit("versions");
    assert("assignees"@.len() == 9);
    assert("auth"@.len() == 4);
    assert("bootstrap"@.len() == 9);
    assert("code"@.len() == 4);
    assert("credentials"@.len() == 11);
    assert("done"@.len() == 4);
    assert("groups"@.len() == 6);
    assert("login"@.len() == 5);
    assert("logout"@.len() == 6);
    assert("me"@.len() == 2);
    assert("notifications"@.len() == 13);
    assert("okrs"@.len() == 4);
    assert("options"@.len() == 7);
    assert("push"@.len() == 4);
    assert("read"@.len() == 4);
    assert("register"@.len() == 8);
    assert("revert"@.len() == 6);
    assert("subscribe"@.len() == 9);
    assert("updates"@.len() == 7);
    assert("users"@.len() == 5);
    assert("vapid-public-key"@.len() == 16);
    assert("verify"@.len() == 6);
    assert("versions"@.len() == 8);
    assert("assignees"@[0] != "bootstrap"@[0]);
    assert("assignees"@[0] != "subscribe"@[0]);
    assert("auth"@[0] != "code"@[0]);
    assert("auth"@[0] != "done"@[0]);
    assert("auth"@[0] != "okrs"@[0]);
    assert("auth"@[0] != "push"@[0]);
    assert("auth"@[0] != "read"@[0]);
    assert("bootstrap"@[0] != "subscribe"@[0]);
    assert("code"@[0] != "done"@[0]);
    assert("code"@[0] != "okrs"@[0]);
    assert("code"@[0] != "push"@[0]);
    assert("code"@[0] != "read"@[0]);
    assert("done"@[0] != "okrs"@[0]);
    assert("done"@[0] != "push"@[0]);
    assert("done"@[0] != "read"@[0]);
    assert("groups"@[0] != "logout"@[0]);
    assert("groups"@[0] != "revert"@[0]);
    assert("groups"@[0] != "verify"@[0]);
    assert("login"@[0] != "users"@[0]);
    assert("logout"@[0] != "revert"@[0]);
    assert("logout"@[0] != "verify"@[0]);
    assert("okrs"@[0] != "push"@[0]);
    assert("okrs"@[0] != "read"@[0]);
    assert("options"@[0] != "updates"@[0]);
    assert("push"@[0] != "read"@[0]);
    assert("register"@[0] != "versions"@[0]);
    assert("revert"@[0] != "verify"@[0]);
}

} // verus!
