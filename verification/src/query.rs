//! Query-string options of the listing endpoints: how a request URL's query
//! selects and orders OKRs and progress updates.
use vstd::prelude::*;

use crate::authz::listed;
use crate::error::{DomainError, DomainResult};
use crate::model::Update;
use crate::text::{chars_of, str_eq, string_of};

verus! {

/// The decoded `(name, value)` pairs of a URL's query, in order, as
/// `url::Url::parse` and `Url::query_pairs` read them (`None` when the text is
/// not a URL).
pub uninterp spec fn spec_query_pairs(url: Seq<char>) -> Option<Seq<(Seq<char>, Seq<char>)>>;

/// The views of a list of string pairs.
pub open spec fn pair_views(pairs: Seq<(String, String)>) -> Seq<(Seq<char>, Seq<char>)> {
    pairs.map_values(|p: (String, String)| (p.0@, p.1@))
}

/// `url::Url::parse`, then the decoded query pairs.
#[verifier::external_body]
fn url_query_pairs(url: &str) -> (r: Option<Vec<(String, String)>>)
    ensures
        match r {
            Some(pairs) => spec_query_pairs(url@) == Some(pair_views(pairs@)),
            None => spec_query_pairs(url@) is None,
        },
{
    match url::Url::parse(url) {
        Ok(u) => Some(u.query_pairs().into_owned().collect()),
        Err(_) => None,
    }
}

/// The query pairs of a request URL; a URL that does not parse is an
/// internal failure.
pub fn request_query(url: &str) -> (r: DomainResult<Vec<(String, String)>>)
    ensures
        match r {
            Ok(pairs) => spec_query_pairs(url@) == Some(pair_views(pairs@)),
            Err(e) => spec_query_pairs(url@) is None && e is Internal,
        },
{
    match url_query_pairs(url) {
        Some(p) => Ok(p),
        None => Err(DomainError::Internal(string_of("request url does not parse"))),
    }
}

/// The value a query gives `key`: that of the last pair named `key` (later
/// pairs override earlier ones), or `None`.
pub open spec fn query_get(pairs: Seq<(Seq<char>, Seq<char>)>, key: Seq<char>) -> Option<Seq<char>>
    decreases pairs.len(),
{
    if pairs.len() == 0 {
        None
    } else if pairs.last().0 == key {
        Some(pairs.last().1)
    } else {
        query_get(pairs.drop_last(), key)
    }
}

/// The value of `key` in `pairs` (the last one wins).
pub fn query_value(pairs: &Vec<(String, String)>, key: &str) -> (r: Option<String>)
    ensures
        match r {
            Some(v) => query_get(pair_views(pairs@), key@) == Some(v@),
            None => query_get(pair_views(pairs@), key@) is None,
        },
{
    let mut i: usize = pairs.len();
    assert(pairs@.take(pairs@.len() as int) =~= pairs@);
    while i > 0
        invariant
            i <= pairs@.len(),
            query_get(pair_views(pairs@), key@) == query_get(pair_views(pairs@.take(i as int)), key@),
        decreases i,
    {
        let ghost pv = pair_views(pairs@.take(i as int));
        assert(pv.drop_last() =~= pair_views(pairs@.take(i - 1)));
        assert(pv.last() == (pairs@[i - 1].0@, pairs@[i - 1].1@));
        if str_eq(pairs[i - 1].0.as_str(), key) {
            return Some(string_of(pairs[i - 1].1.as_str()));
        }
        i -= 1;
    }
    None
}

// ---------------------------------------------------------------------------
// Unsigned decimal numbers
// ---------------------------------------------------------------------------

pub open spec fn is_digit(c: char) -> bool {
    '0' <= c <= '9'
}

pub open spec fn all_digits(s: Seq<char>) -> bool {
    forall|i: int| 0 <= i < s.len() ==> is_digit(#[trigger] s[i])
}

/// The number that a string of decimal digits denotes.
pub open spec fn digits_value(s: Seq<char>) -> int
    decreases s.len(),
{
    if s.len() == 0 {
        0
    } else {
        digits_value(s.drop_last()) * 10 + (s.last() as int - '0' as int)
    }
}

/// `u64::from_str`: an optional `+`, then one or more decimal digits, whose
/// value fits in `u64`.
pub open spec fn spec_parse_u64(s: Seq<char>) -> Option<u64> {
    let d = if s.len() > 0 && s[0] == '+' {
        s.drop_first()
    } else {
        s
    };
    if d.len() > 0 && all_digits(d) && digits_value(d) <= u64::MAX {
        Some(digits_value(d) as u64)
    } else {
        None
    }
}

proof fn lemma_digits_value_monotone(s: Seq<char>, i: int)
    requires
        0 <= i <= s.len(),
        all_digits(s),
    ensures
        0 <= digits_value(s.take(i)) <= digits_value(s),
    decreases s.len() - i,
{
    if i < s.len() {
        lemma_digits_value_monotone(s, i + 1);
        assert(s.take(i + 1).drop_last() =~= s.take(i));
        assert(is_digit(s[i]));
    } else {
        assert(s.take(i) =~= s);
    }
    lemma_digits_value_nonneg(s.take(i));
}

proof fn lemma_digits_value_nonneg(s: Seq<char>)
    requires
        all_digits(s),
    ensures
        digits_value(s) >= 0,
    decreases s.len(),
{
    if s.len() > 0 {
        assert(is_digit(s.last()));
        lemma_digits_value_nonneg(s.drop_last());
    }
}

/// Parse an unsigned 64-bit decimal number as `str::parse::<u64>` does.
pub fn parse_u64(s: &str) -> (r: Option<u64>)
    ensures
        r == spec_parse_u64(s@),
{
    let cs = chars_of(s);
    let start: usize = if cs.len() > 0 && cs[0] == '+' {
        1
    } else {
        0
    };
    let ghost d = if cs@.len() > 0 && cs@[0] == '+' {
        cs@.drop_first()
    } else {
        cs@
    };
    assert(d =~= cs@.skip(start as int));
    if start == cs.len() {
        return None;
    }
    let mut value: u64 = 0;
    let mut i: usize = start;
    while i < cs.len()
        invariant
            start <= i <= cs@.len(),
            cs@ == s@,
            d == (if s@.len() > 0 && s@[0] == '+' {
                s@.drop_first()
            } else {
                s@
            }),
            d =~= cs@.skip(start as int),
            all_digits(d.take(i - start)),
            value == digits_value(d.take(i - start)),
        decreases cs.len() - i,
    {
        let c = cs[i];
        assert(d[i - start] == c);
        assert(d.take(i - start + 1).drop_last() =~= d.take(i - start));
        if !('0' <= c && c <= '9') {
            assert(!is_digit(d[i - start]));
            assert(!all_digits(d));
            return None;
        }
        let digit: u64 = (c as u32 - '0' as u32) as u64;
        let next = match value.checked_mul(10) {
            Some(v) => v.checked_add(digit),
            None => None,
        };
        match next {
            Some(v) => {
                value = v;
            },
            None => {
                proof {
                    let t = d.take(i - start + 1);
                    assert(t.last() == c);
                    assert(digits_value(t) == value * 10 + digit);
                    assert(digits_value(t) > u64::MAX);
                    if all_digits(d) {
                        lemma_digits_value_monotone(d, i - start + 1);
                    }
                }
                return None;
            },
        }
        i += 1;
    }
    assert(d.take(i - start) =~= d);
    Some(value)
}

// ---------------------------------------------------------------------------
// Listing OKRs
// ---------------------------------------------------------------------------

/// Whether an OKR is listed under the query: `group` keeps the OKRs of that
/// group, `assignee` those assigned to that user, `done` those whose
/// effective done flag equals `done == "true"`.
pub open spec fn okr_matches(
    group_id: Seq<char>,
    assignees: Seq<String>,
    done: bool,
    query: Seq<(Seq<char>, Seq<char>)>,
) -> bool {
    &&& (query_get(query, "group"@) matches Some(g) ==> group_id == g)
    &&& (query_get(query, "assignee"@) matches Some(a) ==> listed(assignees, a))
    &&& (query_get(query, "done"@) matches Some(d) ==> done == (d == "true"@))
}

fn contains_str(ids: &Vec<String>, user: &str) -> (r: bool)
    ensures
        r == listed(ids@, user@),
{
    let mut i: usize = 0;
    while i < ids.len()
        invariant
            i <= ids@.len(),
            forall|k: int| 0 <= k < i ==> (#[trigger] ids@[k])@ != user@,
        decreases ids.len() - i,
    {
        if str_eq(ids[i].as_str(), user) {
            return true;
        }
        i += 1;
    }
    false
}

/// Whether an OKR (its group, assignees and effective done flag) passes the
/// list query's filters.
pub fn okr_listed(
    group_id: &str,
    assignees: &Vec<String>,
    done: bool,
    query: &Vec<(String, String)>,
) -> (r: bool)
    ensures
        r == okr_matches(group_id@, assignees@, done, pair_views(query@)),
        query_get(pair_views(query@), "assignee"@) matches Some(a) ==> (r ==> exists|i: int|
            0 <= i < assignees@.len() && (#[trigger] assignees@[i])@ == a),
{
    proof {
        law_assignee_filter(group_id@, assignees@, assignees@, done, pair_views(query@));
    }
    let ghost q = pair_views(query@);
    if let Some(g) = query_value(query, "group") {
        if !str_eq(group_id, g.as_str()) {
            return false;
        }
    }
    if let Some(a) = query_value(query, "assignee") {
        if !contains_str(assignees, a.as_str()) {
            return false;
        }
    }
    if let Some(d) = query_value(query, "done") {
        let want = str_eq(d.as_str(), "true");
        if done != want {
            return false;
        }
    }
    true
}

// ---------------------------------------------------------------------------
// Listing progress updates
// ---------------------------------------------------------------------------

/// One entry of an update listing: which update, whether it was posted
/// against an earlier OKR version, and whether its version is still valid.
#[derive(Debug, Clone, Copy, PartialEq, Eq)]
pub struct UpdateEntry {
    pub position: usize,
    pub from_previous_version: bool,
    pub version_valid: bool,
}

/// The listing options of the updates of one OKR.
#[derive(Debug, Clone, Copy, PartialEq, Eq)]
pub struct UpdateQuery {
    /// `sort=desc`: newest first (the store lists oldest first).
    pub newest_first: bool,
    /// `version=N`: only updates posted against version `N`.
    pub version: Option<u64>,
    /// `valid=true|…`: only updates whose version is (or is not) valid.
    pub valid: Option<bool>,
}

/// The listing options a query gives: `sort`, `version` (ignored unless it
/// parses as a number) and `valid`.
pub open spec fn update_query_of(query: Seq<(Seq<char>, Seq<char>)>) -> UpdateQuery {
    UpdateQuery {
        newest_first: query_get(query, "sort"@) == Some("desc"@),
        version: match query_get(query, "version"@) {
            Some(v) => spec_parse_u64(v),
            None => None,
        },
        valid: match query_get(query, "valid"@) {
            Some(v) => Some(v == "true"@),
            None => None,
        },
    }
}

/// Read the listing options of an update listing from its query.
pub fn update_query(query: &Vec<(String, String)>) -> (r: UpdateQuery)
    ensures
        r == update_query_of(pair_views(query@)),
{
    let newest_first = match query_value(query, "sort") {
        Some(s) => str_eq(s.as_str(), "desc"),
        None => false,
    };
    let version = match query_value(query, "version") {
        Some(v) => parse_u64(v.as_str()),
        None => None,
    };
    let valid = match query_value(query, "valid") {
        Some(v) => Some(str_eq(v.as_str(), "true")),
        None => None,
    };
    UpdateQuery { newest_first, version, valid }
}

/// Whether an update posted against `version` passes the filters.
pub open spec fn update_selected(version: u64, q: UpdateQuery, valid: Set<u64>) -> bool {
    &&& (q.version matches Some(v) ==> version == v)
    &&& (q.valid matches Some(w) ==> valid.contains(version) == w)
}

/// The position in `updates` of the `k`-th update in listing order.
pub open spec fn listing_position(len: int, k: int, newest_first: bool) -> int {
    if newest_first {
        len - 1 - k
    } else {
        k
    }
}

/// The positions listed among the first `k` updates in listing order.
pub open spec fn selected_positions(updates: Seq<Update>, k: nat, q: UpdateQuery, valid: Set<u64>) -> Seq<int>
    decreases k,
{
    if k == 0 {
        Seq::empty()
    } else {
        let rest = selected_positions(updates, (k - 1) as nat, q, valid);
        let p = listing_position(updates.len() as int, k - 1, q.newest_first);
        if update_selected(updates[p].version, q, valid) {
            rest.push(p)
        } else {
            rest
        }
    }
}

fn contains_u64(vs: &Vec<u64>, x: u64) -> (r: bool)
    ensures
        r == vs@.contains(x),
{
    let mut i: usize = 0;
    while i < vs.len()
        invariant
            i <= vs@.len(),
            forall|k: int| 0 <= k < i ==> vs@[k] != x,
        decreases vs.len() - i,
    {
        if vs[i] == x {
            assert(vs@[i as int] == x);
            return true;
        }
        i += 1;
    }
    false
}

/// The listing of an OKR's updates (stored oldest first) under the query
/// options: which updates, in which order, with their two flags.
pub fn select_updates(
    updates: &Vec<Update>,
    current_version: u64,
    valid_versions: &Vec<u64>,
    q: UpdateQuery,
) -> (r: Vec<UpdateEntry>)
    ensures
        r@.map_values(|e: UpdateEntry| e.position as int) == selected_positions(
            updates@,
            updates@.len(),
            q,
            valid_versions@.to_set(),
        ),
        forall|k: int|
            0 <= k < r@.len() ==> {
                let u = #[trigger] updates@[r@[k].position as int];
                &&& r@[k].position < updates@.len()
                &&& r@[k].from_previous_version == (u.version != current_version)
                &&& r@[k].version_valid == valid_versions@.contains(u.version)
            },
{
    let n = updates.len();
    let ghost valid = valid_versions@.to_set();
    let mut out: Vec<UpdateEntry> = Vec::new();
    let mut k: usize = 0;
    while k < n
        invariant
            n == updates@.len(),
            k <= n,
            valid == valid_versions@.to_set(),
            out@.map_values(|e: UpdateEntry| e.position as int) == selected_positions(updates@, k as nat, q, valid),
            forall|j: int|
                0 <= j < out@.len() ==> {
                    let u = #[trigger] updates@[out@[j].position as int];
                    &&& out@[j].position < updates@.len()
                    &&& out@[j].from_previous_version == (u.version != current_version)
                    &&& out@[j].version_valid == valid_versions@.contains(u.version)
                },
        decreases n - k,
    {
        let p: usize = if q.newest_first {
            n - 1 - k
        } else {
            k
        };
        let version = updates[p].version;
        let is_valid = contains_u64(valid_versions, version);
        let by_version = match q.version {
            Some(v) => version == v,
            None => true,
        };
        let by_validity = match q.valid {
            Some(w) => is_valid == w,
            None => true,
        };
        let ghost before = out@;
        if by_version && by_validity {
            out.push(UpdateEntry {
                position: p,
                from_previous_version: version != current_version,
                version_valid: is_valid,
            });
            assert(out@.map_values(|e: UpdateEntry| e.position as int) =~= before.map_values(
                |e: UpdateEntry| e.position as int,
            ).push(p as int));
        }
        k += 1;
    }
    out
}

/// The assignee filter: with an assignee value `a` in the query, a listed OKR
/// has `a` among its assignees; and the assignees matter only through
/// whether `a` is among them (with no assignee value, not at all).
pub proof fn law_assignee_filter(
    group_id: Seq<char>,
    assignees: Seq<String>,
    other: Seq<String>,
    done: bool,
    query: Seq<(Seq<char>, Seq<char>)>,
)
    ensures
        query_get(query, "assignee"@) matches Some(a) ==> (okr_matches(group_id, assignees, done, query)
            ==> exists|i: int| 0 <= i < assignees.len() && (#[trigger] assignees[i])@ == a),
        query_get(query, "assignee"@) matches Some(a) ==> ((exists|i: int|
            0 <= i < assignees.len() && (#[trigger] assignees[i])@ == a) == (exists|j: int|
            0 <= j < other.len() && (#[trigger] other[j])@ == a) ==> okr_matches(group_id, assignees, done, query)
            == okr_matches(group_id, other, done, query)),
        query_get(query, "assignee"@) is None ==> okr_matches(group_id, assignees, done, query)
            == okr_matches(group_id, other, done, query),
{
}

} // verus!
