//! HTTP rules shared by the entry point and the request handlers: security
//! headers, cookie handling, CSRF / origin checks and error status codes.
use vstd::prelude::*;

use crate::error::DomainError;
use crate::fmt::{push_i64, signed_decimal};
use crate::query::pair_views;
use crate::text::{
    chars_eq, chars_of, lower, lower_all, lower_char, push_str, str_eq, string_from_chars, string_of,
    trim, trim_bounds, trim_end, trim_start,
};

verus! {

/// Name of the session cookie.
pub const SESSION_COOKIE: &'static str = "okr_session";

pub open spec fn csp() -> Seq<char> {
    "default-src 'self'; script-src 'self' 'wasm-unsafe-eval'; style-src 'self' 'unsafe-inline'; img-src 'self' https: data:; connect-src 'self'; font-src 'self'; manifest-src 'self'; worker-src 'self'; base-uri 'none'; form-action 'none'; frame-ancestors 'none'; object-src 'none'"@
}

/// The strict security header set, as (name, value) pairs in the order they
/// are set.
pub open spec fn spec_security_headers() -> Seq<(Seq<char>, Seq<char>)> {
    seq![
        ("Content-Security-Policy"@, csp()),
        ("Strict-Transport-Security"@, "max-age=31536000; includeSubDomains; preload"@),
        ("X-Content-Type-Options"@, "nosniff"@),
        ("Referrer-Policy"@, "no-referrer"@),
        ("X-Frame-Options"@, "DENY"@),
        ("Permissions-Policy"@, "accelerometer=(), camera=(), geolocation=(), gyroscope=(), microphone=(), payment=(), usb=()"@),
        ("Cross-Origin-Opener-Policy"@, "same-origin"@),
    ]
}

/// The security headers every response carries. No inline scripts (WASM
/// needs `wasm-unsafe-eval`); same-origin API; external images over https.
pub fn security_headers() -> (r: Vec<(String, String)>)
    ensures
        r@.len() == spec_security_headers().len(),
        forall|i: int|
            0 <= i < r@.len() ==> (#[trigger] r@[i]).0@ == spec_security_headers()[i].0
                && r@[i].1@ == spec_security_headers()[i].1,
{
    let mut v: Vec<(String, String)> = Vec::new();
    v.push((string_of("Content-Security-Policy"), string_of("default-src 'self'; script-src 'self' 'wasm-unsafe-eval'; style-src 'self' 'unsafe-inline'; img-src 'self' https: data:; connect-src 'self'; font-src 'self'; manifest-src 'self'; worker-src 'self'; base-uri 'none'; form-action 'none'; frame-ancestors 'none'; object-src 'none'")));
    v.push((string_of("Strict-Transport-Security"), string_of("max-age=31536000; includeSubDomains; preload")));
    v.push((string_of("X-Content-Type-Options"), string_of("nosniff")));
    v.push((string_of("Referrer-Policy"), string_of("no-referrer")));
    v.push((string_of("X-Frame-Options"), string_of("DENY")));
    v.push((string_of("Permissions-Policy"), string_of("accelerometer=(), camera=(), geolocation=(), gyroscope=(), microphone=(), payment=(), usb=()")));
    v.push((string_of("Cross-Origin-Opener-Policy"), string_of("same-origin")));
    v
}

/// Header names are compared without regard to ASCII case.
pub open spec fn same_header_name(a: Seq<char>, b: Seq<char>) -> bool {
    lower_all(a) == lower_all(b)
}

/// The header list after setting `name` to `value`: every header of that name
/// is replaced by the single new one.
pub open spec fn header_set(h: Seq<(Seq<char>, Seq<char>)>, name: Seq<char>, value: Seq<char>) -> Seq<
    (Seq<char>, Seq<char>),
> {
    h.filter(|p: (Seq<char>, Seq<char>)| !same_header_name(p.0, name)).push((name, value))
}

/// The header list after setting the first `k` security headers, in order.
pub open spec fn security_applied(h: Seq<(Seq<char>, Seq<char>)>, k: nat) -> Seq<(Seq<char>, Seq<char>)>
    decreases k,
{
    if k == 0 {
        h
    } else {
        let prev = security_applied(h, (k - 1) as nat);
        header_set(prev, spec_security_headers()[k - 1].0, spec_security_headers()[k - 1].1)
    }
}

/// ASCII case-insensitive equality of two names.
pub fn eq_ignore_ascii_case(a: &str, b: &str) -> (r: bool)
    ensures
        r == same_header_name(a@, b@),
{
    let x = chars_of(a);
    let y = chars_of(b);
    if x.len() != y.len() {
        assert(lower_all(a@).len() != lower_all(b@).len());
        return false;
    }
    let mut i: usize = 0;
    while i < x.len()
        invariant
            x@ == a@,
            y@ == b@,
            x@.len() == y@.len(),
            i <= x@.len(),
            forall|k: int| 0 <= k < i ==> lower(x@[k]) == lower(y@[k]),
        decreases x.len() - i,
    {
        if lower_char(x[i]) != lower_char(y[i]) {
            assert(lower_all(a@)[i as int] != lower_all(b@)[i as int]);
            return false;
        }
        i += 1;
    }
    assert(lower_all(a@) =~= lower_all(b@));
    true
}

/// Set header `name` to `value`, replacing every header of that name.
pub fn set_header(headers: &mut Vec<(String, String)>, name: &str, value: &str)
    ensures
        pair_views(final(headers)@) == header_set(pair_views(old(headers)@), name@, value@),
{
    let ghost keep = |p: (Seq<char>, Seq<char>)| !same_header_name(p.0, name@);
    let mut out: Vec<(String, String)> = Vec::new();
    let mut i: usize = 0;
    while i < headers.len()
        invariant
            i <= headers@.len(),
            keep == (|p: (Seq<char>, Seq<char>)| !same_header_name(p.0, name@)),
            pair_views(out@) == pair_views(headers@.take(i as int)).filter(keep),
        decreases headers.len() - i,
    {
        let ghost before = out@;
        proof {
            assert(pair_views(headers@.take(i + 1)) =~= pair_views(headers@.take(i as int)).push(
                (headers@[i as int].0@, headers@[i as int].1@),
            ));
            pair_views(headers@.take(i as int)).lemma_filter_push(
                (headers@[i as int].0@, headers@[i as int].1@),
                keep,
            );
        }
        if !eq_ignore_ascii_case(headers[i].0.as_str(), name) {
            out.push((string_of(headers[i].0.as_str()), string_of(headers[i].1.as_str())));
            assert(pair_views(out@) =~= pair_views(before).push(
                (headers@[i as int].0@, headers@[i as int].1@),
            ));
        }
        i += 1;
    }
    assert(headers@.take(headers@.len() as int) =~= headers@);
    let ghost before = out@;
    out.push((string_of(name), string_of(value)));
    assert(pair_views(out@) =~= pair_views(before).push((name@, value@)));
    *headers = out;
}

/// Apply the strict security header set to a response's headers.
pub fn apply_security_headers(headers: &mut Vec<(String, String)>)
    ensures
        pair_views(final(headers)@) == security_applied(pair_views(old(headers)@), 7),
{
    let set = security_headers();
    let mut k: usize = 0;
    while k < set.len()
        invariant
            k <= set@.len(),
            set@.len() == 7,
            forall|i: int|
                0 <= i < set@.len() ==> (#[trigger] set@[i]).0@ == spec_security_headers()[i].0
                    && set@[i].1@ == spec_security_headers()[i].1,
            pair_views(headers@) == security_applied(pair_views(old(headers)@), k as nat),
        decreases set.len() - k,
    {
        set_header(headers, set[k].0.as_str(), set[k].1.as_str());
        k += 1;
    }
}

/// The HTTP status of a domain error.
pub open spec fn spec_status(err: DomainError) -> u16 {
    match err {
        DomainError::Unauthenticated => 401,
        DomainError::Forbidden => 403,
        DomainError::NotFound(_) => 404,
        DomainError::Invalid(_) => 400,
        DomainError::Conflict(_) | DomainError::SetupClosed => 409,
        DomainError::BadRegistrationCode => 400,
        DomainError::RateLimited => 429,
        DomainError::Internal(_) => 500,
    }
}

/// Map a domain error to its HTTP status.
pub fn status_code(err: &DomainError) -> (r: u16)
    ensures
        r == spec_status(*err),
{
    match err {
        DomainError::Unauthenticated => 401,
        DomainError::Forbidden => 403,
        DomainError::NotFound(_) => 404,
        DomainError::Invalid(_) => 400,
        DomainError::Conflict(_) | DomainError::SetupClosed => 409,
        DomainError::BadRegistrationCode => 400,
        DomainError::RateLimited => 429,
        DomainError::Internal(_) => 500,
    }
}

/// The pieces of `s` between the separator `sep`, as `str::split` yields them.
pub open spec fn split_parts(s: Seq<char>, sep: char) -> Seq<Seq<char>>
    decreases s.len(),
{
    if s.len() == 0 {
        seq![Seq::<char>::empty()]
    } else {
        let p = split_parts(s.drop_last(), sep);
        if s.last() == sep {
            p.push(Seq::<char>::empty())
        } else {
            p.update(p.len() - 1, p.last().push(s.last()))
        }
    }
}

/// Splitting always yields at least one piece.
pub proof fn lemma_split_parts_nonempty(s: Seq<char>, sep: char)
    ensures
        split_parts(s, sep).len() >= 1,
    decreases s.len(),
{
    if s.len() > 0 {
        lemma_split_parts_nonempty(s.drop_last(), sep);
    }
}

/// Index of the first `c` in `s`.
pub open spec fn first_index(s: Seq<char>, c: char) -> Option<int>
    decreases s.len(),
{
    if s.len() == 0 {
        None
    } else if s[0] == c {
        Some(0)
    } else {
        match first_index(s.drop_first(), c) {
            Some(k) => Some(k + 1),
            None => None,
        }
    }
}

/// The value of cookie `name` in a part of a `Cookie` header: the part is split
/// at its first `=`, and key and value are trimmed.
pub open spec fn cookie_in_part(part: Seq<char>, name: Seq<char>) -> Option<Seq<char>> {
    match first_index(part, '=') {
        Some(j) => if trim(part.take(j)) == name {
            Some(trim(part.skip(j + 1)))
        } else {
            None
        },
        None => None,
    }
}

/// The first match of cookie `name` among `parts`.
pub open spec fn cookie_in_parts(parts: Seq<Seq<char>>, name: Seq<char>) -> Option<Seq<char>>
    decreases parts.len(),
{
    if parts.len() == 0 {
        None
    } else {
        match cookie_in_part(parts[0], name) {
            Some(v) => Some(v),
            None => cookie_in_parts(parts.drop_first(), name),
        }
    }
}

/// The value of cookie `name` in a `Cookie` header value.
pub open spec fn spec_cookie(raw: Seq<char>, name: Seq<char>) -> Option<Seq<char>> {
    cookie_in_parts(split_parts(raw, ';'), name)
}

proof fn lemma_split_without_sep(a: Seq<char>, sep: char)
    requires
        !a.contains(sep),
    ensures
        split_parts(a, sep) == seq![a],
    decreases a.len(),
{
    if a.len() > 0 {
        let d = a.drop_last();
        assert(!d.contains(sep)) by {
            if d.contains(sep) {
                let k = choose|k: int| 0 <= k < d.len() && d[k] == sep;
                assert(a[k] == sep);
            }
        }
        lemma_split_without_sep(d, sep);
        assert(a.last() != sep) by {
            assert(a[a.len() - 1] == a.last());
        }
        assert(d.push(a.last()) =~= a);
    } else {
        assert(a =~= Seq::<char>::empty());
    }
}

proof fn lemma_split_two_parts(s: Seq<char>, k: int, sep: char)
    requires
        0 <= k < s.len(),
        s[k] == sep,
    ensures
        split_parts(s, sep).len() >= 2,
    decreases s.len(),
{
    lemma_split_parts_nonempty(s.drop_last(), sep);
    if k < s.len() - 1 {
        lemma_split_two_parts(s.drop_last(), k, sep);
    }
}

/// The first piece of `a + b` split at `sep` is `a`, when `a` holds no `sep`
/// and `b` is empty or starts with `sep`.
proof fn lemma_split_first(a: Seq<char>, b: Seq<char>, sep: char)
    requires
        !a.contains(sep),
        b.len() == 0 || b[0] == sep,
    ensures
        split_parts(a + b, sep)[0] == a,
    decreases b.len(),
{
    lemma_split_without_sep(a, sep);
    if b.len() == 0 {
        assert(a + b =~= a);
    } else {
        let s = a + b;
        assert(s.drop_last() =~= a + b.drop_last());
        if b.len() > 1 {
            lemma_split_first(a, b.drop_last(), sep);
            lemma_split_two_parts(s.drop_last(), a.len() as int, sep);
        } else {
            assert(s.drop_last() =~= a);
        }
        lemma_split_parts_nonempty(s.drop_last(), sep);
    }
}

proof fn lemma_first_index_at(s: Seq<char>, c: char, k: int)
    requires
        0 <= k < s.len(),
        s[k] == c,
        forall|j: int| 0 <= j < k ==> s[j] != c,
    ensures
        first_index(s, c) == Some(k),
    decreases k,
{
    if k > 0 {
        lemma_first_index_at(s.drop_first(), c, k - 1);
    }
}

/// The `Cookie` header a browser sends back for the session cookie, and the
/// `Set-Cookie` value itself, both read back the session id (trimmed), for
/// any id without a `;`.
pub proof fn law_session_cookie_reads_back(id: Seq<char>, max_age_secs: int)
    requires
        !id.contains(';'),
    ensures
        spec_cookie("okr_session="@ + id, "okr_session"@) == Some(trim(id)),
        spec_cookie(spec_session_cookie(id, max_age_secs), "okr_session"@) == Some(trim(id)),
{
    reveal_strlit("okr_session=");
    reveal_strlit("okr_session");
    reveal_strlit("; HttpOnly; Secure; SameSite=Strict; Path=/; Max-Age=");
    let name = "okr_session"@;
    let part = "okr_session="@ + id;
    assert(!part.contains(';')) by {
        if part.contains(';') {
            let k = choose|k: int| 0 <= k < part.len() && part[k] == ';';
            if k >= 12 {
                assert(id[k - 12] == ';');
            }
        }
    }
    lemma_first_index_at(part, '=', 11);
    assert(part.take(11) =~= name);
    assert(part.skip(12) =~= id);
    assert(trim_start(name) == name);
    assert(trim_end(name) == name) by {
        assert(name.last() == 'n');
    }
    assert(cookie_in_part(part, name) == Some(trim(id)));

    let tail = "; HttpOnly; Secure; SameSite=Strict; Path=/; Max-Age="@ + signed_decimal(max_age_secs);
    assert(spec_session_cookie(id, max_age_secs) =~= part + tail);
    lemma_split_first(part, tail, ';');
    lemma_split_first(part, Seq::<char>::empty(), ';');
    assert(part + Seq::<char>::empty() =~= part);
    lemma_split_parts_nonempty(part, ';');
    lemma_split_parts_nonempty(part + tail, ';');
}

fn split_on(cs: &Vec<char>, sep: char) -> (r: Vec<Vec<char>>)
    ensures
        r@.len() == split_parts(cs@, sep).len(),
        forall|i: int| 0 <= i < r@.len() ==> (#[trigger] r@[i])@ == split_parts(cs@, sep)[i],
{
    let mut parts: Vec<Vec<char>> = Vec::new();
    let mut cur: Vec<char> = Vec::new();
    let mut i: usize = 0;
    while i < cs.len()
        invariant
            i <= cs@.len(),
            parts@.len() + 1 == split_parts(cs@.take(i as int), sep).len(),
            forall|k: int| 0 <= k < parts@.len() ==> (#[trigger] parts@[k])@ == split_parts(
                cs@.take(i as int),
                sep,
            )[k],
            cur@ == split_parts(cs@.take(i as int), sep).last(),
        decreases cs.len() - i,
    {
        let ghost pre = split_parts(cs@.take(i as int), sep);
        assert(cs@.take(i + 1).drop_last() =~= cs@.take(i as int));
        let c = cs[i];
        if c == sep {
            let done = cur;
            parts.push(done);
            cur = Vec::new();
            i += 1;
            assert(split_parts(cs@.take(i as int), sep) == pre.push(Seq::<char>::empty()));
            assert(cur@ =~= Seq::<char>::empty());
        } else {
            cur.push(c);
            i += 1;
            proof {
                lemma_split_parts_nonempty(cs@.take(i - 1), sep);
            }
            assert(split_parts(cs@.take(i as int), sep) == pre.update(
                pre.len() - 1,
                pre.last().push(c),
            ));
        }
    }
    assert(cs@.take(cs@.len() as int) =~= cs@);
    parts.push(cur);
    parts
}

fn first_index_of(s: &Vec<char>, c: char) -> (r: Option<usize>)
    ensures
        match r {
            Some(k) => k < s@.len() && first_index(s@, c) == Some(k as int),
            None => first_index(s@, c) is None,
        },
{
    let mut i: usize = 0;
    assert(s@.skip(0) =~= s@);
    while i < s.len()
        invariant
            i <= s@.len(),
            forall|k: int| 0 <= k < i ==> s@[k] != c,
            first_index(s@, c) == match first_index(s@.skip(i as int), c) {
                Some(k) => Some(k + i),
                None => None,
            },
        decreases s.len() - i,
    {
        assert(s@.skip(i as int).drop_first() =~= s@.skip(i + 1));
        if s[i] == c {
            return Some(i);
        }
        i += 1;
    }
    None
}

fn trimmed_range(cs: &Vec<char>, from: usize, to: usize) -> (r: Vec<char>)
    requires
        from <= to <= cs@.len(),
    ensures
        r@ == trim(cs@.subrange(from as int, to as int)),
{
    let mut sub: Vec<char> = Vec::new();
    let mut i = from;
    while i < to
        invariant
            from <= i <= to <= cs@.len(),
            sub@ == cs@.subrange(from as int, i as int),
        decreases to - i,
    {
        sub.push(cs[i]);
        i += 1;
        assert(sub@ =~= cs@.subrange(from as int, i as int));
    }
    let (a, b) = trim_bounds(&sub);
    let mut out: Vec<char> = Vec::new();
    let mut k = a;
    while k < b
        invariant
            a <= k <= b <= sub@.len(),
            out@ == sub@.subrange(a as int, k as int),
        decreases b - k,
    {
        out.push(sub[k]);
        k += 1;
        assert(out@ =~= sub@.subrange(a as int, k as int));
    }
    out
}

/// The value of the named cookie in a `Cookie` header value, if present.
pub fn cookie(header: Option<&str>, name: &str) -> (r: Option<String>)
    ensures
        match header {
            None => r is None,
            Some(raw) => match spec_cookie(raw@, name@) {
                Some(v) => r matches Some(s) && s@ == v,
                None => r is None,
            },
        },
{
    let raw = match header {
        Some(h) => h,
        None => return None,
    };
    let cs = chars_of(raw);
    let want = chars_of(name);
    let parts = split_on(&cs, ';');
    let ghost ps = split_parts(cs@, ';');
    let mut i: usize = 0;
    assert(ps.skip(0) =~= ps);
    while i < parts.len()
        invariant
            i <= parts@.len() == ps.len(),
            want@ == name@,
            header == Some(raw),
            forall|k: int| 0 <= k < parts@.len() ==> (#[trigger] parts@[k])@ == ps[k],
            spec_cookie(raw@, name@) == cookie_in_parts(ps.skip(i as int), name@),
            ps == split_parts(raw@, ';'),
        decreases parts.len() - i,
    {
        let part = &parts[i];
        assert(ps.skip(i as int)[0] == part@);
        assert(ps.skip(i as int).drop_first() =~= ps.skip(i + 1));
        match first_index_of(part, '=') {
            Some(j) => {
                let key = trimmed_range(part, 0, j);
                assert(part@.subrange(0, j as int) =~= part@.take(j as int));
                let n = part.len();
                assert(j < n);
                if chars_eq(&key, &want) {
                    let val = trimmed_range(part, j + 1, n);
                    assert(part@.subrange(j + 1, part@.len() as int) =~= part@.skip(j + 1));
                    return Some(string_from_chars(&val));
                }
            },
            None => {},
        }
        i += 1;
    }
    None
}

/// `Set-Cookie` value for a fresh session.
pub open spec fn spec_session_cookie(id: Seq<char>, max_age_secs: int) -> Seq<char> {
    "okr_session="@ + id + "; HttpOnly; Secure; SameSite=Strict; Path=/; Max-Age="@
        + signed_decimal(max_age_secs)
}

/// The `Set-Cookie` value of a fresh session: `HttpOnly`, `Secure`,
/// `SameSite=Strict`, path `/`, living `max_age_secs` seconds.
pub fn set_session_cookie(id: &str, max_age_secs: i64) -> (r: String)
    ensures
        r@ == spec_session_cookie(id@, max_age_secs as int),
{
    let mut s = string_of("okr_session=");
    push_str(&mut s, id);
    push_str(&mut s, "; HttpOnly; Secure; SameSite=Strict; Path=/; Max-Age=");
    push_i64(&mut s, max_age_secs);
    assert(s@ =~= spec_session_cookie(id@, max_age_secs as int));
    s
}

/// `Set-Cookie` value that clears the session cookie.
pub fn clear_session_cookie() -> (r: String)
    ensures
        r@ == "okr_session=; HttpOnly; Secure; SameSite=Strict; Path=/; Max-Age=0"@,
{
    string_of("okr_session=; HttpOnly; Secure; SameSite=Strict; Path=/; Max-Age=0")
}

/// The CSRF rule for state-changing requests: a same-site signal is
/// `Sec-Fetch-Site` equal to `same-origin` or `none`, or an `Origin` exactly
/// equal to the configured RP origin. With neither signal the request fails
/// closed.
pub open spec fn spec_same_site(
    sec_fetch_site: Option<Seq<char>>,
    origin: Option<Seq<char>>,
    rp_origin: Seq<char>,
) -> bool {
    ||| (sec_fetch_site matches Some(site) && (site == "same-origin"@ || site == "none"@))
    ||| origin == Some(rp_origin)
}

/// CSRF defence: whether a state-changing request with these headers is
/// allowed.
pub fn is_same_site(sec_fetch_site: Option<&str>, origin: Option<&str>, rp_origin: &str) -> (r:
    bool)
    ensures
        r == spec_same_site(
            match sec_fetch_site {
                Some(s) => Some(s@),
                None => None,
            },
            match origin {
                Some(o) => Some(o@),
                None => None,
            },
            rp_origin@,
        ),
{
    let site_ok = match sec_fetch_site {
        Some(site) => str_eq(site, "same-origin") || str_eq(site, "none"),
        None => false,
    };
    if site_ok {
        return true;
    }
    match origin {
        Some(o) => str_eq(o, rp_origin),
        None => false,
    }
}

/// The CSRF check fails closed: a request with neither `Sec-Fetch-Site` nor
/// `Origin` is never same-site, and a `cross-site` or `same-site`
/// `Sec-Fetch-Site` is refused unless `Origin` is exactly the RP origin, in
/// which case the request passes.
pub proof fn law_csrf_fails_closed(origin: Option<Seq<char>>, rp_origin: Seq<char>)
    ensures
        !spec_same_site(None, None, rp_origin),
        spec_same_site(Some("cross-site"@), origin, rp_origin) <==> origin == Some(rp_origin),
        spec_same_site(Some("same-site"@), origin, rp_origin) <==> origin == Some(rp_origin),
        spec_same_site(None, origin, rp_origin) <==> origin == Some(rp_origin),
{
    reveal_strlit("cross-site");
    reveal_strlit("same-site");
    reveal_strlit("same-origin");
    reveal_strlit("none");
    assert("cross-site"@[0] != "same-origin"@[0]);
    assert("cross-site"@[0] != "none"@[0]);
    assert("same-site"@[5] != "same-origin"@[5]);
    assert("same-site"@[0] != "none"@[0]);
}

/// Whether a header is named `name` (ASCII case ignored).
pub open spec fn named(name: Seq<char>) -> spec_fn((Seq<char>, Seq<char>)) -> bool {
    |p: (Seq<char>, Seq<char>)| same_header_name(p.0, name)
}

proof fn lemma_filter_narrower(
    s: Seq<(Seq<char>, Seq<char>)>,
    p: spec_fn((Seq<char>, Seq<char>)) -> bool,
    q: spec_fn((Seq<char>, Seq<char>)) -> bool,
)
    requires
        forall|x: (Seq<char>, Seq<char>)| #[trigger] q(x) ==> p(x),
    ensures
        s.filter(p).filter(q) == s.filter(q),
    decreases s.len(),
{
    reveal(Seq::filter);
    if s.len() > 0 {
        lemma_filter_narrower(s.drop_last(), p, q);
        let a = s.drop_last().filter(p);
        if p(s.last()) {
            assert(a.push(s.last()).drop_last() =~= a);
        }
    }
}

proof fn lemma_filter_disjoint(
    s: Seq<(Seq<char>, Seq<char>)>,
    p: spec_fn((Seq<char>, Seq<char>)) -> bool,
    q: spec_fn((Seq<char>, Seq<char>)) -> bool,
)
    requires
        forall|x: (Seq<char>, Seq<char>)| #[trigger] q(x) ==> !p(x),
    ensures
        s.filter(p).filter(q) == Seq::<(Seq<char>, Seq<char>)>::empty(),
    decreases s.len(),
{
    reveal(Seq::filter);
    if s.len() > 0 {
        lemma_filter_disjoint(s.drop_last(), p, q);
        let a = s.drop_last().filter(p);
        if p(s.last()) {
            assert(!q(s.last()));
            assert(a.push(s.last()).drop_last() =~= a);
            assert(a.push(s.last()).last() == s.last());
        }
    } else {
        assert(s.filter(p) =~= s);
        assert(s.filter(p).filter(q) =~= Seq::<(Seq<char>, Seq<char>)>::empty());
    }
}

/// The headers named `m` after setting `n` to `v`: just the new one when `n`
/// and `m` are the same name, those of before otherwise.
proof fn lemma_header_set_named(h: Seq<(Seq<char>, Seq<char>)>, n: Seq<char>, v: Seq<char>, m: Seq<char>)
    ensures
        header_set(h, n, v).filter(named(m)) == if same_header_name(n, m) {
            seq![(n, v)]
        } else {
            h.filter(named(m))
        },
{
    let keep = |p: (Seq<char>, Seq<char>)| !same_header_name(p.0, n);
    let kept = h.filter(keep);
    kept.lemma_filter_push((n, v), named(m));
    if same_header_name(n, m) {
        lemma_filter_disjoint(h, keep, named(m));
        assert(seq![(n, v)] =~= Seq::<(Seq<char>, Seq<char>)>::empty().push((n, v)));
    } else {
        lemma_filter_narrower(h, keep, named(m));
    }
}

/// The seven security header names are pairwise different.
proof fn lemma_security_names_distinct()
    ensures
        forall|i: int, j: int|
            0 <= i < 7 && 0 <= j < 7 && i != j ==> !same_header_name(
                #[trigger] spec_security_headers()[i].0,
                #[trigger] spec_security_headers()[j].0,
            ),
{
    reveal_strlit("Content-Security-Policy");
    reveal_strlit("Strict-Transport-Security");
    reveal_strlit("X-Content-Type-Options");
    reveal_strlit("Referrer-Policy");
    reveal_strlit("X-Frame-Options");
    reveal_strlit("Permissions-Policy");
    reveal_strlit("Cross-Origin-Opener-Policy");
    let hs = spec_security_headers();
    assert forall|i: int, j: int| 0 <= i < 7 && 0 <= j < 7 && i != j implies !same_header_name(
        #[trigger] hs[i].0,
        #[trigger] hs[j].0,
    ) by {
        if hs[i].0.len() == hs[j].0.len() {
            assert(lower_all(hs[i].0)[0] != lower_all(hs[j].0)[0]);
        } else {
            assert(lower_all(hs[i].0).len() != lower_all(hs[j].0).len());
        }
    }
}

proof fn lemma_security_applied_named(h: Seq<(Seq<char>, Seq<char>)>, k: nat)
    requires
        k <= 7,
    ensures
        forall|i: int|
            0 <= i < k ==> #[trigger] security_applied(h, k).filter(named(spec_security_headers()[i].0))
                == seq![spec_security_headers()[i]],
        forall|n: Seq<char>|
            (forall|i: int| 0 <= i < k ==> !same_header_name(#[trigger] spec_security_headers()[i].0, n))
                ==> #[trigger] security_applied(h, k).filter(named(n)) == h.filter(named(n)),
    decreases k,
{
    if k > 0 {
        lemma_security_applied_named(h, (k - 1) as nat);
        lemma_security_names_distinct();
        let prev = security_applied(h, (k - 1) as nat);
        let e = spec_security_headers()[k - 1];
        assert forall|i: int| 0 <= i < k implies #[trigger] security_applied(h, k).filter(
            named(spec_security_headers()[i].0),
        ) == seq![spec_security_headers()[i]] by {
            lemma_header_set_named(prev, e.0, e.1, spec_security_headers()[i].0);
            if i < k - 1 {
                assert(!same_header_name(e.0, spec_security_headers()[i].0));
            }
        }
        assert forall|n: Seq<char>|
            (forall|i: int| 0 <= i < k ==> !same_header_name(#[trigger] spec_security_headers()[i].0, n))
            implies #[trigger] security_applied(h, k).filter(named(n)) == h.filter(named(n)) by {
            lemma_header_set_named(prev, e.0, e.1, n);
            assert(!same_header_name(spec_security_headers()[k - 1].0, n));
        }
    }
}

/// After the security headers are applied to any header list, each of the
/// seven is present exactly once with its strict value (the CSP with
/// `default-src 'self'`, `script-src 'self' 'wasm-unsafe-eval'`, `base-uri
/// 'none'`, `frame-ancestors 'none'` and `object-src 'none'`; HSTS
/// `max-age=31536000; includeSubDomains; preload`; `nosniff`; `no-referrer`;
/// `DENY`; the permissions policy; `same-origin`), whatever the list held
/// before, and every header of another name is kept as it was.
pub proof fn law_security_headers_applied(h: Seq<(Seq<char>, Seq<char>)>)
    ensures
        forall|i: int|
            0 <= i < 7 ==> #[trigger] security_applied(h, 7).filter(named(spec_security_headers()[i].0))
                == seq![spec_security_headers()[i]],
        forall|n: Seq<char>|
            (forall|i: int| 0 <= i < 7 ==> !same_header_name(#[trigger] spec_security_headers()[i].0, n))
                ==> #[trigger] security_applied(h, 7).filter(named(n)) == h.filter(named(n)),
        forall|i: int| 0 <= i < 7 ==> security_applied(h, 7).contains(#[trigger] spec_security_headers()[i]),
{
    lemma_security_applied_named(h, 7);
    assert forall|i: int| 0 <= i < 7 implies security_applied(h, 7).contains(
        #[trigger] spec_security_headers()[i],
    ) by {
        let e = spec_security_headers()[i];
        let f = security_applied(h, 7).filter(named(e.0));
        assert(f == seq![e]);
        assert(f[0] == e);
        assert(f.contains(e));
        security_applied(h, 7).lemma_filter_contains_rev(named(e.0), e);
    }
}

} // verus!
