//! Markdown rendering and its safety rules.
//!
//! Raw HTML is never passed through; link destinations are allow-listed to
//! `http`, `https` and `mailto` (anything else becomes `#`); image sources to
//! `http` and `https` (anything else becomes empty); and every emitted `<img`
//! tag gets `referrerpolicy="no-referrer"` and `loading="lazy"`.
use vstd::prelude::*;

use pulldown_cmark::Event::{Html, InlineHtml, Start};
use pulldown_cmark::Tag::{Image, Link};
use pulldown_cmark::{html, Event, Options, Parser};

use crate::markdown::MdEventKind::{ImageStart, LinkStart, Other, RawHtml};
use crate::error::{DomainError, DomainResult};
use crate::text::{
    chars_of, is_space, lower, lower_all, lower_char, string_of, string_push, trim, trim_bounds, trim_end,
    trim_start,
};

verus! {

/// Maximum accepted Markdown source length, in bytes.
pub const MAX_MARKDOWN_LEN: usize = 50_000;

pub open spec fn starts_with(s: Seq<char>, p: Seq<char>) -> bool {
    p.len() <= s.len() && s.take(p.len() as int) == p
}

pub open spec fn link_schemes() -> Seq<Seq<char>> {
    seq!["http://"@, "https://"@, "mailto:"@]
}

pub open spec fn image_schemes() -> Seq<Seq<char>> {
    seq!["http://"@, "https://"@]
}

/// Whether `url` may be used under the allowed scheme prefixes: relative and
/// anchor links (no `:` and not protocol-relative) always may; otherwise the
/// trimmed, lower-cased URL must start with an allowed prefix.
pub open spec fn spec_scheme_allowed(url: Seq<char>, allowed: Seq<Seq<char>>) -> bool {
    let lower = lower_all(trim(url));
    if !lower.contains(':') && !starts_with(lower, "//"@) {
        true
    } else {
        exists|i: int| 0 <= i < allowed.len() && starts_with(lower, #[trigger] allowed[i])
    }
}

fn has_prefix(s: &Vec<char>, p: &str) -> (r: bool)
    ensures
        r == starts_with(s@, p@),
{
    let pc = chars_of(p);
    if pc.len() > s.len() {
        return false;
    }
    let mut i: usize = 0;
    while i < pc.len()
        invariant
            i <= pc@.len() <= s@.len(),
            pc@ == p@,
            forall|k: int| 0 <= k < i ==> s@[k] == pc@[k],
        decreases pc.len() - i,
    {
        if s[i] != pc[i] {
            assert(s@.take(pc@.len() as int)[i as int] != p@[i as int]);
            return false;
        }
        i += 1;
    }
    assert(s@.take(pc@.len() as int) =~= p@);
    true
}

fn contains_char(s: &Vec<char>, c: char) -> (r: bool)
    ensures
        r == s@.contains(c),
{
    let mut i: usize = 0;
    while i < s.len()
        invariant
            i <= s@.len(),
            forall|k: int| 0 <= k < i ==> s@[k] != c,
        decreases s.len() - i,
    {
        if s[i] == c {
            return true;
        }
        i += 1;
    }
    false
}

fn scheme_allowed(url: &str, allowed: &Vec<&str>) -> (r: bool)
    ensures
        r == spec_scheme_allowed(url@, allowed@.map_values(|a: &str| a@)),
{
    let cs = chars_of(url);
    let (a, b) = trim_bounds(&cs);
    let mut lc: Vec<char> = Vec::new();
    let mut i = a;
    while i < b
        invariant
            a <= i <= b <= cs@.len(),
            lc@ == lower_all(cs@.subrange(a as int, i as int)),
        decreases b - i,
    {
        lc.push(lower_char(cs[i]));
        i += 1;
        assert(lc@ =~= lower_all(cs@.subrange(a as int, i as int)));
    }
    let ghost allowed_v = allowed@.map_values(|x: &str| x@);
    if !contains_char(&lc, ':') && !has_prefix(&lc, "//") {
        return true;
    }
    let mut k: usize = 0;
    while k < allowed.len()
        invariant
            k <= allowed@.len(),
            lc@ == lower_all(trim(url@)),
            allowed_v == allowed@.map_values(|x: &str| x@),
            forall|j: int| 0 <= j < k ==> !starts_with(lc@, #[trigger] allowed_v[j]),
        decreases allowed.len() - k,
    {
        if has_prefix(&lc, allowed[k]) {
            assert(starts_with(lc@, allowed_v[k as int]));
            return true;
        }
        k += 1;
    }
    false
}

/// Whether a link destination is kept: relative links, or `http://`,
/// `https://`, `mailto:` (case-insensitive, after trimming).
pub fn link_allowed(url: &str) -> (r: bool)
    ensures
        r == spec_scheme_allowed(url@, link_schemes()),
        starts_with(lower_all(trim(url@)), "http://"@) || starts_with(lower_all(trim(url@)), "https://"@)
            || starts_with(lower_all(trim(url@)), "mailto:"@) ==> r,
        starts_with(lower_all(trim(url@)), "javascript:"@) || starts_with(lower_all(trim(url@)), "data:"@)
            ==> !r,
{
    let allowed: Vec<&str> = vec!["http://", "https://", "mailto:"];
    let r = scheme_allowed(url, &allowed);
    assert(allowed@.map_values(|a: &str| a@) =~= link_schemes());
    proof {
        law_scheme_prefixes(url@);
    }
    r
}

/// Whether an image source is kept: relative, `http://` or `https://`.
pub fn image_allowed(url: &str) -> (r: bool)
    ensures
        r == spec_scheme_allowed(url@, image_schemes()),
        starts_with(lower_all(trim(url@)), "http://"@) || starts_with(lower_all(trim(url@)), "https://"@)
            ==> r,
        starts_with(lower_all(trim(url@)), "javascript:"@) || starts_with(lower_all(trim(url@)), "data:"@)
            ==> !r,
{
    let allowed: Vec<&str> = vec!["http://", "https://"];
    let r = scheme_allowed(url, &allowed);
    assert(allowed@.map_values(|a: &str| a@) =~= image_schemes());
    proof {
        law_scheme_prefixes(url@);
    }
    r
}

/// The destination a link is rendered with: the URL itself when allowed,
/// otherwise the neutral `#`.
pub fn link_destination(url: &str) -> (r: String)
    ensures
        r@ == if spec_scheme_allowed(url@, link_schemes()) { url@ } else { "#"@ },
{
    if link_allowed(url) {
        string_of(url)
    } else {
        string_of("#")
    }
}

/// The source an image is rendered with: the URL itself when allowed,
/// otherwise empty.
pub fn image_destination(url: &str) -> (r: String)
    ensures
        r@ == if spec_scheme_allowed(url@, image_schemes()) { url@ } else { ""@ },
{
    if image_allowed(url) {
        string_of(url)
    } else {
        string_of("")
    }
}

/// Every non-overlapping occurrence of `pat`, scanning left to right, replaced
/// by `rep` (as `str::replace` does).
pub open spec fn replace_all(s: Seq<char>, pat: Seq<char>, rep: Seq<char>) -> Seq<char>
    recommends
        pat.len() > 0,
    decreases s.len(),
{
    if s.len() == 0 || pat.len() == 0 {
        s
    } else if starts_with(s, pat) {
        rep + replace_all(s.skip(pat.len() as int), pat, rep)
    } else {
        seq![s[0]] + replace_all(s.skip(1), pat, rep)
    }
}

pub open spec fn img_tag() -> Seq<char> {
    "<img "@
}

pub open spec fn hardened_img_tag() -> Seq<char> {
    "<img referrerpolicy=\"no-referrer\" loading=\"lazy\" "@
}

fn starts_at(s: &Vec<char>, i: usize, p: &Vec<char>) -> (r: bool)
    requires
        i <= s@.len(),
    ensures
        r == starts_with(s@.skip(i as int), p@),
{
    if p.len() > s.len() - i {
        return false;
    }
    let mut k: usize = 0;
    while k < p.len()
        invariant
            k <= p@.len(),
            i + p@.len() <= s@.len(),
            s@.len() == s.len(),
            forall|j: int| 0 <= j < k ==> s@[i + j] == p@[j],
        decreases p.len() - k,
    {
        if s[i + k] != p[k] {
            assert(s@.skip(i as int).take(p@.len() as int)[k as int] != p@[k as int]);
            return false;
        }
        k += 1;
    }
    assert(s@.skip(i as int).take(p@.len() as int) =~= p@);
    true
}

/// Harden rendered HTML: add `referrerpolicy="no-referrer"` and
/// `loading="lazy"` to every `<img ` tag.
pub fn harden_images(html: &str) -> (r: String)
    ensures
        r@ == replace_all(html@, img_tag(), hardened_img_tag()),
{
    let cs = chars_of(html);
    let pat = chars_of("<img ");
    let rep = chars_of("<img referrerpolicy=\"no-referrer\" loading=\"lazy\" ");
    let mut out = String::new();
    let mut i: usize = 0;
    proof {
        reveal_strlit("<img ");
    }
    assert(pat@.len() == 5);
    assert(cs@.skip(0) =~= cs@);
    while i < cs.len()
        invariant
            i <= cs@.len(),
            pat@ == img_tag(),
            pat@.len() == 5,
            rep@ == hardened_img_tag(),
            out@ + replace_all(cs@.skip(i as int), pat@, rep@) == replace_all(cs@, pat@, rep@),
        decreases cs.len() - i,
    {
        let ghost rest = cs@.skip(i as int);
        let ghost o = out@;
        if starts_at(&cs, i, &pat) {
            let mut k: usize = 0;
            while k < rep.len()
                invariant
                    k <= rep@.len(),
                    out@ == o + rep@.take(k as int),
                decreases rep.len() - k,
            {
                string_push(&mut out, rep[k]);
                k += 1;
                assert(out@ =~= o + rep@.take(k as int));
            }
            proof {
                assert(rep@.take(rep@.len() as int) =~= rep@);
                assert(rest.skip(pat@.len() as int) =~= cs@.skip(i + pat@.len()));
                assert(out@ + replace_all(rest.skip(pat@.len() as int), pat@, rep@) =~= o
                    + replace_all(rest, pat@, rep@));
            }
            i += pat.len();
        } else {
            string_push(&mut out, cs[i]);
            proof {
                assert(rest[0] == cs@[i as int]);
                assert(rest.skip(1) =~= cs@.skip(i + 1));
                assert(out@ + replace_all(rest.skip(1), pat@, rep@) =~= o + replace_all(
                    rest,
                    pat@,
                    rep@,
                ));
            }
            i += 1;
        }
    }
    assert(cs@.skip(cs@.len() as int) =~= Seq::<char>::empty());
    out
}

/// What rendering sees of a Markdown event.
#[derive(Debug, Clone, PartialEq, Eq)]
pub enum MdEventKind {
    /// Raw HTML, as a block or inline.
    RawHtml,
    /// The start of a link to a destination.
    LinkStart(String),
    /// The start of an image with a source.
    ImageStart(String),
    /// Anything else (text, structure, code, breaks).
    Other,
}

/// What rendering does with a Markdown event.
#[derive(Debug, Clone, PartialEq, Eq)]
pub enum MdEventAction {
    /// Pass the event through unchanged.
    Keep,
    /// Drop the event: raw HTML never reaches the output.
    Drop,
    /// Pass the event through with this destination (link) or source (image).
    Redirect(String),
}

/// The sanitisation rule for one event.
pub fn event_action(event: &MdEventKind) -> (r: MdEventAction)
    ensures
        match event {
            MdEventKind::RawHtml => r == MdEventAction::Drop,
            MdEventKind::Other => r == MdEventAction::Keep,
            MdEventKind::LinkStart(d) => r matches MdEventAction::Redirect(x) && x@ == (if spec_scheme_allowed(
                d@,
                link_schemes(),
            ) {
                d@
            } else {
                "#"@
            }),
            MdEventKind::ImageStart(d) => r matches MdEventAction::Redirect(x) && x@ == (if spec_scheme_allowed(
                d@,
                image_schemes(),
            ) {
                d@
            } else {
                ""@
            }),
        },
{
    match event {
        MdEventKind::RawHtml => MdEventAction::Drop,
        MdEventKind::Other => MdEventAction::Keep,
        MdEventKind::LinkStart(d) => MdEventAction::Redirect(link_destination(d.as_str())),
        MdEventKind::ImageStart(d) => MdEventAction::Redirect(image_destination(d.as_str())),
    }
}

/// Rendered links and images only point to allowed destinations: whatever
/// the source URL, the destination rendering uses passes the allow-list.
pub proof fn law_rendered_destinations_are_allowed(url: Seq<char>)
    ensures
        spec_scheme_allowed(
            if spec_scheme_allowed(url, link_schemes()) {
                url
            } else {
                "#"@
            },
            link_schemes(),
        ),
        spec_scheme_allowed(
            if spec_scheme_allowed(url, image_schemes()) {
                url
            } else {
                ""@
            },
            image_schemes(),
        ),
{
    reveal_strlit("#");
    reveal_strlit("");
    reveal_strlit("//");
    let h = "#"@;
    assert(!is_space(h[0]));
    assert(trim_start(h) == h);
    assert(trim_end(h) == h);
    assert(lower_all(h) =~= h);
    assert(!h.contains(':'));
    assert(!starts_with(h, "//"@)) by {
        assert("//"@.len() == 2);
    }
    let e = ""@;
    assert(trim(e) == e);
    assert(lower_all(e) =~= e);
    assert(!e.contains(':'));
}

/// The kinds of the events `pulldown-cmark` parses from `md` (with
/// strikethrough, tables and task lists; broken reference links left as
/// text), in order.
pub uninterp spec fn spec_md_event_kinds(md: Seq<char>) -> Seq<MdEventKind>;

/// The HTML `pulldown-cmark`'s `html::push_html` writes for the events of
/// `md` listed in `plan`, in plan order: each entry names an event by its
/// index in the parse of `md` and, for a link or an image, the destination
/// it is written with.
pub uninterp spec fn spec_md_write(md: Seq<char>, plan: Seq<(int, Option<Seq<char>>)>) -> Seq<char>;

/// `Parser::new_ext` (pulldown-cmark), each event seen as its kind.
#[verifier::external_body]
fn md_event_kinds(md: &str) -> (r: Vec<MdEventKind>)
    ensures
        r@ == spec_md_event_kinds(md@),
{
    Parser::new_ext(md, Options::ENABLE_STRIKETHROUGH | Options::ENABLE_TABLES | Options::ENABLE_TASKLISTS)
        .map(|e| match e {
            Html(_) | InlineHtml(_) => RawHtml,
            Start(Link { dest_url, .. }) => LinkStart(dest_url.to_string()),
            Start(Image { dest_url, .. }) => ImageStart(dest_url.to_string()),
            _ => Other,
        })
        .collect()
}

/// A plan as plain values: event indices and destinations.
pub open spec fn plan_view(plan: Seq<(usize, Option<String>)>) -> Seq<(int, Option<Seq<char>>)> {
    plan.map_values(
        |e: (usize, Option<String>)|
            (
                e.0 as int,
                match e.1 {
                    Some(d) => Some(d@),
                    None => None,
                },
            ),
    )
}

/// `html::push_html` (pulldown-cmark) over the events of
/// `Parser::new_ext(md)` that `plan` lists, each link or image given the
/// destination the plan holds for it.
#[verifier::external_body]
fn md_write(md: &str, plan: &Vec<(usize, Option<String>)>) -> (r: String)
    requires
        forall|j: int| 0 <= j < plan@.len() ==> (#[trigger] plan@[j]).0 < spec_md_event_kinds(md@).len(),
    ensures
        r@ == spec_md_write(md@, plan_view(plan@)),
{
    let events: Vec<Event> = Parser::new_ext(md, Options::ENABLE_STRIKETHROUGH | Options::ENABLE_TABLES | Options::ENABLE_TASKLISTS).collect();
    let chosen = plan.iter().map(|(i, dest)| {
        let mut e = events[*i].clone();
        if let (Some(d), Start(Link { dest_url, .. } | Image { dest_url, .. })) = (dest, &mut e) {
            *dest_url = d.clone().into();
        }
        e
    });
    let mut out = String::new();
    html::push_html(&mut out, chosen);
    out
}

/// The destination a link is written with.
pub open spec fn link_target(url: Seq<char>) -> Seq<char> {
    if spec_scheme_allowed(url, link_schemes()) {
        url
    } else {
        "#"@
    }
}

/// The source an image is written with.
pub open spec fn image_source(url: Seq<char>) -> Seq<char> {
    if spec_scheme_allowed(url, image_schemes()) {
        url
    } else {
        ""@
    }
}

/// What is written for an event of this kind: nothing (`None`), or the event
/// with the destination given (`Some(Some(..))`, links and images) or as it
/// is (`Some(None)`).
pub open spec fn md_step(kind: MdEventKind) -> Option<Option<Seq<char>>> {
    match kind {
        MdEventKind::RawHtml => None,
        MdEventKind::Other => Some(None),
        MdEventKind::LinkStart(d) => Some(Some(link_target(d@))),
        MdEventKind::ImageStart(d) => Some(Some(image_source(d@))),
    }
}

/// The events written for a parse with these kinds, in order.
pub open spec fn sanitise_plan(kinds: Seq<MdEventKind>) -> Seq<(int, Option<Seq<char>>)>
    decreases kinds.len(),
{
    if kinds.len() == 0 {
        Seq::empty()
    } else {
        let p = sanitise_plan(kinds.drop_last());
        match md_step(kinds.last()) {
            None => p,
            Some(d) => p.push((kinds.len() - 1, d)),
        }
    }
}

/// A plan sanitises a parse: it lists, in order and once each, exactly the
/// events that are not raw HTML; it writes links with their allow-listed
/// destination, images with their allow-listed source, and other events as
/// they are.
pub open spec fn plan_sanitises(kinds: Seq<MdEventKind>, plan: Seq<(int, Option<Seq<char>>)>) -> bool {
    &&& forall|j: int|
        0 <= j < plan.len() ==> 0 <= (#[trigger] plan[j]).0 < kinds.len() && !(kinds[plan[j].0] is RawHtml)
    &&& forall|j: int, k: int| 0 <= j < k < plan.len() ==> (#[trigger] plan[j]).0 < (#[trigger] plan[k]).0
    &&& forall|i: int|
        0 <= i < kinds.len() && !(#[trigger] kinds[i] is RawHtml) ==> exists|j: int|
            0 <= j < plan.len() && (#[trigger] plan[j]).0 == i
    &&& forall|j: int|
        0 <= j < plan.len() ==> match kinds[(#[trigger] plan[j]).0] {
            MdEventKind::LinkStart(d) => plan[j].1 == Some(link_target(d@)),
            MdEventKind::ImageStart(d) => plan[j].1 == Some(image_source(d@)),
            _ => plan[j].1 is None,
        }
}

proof fn lemma_sanitise_plan(kinds: Seq<MdEventKind>)
    ensures
        plan_sanitises(kinds, sanitise_plan(kinds)),
        forall|j: int| 0 <= j < sanitise_plan(kinds).len() ==> (#[trigger] sanitise_plan(kinds)[j]).0 < kinds.len(),
    decreases kinds.len(),
{
    if kinds.len() > 0 {
        let d = kinds.drop_last();
        lemma_sanitise_plan(d);
        let p = sanitise_plan(d);
        let q = sanitise_plan(kinds);
        let n = kinds.len() - 1;
        assert forall|j: int| 0 <= j < p.len() implies kinds[(#[trigger] p[j]).0] == d[p[j].0] by {}
        assert forall|i: int| 0 <= i < kinds.len() && !(#[trigger] kinds[i] is RawHtml) implies exists|j: int|
            0 <= j < q.len() && (#[trigger] q[j]).0 == i by {
            if i < n {
                assert(d[i] == kinds[i]);
                let j = choose|j: int| 0 <= j < p.len() && (#[trigger] p[j]).0 == i;
                assert(q[j] == p[j]);
            } else {
                assert(q[q.len() - 1].0 == n);
            }
        }
    }
}

/// The sanitisation plan of a parse: every event but raw HTML, links and
/// images with the destination `event_action` gives them.
pub fn sanitise_plan_of(kinds: &Vec<MdEventKind>) -> (r: Vec<(usize, Option<String>)>)
    ensures
        plan_view(r@) == sanitise_plan(kinds@),
{
    let mut plan: Vec<(usize, Option<String>)> = Vec::new();
    let mut i: usize = 0;
    while i < kinds.len()
        invariant
            i <= kinds@.len(),
            plan_view(plan@) == sanitise_plan(kinds@.take(i as int)),
        decreases kinds.len() - i,
    {
        let ghost before = plan@;
        assert(kinds@.take(i + 1).drop_last() =~= kinds@.take(i as int));
        assert(kinds@.take(i + 1).last() == kinds@[i as int]);
        match event_action(&kinds[i]) {
            MdEventAction::Drop => {},
            MdEventAction::Keep => {
                plan.push((i, None));
            },
            MdEventAction::Redirect(d) => {
                plan.push((i, Some(d)));
            },
        }
        proof {
            reveal_strlit("#");
            reveal_strlit("");
            assert(plan_view(plan@) =~= sanitise_plan(kinds@.take(i + 1)));
        }
        i += 1;
    }
    assert(kinds@.take(kinds@.len() as int) =~= kinds@);
    plan
}

/// Render Markdown into sanitised HTML: the writer is handed exactly the
/// parsed events that are not raw HTML, in order; links point to their
/// allow-listed destination (else `#`) and images to their allow-listed
/// source (else nothing); and every `<img ` tag of the output is hardened
/// with `referrerpolicy="no-referrer"` and `loading="lazy"`.
pub fn render(md: &str) -> (r: String)
    ensures
        ({
            let kinds = spec_md_event_kinds(md@);
            let plan = sanitise_plan(kinds);
            &&& r@ == replace_all(spec_md_write(md@, plan), img_tag(), hardened_img_tag())
            &&& plan_sanitises(kinds, plan)
            &&& forall|j: int|
                0 <= j < plan.len() ==> match kinds[(#[trigger] plan[j]).0] {
                    MdEventKind::LinkStart(_) => spec_scheme_allowed(plan[j].1->0, link_schemes()),
                    MdEventKind::ImageStart(_) => spec_scheme_allowed(plan[j].1->0, image_schemes()),
                    _ => true,
                }
        }),
{
    let kinds = md_event_kinds(md);
    let plan = sanitise_plan_of(&kinds);
    proof {
        lemma_sanitise_plan(kinds@);
        let p = sanitise_plan(kinds@);
        assert forall|j: int| 0 <= j < plan@.len() implies (#[trigger] plan@[j]).0 < spec_md_event_kinds(md@).len() by {
            assert(plan_view(plan@)[j].0 == plan@[j].0 as int);
            assert(p[j].0 < kinds@.len());
        }
        assert forall|j: int| 0 <= j < p.len() implies match kinds@[(#[trigger] p[j]).0] {
            MdEventKind::LinkStart(_) => spec_scheme_allowed(p[j].1->0, link_schemes()),
            MdEventKind::ImageStart(_) => spec_scheme_allowed(p[j].1->0, image_schemes()),
            _ => true,
        } by {
            match kinds@[p[j].0] {
                MdEventKind::LinkStart(d) => law_rendered_destinations_are_allowed(d@),
                MdEventKind::ImageStart(d) => law_rendered_destinations_are_allowed(d@),
                _ => {},
            }
        }
    }
    let html = md_write(md, &plan);
    harden_images(html.as_str())
}

/// Allowed schemes, stated with their prefixes: a URL whose trimmed,
/// lower-cased text starts with `http://` or `https://` is kept as an image
/// source and as a link destination, one starting with `mailto:` as a link
/// destination; one starting with `javascript:` or `data:` is kept as
/// neither.
pub proof fn law_scheme_prefixes(url: Seq<char>)
    ensures
        ({
            let l = lower_all(trim(url));
            &&& (starts_with(l, "http://"@) || starts_with(l, "https://"@)) ==> spec_scheme_allowed(
                url,
                image_schemes(),
            ) && spec_scheme_allowed(url, link_schemes())
            &&& starts_with(l, "mailto:"@) ==> spec_scheme_allowed(url, link_schemes())
            &&& (starts_with(l, "javascript:"@) || starts_with(l, "data:"@)) ==> !spec_scheme_allowed(
                url,
                image_schemes(),
            ) && !spec_scheme_allowed(url, link_schemes())
        }),
{
    reveal_strlit("http://");
    reveal_strlit("https://");
    reveal_strlit("mailto:");
    reveal_strlit("javascript:");
    reveal_strlit("data:");
    reveal_strlit("//");
    let l = lower_all(trim(url));
    if starts_with(l, "http://"@) {
        assert(l.take(7)[4] == l[4] && "http://"@[4] == ':');
        assert(l[4] == ':');
        assert(image_schemes()[0] == "http://"@);
        assert(link_schemes()[0] == "http://"@);
    }
    if starts_with(l, "https://"@) {
        assert(l.take(8)[5] == l[5] && "https://"@[5] == ':');
        assert(l[5] == ':');
        assert(image_schemes()[1] == "https://"@);
        assert(link_schemes()[1] == "https://"@);
    }
    if starts_with(l, "mailto:"@) {
        assert(l.take(7)[6] == l[6] && "mailto:"@[6] == ':');
        assert(l[6] == ':');
        assert(link_schemes()[2] == "mailto:"@);
    }
    if starts_with(l, "javascript:"@) || starts_with(l, "data:"@) {
        if starts_with(l, "javascript:"@) {
            assert(l.take(11)[10] == l[10] && "javascript:"@[10] == ':');
            assert(l.take(11)[0] == l[0] && "javascript:"@[0] == 'j');
            assert(l[10] == ':');
            assert(l[0] == 'j');
        } else {
            assert(l.take(5)[4] == l[4] && "data:"@[4] == ':');
            assert(l.take(5)[0] == l[0] && "data:"@[0] == 'd');
            assert(l[4] == ':');
            assert(l[0] == 'd');
        }
        assert(l.contains(':'));
        assert forall|i: int| 0 <= i < link_schemes().len() implies !starts_with(l, #[trigger] link_schemes()[i]) by {
            assert(link_schemes()[i][0] != l[0]);
        }
        assert forall|i: int| 0 <= i < image_schemes().len() implies !starts_with(l, #[trigger] image_schemes()[i]) by {
            assert(image_schemes()[i][0] != l[0]);
        }
    }
}

} // verus!
