//! JSON text as `serde_json` writes it: string literals and flat objects.
use vstd::prelude::*;

use crate::fmt::signed_decimal;
use crate::ids::hex_digit;

verus! {

/// How `serde_json` writes one character inside a JSON string: `"` and `\`
/// behind a backslash, the control characters with a short escape (`\b`,
/// `\t`, `\n`, `\f`, `\r`) or as `\u00` and two lower-case hex
/// digits, every other character as itself.
pub open spec fn json_escaped(c: char) -> Seq<char> {
    if c == '"' {
        seq!['\\', '"']
    } else if c == '\\' {
        seq!['\\', '\\']
    } else if c == '\u{8}' {
        seq!['\\', 'b']
    } else if c == '\t' {
        seq!['\\', 't']
    } else if c == '\n' {
        seq!['\\', 'n']
    } else if c == '\u{c}' {
        seq!['\\', 'f']
    } else if c == '\r' {
        seq!['\\', 'r']
    } else if (c as u32) < 0x20 {
        seq!['\\', 'u', '0', '0', hex_digit(((c as u32) / 16) as int), hex_digit(((c as u32) % 16) as int)]
    } else {
        seq![c]
    }
}

/// The characters of `s`, each escaped.
pub open spec fn json_escaped_all(s: Seq<char>) -> Seq<char>
    decreases s.len(),
{
    if s.len() == 0 {
        Seq::empty()
    } else {
        json_escaped_all(s.drop_last()) + json_escaped(s.last())
    }
}

/// The JSON string literal of `s`, as `serde_json` writes it: quoted, with
/// each character escaped.
pub open spec fn spec_json_quote(s: Seq<char>) -> Seq<char> {
    seq!['"'] + json_escaped_all(s) + seq!['"']
}

/// Whether `a` sorts before `b`, character by character (the order of
/// `String` keys, as UTF-8 bytes order like their code points).
pub open spec fn char_seq_lt(a: Seq<char>, b: Seq<char>) -> bool
    decreases a.len(),
{
    if a.len() == 0 {
        b.len() > 0
    } else if b.len() == 0 {
        false
    } else if a[0] != b[0] {
        (a[0] as u32) < (b[0] as u32)
    } else {
        char_seq_lt(a.drop_first(), b.drop_first())
    }
}

/// A JSON value of an object member: a string, an integer or a boolean.
#[derive(Debug, Clone, PartialEq, Eq)]
pub enum JsonScalar {
    Str(String),
    Int(i64),
    Bool(bool),
}

/// How `serde_json` writes a member value.
pub open spec fn json_scalar_text(v: JsonScalar) -> Seq<char> {
    match v {
        JsonScalar::Str(s) => spec_json_quote(s@),
        JsonScalar::Int(n) => signed_decimal(n as int),
        JsonScalar::Bool(b) => if b {
            "true"@
        } else {
            "false"@
        },
    }
}

/// One member: the quoted key, `:`, the value.
pub open spec fn json_member(e: (String, JsonScalar)) -> Seq<char> {
    spec_json_quote(e.0@) + seq![':'] + json_scalar_text(e.1)
}

/// The members, separated by `,`.
pub open spec fn json_members(es: Seq<(String, JsonScalar)>) -> Seq<char>
    decreases es.len(),
{
    if es.len() == 0 {
        Seq::empty()
    } else if es.len() == 1 {
        json_member(es[0])
    } else {
        json_members(es.drop_last()) + seq![','] + json_member(es.last())
    }
}

/// The object with these members, in this order, as `serde_json` writes it
/// compactly.
pub open spec fn spec_json_object(es: Seq<(String, JsonScalar)>) -> Seq<char> {
    seq!['{'] + json_members(es) + seq!['}']
}

/// Keys in strictly ascending order.
pub open spec fn keys_ascending(es: Seq<(String, JsonScalar)>) -> bool {
    forall|i: int, j: int| 0 <= i < j < es.len() ==> char_seq_lt((#[trigger] es[i]).0@, (#[trigger] es[j]).0@)
}

/// `serde_json::Value::Object(..).to_string()` for an object holding these
/// members. `serde_json`'s map keeps its keys sorted, so members given in
/// strictly ascending key order are written in that order; each string is
/// written as `spec_json_quote` says, an integer in decimal, a boolean as
/// `true` or `false`.
#[verifier::external_body]
pub(crate) fn json_object(entries: &Vec<(String, JsonScalar)>) -> (r: String)
    requires
        keys_ascending(entries@),
    ensures
        r@ == spec_json_object(entries@),
{
    let mut m = serde_json::Map::new();
    for (k, v) in entries {
        m.insert(k.clone(), match v {
            JsonScalar::Str(s) => serde_json::Value::String(s.clone()),
            JsonScalar::Int(n) => serde_json::Value::from(*n),
            JsonScalar::Bool(b) => serde_json::Value::Bool(*b),
        });
    }
    serde_json::Value::Object(m).to_string()
}

/// The text of one, two or three members.
pub proof fn lemma_members_unfold(es: Seq<(String, JsonScalar)>)
    ensures
        es.len() == 1 ==> json_members(es) == json_member(es[0]),
        es.len() == 2 ==> json_members(es) == json_member(es[0]) + seq![','] + json_member(es[1]),
        es.len() == 3 ==> json_members(es) == json_member(es[0]) + seq![','] + json_member(es[1])
            + seq![','] + json_member(es[2]),
{
    reveal_with_fuel(json_members, 3);
    if es.len() == 2 {
        assert(es.last() == es[1]);
        assert(es.drop_last().len() == 1);
        assert(es.drop_last()[0] == es[0]);
    }
    if es.len() == 3 {
        let d = es.drop_last();
        assert(d.drop_last().len() == 1);
        assert(d.drop_last()[0] == es[0]);
        assert(d.last() == es[1]);
        assert(es.last() == es[2]);
        assert(json_members(d) == json_member(es[0]) + seq![','] + json_member(es[1]));
    }
}

} // verus!
