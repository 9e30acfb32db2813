//! Fields of a JSON request body. A body that is not JSON reads as having no
//! fields; a field of the wrong type reads as absent.
use vstd::prelude::*;

use crate::text::string_of;
use crate::webauthn::{json_str_field, spec_json_str_field};

verus! {

/// The boolean field `key` of the JSON object in `json`
/// (`serde_json::from_slice::<serde_json::Value>`, then `Value::as_bool`).
pub uninterp spec fn spec_json_bool_field(json: Seq<u8>, key: Seq<char>) -> Option<bool>;

/// The unsigned integer field `key` of the JSON object in `json`
/// (`serde_json::from_slice::<serde_json::Value>`, then `Value::as_u64`).
pub uninterp spec fn spec_json_u64_field(json: Seq<u8>, key: Seq<char>) -> Option<u64>;

/// The items of the array field `key` of the JSON object in `json`, in order,
/// each as its string (`None` for an item that is not a string); `None` when
/// there is no such array.
pub uninterp spec fn spec_json_array_strs(json: Seq<u8>, key: Seq<char>) -> Option<Seq<Option<Seq<char>>>>;

#[verifier::external_body]
fn json_bool_field(json: &[u8], key: &str) -> (r: Option<bool>)
    ensures
        r == spec_json_bool_field(json@, key@),
{
    let value: serde_json::Value = serde_json::from_slice(json).ok()?;
    value.get(key)?.as_bool()
}

#[verifier::external_body]
fn json_u64_field(json: &[u8], key: &str) -> (r: Option<u64>)
    ensures
        r == spec_json_u64_field(json@, key@),
{
    let value: serde_json::Value = serde_json::from_slice(json).ok()?;
    value.get(key)?.as_u64()
}

/// The view of a list of optional strings.
pub open spec fn opt_views(v: Seq<Option<String>>) -> Seq<Option<Seq<char>>> {
    v.map_values(|o: Option<String>| match o {
        Some(s) => Some(s@),
        None => None,
    })
}

#[verifier::external_body]
fn json_array_strs(json: &[u8], key: &str) -> (r: Option<Vec<Option<String>>>)
    ensures
        match r {
            Some(v) => spec_json_array_strs(json@, key@) == Some(opt_views(v@)),
            None => spec_json_array_strs(json@, key@) is None,
        },
{
    let value: serde_json::Value = serde_json::from_slice(json).ok()?;
    let mut out = Vec::new();
    for item in value.get(key)?.as_array()? {
        out.push(item.as_str().map(String::from));
    }
    Some(out)
}

/// The strings among `items`, in order.
pub open spec fn strings_of(items: Seq<Option<Seq<char>>>) -> Seq<Seq<char>>
    decreases items.len(),
{
    if items.len() == 0 {
        Seq::empty()
    } else {
        let rest = strings_of(items.drop_last());
        match items.last() {
            Some(s) => rest.push(s),
            None => rest,
        }
    }
}

/// The boolean field `key` of the body, `false` when absent.
pub fn bool_field(body: &str, key: &str) -> (r: bool)
    ensures
        r == (spec_json_bool_field(vstd::utf8::encode_utf8(body@), key@) == Some(true)),
{
    match json_bool_field(body.as_bytes(), key) {
        Some(b) => b,
        None => false,
    }
}

/// The boolean field `key` of the body, when present.
pub fn opt_bool_field(body: &str, key: &str) -> (r: Option<bool>)
    ensures
        r == spec_json_bool_field(vstd::utf8::encode_utf8(body@), key@),
{
    json_bool_field(body.as_bytes(), key)
}

/// The unsigned integer field `key` of the body, `0` when absent.
pub fn u64_field(body: &str, key: &str) -> (r: u64)
    ensures
        r == match spec_json_u64_field(vstd::utf8::encode_utf8(body@), key@) {
            Some(n) => n,
            None => 0,
        },
{
    match json_u64_field(body.as_bytes(), key) {
        Some(n) => n,
        None => 0,
    }
}

/// The string items of the array field `key` of the body, in order (other
/// items skipped); none when there is no such array.
pub fn str_list_field(body: &str, key: &str) -> (r: Vec<String>)
    ensures
        r@.map_values(|s: String| s@) == match spec_json_array_strs(vstd::utf8::encode_utf8(body@), key@) {
            Some(items) => strings_of(items),
            None => Seq::empty(),
        },
{
    let mut out: Vec<String> = Vec::new();
    let items = match json_array_strs(body.as_bytes(), key) {
        Some(v) => v,
        None => {
            assert(out@.map_values(|s: String| s@) =~= Seq::<Seq<char>>::empty());
            return out;
        },
    };
    let ghost views = opt_views(items@);
    let mut i: usize = 0;
    while i < items.len()
        invariant
            i <= items@.len(),
            views == opt_views(items@),
            out@.map_values(|s: String| s@) == strings_of(views.take(i as int)),
        decreases items.len() - i,
    {
        assert(views.take(i + 1).drop_last() =~= views.take(i as int));
        let ghost before = out@;
        match &items[i] {
            Some(s) => {
                out.push(string_of(s.as_str()));
                assert(out@.map_values(|s: String| s@) =~= before.map_values(|s: String| s@).push(
                    views[i as int]->0,
                ));
            },
            None => {},
        }
        i += 1;
    }
    assert(views.take(items@.len() as int) =~= views);
    out
}

/// The string field `key` of the body, when present.
pub fn opt_str_field(body: &str, key: &str) -> (r: Option<String>)
    ensures
        match r {
            Some(v) => spec_json_str_field(vstd::utf8::encode_utf8(body@), key@) == Some(v@),
            None => spec_json_str_field(vstd::utf8::encode_utf8(body@), key@) is None,
        },
{
    json_str_field(body.as_bytes(), key)
}

} // verus!
