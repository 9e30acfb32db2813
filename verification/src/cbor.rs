//! The CBOR values that credential registration reads: a top-level map whose
//! keys and values are integers, byte strings or text strings.
use vstd::prelude::*;

use ciborium::value::Value as Cbor;

use crate::text::str_eq;

verus! {

/// A CBOR data item as far as the credential checks read it.
#[derive(Debug)]
pub enum CborScalar {
    Integer(i128),
    Bytes(Vec<u8>),
    Text(String),
    /// Any other item (float, bool, null, tag, array, map).
    Other,
}

/// A decoded top-level CBOR item.
#[derive(Debug)]
pub enum CborItem {
    /// A map, its entries in encoded order.
    Entries(Vec<(CborScalar, CborScalar)>),
    /// Any item that is not a map.
    NotMap,
}

/// What `ciborium::de::from_reader::<ciborium::value::Value, _>` yields for
/// `bytes` (`None` when decoding fails), read through `CborItem`.
pub uninterp spec fn spec_cbor_decode(bytes: Seq<u8>) -> Option<CborItem>;

/// `ciborium::de::from_reader` into a `ciborium::value::Value`, read through
/// `CborItem`. The decoded value is named, not described: CBOR decoding is the
/// crate's own.
#[verifier::external_body]
pub(crate) fn cbor_decode(bytes: &[u8]) -> (r: Option<CborItem>)
    ensures
        r == spec_cbor_decode(bytes@),
{
    let scalar = |v: Cbor| match v {
        Cbor::Integer(i) => CborScalar::Integer(i128::from(i)),
        Cbor::Bytes(b) => CborScalar::Bytes(b),
        Cbor::Text(t) => CborScalar::Text(t),
        _ => CborScalar::Other,
    };
    match ciborium::de::from_reader::<Cbor, _>(bytes) {
        Ok(Cbor::Map(m)) => Some(CborItem::Entries(m.into_iter().map(|(k, v)| (scalar(k), scalar(v))).collect())),
        Ok(_) => Some(CborItem::NotMap),
        Err(_) => None,
    }
}

/// The value of the first entry whose key is the text `key`.
pub open spec fn find_text_key(m: Seq<(CborScalar, CborScalar)>, key: Seq<char>) -> Option<
    CborScalar,
>
    decreases m.len(),
{
    if m.len() == 0 {
        None
    } else if m[0].0 matches CborScalar::Text(t) && t@ == key {
        Some(m[0].1)
    } else {
        find_text_key(m.drop_first(), key)
    }
}

/// The value of the first entry whose key is the integer `key`.
pub open spec fn find_int_key(m: Seq<(CborScalar, CborScalar)>, key: int) -> Option<CborScalar>
    decreases m.len(),
{
    if m.len() == 0 {
        None
    } else if m[0].0 matches CborScalar::Integer(k) && k == key {
        Some(m[0].1)
    } else {
        find_int_key(m.drop_first(), key)
    }
}

/// Index of the first entry whose key is the text `key`.
pub fn position_of_text_key(m: &Vec<(CborScalar, CborScalar)>, key: &str) -> (r: Option<usize>)
    ensures
        match r {
            Some(i) => i < m@.len() && find_text_key(m@, key@) == Some(m@[i as int].1),
            None => find_text_key(m@, key@) is None,
        },
{
    let mut i: usize = 0;
    assert(m@.skip(0) =~= m@);
    while i < m.len()
        invariant
            i <= m@.len(),
            find_text_key(m@, key@) == find_text_key(m@.skip(i as int), key@),
        decreases m.len() - i,
    {
        let ghost rest = m@.skip(i as int);
        assert(rest[0] == m@[i as int]);
        assert(rest.drop_first() =~= m@.skip(i + 1));
        let hit = match &m[i].0 {
            CborScalar::Text(t) => str_eq(t.as_str(), key),
            _ => false,
        };
        if hit {
            return Some(i);
        }
        i += 1;
    }
    None
}

/// Index of the first entry whose key is the integer `key`.
pub fn position_of_int_key(m: &Vec<(CborScalar, CborScalar)>, key: i128) -> (r: Option<usize>)
    ensures
        match r {
            Some(i) => i < m@.len() && find_int_key(m@, key as int) == Some(m@[i as int].1),
            None => find_int_key(m@, key as int) is None,
        },
{
    let mut i: usize = 0;
    assert(m@.skip(0) =~= m@);
    while i < m.len()
        invariant
            i <= m@.len(),
            find_int_key(m@, key as int) == find_int_key(m@.skip(i as int), key as int),
        decreases m.len() - i,
    {
        let ghost rest = m@.skip(i as int);
        assert(rest[0] == m@[i as int]);
        assert(rest.drop_first() =~= m@.skip(i + 1));
        let hit = match &m[i].0 {
            CborScalar::Integer(k) => *k == key,
            _ => false,
        };
        if hit {
            return Some(i);
        }
        i += 1;
    }
    None
}

} // verus!
