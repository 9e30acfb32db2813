//! Ordered enumeration of a set of version numbers.
use vstd::prelude::*;

use std::collections::BTreeSet;
use vstd::std_specs::cmp::OrdSpec;
use vstd::std_specs::iter::IteratorSpec;

verus! {

broadcast use {vstd::std_specs::btree::group_btree_axioms, vstd::laws_cmp::group_laws_cmp};

pub open spec fn strictly_increasing(s: Seq<u64>) -> bool {
    forall|i: int, j: int| 0 <= i < j < s.len() ==> s[i] < s[j]
}

proof fn lemma_increasing_meaning<K: Ord>(s: Seq<K>)
    requires
        vstd::laws_cmp::obeys_cmp::<K>(),
        vstd::std_specs::btree::increasing_seq(s),
    ensures
        forall|i: int, j: int|
            #![trigger s[i], s[j]]
            0 <= i < j < s.len() ==> s[i].cmp_spec(&s[j]) == core::cmp::Ordering::Less,
{
    vstd::std_specs::btree::axiom_increasing_seq_meaning(s);
}

proof fn lemma_increasing_refs(s: Seq<&u64>)
    requires
        vstd::std_specs::btree::increasing_seq(s),
    ensures
        forall|i: int, j: int| 0 <= i < j < s.len() ==> *s[i] < *s[j],
{
    broadcast use vstd::laws_cmp::lemma_ref_obeys_cmp_spec;
    assert(vstd::laws_cmp::obeys_cmp::<u64>());
    assert(vstd::laws_cmp::obeys_cmp::<&u64>());
    lemma_increasing_meaning(s);
    assert forall|i: int, j: int| 0 <= i < j < s.len() implies *s[i] < *s[j] by {
        assert(s[i] == s[i] && s[j] == s[j]);
    }
}

/// The elements of `set`, in increasing order.
pub fn sorted_elements(set: &BTreeSet<u64>) -> (r: Vec<u64>)
    ensures
        r@.to_set() == set@,
        strictly_increasing(r@),
        r@.len() == set@.len(),
{
    let mut out: Vec<u64> = Vec::new();
    for v in it: set.iter()
        invariant
            out@ == it.seq().take(it.index()).map_values(|x: &u64| *x),
            it.seq() == vstd::std_specs::btree::spec_btree_keys_iter(set).remaining(),
    {
        out.push(*v);
        assert(out@ =~= it.seq().take(it.index() + 1).map_values(|x: &u64| *x));
    }
    proof {
        let rem = vstd::std_specs::btree::spec_btree_keys_iter(set).remaining();
        assert(out@ =~= rem.unref());
        lemma_increasing_refs(rem);
    }
    out
}

/// A set holding the elements of `items`.
pub fn set_of(items: &Vec<u64>) -> (r: BTreeSet<u64>)
    ensures
        r@ == items@.to_set(),
{
    let mut set = BTreeSet::new();
    let mut i: usize = 0;
    while i < items.len()
        invariant
            i <= items@.len(),
            set@ == items@.take(i as int).to_set(),
        decreases items.len() - i,
    {
        set.insert(items[i]);
        i += 1;
        assert(set@ =~= items@.take(i as int).to_set()) by {
            assert(items@.take(i as int) =~= items@.take(i - 1).push(items@[i - 1]));
            items@.take(i - 1).lemma_push_to_set_commute(items@[i - 1]);
        }
    }
    assert(items@.take(items@.len() as int) =~= items@);
    set
}

} // verus!
