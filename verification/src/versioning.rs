//! Formal versioning model, as a pure state machine so that the counter /
//! revert / burn rules hold independently of any storage backend.
//!
//! Both groups and OKRs use it. `VersionState` is the projection of an entity's
//! version bookkeeping; the request layer maps it onto the persisted
//! `current_version` / `next_version_counter` columns and the per-version
//! `valid` flags.
use vstd::prelude::*;

use std::collections::BTreeSet;

use crate::error::{DomainError, DomainResult};
use crate::text::{push_str, string_of};
use crate::fmt::{decimal, push_u64};
use crate::sorted::{sorted_elements, strictly_increasing};

verus! {

broadcast use {vstd::std_specs::btree::group_btree_axioms, vstd::laws_cmp::group_laws_cmp};

/// The versioning bookkeeping for a single entity.
#[derive(Debug, Clone, PartialEq, Eq)]
pub struct VersionState {
    /// Monotonic; only ever increases.
    pub next_version_counter: u64,
    /// Points at the authoritative version for display.
    pub current_version: u64,
    /// Versions that are still valid (not burned by a revert).
    pub valid_versions: BTreeSet<u64>,
}

/// The mathematical content of a `VersionState`.
pub struct VersionView {
    pub counter: u64,
    pub current: u64,
    pub valid: Set<u64>,
}

impl View for VersionState {
    type V = VersionView;

    open spec fn view(&self) -> VersionView {
        VersionView {
            counter: self.next_version_counter,
            current: self.current_version,
            valid: self.valid_versions@,
        }
    }
}

impl VersionView {
    /// Well-formed bookkeeping: the current version is valid, and every valid
    /// version is a number already handed out (positive, below the counter).
    pub open spec fn wf(self) -> bool {
        &&& self.valid.finite()
        &&& self.valid.contains(self.current)
        &&& forall|v: u64| #[trigger] self.valid.contains(v) ==> 1 <= v < self.counter
    }

    /// The state after an edit: the counter's value becomes a new valid,
    /// current version and the counter moves on by one.
    pub open spec fn edited(self) -> VersionView {
        VersionView {
            counter: (self.counter + 1) as u64,
            current: self.counter,
            valid: self.valid.insert(self.counter),
        }
    }

    /// Whether a revert to `n` is allowed: `n` is valid and not current.
    pub open spec fn can_revert_to(self, n: u64) -> bool {
        self.valid.contains(n) && n != self.current
    }

    /// The versions a revert to `n` burns: every valid version above `n`.
    pub open spec fn burned_by(self, n: u64) -> Set<u64> {
        self.valid.filter(|v: u64| v > n)
    }

    /// The state after a revert to `n`: `n` becomes current, every version
    /// above it is burned, and the counter is not rewound.
    pub open spec fn reverted(self, n: u64) -> VersionView {
        VersionView {
            counter: self.counter,
            current: n,
            valid: self.valid.filter(|v: u64| v <= n),
        }
    }
}

/// The state of a brand-new entity.
pub open spec fn created_view() -> VersionView {
    VersionView { counter: 2, current: 1, valid: set![1u64] }
}

/// Outcome of an edit: a freshly allocated version number and the updated
/// state. The caller persists a new version row with `valid = true`.
#[derive(Debug, Clone, PartialEq, Eq)]
pub struct EditOutcome {
    pub new_version: u64,
    pub state: VersionState,
}

/// Outcome of a revert: which versions were burned, plus the updated state.
#[derive(Debug, Clone, PartialEq, Eq)]
pub struct RevertOutcome {
    pub target_version: u64,
    /// Versions whose `valid` flag must be set to false, in increasing order.
    pub burned: Vec<u64>,
    pub state: VersionState,
}

/// The message of a refused revert to `n`.
pub open spec fn revert_refusal(view: VersionView, n: u64) -> Seq<char> {
    if !view.valid.contains(n) {
        "cannot revert to version "@ + decimal(n as int) + ": not a valid version"@
    } else {
        "version "@ + decimal(n as int) + " is already current"@
    }
}

impl VersionState {
    /// Create a brand-new entity: version 1, counter 2, current 1.
    pub fn create() -> (r: EditOutcome)
        ensures
            r.new_version == 1,
            r.state@ == created_view(),
    {
        let mut valid = BTreeSet::new();
        valid.insert(1u64);
        let r = EditOutcome {
            new_version: 1,
            state: VersionState { next_version_counter: 2, current_version: 1, valid_versions: valid },
        };
        assert(r.state@.valid =~= set![1u64]);
        r
    }

    /// Edit the definition: allocate `next_version_counter`, increment the
    /// counter, mark the new version valid, make it current.
    pub fn edit(&self) -> (r: EditOutcome)
        requires
            self.next_version_counter < u64::MAX,
        ensures
            r.new_version == self.next_version_counter,
            r.state@ == self@.edited(),
    {
        let new_version = self.next_version_counter;
        let mut valid = self.valid_versions.clone();
        valid.insert(new_version);
        EditOutcome {
            new_version,
            state: VersionState {
                next_version_counter: self.next_version_counter + 1,
                current_version: new_version,
                valid_versions: valid,
            },
        }
    }

    /// Revert to an earlier valid version `n`. Admin-only and non-reversible
    /// (enforced by the authorization layer).
    ///
    /// 1. `current_version = n`;
    /// 2. every version `> n` is burned; its number stays consumed: the counter
    ///    is not rewound;
    /// 3. the next edit allocates the current counter value, skipping burned
    ///    numbers.
    pub fn revert_to(&self, n: u64) -> (r: DomainResult<RevertOutcome>)
        ensures
            r is Ok <==> self@.can_revert_to(n),
            r matches Err(e) ==> e matches DomainError::Conflict(m) && m@ == revert_refusal(self@, n),
            r matches Ok(o) ==> {
                &&& o.target_version == n
                &&& o.burned@.to_set() == self@.burned_by(n)
                &&& strictly_increasing(o.burned@)
                &&& o.state@ == self@.reverted(n)
            },
    {
        if !self.valid_versions.contains(&n) {
            let mut msg = string_of("cannot revert to version ");
            push_u64(&mut msg, n);
            push_str(&mut msg, ": not a valid version");
            return Err(DomainError::Conflict(msg));
        }
        if n == self.current_version {
            let mut msg = string_of("version ");
            push_u64(&mut msg, n);
            push_str(&mut msg, " is already current");
            return Err(DomainError::Conflict(msg));
        }
        let all = sorted_elements(&self.valid_versions);
        let mut burned: Vec<u64> = Vec::new();
        let mut kept: BTreeSet<u64> = self.valid_versions.clone();
        let mut i: usize = 0;
        while i < all.len()
            invariant
                i <= all@.len(),
                all@.to_set() == self.valid_versions@,
                strictly_increasing(all@),
                strictly_increasing(burned@),
                i < all@.len() ==> forall|k: int| 0 <= k < burned@.len() ==> burned@[k] < all@[i as int],
                forall|v: u64| burned@.contains(v) <==> (v > n && all@.take(i as int).contains(v)),
                forall|v: u64| kept@.contains(v) <==> (self.valid_versions@.contains(v) && !burned@.contains(v)),
            decreases all.len() - i,
        {
            let v = all[i];
            let ghost before = burned@;
            let ghost kept_before = kept@;
            if v > n {
                burned.push(v);
                kept.remove(&v);
            }
            proof {
                let t0 = all@.take(i as int);
                let t1 = all@.take(i + 1);
                assert(t1 =~= t0.push(v));
                assert forall|w: u64| #[trigger] burned@.contains(w) <==> (before.contains(w) || (v
                    > n && w == v)) by {
                    if v > n {
                        assert(burned@ =~= before.push(v));
                        if burned@.contains(w) {
                            let k = choose|k: int| 0 <= k < burned@.len() && burned@[k] == w;
                            if k < before.len() {
                                assert(before[k] == w);
                            }
                        }
                        if before.contains(w) {
                            let k = choose|k: int| 0 <= k < before.len() && before[k] == w;
                            assert(burned@[k] == w);
                        }
                        if w == v {
                            assert(burned@[before.len() as int] == v);
                        }
                    } else {
                        assert(burned@ == before);
                    }
                }
                assert forall|w: u64| #[trigger] t1.contains(w) <==> (t0.contains(w) || w == v) by {
                    if t1.contains(w) {
                        let k = choose|k: int| 0 <= k < t1.len() && t1[k] == w;
                        if k < t0.len() {
                            assert(t0[k] == w);
                        }
                    }
                    if t0.contains(w) {
                        let k = choose|k: int| 0 <= k < t0.len() && t0[k] == w;
                        assert(t1[k] == w);
                    }
                    if w == v {
                        assert(t1[i as int] == v);
                    }
                }
                if v > n {
                    assert(kept@ == kept_before.remove(v));
                } else {
                    assert(kept@ == kept_before);
                }
                assert forall|k: int| 0 <= k < burned@.len() implies burned@[k] <= v by {
                    if k < before.len() {
                        assert(burned@[k] == before[k]);
                    }
                }
                if i + 1 < all@.len() {
                    assert(v < all@[i + 1]);
                }
            }
            i += 1;
        }
        assert(all@.take(all@.len() as int) =~= all@);
        proof {
            assert forall|w: u64| all@.contains(w) <==> self.valid_versions@.contains(w) by {
                assert(all@.to_set().contains(w) <==> all@.contains(w));
            }
            assert(burned@.to_set() =~= self@.burned_by(n));
            assert(kept@ =~= self@.reverted(n).valid);
        }
        let state = VersionState {
            next_version_counter: self.next_version_counter,
            current_version: n,
            valid_versions: kept,
        };
        Ok(RevertOutcome { target_version: n, burned, state })
    }

    /// Whether a given version number is currently valid.
    pub fn is_valid(&self, version: u64) -> (r: bool)
        ensures
            r == self@.valid.contains(version),
    {
        self.valid_versions.contains(&version)
    }
}


/// The state after `k` consecutive edits.
pub open spec fn edited_times(v: VersionView, k: nat) -> VersionView
    decreases k,
{
    if k == 0 {
        v
    } else {
        edited_times(v, (k - 1) as nat).edited()
    }
}

/// A new entity is well formed: version 1 is valid and current, the counter
/// is 2.
pub proof fn law_create_wf()
    ensures
        created_view().wf(),
{
    assert forall|v: u64| #[trigger] created_view().valid.contains(v) implies 1 <= v < 2 by {}
}

/// An edit keeps the bookkeeping well formed; the new version is fresh (it was
/// not valid before and is above every valid version), and no valid version
/// is lost.
pub proof fn law_edit_preserves_wf(v: VersionView)
    requires
        v.wf(),
        v.counter < u64::MAX,
    ensures
        v.edited().wf(),
        !v.valid.contains(v.counter),
        forall|w: u64| #[trigger] v.valid.contains(w) ==> w < v.edited().current,
        v.valid.subset_of(v.edited().valid),
        v.edited().counter > v.counter,
{
}

/// A permitted revert keeps the bookkeeping well formed: the target becomes
/// current and stays valid, and the counter is not rewound.
pub proof fn law_revert_preserves_wf(v: VersionView, n: u64)
    requires
        v.wf(),
        v.can_revert_to(n),
    ensures
        v.reverted(n).wf(),
        v.reverted(n).current == n,
        v.reverted(n).valid.contains(n),
        v.reverted(n).counter == v.counter,
{
}

/// A revert splits the valid versions exactly: those up to the target stay
/// valid, those above it are burned, and nothing else changes.
pub proof fn law_revert_burns_exactly_later_versions(v: VersionView, n: u64)
    requires
        v.can_revert_to(n),
    ensures
        v.reverted(n).valid.union(v.burned_by(n)) == v.valid,
        v.reverted(n).valid.disjoint(v.burned_by(n)),
        forall|w: u64| #[trigger] v.burned_by(n).contains(w) <==> (v.valid.contains(w) && w > n),
{
    assert(v.reverted(n).valid.union(v.burned_by(n)) =~= v.valid);
}

/// After `k` edits of a well-formed state the current version is the last
/// number handed out and the counter has moved on by `k`.
pub proof fn lemma_edited_times(v: VersionView, k: nat)
    requires
        v.wf(),
        v.counter + k < u64::MAX,
    ensures
        edited_times(v, k).wf(),
        edited_times(v, k).counter == v.counter + k,
        k > 0 ==> edited_times(v, k).current == v.counter + k - 1,
    decreases k,
{
    if k > 0 {
        lemma_edited_times(v, (k - 1) as nat);
    }
}

/// Version numbers burned by a revert are never handed out again: every edit
/// after the revert allocates a number at or above the counter as it stood
/// before the revert, and the first one allocates exactly that counter.
pub proof fn law_burned_numbers_never_reused(v: VersionView, n: u64, k: nat)
    requires
        v.wf(),
        v.can_revert_to(n),
        k > 0,
        v.counter + k < u64::MAX,
    ensures
        !v.burned_by(n).contains(edited_times(v.reverted(n), k).current),
        edited_times(v.reverted(n), k).current >= v.counter,
        edited_times(v.reverted(n), 1).current == v.counter,
{
    law_revert_preserves_wf(v, n);
    lemma_edited_times(v.reverted(n), k);
    lemma_edited_times(v.reverted(n), 1);
}

} // verus!
