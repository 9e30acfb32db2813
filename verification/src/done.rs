//! Done-state resolution. Done is recorded per version; the effective state for
//! a version is the last record written against it, or not-done if none. A new
//! version starts not-done.
use vstd::prelude::*;

use crate::model::OkrDone;

verus! {

/// `records[i]` is the record that decides `version`: it is for that version,
/// no record for the version was set later, and every later-listed record for
/// the version was set strictly earlier (among equally late records the last
/// one listed decides).
pub open spec fn decides(records: Seq<OkrDone>, version: u64, i: int) -> bool {
    &&& 0 <= i < records.len()
    &&& records[i].version == version
    &&& forall|j: int|
        0 <= j < records.len() && (#[trigger] records[j]).version == version ==> records[j].set_at
            <= records[i].set_at
    &&& forall|j: int|
        i < j < records.len() && (#[trigger] records[j]).version == version ==> records[j].set_at
            < records[i].set_at
}

/// The effective done state of `version`.
pub open spec fn spec_effective_done(records: Seq<OkrDone>, version: u64) -> bool {
    exists|i: int| decides(records, version, i) && records[i].done
}

/// At most one record decides a version.
pub proof fn lemma_decider_unique(records: Seq<OkrDone>, version: u64, i: int, k: int)
    requires
        decides(records, version, i),
        decides(records, version, k),
    ensures
        i == k,
{
    if i < k {
        assert(records[k].set_at < records[i].set_at);
        assert(records[k].set_at <= records[i].set_at);
        assert(records[i].set_at <= records[k].set_at);
    } else if k < i {
        assert(records[i].set_at < records[k].set_at);
        assert(records[k].set_at <= records[i].set_at);
    }
}

/// Effective done state for `version`, given all done records for the OKR:
/// the most recently set record for that version, else `false`.
pub fn effective_done(records: &[OkrDone], version: u64) -> (r: bool)
    ensures
        r == spec_effective_done(records@, version),
{
    let mut best: Option<usize> = None;
    let mut i: usize = 0;
    while i < records.len()
        invariant
            i <= records@.len(),
            match best {
                Some(b) => decides(records@.take(i as int), version, b as int),
                None => forall|j: int|
                    0 <= j < i ==> (#[trigger] records@[j]).version != version,
            },
        decreases records.len() - i,
    {
        let ghost pre = records@.take(i as int);
        let ghost cur = records@.take(i + 1);
        assert(forall|j: int| 0 <= j < i ==> cur[j] == pre[j]);
        if records[i].version == version {
            let replace = match best {
                None => true,
                Some(b) => records[i].set_at >= records[b].set_at,
            };
            if replace {
                best = Some(i);
            }
        }
        i += 1;
        proof {
            match best {
                Some(b) => {
                    assert(decides(cur, version, b as int)) by {
                        assert forall|j: int|
                            0 <= j < cur.len() && (#[trigger] cur[j]).version
                                == version implies cur[j].set_at <= cur[b as int].set_at by {
                            if j < i - 1 {
                                assert(cur[j] == pre[j]);
                            }
                        }
                    }
                },
                None => {},
            }
        }
    }
    let ghost s = records@;
    assert(records@.take(records@.len() as int) =~= s);
    match best {
        Some(b) => {
            proof {
                assert forall|k: int| decides(s, version, k) implies k == b as int by {
                    lemma_decider_unique(s, version, k, b as int);
                }
            }
            records[b].done
        },
        None => false,
    }
}

/// A version with no record is not done, whatever the records of other
/// versions say.
pub proof fn law_no_record_not_done(records: Seq<OkrDone>, version: u64)
    requires
        forall|j: int| 0 <= j < records.len() ==> (#[trigger] records[j]).version != version,
    ensures
        !spec_effective_done(records, version),
{
}

/// Done is isolated per version: records for other versions do not affect it.
pub proof fn law_done_isolated_per_version(
    records: Seq<OkrDone>,
    other: OkrDone,
    version: u64,
)
    requires
        other.version != version,
    ensures
        spec_effective_done(records.push(other), version) == spec_effective_done(records, version),
{
    let ext = records.push(other);
    if spec_effective_done(records, version) {
        let i = choose|i: int| decides(records, version, i) && records[i].done;
        assert(decides(ext, version, i)) by {
            assert forall|j: int|
                0 <= j < ext.len() && (#[trigger] ext[j]).version == version implies ext[j].set_at
                <= ext[i].set_at by {
                if j < records.len() {
                    assert(ext[j] == records[j]);
                }
            }
            assert forall|j: int|
                i < j < ext.len() && (#[trigger] ext[j]).version == version implies ext[j].set_at
                < ext[i].set_at by {
                if j < records.len() {
                    assert(ext[j] == records[j]);
                }
            }
        }
    }
    if spec_effective_done(ext, version) {
        let i = choose|i: int| decides(ext, version, i) && ext[i].done;
        assert(i < records.len());
        assert(ext[i] == records[i]);
        assert(decides(records, version, i)) by {
            assert forall|j: int|
                0 <= j < records.len() && (#[trigger] records[j]).version
                    == version implies records[j].set_at <= records[i].set_at by {
                assert(ext[j] == records[j]);
            }
            assert forall|j: int|
                i < j < records.len() && (#[trigger] records[j]).version
                    == version implies records[j].set_at < records[i].set_at by {
                assert(ext[j] == records[j]);
            }
        }
    }
}

/// Writing a record for a version at a time no earlier than every existing
/// record of that version makes it the effective state of that version.
pub proof fn law_latest_write_wins(records: Seq<OkrDone>, rec: OkrDone)
    requires
        forall|j: int|
            0 <= j < records.len() && (#[trigger] records[j]).version == rec.version
                ==> records[j].set_at <= rec.set_at,
    ensures
        spec_effective_done(records.push(rec), rec.version) == rec.done,
{
    let ext = records.push(rec);
    let last = records.len() as int;
    assert(ext[last] == rec);
    assert(decides(ext, rec.version, last)) by {
        assert forall|j: int|
            0 <= j < ext.len() && (#[trigger] ext[j]).version == rec.version implies ext[j].set_at
            <= ext[last].set_at by {
            if j < last {
                assert(ext[j] == records[j]);
            }
        }
    }
    if spec_effective_done(ext, rec.version) {
        let i = choose|i: int| decides(ext, rec.version, i) && ext[i].done;
        lemma_decider_unique(ext, rec.version, i, last);
    }
}

/// Some record decides a version that has any record.
proof fn lemma_decider_exists(records: Seq<OkrDone>, version: u64, w: int)
    requires
        0 <= w < records.len(),
        records[w].version == version,
    ensures
        exists|i: int| decides(records, version, i),
    decreases records.len(),
{
    let n = records.len() - 1;
    let p = records.drop_last();
    let x = records[n];
    let has_prefix = exists|j: int| 0 <= j < p.len() && (#[trigger] p[j]).version == version;
    if has_prefix {
        let j0 = choose|j: int| 0 <= j < p.len() && (#[trigger] p[j]).version == version;
        lemma_decider_exists(p, version, j0);
        let i = choose|i: int| decides(p, version, i);
        assert forall|j: int| 0 <= j < p.len() implies (#[trigger] records[j]) == p[j] by {}
        if x.version == version && x.set_at >= p[i].set_at {
            assert(decides(records, version, n));
        } else {
            assert(decides(records, version, i));
        }
    } else {
        assert(w == n) by {
            if w < n {
                assert(p[w] == records[w]);
            }
        }
        assert forall|j: int| 0 <= j < n implies (#[trigger] records[j]).version != version by {
            assert(p[j] == records[j]);
        }
        assert(decides(records, version, n));
    }
}

/// The effective done state of a version is that of its latest-set record
/// (the last listed among equally late ones: `decides`), or not done when it
/// has no record; records of other versions do not take part.
pub proof fn law_effective_done_is_latest(records: Seq<OkrDone>, version: u64)
    ensures
        (forall|j: int| 0 <= j < records.len() ==> (#[trigger] records[j]).version != version)
            ==> !spec_effective_done(records, version),
        (exists|j: int| 0 <= j < records.len() && (#[trigger] records[j]).version == version)
            ==> exists|i: int|
            decides(records, version, i) && spec_effective_done(records, version) == records[i].done,
{
    if exists|j: int| 0 <= j < records.len() && (#[trigger] records[j]).version == version {
        let w = choose|j: int| 0 <= j < records.len() && (#[trigger] records[j]).version == version;
        lemma_decider_exists(records, version, w);
        let i = choose|i: int| decides(records, version, i);
        if spec_effective_done(records, version) {
            let k = choose|k: int| decides(records, version, k) && records[k].done;
            lemma_decider_unique(records, version, i, k);
        }
        assert(decides(records, version, i) && spec_effective_done(records, version) == records[i].done);
    }
}

} // verus!
