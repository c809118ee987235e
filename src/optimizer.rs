//! The per-region optimize operation: decide from a region file's bytes which
//! chunks to drop, and whether to rewrite the file or delete it. Reading and
//! writing the file is left to the caller.
use vstd::prelude::*;
use crate::chunk::spec_should_delete;
use crate::location::Location;
use crate::region::{loaded, rewrite_bytes, Region};
use crate::tag::TagModel;

verus! {

broadcast use vstd::std_specs::vec::group_vec_axioms, vstd::seq::group_seq_axioms;

/// Counts reported by one optimize operation, added up across files.
#[derive(Debug, Clone, Copy, PartialEq, Eq, Structural)]
pub struct OptimizeResult {
    pub total_chunks: usize,
    pub deleted_chunks: usize,
    pub deleted_regions: usize,
}

impl Default for OptimizeResult {
    fn default() -> (r: OptimizeResult)
        ensures
            r == (OptimizeResult { total_chunks: 0, deleted_chunks: 0, deleted_regions: 0 }),
    {
        OptimizeResult { total_chunks: 0, deleted_chunks: 0, deleted_regions: 0 }
    }
}

/// What the caller should do with the region file.
#[derive(Debug, PartialEq, Eq)]
pub enum RegionAction {
    /// Leave the file as it is (check mode).
    Keep,
    /// Delete the file: it holds no chunk worth keeping, or is no region at all.
    Delete,
    /// Replace the file's contents with these bytes.
    Write(Vec<u8>),
}

/// The chunks that the retention policy keeps, in order.
pub open spec fn kept(v: Seq<(TagModel, Location)>) -> Seq<(TagModel, Location)>
    decreases v.len(),
{
    if v.len() == 0 {
        seq![]
    } else {
        (if spec_should_delete(v[0].0) {
            seq![]
        } else {
            seq![v[0]]
        }) + kept(v.drop_first())
    }
}

/// The number of chunks that the retention policy drops.
pub open spec fn flagged_count(v: Seq<(TagModel, Location)>) -> nat
    decreases v.len(),
{
    if v.len() == 0 {
        0
    } else {
        (if spec_should_delete(v[0].0) {
            1nat
        } else {
            0nat
        }) + flagged_count(v.drop_first())
    }
}

/// The counts for a region file, the same in check and in write mode: its
/// chunks, those dropped, and 1 region when every chunk is dropped or the
/// file is no region at all.
pub open spec fn spec_counts(b: Seq<u8>) -> OptimizeResult {
    if b.len() < 8192 {
        OptimizeResult { total_chunks: 0, deleted_chunks: 0, deleted_regions: 1 }
    } else {
        let v = loaded(b, 1024);
        OptimizeResult {
            total_chunks: v.len() as usize,
            deleted_chunks: flagged_count(v) as usize,
            deleted_regions: if flagged_count(v) >= v.len() {
                1
            } else {
                0
            },
        }
    }
}

proof fn lemma_kept_len(v: Seq<(TagModel, Location)>)
    ensures
        kept(v).len() + flagged_count(v) == v.len(),
    decreases v.len(),
{
    if v.len() > 0 {
        lemma_kept_len(v.drop_first());
    }
}

proof fn lemma_loaded_len(b: Seq<u8>, n: int)
    requires
        0 <= n,
    ensures
        loaded(b, n).len() <= n,
    decreases n,
{
    if n > 0 {
        lemma_loaded_len(b, n - 1);
    }
}

/// Dropping the flagged chunks of a region whose chunks are all flagged
/// leaves it empty.
pub proof fn law_all_flagged_leaves_empty(v: Seq<(TagModel, Location)>)
    requires
        forall|i: int| 0 <= i < v.len() ==> spec_should_delete(#[trigger] v[i].0),
    ensures
        kept(v).len() == 0,
        flagged_count(v) == v.len(),
    decreases v.len(),
{
    if v.len() > 0 {
        let t = v.drop_first();
        assert forall|i: int| 0 <= i < t.len() implies spec_should_delete(#[trigger] t[i].0) by {
            assert(t[i] == v[i + 1]);
        }
        law_all_flagged_leaves_empty(t);
    }
}

/// Check mode and write mode report the same counts for the same file, and
/// check mode asks for no change.
pub proof fn law_dry_run_counts(b: Seq<u8>, c: OptimizeResult, w: OptimizeResult)
    requires
        spec_optimize_counts(b, false, c),
        spec_optimize_counts(b, true, w),
    ensures
        c == w,
{
}

/// The counts that the optimize operation reports in either mode.
pub open spec fn spec_optimize_counts(b: Seq<u8>, write: bool, r: OptimizeResult) -> bool {
    r == spec_counts(b)
}

/// Optimizes one region file given its bytes. In check mode (`write` false)
/// it only counts. In write mode it drops the flagged chunks and asks for
/// the file to be rewritten, or deleted when nothing is left or the file is
/// no region at all.
pub fn optimize_region(bytes: &[u8], write: bool, level: u32) -> (r: (OptimizeResult, RegionAction))
    requires
        level <= 9,
    ensures
        spec_optimize_counts(bytes@, write, r.0),
        !write ==> r.1 == RegionAction::Keep,
        write && bytes@.len() < 8192 ==> r.1 == RegionAction::Delete,
        write && bytes@.len() >= 8192 && kept(loaded(bytes@, 1024)).len() == 0 ==> r.1
            == RegionAction::Delete,
        write && bytes@.len() >= 8192 && kept(loaded(bytes@, 1024)).len() > 0 ==> (r.1 matches RegionAction::Write(out) && out@ == rewrite_bytes(kept(loaded(bytes@, 1024)), level)),
{
    let mut region = match Region::from_bytes(bytes) {
        Ok(region) => region,
        Err(_) => {
            let result = OptimizeResult { total_chunks: 0, deleted_chunks: 0, deleted_regions: 1 };
            if write {
                return (result, RegionAction::Delete);
            } else {
                return (result, RegionAction::Keep);
            }
        },
    };
    let ghost v = region@;
    proof {
        lemma_loaded_len(bytes@, 1024);
        lemma_kept_len(v);
    }
    let total = region.get_chunk_count();
    let mut deleted: usize = 0;
    let mut i = total;
    while i > 0
        invariant
            0 <= i <= total,
            total == v.len(),
            total <= 1024,
            region@ == v.subrange(0, i as int) + kept(v.subrange(i as int, total as int)),
            deleted == flagged_count(v.subrange(i as int, total as int)),
            deleted <= total - i,
        decreases i,
    {
        i = i - 1;
        let ghost before = region@;
        assert(v.subrange(i as int, total as int).drop_first() =~= v.subrange(
            i + 1,
            total as int,
        ));
        assert(region@.len() == region.chunks@.len());
        assert(region@.len() >= i + 1);
        assert(region@[i as int] == v[i as int]);
        proof {
            lemma_kept_len(v.subrange(i + 1, total as int));
        }
        let flagged = region.chunks[i].should_delete();
        if flagged {
            region.remove_chunk_by_index(i);
            deleted = deleted + 1;
        }
        assert(region@ =~= v.subrange(0, i as int) + kept(v.subrange(i as int, total as int)));
    }
    assert(v.subrange(0, 0) + kept(v.subrange(0, total as int)) =~= kept(v));
    assert(v.subrange(0, total as int) =~= v);
    let all_dropped = deleted >= total;
    let result = OptimizeResult {
        total_chunks: total,
        deleted_chunks: deleted,
        deleted_regions: if all_dropped {
            1
        } else {
            0
        },
    };
    if !write {
        return (result, RegionAction::Keep);
    }
    if region.is_empty() {
        (result, RegionAction::Delete)
    } else {
        (result, RegionAction::Write(region.to_bytes(level)))
    }
}

/// Adds up the counts of many files.
pub fn reduce_optimize_results(results: &[OptimizeResult]) -> (r: OptimizeResult)
    requires
        sum_total(results@) <= usize::MAX,
        sum_deleted(results@) <= usize::MAX,
        sum_regions(results@) <= usize::MAX,
    ensures
        r.total_chunks == sum_total(results@),
        r.deleted_chunks == sum_deleted(results@),
        r.deleted_regions == sum_regions(results@),
{
    let mut acc = OptimizeResult { total_chunks: 0, deleted_chunks: 0, deleted_regions: 0 };
    let mut i: usize = 0;
    while i < results.len()
        invariant
            0 <= i <= results@.len(),
            sum_total(results@) <= usize::MAX,
            sum_deleted(results@) <= usize::MAX,
            sum_regions(results@) <= usize::MAX,
            acc.total_chunks == sum_total(results@.subrange(0, i as int)),
            acc.deleted_chunks == sum_deleted(results@.subrange(0, i as int)),
            acc.deleted_regions == sum_regions(results@.subrange(0, i as int)),
        decreases results@.len() - i,
    {
        assert(results@.subrange(0, i + 1).drop_last() =~= results@.subrange(0, i as int));
        proof {
            lemma_sums_prefix(results@, i + 1);
        }
        acc.total_chunks = acc.total_chunks + results[i].total_chunks;
        acc.deleted_chunks = acc.deleted_chunks + results[i].deleted_chunks;
        acc.deleted_regions = acc.deleted_regions + results[i].deleted_regions;
        i = i + 1;
    }
    assert(results@.subrange(0, results@.len() as int) =~= results@);
    acc
}

pub open spec fn sum_total(s: Seq<OptimizeResult>) -> nat
    decreases s.len(),
{
    if s.len() == 0 {
        0
    } else {
        sum_total(s.drop_last()) + s.last().total_chunks as nat
    }
}

pub open spec fn sum_deleted(s: Seq<OptimizeResult>) -> nat
    decreases s.len(),
{
    if s.len() == 0 {
        0
    } else {
        sum_deleted(s.drop_last()) + s.last().deleted_chunks as nat
    }
}

pub open spec fn sum_regions(s: Seq<OptimizeResult>) -> nat
    decreases s.len(),
{
    if s.len() == 0 {
        0
    } else {
        sum_regions(s.drop_last()) + s.last().deleted_regions as nat
    }
}

proof fn lemma_sums_prefix(s: Seq<OptimizeResult>, k: int)
    requires
        0 <= k <= s.len(),
    ensures
        sum_total(s.subrange(0, k)) <= sum_total(s),
        sum_deleted(s.subrange(0, k)) <= sum_deleted(s),
        sum_regions(s.subrange(0, k)) <= sum_regions(s),
    decreases s.len() - k,
{
    if k < s.len() {
        lemma_sums_prefix(s, k + 1);
        assert(s.subrange(0, k + 1).drop_last() =~= s.subrange(0, k));
    } else {
        assert(s.subrange(0, k) =~= s);
    }
}

} // verus!
