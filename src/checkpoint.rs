//! Checkpoint resolution: the global checkpoint is the smallest checkpoint
//! of the regions this store still leads, or `min_ts` when there is none.
use crate::region::Region;
use vstd::prelude::*;

verus! {

/// Why a region's checkpoint is what it is.
#[derive(Clone, Copy, Debug, PartialEq, Eq, Structural)]
pub enum CheckpointType {
    /// Nothing holds the region back: the checkpoint is `min_ts`.
    MinTs,
    /// The region's initial scan has not finished: the checkpoint is the
    /// scan's start.
    StartTsOfInitialScan,
    /// The region's resolved timestamp.
    Normal,
}

/// The resolved checkpoint of one region.
#[derive(Debug)]
pub struct ResolveResult {
    pub region: Region,
    pub checkpoint: u64,
    pub checkpoint_type: CheckpointType,
}

/// The checkpoints of the led regions.
pub open spec fn checkpoints_of(items: Seq<ResolveResult>) -> Seq<u64> {
    Seq::new(items.len(), |i: int| items[i].checkpoint)
}

/// The smallest of `cps`, or `min_ts` when `cps` is empty.
pub open spec fn global_checkpoint_of(min_ts: u64, cps: Seq<u64>) -> u64
    decreases cps.len(),
{
    if cps.len() == 0 {
        min_ts
    } else {
        let rest = global_checkpoint_of(min_ts, cps.drop_last());
        if cps.len() == 1 || cps.last() < rest {
            cps.last()
        } else {
            rest
        }
    }
}

/// The global checkpoint of a non-empty list is one of its checkpoints and
/// no larger than any of them.
pub proof fn lemma_global_checkpoint_is_min(min_ts: u64, cps: Seq<u64>)
    requires
        cps.len() > 0,
    ensures
        cps.contains(global_checkpoint_of(min_ts, cps)),
        forall|i: int| 0 <= i < cps.len() ==> global_checkpoint_of(min_ts, cps) <= cps[i],
    decreases cps.len(),
{
    let g = global_checkpoint_of(min_ts, cps);
    if cps.len() == 1 {
        assert(cps[0] == g);
    } else {
        let p = cps.drop_last();
        lemma_global_checkpoint_is_min(min_ts, p);
        let j = choose|j: int| 0 <= j < p.len() && p[j] == global_checkpoint_of(min_ts, p);
        assert(cps[j] == p[j]);
        assert(cps[cps.len() - 1] == cps.last());
        assert forall|i: int| 0 <= i < cps.len() implies g <= cps[i] by {
            if i < p.len() {
                assert(cps[i] == p[i]);
            }
        }
    }
}

/// The answer to `ResolveRegions`.
#[derive(Debug)]
pub struct ResolvedRegions {
    items: Vec<ResolveResult>,
    checkpoint: u64,
}

impl ResolvedRegions {
    pub closed spec fn spec_items(&self) -> Seq<ResolveResult> {
        self.items@
    }

    pub closed spec fn spec_checkpoint(&self) -> u64 {
        self.checkpoint
    }

    /// Pairs the global checkpoint with the region checkpoints it was
    /// computed from.
    pub fn new(checkpoint: u64, checkpoints: Vec<ResolveResult>) -> (r: ResolvedRegions)
        ensures
            r.spec_checkpoint() == checkpoint,
            r.spec_items() == checkpoints@,
    {
        ResolvedRegions { items: checkpoints, checkpoint }
    }

    /// Takes the regions and their checkpoints out, leaving none.
    pub fn take_region_checkpoints(&mut self) -> (r: Vec<(Region, u64)>)
        ensures
            final(self).spec_items().len() == 0,
            final(self).spec_checkpoint() == old(self).spec_checkpoint(),
            r@.len() == old(self).spec_items().len(),
            forall|i: int|
                0 <= i < r@.len() ==> r@[i].0@ == old(self).spec_items()[i].region@ && r@[i].1
                    == old(self).spec_items()[i].checkpoint,
    {
        let items = self.take_resolve_result();
        let mut out: Vec<(Region, u64)> = Vec::new();
        let mut i: usize = 0;
        while i < items.len()
            invariant
                i <= items@.len(),
                out@.len() == i,
                forall|j: int|
                    0 <= j < i ==> out@[j].0@ == items@[j].region@ && out@[j].1
                        == items@[j].checkpoint,
            decreases items@.len() - i,
        {
            out.push((items[i].region.duplicate(), items[i].checkpoint));
            i = i + 1;
        }
        out
    }

    /// Takes the region results out, leaving none.
    pub fn take_resolve_result(&mut self) -> (r: Vec<ResolveResult>)
        ensures
            final(self).spec_items().len() == 0,
            final(self).spec_checkpoint() == old(self).spec_checkpoint(),
            r@ == old(self).spec_items(),
    {
        let mut taken: Vec<ResolveResult> = Vec::new();
        std::mem::swap(&mut taken, &mut self.items);
        taken
    }

    /// The global checkpoint.
    pub fn global_checkpoint(&self) -> (r: u64)
        ensures
            r == self.spec_checkpoint(),
    {
        self.checkpoint
    }
}

/// Computes the answer to `ResolveRegions` from what the leadership resolver
/// returned: the global checkpoint is the smallest region checkpoint, or
/// exactly `min_ts` when no region is left.
pub fn resolve_regions(min_ts: u64, results: Vec<ResolveResult>) -> (r: ResolvedRegions)
    ensures
        r.spec_items() == results@,
        r.spec_checkpoint() == global_checkpoint_of(min_ts, checkpoints_of(results@)),
        results@.len() == 0 ==> r.spec_checkpoint() == min_ts,
        results@.len() > 0 ==> (forall|i: int|
            0 <= i < results@.len() ==> r.spec_checkpoint() <= #[trigger] results@[i].checkpoint)
            && (exists|i: int|
            0 <= i < results@.len() && r.spec_checkpoint() == #[trigger] results@[i].checkpoint),
{
    let mut global = min_ts;
    let mut i: usize = 0;
    while i < results.len()
        invariant
            i <= results@.len(),
            global == global_checkpoint_of(min_ts, checkpoints_of(results@).take(i as int)),
        decreases results@.len() - i,
    {
        let cp = results[i].checkpoint;
        proof {
            let cps = checkpoints_of(results@);
            assert(cps.take(i + 1).drop_last() =~= cps.take(i as int));
            assert(cps.take(i + 1).last() == cp);
        }
        if i == 0 || cp < global {
            global = cp;
        }
        i = i + 1;
    }
    proof {
        let cps = checkpoints_of(results@);
        assert(cps.take(results@.len() as int) =~= cps);
        if cps.len() > 0 {
            lemma_global_checkpoint_is_min(min_ts, cps);
            let j = choose|j: int| 0 <= j < cps.len() && cps[j] == global;
            assert(results@[j].checkpoint == global);
            assert forall|i: int| 0 <= i < results@.len() implies global
                <= #[trigger] results@[i].checkpoint by {
                assert(cps[i] == results@[i].checkpoint);
            }
        }
    }
    ResolvedRegions::new(global, results)
}

} // verus!
