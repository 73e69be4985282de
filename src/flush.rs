//! Tracing of flushes: which apply index each column family has made
//! durable. Memtables are sealed one by one and flushed one by one; when a
//! flush completes, the progress of the memtables it covered is merged and
//! handed over to be persisted.
use vstd::prelude::*;

verus! {

/// The number of data column families.
pub const DATA_CFS_LEN: usize = 3;

/// The position of a data column family; the empty name stands for the
/// default one.
pub open spec fn cf_offset(cf: Seq<char>) -> Option<int> {
    if cf.len() == 0 || cf == "default"@ {
        Some(0)
    } else if cf == "lock"@ {
        Some(1)
    } else if cf == "write"@ {
        Some(2)
    } else {
        None
    }
}

/// The position of data column family `cf`, or `None` if `cf` names none.
pub fn data_cf_offset(cf: &String) -> (r: Option<usize>)
    ensures
        match r {
            Some(i) => cf_offset(cf@) == Some(i as int),
            None => cf_offset(cf@) is None,
        },
{
    proof {
        reveal_strlit("default");
        reveal_strlit("lock");
        reveal_strlit("write");
    }
    let empty = String::new();
    let default_name = "default".to_owned();
    let lock_name = "lock".to_owned();
    let write_name = "write".to_owned();
    if *cf == empty || *cf == default_name {
        Some(0)
    } else if *cf == lock_name {
        Some(1)
    } else if *cf == write_name {
        Some(2)
    } else {
        assert(cf@.len() == 0 ==> cf@ =~= empty@);
        None
    }
}

/// The apply index reached when a memtable of a column family was sealed.
#[derive(Debug)]
pub struct ApplyProgress {
    cf: String,
    apply_index: u64,
    smallest_seqno: u64,
}

pub struct ApplyProgressView {
    pub cf: Seq<char>,
    pub apply_index: u64,
    pub smallest_seqno: u64,
}

impl View for ApplyProgress {
    type V = ApplyProgressView;

    closed spec fn view(&self) -> ApplyProgressView {
        ApplyProgressView {
            cf: self.cf@,
            apply_index: self.apply_index,
            smallest_seqno: self.smallest_seqno,
        }
    }
}

impl ApplyProgress {
    /// Takes the apply index of a later progress of the same column family.
    fn merge(&mut self, pr: ApplyProgress)
        requires
            old(self)@.cf == pr@.cf,
        ensures
            final(self)@ == (ApplyProgressView { apply_index: pr@.apply_index, ..old(self)@ }),
    {
        self.apply_index = pr.apply_index;
    }

    pub fn applied_index(&self) -> (r: u64)
        ensures
            r == self@.apply_index,
    {
        self.apply_index
    }

    pub fn cf(&self) -> (r: &str)
        ensures
            r@ == self@.cf,
    {
        self.cf.as_str()
    }
}

/// Splits `prs` at a flush of `cf` up to `largest_seqno`: from the front,
/// the progresses of `cf` whose memtable starts at or below `largest_seqno`
/// are taken, up to the first one of `cf` that starts above it; the others
/// are kept, in order. Returns (kept, taken).
pub open spec fn split_flushed(prs: Seq<ApplyProgressView>, cf: Seq<char>, largest_seqno: u64) -> (
    Seq<ApplyProgressView>,
    Seq<ApplyProgressView>,
)
    decreases prs.len(),
{
    if prs.len() == 0 {
        (prs, prs)
    } else {
        let rest = split_flushed(prs.drop_first(), cf, largest_seqno);
        if prs[0].cf != cf {
            (seq![prs[0]] + rest.0, rest.1)
        } else if prs[0].smallest_seqno <= largest_seqno {
            (rest.0, seq![prs[0]] + rest.1)
        } else {
            (prs, Seq::empty())
        }
    }
}

/// The progress a flush hands over: the first taken one, with the apply
/// index of the last taken one.
pub open spec fn merged(taken: Seq<ApplyProgressView>) -> ApplyProgressView {
    ApplyProgressView { apply_index: taken.last().apply_index, ..taken[0] }
}

proof fn lemma_split_taken_cf(prs: Seq<ApplyProgressView>, cf: Seq<char>, largest_seqno: u64)
    ensures
        forall|i: int|
            0 <= i < split_flushed(prs, cf, largest_seqno).1.len() ==> (#[trigger] split_flushed(
                prs,
                cf,
                largest_seqno,
            ).1[i]).cf == cf,
    decreases prs.len(),
{
    if prs.len() > 0 {
        lemma_split_taken_cf(prs.drop_first(), cf, largest_seqno);
        let rest = split_flushed(prs.drop_first(), cf, largest_seqno);
        let taken = split_flushed(prs, cf, largest_seqno).1;
        if prs[0].cf == cf && prs[0].smallest_seqno <= largest_seqno {
            assert forall|i: int| 0 <= i < taken.len() implies (#[trigger] taken[i]).cf == cf by {
                if i > 0 {
                    assert(taken[i] == rest.1[i - 1]);
                }
            }
        }
    }
}

/// What a completed flush led to.
#[derive(Debug)]
pub enum FlushOutcome {
    /// A flush up to a later sequence number of the column family completed
    /// first: nothing to persist.
    Reordered,
    /// The merged progress of the flushed memtables, to be persisted.
    Flushed(ApplyProgress),
    /// No sealed memtable of the column family is covered by the flush.
    NotFound,
}

/// Where each column family's flushes stand.
#[derive(Debug)]
struct FlushProgress {
    prs: Vec<ApplyProgress>,
    last_flushed: Vec<u64>,
}

/// A state shared between raftstore and the engine: the sst files applied
/// and the index at which each was applied.
#[derive(Debug)]
pub struct SstApplyState {
    sst_map: Vec<(Vec<u8>, u64)>,
}

/// The index under which `uuid` was last registered in `entries`.
pub open spec fn registered_index(entries: Seq<(Vec<u8>, u64)>, uuid: Seq<u8>) -> Option<u64>
    decreases entries.len(),
{
    if entries.len() == 0 {
        None
    } else if entries.last().0@ == uuid {
        Some(entries.last().1)
    } else {
        registered_index(entries.drop_last(), uuid)
    }
}

proof fn lemma_registered_update(s: Seq<(Vec<u8>, u64)>, j: int, e: (Vec<u8>, u64))
    requires
        0 <= j < s.len(),
        s[j].0@ == e.0@,
        forall|m: int| j < m < s.len() ==> s[m].0@ != e.0@,
    ensures
        forall|k: Seq<u8>|
            #[trigger] registered_index(s.update(j, e), k) == if k == e.0@ {
                Some(e.1)
            } else {
                registered_index(s, k)
            },
    decreases s.len(),
{
    let t = s.update(j, e);
    if j == s.len() - 1 {
        assert(t.drop_last() =~= s.drop_last());
        assert forall|k: Seq<u8>| #[trigger]
            registered_index(t, k) == if k == e.0@ {
                Some(e.1)
            } else {
                registered_index(s, k)
            } by {
            assert(t.last() == e);
            assert(s.last().0@ == e.0@);
        }
    } else {
        lemma_registered_update(s.drop_last(), j, e);
        assert(t.drop_last() =~= s.drop_last().update(j, e));
        assert(t.last() == s.last());
        assert(s.last() == s[s.len() - 1]);
        assert forall|k: Seq<u8>| #[trigger]
            registered_index(t, k) == if k == e.0@ {
                Some(e.1)
            } else {
                registered_index(s, k)
            } by {
            assert(registered_index(s.drop_last().update(j, e), k) == if k == e.0@ {
                Some(e.1)
            } else {
                registered_index(s.drop_last(), k)
            });
        }
    }
}

fn bytes_eq(a: &Vec<u8>, b: &Vec<u8>) -> (r: bool)
    ensures
        r == (a@ == b@),
{
    if a.len() != b.len() {
        return false;
    }
    let mut i: usize = 0;
    while i < a.len()
        invariant
            i <= a@.len(),
            a@.len() == b@.len(),
            forall|j: int| 0 <= j < i ==> a@[j] == b@[j],
        decreases a@.len() - i,
    {
        if a[i] != b[i] {
            return false;
        }
        i = i + 1;
    }
    assert(a@ =~= b@);
    true
}

impl SstApplyState {
    /// The index at which sst `uuid` was applied, if it was.
    pub closed spec fn spec_applied_index(&self, uuid: Seq<u8>) -> Option<u64> {
        registered_index(self.sst_map@, uuid)
    }

    pub fn new() -> (r: SstApplyState)
        ensures
            forall|uuid: Seq<u8>| r.spec_applied_index(uuid) is None,
    {
        SstApplyState { sst_map: Vec::new() }
    }

    /// Records that sst `uuid` was applied at `index`, in place of an earlier
    /// record of it.
    fn register(&mut self, uuid: Vec<u8>, index: u64)
        ensures
            forall|k: Seq<u8>|
                #[trigger] final(self).spec_applied_index(k) == if k == uuid@ {
                    Some(index)
                } else {
                    old(self).spec_applied_index(k)
                },
    {
        let mut i: usize = self.sst_map.len();
        while i > 0
            invariant
                i <= self.sst_map@.len(),
                self.sst_map@ == old(self).sst_map@,
                forall|m: int| i <= m < self.sst_map@.len() ==> self.sst_map@[m].0@ != uuid@,
            decreases i,
        {
            if bytes_eq(&self.sst_map[i - 1].0, &uuid) {
                let ghost before = self.sst_map@;
                let ghost key = uuid@;
                self.sst_map.set(i - 1, (uuid, index));
                proof {
                    let e = self.sst_map@[i - 1];
                    assert(e.0@ == key);
                    assert(self.sst_map@ == before.update(i - 1, e));
                    lemma_registered_update(before, i - 1, e);
                    assert forall|k: Seq<u8>| #[trigger]
                        self.spec_applied_index(k) == if k == key {
                            Some(index)
                        } else {
                            registered_index(before, k)
                        } by {
                        assert(registered_index(before.update(i - 1, e), k) == if k == e.0@ {
                            Some(e.1)
                        } else {
                            registered_index(before, k)
                        });
                    }
                }
                return;
            }
            i = i - 1;
        }
        let ghost before = self.sst_map@;
        let ghost key = uuid@;
        self.sst_map.push((uuid, index));
        proof {
            assert(self.sst_map@.drop_last() =~= before);
            assert(self.sst_map@.last().0@ == key);
            assert forall|k: Seq<u8>| #[trigger]
                self.spec_applied_index(k) == if k == key {
                    Some(index)
                } else {
                    registered_index(before, k)
                } by {
                assert(registered_index(self.sst_map@, k) == if self.sst_map@.last().0@ == k {
                    Some(self.sst_map@.last().1)
                } else {
                    registered_index(self.sst_map@.drop_last(), k)
                });
            }
        }
    }

    /// Records that the ssts `uuids` were applied at `sst_applied_index`.
    pub fn registe_ssts(&mut self, uuids: Vec<Vec<u8>>, sst_applied_index: u64)
        ensures
            forall|uuid: Seq<u8>|
                #[trigger] final(self).spec_applied_index(uuid) == if exists|i: int|
                    0 <= i < uuids@.len() && uuids@[i]@ == uuid {
                    Some(sst_applied_index)
                } else {
                    old(self).spec_applied_index(uuid)
                },
    {
        let mut i: usize = 0;
        while i < uuids.len()
            invariant
                i <= uuids@.len(),
                forall|uuid: Seq<u8>|
                    #[trigger] self.spec_applied_index(uuid) == if exists|j: int|
                        0 <= j < i && uuids@[j]@ == uuid {
                        Some(sst_applied_index)
                    } else {
                        old(self).spec_applied_index(uuid)
                    },
            decreases uuids@.len() - i,
        {
            let uuid = uuids[i].clone();
            assert(uuid@ =~= uuids@[i as int]@);
            let ghost mid = *self;
            self.register(uuid, sst_applied_index);
            proof {
                assert forall|k: Seq<u8>|
                    #[trigger] self.spec_applied_index(k) == if exists|j: int|
                        0 <= j < i + 1 && uuids@[j]@ == k {
                        Some(sst_applied_index)
                    } else {
                        old(self).spec_applied_index(k)
                    } by {
                    assert(mid.spec_applied_index(k) == if exists|j: int|
                        0 <= j < i && uuids@[j]@ == k {
                        Some(sst_applied_index)
                    } else {
                        old(self).spec_applied_index(k)
                    });
                    if k == uuids@[i as int]@ {
                        assert(exists|j: int| 0 <= j < i + 1 && uuids@[j]@ == k);
                    } else {
                        if exists|j: int| 0 <= j < i + 1 && uuids@[j]@ == k {
                            let j = choose|j: int| 0 <= j < i + 1 && uuids@[j]@ == k;
                            assert(j < i);
                        }
                    }
                }
            }
            i = i + 1;
        }
    }

    /// The index at which sst `uuid` was applied, if it was.
    pub fn sst_applied_index(&self, uuid: &Vec<u8>) -> (r: Option<u64>)
        ensures
            r == self.spec_applied_index(uuid@),
    {
        let mut i: usize = self.sst_map.len();
        assert(self.sst_map@.take(i as int) =~= self.sst_map@);
        while i > 0
            invariant
                i <= self.sst_map@.len(),
                registered_index(self.sst_map@, uuid@) == registered_index(
                    self.sst_map@.take(i as int),
                    uuid@,
                ),
            decreases i,
        {
            let ghost prefix = self.sst_map@.take(i as int);
            assert(prefix.drop_last() =~= self.sst_map@.take(i - 1));
            if bytes_eq(&self.sst_map[i - 1].0, uuid) {
                return Some(self.sst_map[i - 1].1);
            }
            i = i - 1;
        }
        None
    }
}

/// The applied index shared between raftstore, which advances it, and the
/// flush listener, which reads it when a memtable is sealed.
#[derive(Debug)]
pub struct FlushState {
    applied_index: u64,
}

impl FlushState {
    pub closed spec fn spec_applied_index(&self) -> u64 {
        self.applied_index
    }

    pub fn new(applied_index: u64) -> (r: FlushState)
        ensures
            r.spec_applied_index() == applied_index,
    {
        FlushState { applied_index }
    }

    /// Sets the latest applied index.
    pub fn set_applied_index(&mut self, index: u64)
        ensures
            final(self).spec_applied_index() == index,
    {
        self.applied_index = index;
    }

    /// The latest applied index.
    pub fn applied_index(&self) -> (r: u64)
        ensures
            r == self.spec_applied_index(),
    {
        self.applied_index
    }
}

/// Where the progress of a completed flush goes to be persisted.
pub trait StateStorage {
    fn persist_progress(&self, region_id: u64, tablet_index: u64, pr: ApplyProgress);
}

/// Maps sealed memtables to apply indexes, and completed flushes to the
/// progress to persist.
#[derive(Debug)]
pub struct PersistenceListener {
    region_id: u64,
    tablet_index: u64,
    state: FlushState,
    progress: FlushProgress,
}

impl PersistenceListener {
    pub closed spec fn wf(&self) -> bool {
        self.progress.last_flushed@.len() == DATA_CFS_LEN
    }

    /// The progresses of the sealed memtables not yet flushed, in sealing
    /// order.
    pub closed spec fn pending(&self) -> Seq<ApplyProgressView> {
        self.progress.prs@.map_values(|p: ApplyProgress| p@)
    }

    /// The largest sequence number flushed of the column family at `offset`.
    pub closed spec fn last_flushed(&self, offset: int) -> u64 {
        self.progress.last_flushed@[offset]
    }

    pub closed spec fn state(&self) -> FlushState {
        self.state
    }

    pub closed spec fn ids(&self) -> (u64, u64) {
        (self.region_id, self.tablet_index)
    }

    pub fn new(region_id: u64, tablet_index: u64, state: FlushState) -> (r: PersistenceListener)
        ensures
            r.wf(),
            r.ids() == (region_id, tablet_index),
            r.state() == state,
            r.pending().len() == 0,
            forall|i: int| 0 <= i < DATA_CFS_LEN ==> r.last_flushed(i) == 0,
    {
        PersistenceListener {
            region_id,
            tablet_index,
            state,
            progress: FlushProgress { prs: Vec::new(), last_flushed: vec![0, 0, 0] },
        }
    }

    pub fn flush_state(&self) -> (r: &FlushState)
        ensures
            *r == self.state(),
    {
        &self.state
    }

    /// Sets the applied index of the shared flush state.
    pub fn set_applied_index(&mut self, index: u64)
        ensures
            final(self).state().spec_applied_index() == index,
            final(self).pending() == old(self).pending(),
            final(self).ids() == old(self).ids(),
            forall|i: int| final(self).last_flushed(i) == old(self).last_flushed(i),
            final(self).wf() == old(self).wf(),
    {
        self.state.set_applied_index(index);
    }

    /// The largest sequence number flushed of the column family at `offset`.
    pub fn flushed_seqno(&self, offset: usize) -> (r: u64)
        requires
            self.wf(),
            offset < DATA_CFS_LEN,
        ensures
            r == self.last_flushed(offset as int),
    {
        self.progress.last_flushed[offset]
    }

    /// Called when a memtable of `cf` is frozen; `smallest_seqno` is the
    /// smallest sequence number in it. Its progress is the current applied
    /// index. A memtable cannot be sealed below what was already flushed.
    pub fn on_memtable_sealed(&mut self, cf: String, smallest_seqno: u64)
        requires
            old(self).wf(),
            cf_offset(cf@) is Some,
            old(self).last_flushed(cf_offset(cf@)->0) <= smallest_seqno,
        ensures
            final(self).wf(),
            final(self).pending() == old(self).pending().push(
                ApplyProgressView {
                    cf: cf@,
                    apply_index: old(self).state().spec_applied_index(),
                    smallest_seqno,
                },
            ),
            final(self).state() == old(self).state(),
            final(self).ids() == old(self).ids(),
            forall|i: int| final(self).last_flushed(i) == old(self).last_flushed(i),
    {
        let apply_index = self.state.applied_index();
        let pr = ApplyProgress { cf, apply_index, smallest_seqno };
        self.progress.prs.push(pr);
        proof {
            assert(self.pending() =~= old(self).pending().push(pr@));
        }
    }

    /// Called when a flush of `cf` completed; `largest_seqno` is the largest
    /// sequence number in the generated file. The progresses of the
    /// memtables of `cf` that it covers leave the list, merged into one.
    pub fn on_flush_completed(&mut self, cf: &str, largest_seqno: u64, file_no: u64) -> (r:
        FlushOutcome)
        requires
            old(self).wf(),
            cf_offset(cf@) is Some,
        ensures
            final(self).wf(),
            final(self).state() == old(self).state(),
            final(self).ids() == old(self).ids(),
            ({
                let off = cf_offset(cf@)->0;
                let split = split_flushed(old(self).pending(), cf@, largest_seqno);
                if old(self).last_flushed(off) >= largest_seqno {
                    &&& r is Reordered
                    &&& final(self).pending() == old(self).pending()
                    &&& forall|i: int| final(self).last_flushed(i) == old(self).last_flushed(i)
                } else {
                    &&& final(self).pending() == split.0
                    &&& final(self).last_flushed(off) == largest_seqno
                    &&& forall|i: int|
                        0 <= i < DATA_CFS_LEN && i != off ==> final(self).last_flushed(i) == old(
                            self,
                        ).last_flushed(i)
                    &&& if split.1.len() == 0 {
                        r is NotFound
                    } else {
                        (r matches FlushOutcome::Flushed(pr) && pr@ == merged(split.1) && pr@.cf == cf@)
                    }
                }
            }),
    {
        let cf_name = cf.to_owned();
        let off = match data_cf_offset(&cf_name) {
            Some(o) => o,
            None => {
                return FlushOutcome::NotFound;
            },
        };
        let flushed = self.progress.last_flushed[off];
        if flushed >= largest_seqno {
            return FlushOutcome::Reordered;
        }
        self.progress.last_flushed.set(off, largest_seqno);
        let ghost all = old(self).pending();
        proof {
            lemma_split_taken_cf(all, cf@, largest_seqno);
        }
        let mut prs: Vec<ApplyProgress> = Vec::new();
        std::mem::swap(&mut prs, &mut self.progress.prs);
        let mut kept: Vec<ApplyProgress> = Vec::new();
        let mut flushed_pr: Option<ApplyProgress> = None;
        let ghost mut taken: Seq<ApplyProgressView> = Seq::empty();
        let mut stop = false;
        let mut i: usize = 0;
        proof {
            assert(all.subrange(0, all.len() as int) =~= all);
            assert(kept@.map_values(|p: ApplyProgress| p@) =~= Seq::<ApplyProgressView>::empty());
            assert(Seq::<ApplyProgressView>::empty() + split_flushed(all, cf@, largest_seqno).0
                =~= split_flushed(all, cf@, largest_seqno).0);
            assert(taken + split_flushed(all, cf@, largest_seqno).1 =~= split_flushed(
                all,
                cf@,
                largest_seqno,
            ).1);
        }
        while i < prs.len()
            invariant
                i <= prs@.len(),
                all == prs@.map_values(|p: ApplyProgress| p@),
                cf_name@ == cf@,
                forall|j: int| 0 <= j < taken.len() ==> (#[trigger] taken[j]).cf == cf@,
                taken.len() == 0 ==> flushed_pr is None,
                taken.len() > 0 ==> (flushed_pr matches Some(p) && p@ == merged(taken)),
                !stop ==> ({
                    let rest = split_flushed(all.subrange(i as int, all.len() as int), cf@, largest_seqno);
                    split_flushed(all, cf@, largest_seqno) == (kept@.map_values(|p: ApplyProgress| p@) + rest.0, taken + rest.1)
                }),
                stop ==> split_flushed(all, cf@, largest_seqno) == (kept@.map_values(|p: ApplyProgress| p@) + all.subrange(i as int, all.len() as int), taken),
            decreases prs@.len() - i,
        {
            let p = &prs[i];
            let copy = ApplyProgress {
                cf: p.cf.clone(),
                apply_index: p.apply_index,
                smallest_seqno: p.smallest_seqno,
            };
            let ghost sub = all.subrange(i as int, all.len() as int);
            let ghost kept_before = kept@.map_values(|p: ApplyProgress| p@);
            proof {
                assert(sub[0] == copy@);
                assert(sub.drop_first() =~= all.subrange(i + 1, all.len() as int));
                assert(sub =~= seq![sub[0]] + all.subrange(i + 1, all.len() as int));
            }
            if stop || copy.cf != cf_name {
                kept.push(copy);
                proof {
                    assert(kept@.map_values(|p: ApplyProgress| p@) =~= kept_before.push(copy@));
                    if stop {
                        assert(kept_before + sub =~= kept_before.push(copy@) + all.subrange(i + 1, all.len() as int));
                    } else {
                        let rest = split_flushed(all.subrange(i + 1, all.len() as int), cf@, largest_seqno);
                        assert(kept_before + (seq![copy@] + rest.0) =~= kept_before.push(copy@) + rest.0);
                    }
                }
            } else if copy.smallest_seqno <= largest_seqno {
                let ghost taken_before = taken;
                proof {
                    taken = taken.push(copy@);
                    let rest = split_flushed(all.subrange(i + 1, all.len() as int), cf@, largest_seqno);
                    assert(taken_before + (seq![copy@] + rest.1) =~= taken + rest.1);
                    assert(taken.last() == copy@);
                    assert(taken[0] == if taken_before.len() == 0 { copy@ } else { taken_before[0] });
                }
                match flushed_pr {
                    None => {
                        flushed_pr = Some(copy);
                    },
                    Some(mut acc) => {
                        acc.merge(copy);
                        flushed_pr = Some(acc);
                    },
                }
            } else {
                stop = true;
                kept.push(copy);
                proof {
                    assert(kept@.map_values(|p: ApplyProgress| p@) =~= kept_before.push(copy@));
                    assert(kept_before + sub =~= kept_before.push(copy@) + all.subrange(i + 1, all.len() as int));
                    assert(taken + Seq::<ApplyProgressView>::empty() =~= taken);
                }
            }
            i = i + 1;
        }
        let ghost e = all.subrange(all.len() as int, all.len() as int);
        proof {
            assert(e =~= Seq::<ApplyProgressView>::empty());
            assert(kept@.map_values(|p: ApplyProgress| p@) + e =~= kept@.map_values(|p: ApplyProgress| p@));
            assert(taken + e =~= taken);
        }
        self.progress.prs = kept;
        match flushed_pr {
            Some(pr) => FlushOutcome::Flushed(pr),
            None => FlushOutcome::NotFound,
        }
    }
}

} // verus!
