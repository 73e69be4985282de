//! The records of the regions under observation, one per region id.
use crate::region::{ObserveHandle, Region, RegionView};
use vstd::prelude::*;

verus! {

/// Where the observation of a region stands.
#[derive(Clone, Copy, Debug, PartialEq, Eq, Structural)]
pub enum ObserveState {
    /// The region is watched; its initial scan has not finished yet.
    Pending,
    /// The initial scan finished; change events alone keep the region
    /// covered.
    Observing,
}

/// What is watched of one region.
#[derive(Debug)]
pub struct ObservationRecord {
    pub region: Region,
    pub handle: ObserveHandle,
    pub state: ObserveState,
    /// The checkpoint from which the initial scan started, once known.
    pub checkpoint: Option<u64>,
}

/// The value of an [`ObservationRecord`].
pub struct RecordView {
    pub region: RegionView,
    pub handle: ObserveHandle,
    pub state: ObserveState,
    pub checkpoint: Option<u64>,
}

impl View for ObservationRecord {
    type V = RecordView;

    open spec fn view(&self) -> RecordView {
        RecordView {
            region: self.region@,
            handle: self.handle,
            state: self.state,
            checkpoint: self.checkpoint,
        }
    }
}

/// No two records share a region id.
pub open spec fn ids_distinct(s: Seq<ObservationRecord>) -> bool {
    forall|i: int, j: int|
        0 <= i < s.len() && 0 <= j < s.len() && i != j ==> s[i].region.id != s[j].region.id
}

/// Some record of `s` is for region `id`.
pub open spec fn has_id(s: Seq<ObservationRecord>, id: u64) -> bool {
    exists|i: int| 0 <= i < s.len() && #[trigger] s[i].region.id == id
}

/// The records of `s` by region id.
pub open spec fn records_map(s: Seq<ObservationRecord>) -> Map<u64, RecordView> {
    Map::new(
        |id: u64| has_id(s, id),
        |id: u64| s[choose|i: int| 0 <= i < s.len() && #[trigger] s[i].region.id == id]@,
    )
}

proof fn lemma_map_at(s: Seq<ObservationRecord>, i: int)
    requires
        ids_distinct(s),
        0 <= i < s.len(),
    ensures
        records_map(s).contains_key(s[i].region.id),
        records_map(s)[s[i].region.id] == s[i]@,
{
    let id = s[i].region.id;
    assert(has_id(s, id));
    let j = choose|j: int| 0 <= j < s.len() && #[trigger] s[j].region.id == id;
    assert(j == i);
}

proof fn lemma_map_push(s: Seq<ObservationRecord>, r: ObservationRecord)
    requires
        ids_distinct(s),
        !records_map(s).contains_key(r.region.id),
    ensures
        ids_distinct(s.push(r)),
        records_map(s.push(r)) == records_map(s).insert(r.region.id, r@),
{
    let t = s.push(r);
    assert forall|i: int| 0 <= i < s.len() implies s[i].region.id != r.region.id by {
        if s[i].region.id == r.region.id {
            assert(has_id(s, r.region.id));
        }
    }
    assert(ids_distinct(t));
    let m = records_map(s).insert(r.region.id, r@);
    assert forall|id: u64| #[trigger] records_map(t).contains_key(id) == m.contains_key(id) by {
        if has_id(t, id) {
            let i = choose|i: int| 0 <= i < t.len() && #[trigger] t[i].region.id == id;
            if i < s.len() {
                assert(s[i] == t[i]);
                assert(has_id(s, id));
            }
        }
        if has_id(s, id) {
            let i = choose|i: int| 0 <= i < s.len() && #[trigger] s[i].region.id == id;
            assert(t[i] == s[i]);
            assert(has_id(t, id));
        }
        if id == r.region.id {
            assert(t[s.len() as int] == r);
            assert(has_id(t, id));
        }
    }
    assert forall|id: u64| #[trigger] records_map(t).contains_key(id) implies records_map(t)[id]
        == m[id] by {
        let i = choose|i: int| 0 <= i < t.len() && #[trigger] t[i].region.id == id;
        lemma_map_at(t, i);
        if i < s.len() {
            assert(s[i] == t[i]);
            lemma_map_at(s, i);
        }
    }
    assert(records_map(t) =~= m);
}

proof fn lemma_map_update(s: Seq<ObservationRecord>, i: int, r: ObservationRecord)
    requires
        ids_distinct(s),
        0 <= i < s.len(),
        r.region.id == s[i].region.id,
    ensures
        ids_distinct(s.update(i, r)),
        records_map(s.update(i, r)) == records_map(s).insert(r.region.id, r@),
{
    let t = s.update(i, r);
    assert(ids_distinct(t));
    let m = records_map(s).insert(r.region.id, r@);
    assert forall|id: u64| #[trigger] records_map(t).contains_key(id) == m.contains_key(id) by {
        if has_id(t, id) {
            let j = choose|j: int| 0 <= j < t.len() && #[trigger] t[j].region.id == id;
            if j != i {
                assert(s[j] == t[j]);
            }
            assert(s[j].region.id == id);
            assert(has_id(s, id));
        }
        if has_id(s, id) {
            let j = choose|j: int| 0 <= j < s.len() && #[trigger] s[j].region.id == id;
            assert(t[j].region.id == id);
            assert(has_id(t, id));
        }
    }
    assert forall|id: u64| #[trigger] records_map(t).contains_key(id) implies records_map(t)[id]
        == m[id] by {
        let j = choose|j: int| 0 <= j < t.len() && #[trigger] t[j].region.id == id;
        lemma_map_at(t, j);
        if j != i {
            assert(s[j] == t[j]);
            lemma_map_at(s, j);
        }
    }
    assert(records_map(t) =~= m);
}

proof fn lemma_map_remove(s: Seq<ObservationRecord>, i: int)
    requires
        ids_distinct(s),
        0 <= i < s.len(),
    ensures
        ids_distinct(s.remove(i)),
        records_map(s.remove(i)) == records_map(s).remove(s[i].region.id),
{
    let t = s.remove(i);
    let gone = s[i].region.id;
    assert forall|a: int, b: int|
        0 <= a < t.len() && 0 <= b < t.len() && a != b implies t[a].region.id
        != t[b].region.id by {
        let sa = if a < i { a } else { a + 1 };
        let sb = if b < i { b } else { b + 1 };
        assert(t[a] == s[sa]);
        assert(t[b] == s[sb]);
    }
    let m = records_map(s).remove(gone);
    assert forall|id: u64| #[trigger] records_map(t).contains_key(id) == m.contains_key(id) by {
        if has_id(t, id) {
            let j = choose|j: int| 0 <= j < t.len() && #[trigger] t[j].region.id == id;
            let sj = if j < i { j } else { j + 1 };
            assert(t[j] == s[sj]);
            assert(has_id(s, id));
            assert(id != gone);
        }
        if has_id(s, id) && id != gone {
            let j = choose|j: int| 0 <= j < s.len() && #[trigger] s[j].region.id == id;
            assert(j != i);
            let tj = if j < i { j } else { j - 1 };
            assert(t[tj] == s[j]);
            assert(has_id(t, id));
        }
    }
    assert forall|id: u64| #[trigger] records_map(t).contains_key(id) implies records_map(t)[id]
        == m[id] by {
        let j = choose|j: int| 0 <= j < t.len() && #[trigger] t[j].region.id == id;
        lemma_map_at(t, j);
        let sj = if j < i { j } else { j + 1 };
        assert(t[j] == s[sj]);
        lemma_map_at(s, sj);
    }
    assert(records_map(t) =~= m);
}

/// The watched observations, at most one per region id.
pub struct SubscriptionTracker {
    records: Vec<ObservationRecord>,
}

impl View for SubscriptionTracker {
    type V = Map<u64, RecordView>;

    closed spec fn view(&self) -> Map<u64, RecordView> {
        records_map(self.records@)
    }
}

impl SubscriptionTracker {
    /// At most one record per region id.
    pub closed spec fn wf(&self) -> bool {
        ids_distinct(self.records@)
    }

    pub fn new() -> (r: SubscriptionTracker)
        ensures
            r.wf(),
            r@ == Map::<u64, RecordView>::empty(),
    {
        let r = SubscriptionTracker { records: Vec::new() };
        assert(r@ =~= Map::<u64, RecordView>::empty());
        r
    }

    fn position(&self, region_id: u64) -> (r: Option<usize>)
        requires
            self.wf(),
        ensures
            match r {
                Some(i) => i < self.records@.len() && self.records@[i as int].region.id == region_id,
                None => !self@.contains_key(region_id),
            },
    {
        let mut i: usize = 0;
        while i < self.records.len()
            invariant
                i <= self.records@.len(),
                forall|j: int| 0 <= j < i ==> self.records@[j].region.id != region_id,
            decreases self.records@.len() - i,
        {
            if self.records[i].region.id == region_id {
                return Some(i);
            }
            i = i + 1;
        }
        None
    }

    /// The record of region `region_id`, if it is watched.
    pub fn get(&self, region_id: u64) -> (r: Option<&ObservationRecord>)
        requires
            self.wf(),
        ensures
            match r {
                Some(rec) => self@.contains_key(region_id) && self@[region_id] == rec@,
                None => !self@.contains_key(region_id),
            },
    {
        match self.position(region_id) {
            Some(i) => {
                proof {
                    lemma_map_at(self.records@, i as int);
                }
                Some(&self.records[i])
            },
            None => None,
        }
    }

    /// Tracks `rec`, replacing the record of the same region if there is one.
    pub fn insert(&mut self, rec: ObservationRecord)
        requires
            old(self).wf(),
        ensures
            final(self).wf(),
            final(self)@ == old(self)@.insert(rec.region.id, rec@),
    {
        let id = rec.region.id;
        match self.position(id) {
            Some(i) => {
                proof {
                    lemma_map_update(self.records@, i as int, rec);
                }
                self.records.set(i, rec);
            },
            None => {
                proof {
                    lemma_map_push(self.records@, rec);
                }
                self.records.push(rec);
            },
        }
    }

    /// Stops tracking region `region_id`; returns whether it was watched.
    pub fn remove(&mut self, region_id: u64) -> (r: bool)
        requires
            old(self).wf(),
        ensures
            final(self).wf(),
            final(self)@ == old(self)@.remove(region_id),
            r == old(self)@.contains_key(region_id),
    {
        match self.position(region_id) {
            Some(i) => {
                proof {
                    lemma_map_remove(self.records@, i as int);
                    lemma_map_at(self.records@, i as int);
                }
                self.records.remove(i);
                true
            },
            None => {
                assert(self@.remove(region_id) =~= self@);
                false
            },
        }
    }

    /// Marks the initial scan of region `region_id` as finished, if the
    /// region is watched under `handle`; returns whether it was.
    pub fn mark_observing(&mut self, region_id: u64, handle: ObserveHandle) -> (r: bool)
        requires
            old(self).wf(),
        ensures
            final(self).wf(),
            r == (old(self)@.contains_key(region_id) && old(self)@[region_id].handle == handle),
            r ==> final(self)@ == old(self)@.insert(
                region_id,
                RecordView { state: ObserveState::Observing, ..old(self)@[region_id] },
            ),
            !r ==> final(self)@ == old(self)@,
    {
        match self.position(region_id) {
            Some(i) => {
                proof {
                    lemma_map_at(self.records@, i as int);
                }
                if self.records[i].handle == handle {
                    let rec = ObservationRecord {
                        region: self.records[i].region.duplicate(),
                        handle,
                        state: ObserveState::Observing,
                        checkpoint: self.records[i].checkpoint,
                    };
                    proof {
                        lemma_map_update(self.records@, i as int, rec);
                    }
                    self.records.set(i, rec);
                    true
                } else {
                    false
                }
            },
            None => false,
        }
    }

    /// The ids of the watched regions, each once.
    pub fn current_regions(&self) -> (r: Vec<u64>)
        requires
            self.wf(),
        ensures
            r@.no_duplicates(),
            forall|id: u64| r@.contains(id) <==> self@.contains_key(id),
    {
        let mut out: Vec<u64> = Vec::new();
        let mut i: usize = 0;
        while i < self.records.len()
            invariant
                i <= self.records@.len(),
                ids_distinct(self.records@),
                out@.len() == i,
                forall|j: int| 0 <= j < i ==> out@[j] == #[trigger] self.records@[j].region.id,
            decreases self.records@.len() - i,
        {
            out.push(self.records[i].region.id);
            i = i + 1;
        }
        proof {
            let s = self.records@;
            assert forall|a: int, b: int|
                0 <= a < out@.len() && 0 <= b < out@.len() && a != b implies out@[a]
                != out@[b] by {
                assert(out@[a] == s[a].region.id);
                assert(out@[b] == s[b].region.id);
            }
            assert forall|id: u64| out@.contains(id) <==> self@.contains_key(id) by {
                if out@.contains(id) {
                    let j = choose|j: int| 0 <= j < out@.len() && out@[j] == id;
                    assert(s[j].region.id == id);
                    assert(has_id(s, id));
                }
                if self@.contains_key(id) {
                    let j = choose|j: int| 0 <= j < s.len() && #[trigger] s[j].region.id == id;
                    assert(out@[j] == id);
                }
            }
        }
        out
    }

    /// How many regions are watched.
    pub fn len(&self) -> (r: usize)
        requires
            self.wf(),
        ensures
            r == self@.len(),
    {
        proof {
            lemma_len(self.records@);
        }
        self.records.len()
    }
}

proof fn lemma_len(s: Seq<ObservationRecord>)
    requires
        ids_distinct(s),
    ensures
        records_map(s).dom().len() == s.len(),
        records_map(s).dom().finite(),
    decreases s.len(),
{
    if s.len() == 0 {
        assert(records_map(s).dom() =~= Set::<u64>::empty());
    } else {
        let p = s.drop_last();
        let r = s.last();
        assert(ids_distinct(p));
        lemma_len(p);
        assert forall|j: int| 0 <= j < p.len() implies p[j].region.id != r.region.id by {
            assert(s[j] == p[j]);
        }
        if records_map(p).contains_key(r.region.id) {
            let j = choose|j: int| 0 <= j < p.len() && #[trigger] p[j].region.id == r.region.id;
        }
        lemma_map_push(p, r);
        assert(p.push(r) =~= s);
    }
}

} // verus!
