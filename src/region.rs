//! Regions, their epochs and the handles of observation attempts.
use vstd::prelude::*;

verus! {

/// The version of a region's membership (`conf_ver`) and of its key range
/// (`version`). Both only grow over the region's life.
#[derive(Clone, Copy, Debug, PartialEq, Eq, Structural)]
pub struct RegionEpoch {
    pub conf_ver: u64,
    pub version: u64,
}

/// How one epoch stands to another in the partial order of epochs.
#[derive(Clone, Copy, Debug, PartialEq, Eq, Structural)]
pub enum EpochOrder {
    /// Both counters are smaller or equal, and one is smaller.
    Older,
    /// Both counters are equal.
    Same,
    /// Both counters are greater or equal, and one is greater.
    Newer,
    /// One counter is greater and the other smaller.
    Diverged,
}

/// `a` is at least as new as `b` in both counters.
pub open spec fn epoch_dominates(a: RegionEpoch, b: RegionEpoch) -> bool {
    a.conf_ver >= b.conf_ver && a.version >= b.version
}

/// Where `a` stands relative to `b`.
pub open spec fn epoch_order(a: RegionEpoch, b: RegionEpoch) -> EpochOrder {
    if a == b {
        EpochOrder::Same
    } else if epoch_dominates(a, b) {
        EpochOrder::Newer
    } else if epoch_dominates(b, a) {
        EpochOrder::Older
    } else {
        EpochOrder::Diverged
    }
}

impl RegionEpoch {
    /// Three-way comparison of `self` against `other` over both counters.
    pub fn compare(&self, other: &RegionEpoch) -> (r: EpochOrder)
        ensures
            r == epoch_order(*self, *other),
    {
        let conf_ge = self.conf_ver >= other.conf_ver;
        let conf_le = self.conf_ver <= other.conf_ver;
        let ver_ge = self.version >= other.version;
        let ver_le = self.version <= other.version;
        if conf_ge && conf_le && ver_ge && ver_le {
            EpochOrder::Same
        } else if conf_ge && ver_ge {
            EpochOrder::Newer
        } else if conf_le && ver_le {
            EpochOrder::Older
        } else {
            EpochOrder::Diverged
        }
    }

    /// Whether `self` is at least as new as `other` in both counters.
    pub fn dominates(&self, other: &RegionEpoch) -> (r: bool)
        ensures
            r == epoch_dominates(*self, *other),
    {
        self.conf_ver >= other.conf_ver && self.version >= other.version
    }
}

/// A region as the observer sees it: an id, the key range
/// `[start_key, end_key)` (an empty end key is unbounded) and an epoch.
#[derive(Clone, Debug)]
pub struct Region {
    pub id: u64,
    pub start_key: Vec<u8>,
    pub end_key: Vec<u8>,
    pub epoch: RegionEpoch,
}

/// The value of a [`Region`].
pub struct RegionView {
    pub id: u64,
    pub start_key: Seq<u8>,
    pub end_key: Seq<u8>,
    pub epoch: RegionEpoch,
}

impl View for Region {
    type V = RegionView;

    open spec fn view(&self) -> RegionView {
        RegionView {
            id: self.id,
            start_key: self.start_key@,
            end_key: self.end_key@,
            epoch: self.epoch,
        }
    }
}

impl Region {
    pub fn new(id: u64, start_key: Vec<u8>, end_key: Vec<u8>, epoch: RegionEpoch) -> (r: Region)
        ensures
            r.id == id,
            r.start_key@ == start_key@,
            r.end_key@ == end_key@,
            r.epoch == epoch,
    {
        Region { id, start_key, end_key, epoch }
    }

    /// A copy of this region with the same value.
    pub fn duplicate(&self) -> (r: Region)
        ensures
            r@ == self@,
    {
        Region {
            id: self.id,
            start_key: self.start_key.clone(),
            end_key: self.end_key.clone(),
            epoch: self.epoch,
        }
    }
}

/// The token of one attempt to observe a region. A retry of the same attempt
/// carries the same handle; a new attempt gets a new one.
#[derive(Clone, Copy, Debug, PartialEq, Eq, Structural)]
pub struct ObserveHandle {
    pub id: u64,
}

} // verus!
