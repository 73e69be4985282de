//! The count behind the completion barrier of initial scans: a token is
//! taken before a scan is dispatched and given back when it ends; waiting
//! for the scans to drain is waiting for the count to reach zero. Cloning a
//! handle to the barrier takes no token.
use vstd::prelude::*;

verus! {

#[derive(Debug)]
pub struct WaitGroup {
    outstanding: u64,
}

impl WaitGroup {
    /// How many tokens are out.
    pub closed spec fn count(&self) -> nat {
        self.outstanding as nat
    }

    pub fn new() -> (r: WaitGroup)
        ensures
            r.count() == 0,
    {
        WaitGroup { outstanding: 0 }
    }

    /// Takes a token for one more piece of work; returns `false`, taking
    /// none, when the count cannot grow.
    pub fn work(&mut self) -> (r: bool)
        ensures
            r == (old(self).count() < u64::MAX),
            r ==> final(self).count() == old(self).count() + 1,
            !r ==> final(self).count() == old(self).count(),
    {
        if self.outstanding < u64::MAX {
            self.outstanding = self.outstanding + 1;
            true
        } else {
            false
        }
    }

    /// Gives a token back; returns `false`, changing nothing, when none is
    /// out.
    pub fn done(&mut self) -> (r: bool)
        ensures
            r == (old(self).count() > 0),
            r ==> final(self).count() + 1 == old(self).count(),
            !r ==> final(self).count() == old(self).count(),
    {
        if self.outstanding > 0 {
            self.outstanding = self.outstanding - 1;
            true
        } else {
            false
        }
    }

    /// No token is out: every dispatched scan has ended.
    pub fn is_idle(&self) -> (r: bool)
        ensures
            r == (self.count() == 0),
    {
        self.outstanding == 0
    }

    /// How many tokens are out.
    pub fn outstanding(&self) -> (r: u64)
        ensures
            r == self.count(),
    {
        self.outstanding
    }
}

} // verus!
