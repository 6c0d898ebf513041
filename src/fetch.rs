//! Scheduling of the album fetches: a window that slides over the albums in
//! rank order and never holds more than its bound in flight. The caller runs
//! the fetches and reports each completion; the window decides what to start.

use vstd::prelude::*;

verus! {

pub struct FetchWindow {
    bound: usize,
    total: usize,
    next: usize,
    in_flight: usize,
}

impl FetchWindow {
    /// Most fetches in flight at once.
    pub closed spec fn bound(&self) -> nat {
        self.bound as nat
    }

    /// Number of albums to fetch.
    pub closed spec fn total(&self) -> nat {
        self.total as nat
    }

    /// Number of fetches started so far; they were started in rank order.
    pub closed spec fn started(&self) -> nat {
        self.next as nat
    }

    /// Number of fetches started and not yet reported complete.
    pub closed spec fn in_flight(&self) -> nat {
        self.in_flight as nat
    }

    pub closed spec fn wf(&self) -> bool {
        &&& self.bound >= 1
        &&& self.next <= self.total
        &&& self.in_flight <= self.next
        &&& self.in_flight <= self.bound
    }

    /// A window over `total` albums with at most `bound` fetches in flight.
    pub fn new(total: usize, bound: usize) -> (r: FetchWindow)
        requires
            bound >= 1,
        ensures
            r.wf(),
            r.bound() == bound,
            r.total() == total,
            r.started() == 0,
            r.in_flight() == 0,
    {
        FetchWindow { bound, total, next: 0, in_flight: 0 }
    }

    /// Starts the next album's fetch if the window has room and an album is
    /// left, and returns its rank index.
    pub fn start_next(&mut self) -> (r: Option<usize>)
        requires
            old(self).wf(),
        ensures
            final(self).wf(),
            final(self).bound() == old(self).bound(),
            final(self).total() == old(self).total(),
            final(self).in_flight() <= final(self).bound(),
            (old(self).in_flight() < old(self).bound() && old(self).started() < old(self).total()) ==> (
            r == Some(old(self).started() as usize) && final(self).started() == old(self).started() + 1
                && final(self).in_flight() == old(self).in_flight() + 1),
            !(old(self).in_flight() < old(self).bound() && old(self).started() < old(self).total())
                ==> (r is None && *final(self) == *old(self)),
    {
        if self.in_flight < self.bound && self.next < self.total {
            let i = self.next;
            self.next = self.next + 1;
            self.in_flight = self.in_flight + 1;
            Some(i)
        } else {
            None
        }
    }

    /// Reports that one fetch in flight has completed, freeing its slot.
    pub fn complete(&mut self)
        requires
            old(self).wf(),
            old(self).in_flight() > 0,
        ensures
            final(self).wf(),
            final(self).bound() == old(self).bound(),
            final(self).total() == old(self).total(),
            final(self).started() == old(self).started(),
            final(self).in_flight() == old(self).in_flight() - 1,
    {
        self.in_flight = self.in_flight - 1;
    }

    /// Whether every album's fetch has been started and has completed: the
    /// barrier before composition.
    pub fn is_finished(&self) -> (r: bool)
        requires
            self.wf(),
        ensures
            r == (self.started() == self.total() && self.in_flight() == 0),
    {
        self.next == self.total && self.in_flight == 0
    }

    /// Number of fetches in flight.
    pub fn outstanding(&self) -> (r: usize)
        requires
            self.wf(),
        ensures
            r == self.in_flight(),
            r <= self.bound(),
    {
        self.in_flight
    }
}

/// However starts and completions interleave, a well-formed window never has
/// more fetches in flight than its bound.
pub proof fn lemma_window_within_bound(w: FetchWindow)
    requires
        w.wf(),
    ensures
        w.in_flight() <= w.bound(),
        w.started() <= w.total(),
{
}

} // verus!
