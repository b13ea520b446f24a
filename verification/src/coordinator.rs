//! The bookkeeping of one bounded-concurrency run: how many probes are in
//! flight, how many records have been dispositioned, and the collected alive
//! entries. The run's driver dispatches one probe per parsed record and hands
//! every completion back; the state here guarantees the admission limit and
//! that a finished run has dispositioned every record.

use vstd::prelude::*;

use crate::evaluate::AliveProxyEntry;

verus! {

/// The default admission limit: how many probes may be in flight at once.
pub const MAX_CONCURRENT: usize = 100;

/// The default deadline of one probe, in seconds.
pub const TIMEOUT_SECONDS: u64 = 3;

/// The state of one run over a fixed list of parsed records.
pub struct Coordinator {
    /// The admission limit of this run.
    pub max_concurrent: usize,
    /// How many records the run was started with.
    pub total: usize,
    /// How many probes have been started.
    pub dispatched: usize,
    /// How many probes have finished, alive or not.
    pub completed: usize,
    /// The alive entries collected so far.
    pub alive: Vec<AliveProxyEntry>,
}

impl Coordinator {
    /// Probes dispatched and not yet completed.
    pub open spec fn in_flight(&self) -> int {
        self.dispatched - self.completed
    }

    /// The state invariant: completions never outrun dispatches, dispatches
    /// never outrun the record list, the in-flight count never exceeds the
    /// admission limit, and only completions contribute alive entries.
    pub open spec fn wf(&self) -> bool {
        &&& self.max_concurrent >= 1
        &&& self.completed <= self.dispatched
        &&& self.dispatched <= self.total
        &&& self.in_flight() <= self.max_concurrent
        &&& self.alive@.len() <= self.completed
    }

    /// A fresh run over `total` records, nothing dispatched yet.
    pub fn new(max_concurrent: usize, total: usize) -> (r: Coordinator)
        requires
            max_concurrent >= 1,
        ensures
            r.wf(),
            r.max_concurrent == max_concurrent,
            r.total == total,
            r.dispatched == 0,
            r.completed == 0,
            r.alive@ == Seq::<AliveProxyEntry>::empty(),
    {
        let r = Coordinator { max_concurrent, total, dispatched: 0, completed: 0, alive: Vec::new() };
        proof {
            assert(r.alive@ =~= Seq::<AliveProxyEntry>::empty());
        }
        r
    }

    /// Whether another probe may start now: a free slot under the admission
    /// limit, and a record not yet dispatched.
    pub fn can_dispatch(&self) -> (r: bool)
        requires
            self.wf(),
        ensures
            r == (self.in_flight() < self.max_concurrent && self.dispatched < self.total),
    {
        self.dispatched - self.completed < self.max_concurrent && self.dispatched < self.total
    }

    /// Starts one probe. Only allowed with a free slot, so the in-flight
    /// count stays within the admission limit.
    pub fn dispatch(&mut self)
        requires
            old(self).wf(),
            old(self).in_flight() < old(self).max_concurrent,
            old(self).dispatched < old(self).total,
        ensures
            final(self).wf(),
            final(self).dispatched == old(self).dispatched + 1,
            final(self).completed == old(self).completed,
            final(self).total == old(self).total,
            final(self).max_concurrent == old(self).max_concurrent,
            final(self).alive@ == old(self).alive@,
            final(self).in_flight() == old(self).in_flight() + 1,
    {
        self.dispatched = self.dispatched + 1;
    }

    /// Records one finished probe, together with its evaluation: an alive
    /// entry is appended to the collection, any other disposition contributes
    /// nothing and never aborts the run.
    pub fn complete(&mut self, result: Option<AliveProxyEntry>)
        requires
            old(self).wf(),
            old(self).in_flight() > 0,
        ensures
            final(self).wf(),
            final(self).completed == old(self).completed + 1,
            final(self).dispatched == old(self).dispatched,
            final(self).total == old(self).total,
            final(self).max_concurrent == old(self).max_concurrent,
            final(self).in_flight() == old(self).in_flight() - 1,
            final(self).alive@ == match result {
                Some(e) => old(self).alive@.push(e),
                None => old(self).alive@,
            },
    {
        self.completed = self.completed + 1;
        match result {
            Some(e) => self.alive.push(e),
            None => {},
        }
    }

    /// Whether every record of the run has been dispositioned.
    pub fn is_done(&self) -> (r: bool)
        ensures
            r == (self.completed == self.total),
    {
        self.completed == self.total
    }

    /// Hands out the collected alive entries at the end of the run.
    pub fn into_alive(self) -> (r: Vec<AliveProxyEntry>)
        ensures
            r@ == self.alive@,
    {
        self.alive
    }

    /// The admission limit holds in every reachable state: the probes in
    /// flight never exceed it.
    pub proof fn lemma_in_flight_bounded(&self)
        requires
            self.wf(),
        ensures
            0 <= self.in_flight() <= self.max_concurrent,
    {
    }

    /// A run is done only when every record has been dispositioned: as many
    /// completions as records, and nothing left in flight.
    pub proof fn lemma_done_all_dispositioned(&self)
        requires
            self.wf(),
            self.completed == self.total,
        ensures
            self.dispatched == self.total,
            self.in_flight() == 0,
            self.alive@.len() <= self.total,
    {
    }
}

} // verus!
