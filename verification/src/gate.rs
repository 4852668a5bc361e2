use vstd::prelude::*;

verus! {

/// The fixed capacity of the process-wide fetch gate.
pub const FETCH_GATE_CAPACITY: u64 = 3;

/// A counting permit pool bounding concurrent calls to the catalog source.
/// A caller acquires a permit before issuing a request and releases it
/// immediately after the response is received, so at most `capacity` calls
/// are ever outstanding at once.
pub struct FetchGate {
    capacity: u64,
    available: u64,
}

impl FetchGate {
    /// The fixed number of permits.
    pub closed spec fn spec_capacity(&self) -> u64 {
        self.capacity
    }

    /// The number of permits currently free.
    pub closed spec fn spec_available(&self) -> u64 {
        self.available
    }

    /// The number of permits currently held by callers.
    pub open spec fn in_flight(&self) -> int {
        self.spec_capacity() - self.spec_available()
    }

    /// Well-formed: no more permits are free than exist.
    pub open spec fn wf(&self) -> bool {
        self.spec_available() <= self.spec_capacity()
    }

    /// A gate with `capacity` permits, all free.
    pub fn new(capacity: u64) -> (r: FetchGate)
        ensures
            r.wf(),
            r.spec_capacity() == capacity,
            r.spec_available() == capacity,
            r.in_flight() == 0,
    {
        FetchGate { capacity, available: capacity }
    }

    /// Takes a permit if one is free. Never blocks: the caller decides
    /// whether to wait and retry.
    pub fn try_acquire(&mut self) -> (granted: bool)
        requires
            old(self).wf(),
        ensures
            final(self).wf(),
            final(self).spec_capacity() == old(self).spec_capacity(),
            granted <==> old(self).spec_available() > 0,
            granted ==> final(self).spec_available() == old(self).spec_available() - 1,
            !granted ==> *final(self) == *old(self),
    {
        if self.available > 0 {
            self.available = self.available - 1;
            true
        } else {
            false
        }
    }

    /// Returns a permit. To be called exactly once per granted acquire,
    /// immediately after the response is received.
    pub fn release(&mut self)
        requires
            old(self).wf(),
            old(self).in_flight() > 0,
        ensures
            final(self).wf(),
            final(self).spec_capacity() == old(self).spec_capacity(),
            final(self).spec_available() == old(self).spec_available() + 1,
    {
        self.available = self.available + 1;
    }
}

/// At any instant, between zero and the fixed permit total of calls are
/// outstanding.
pub proof fn lemma_gate_bounded(g: &FetchGate)
    requires
        g.wf(),
    ensures
        0 <= g.in_flight() <= g.spec_capacity(),
{
}

} // verus!
