//! A counting gate that bounds how many downloads are in flight.

use vstd::prelude::*;

verus! {

/// What a limiter holds: its fixed capacity and the slots now taken.
pub struct LimiterState {
    pub capacity: nat,
    pub in_flight: nat,
}

/// The state after one acquire attempt, and whether a slot was granted.
pub open spec fn acquire_step(s: LimiterState) -> (LimiterState, bool) {
    if s.in_flight < s.capacity {
        (LimiterState { in_flight: s.in_flight + 1, ..s }, true)
    } else {
        (s, false)
    }
}

/// The state after a holder gives its slot back.
pub open spec fn release_step(s: LimiterState) -> LimiterState {
    LimiterState { in_flight: (s.in_flight - 1) as nat, ..s }
}

/// The state after `m` acquire attempts one after another, with the number
/// of them that were granted.
pub open spec fn burst(s: LimiterState, m: nat) -> (LimiterState, nat)
    decreases m,
{
    if m == 0 {
        (s, 0)
    } else {
        let (t, granted) = burst(s, (m - 1) as nat);
        let (u, ok) = acquire_step(t);
        (u, if ok { granted + 1 } else { granted })
    }
}

/// Configuration error: a limiter must admit at least one holder.
#[derive(Clone, Copy, Debug, PartialEq, Eq, Structural)]
pub struct ZeroCapacity;

/// A counting gate of fixed capacity.
pub struct ConcurrencyLimiter {
    capacity: u64,
    in_flight: u64,
}

impl View for ConcurrencyLimiter {
    type V = LimiterState;

    closed spec fn view(&self) -> LimiterState {
        LimiterState { capacity: self.capacity as nat, in_flight: self.in_flight as nat }
    }
}

impl ConcurrencyLimiter {
    /// At least one slot, and never more slots taken than there are.
    pub open spec fn wf(&self) -> bool {
        &&& self@.capacity >= 1
        &&& self@.in_flight <= self@.capacity
    }

    /// A limiter with `capacity` slots, none taken; a capacity of zero is
    /// refused.
    pub fn new(capacity: u64) -> (r: Result<ConcurrencyLimiter, ZeroCapacity>)
        ensures
            capacity == 0 <==> r is Err,
            r matches Ok(l) ==> l.wf() && l@ == (LimiterState { capacity: capacity as nat, in_flight: 0 }),
    {
        if capacity == 0 {
            Err(ZeroCapacity)
        } else {
            Ok(ConcurrencyLimiter { capacity, in_flight: 0 })
        }
    }

    pub fn capacity(&self) -> (c: u64)
        ensures
            c == self@.capacity,
    {
        self.capacity
    }

    pub fn in_flight(&self) -> (n: u64)
        ensures
            n == self@.in_flight,
    {
        self.in_flight
    }

    /// Takes a slot if one is free; the caller that is refused waits for a
    /// release and tries again.
    pub fn try_acquire(&mut self) -> (granted: bool)
        requires
            old(self).wf(),
        ensures
            final(self).wf(),
            (final(self)@, granted) == acquire_step(old(self)@),
    {
        if self.in_flight < self.capacity {
            self.in_flight = self.in_flight + 1;
            true
        } else {
            false
        }
    }

    /// Gives a taken slot back.
    pub fn release(&mut self)
        requires
            old(self).wf(),
            old(self)@.in_flight > 0,
        ensures
            final(self).wf(),
            final(self)@ == release_step(old(self)@),
    {
        self.in_flight = self.in_flight - 1;
    }
}

/// A burst of `m` attempts on a limiter with no slot taken is granted exactly
/// `min(m, capacity)` times, and never more slots are taken than the capacity.
pub proof fn lemma_burst_bounded(capacity: nat, m: nat)
    requires
        capacity >= 1,
    ensures
        burst(LimiterState { capacity, in_flight: 0 }, m).1 == if m <= capacity {
            m
        } else {
            capacity
        },
        burst(LimiterState { capacity, in_flight: 0 }, m).0.in_flight == burst(
            LimiterState { capacity, in_flight: 0 },
            m,
        ).1,
        burst(LimiterState { capacity, in_flight: 0 }, m).0.in_flight <= capacity,
        burst(LimiterState { capacity, in_flight: 0 }, m).0.capacity == capacity,
    decreases m,
{
    if m > 0 {
        lemma_burst_bounded(capacity, (m - 1) as nat);
    }
}

/// Whoever is refused gets a slot on its next attempt after any holder has
/// released: every waiter of a burst is served once earlier holders finish.
pub proof fn lemma_release_grants(s: LimiterState)
    requires
        s.capacity >= 1,
        s.in_flight <= s.capacity,
        s.in_flight > 0,
    ensures
        acquire_step(release_step(s)).1,
        acquire_step(release_step(s)).0 == s,
{
}

} // verus!
