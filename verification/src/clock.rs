//! The simulation clock: total time so far and the length of the current
//! step.

use vstd::prelude::*;
use crate::timer::accumulated;

verus! {

/// Time as the simulation has seen it, in ticks.
#[derive(Clone, Copy, Debug, PartialEq, Eq, Structural)]
pub struct Clock {
    pub now: u64,
    pub delta: u64,
}

impl Clock {
    /// The clock after a step of `delta` ticks. Total time stops at the
    /// largest representable count.
    pub open spec fn advanced(self, delta: u64) -> Clock {
        Clock { now: accumulated(self.now, delta), delta }
    }

    /// A clock at time zero.
    pub fn new() -> (clock: Clock)
        ensures
            clock == (Clock { now: 0, delta: 0 }),
    {
        Clock { now: 0, delta: 0 }
    }

    /// Begins a step of `delta` ticks and hands the delta on. Time never
    /// runs backwards.
    pub fn advance(&mut self, delta: u64) -> (step: u64)
        ensures
            *final(self) == old(self).advanced(delta),
            final(self).now >= old(self).now,
            step == delta,
    {
        self.now = self.now.saturating_add(delta);
        self.delta = delta;
        delta
    }

    /// Total time so far.
    pub fn now(&self) -> (now: u64)
        ensures
            now == self.now,
    {
        self.now
    }

    /// Length of the current step.
    pub fn delta(&self) -> (delta: u64)
        ensures
            delta == self.delta,
    {
        self.delta
    }
}

} // verus!
