//! A repeating interval timer that reports at most one firing per call and
//! never forgets time it has been given.

use vstd::prelude::*;

verus! {

/// Ticks in one time-unit.
pub const TICKS_PER_UNIT: u64 = 1_000_000;

/// A repeating countdown. `elapsed` is the time accumulated and not yet paid
/// out as firings; it may exceed `period` when a single call brought more than
/// one period.
#[derive(Clone, Copy, Debug, PartialEq, Eq, Structural)]
pub struct IntervalTimer {
    pub period: u64,
    pub elapsed: u64,
}

/// Sum of two tick counts, held at the largest representable count.
pub open spec fn accumulated(elapsed: u64, delta: u64) -> u64 {
    if elapsed + delta > u64::MAX {
        u64::MAX
    } else {
        (elapsed + delta) as u64
    }
}

/// Sum of a run of deltas.
pub open spec fn total_ticks(deltas: Seq<u64>) -> nat
    decreases deltas.len(),
{
    if deltas.len() == 0 {
        0
    } else {
        total_ticks(deltas.drop_last()) + deltas.last() as nat
    }
}

impl IntervalTimer {
    /// Whether a call with `delta` fires: the accumulated time reaches the period.
    pub open spec fn fires(self, delta: u64) -> bool {
        self.elapsed + delta >= self.period
    }

    /// The timer after a call with `delta`: one period is paid out if the call
    /// fires, and everything beyond it is kept.
    pub open spec fn advanced(self, delta: u64) -> IntervalTimer {
        let sum = accumulated(self.elapsed, delta);
        IntervalTimer {
            period: self.period,
            elapsed: if sum >= self.period {
                (sum - self.period) as u64
            } else {
                sum
            },
        }
    }

    /// The timer after one call for each delta of `deltas`, in order.
    pub open spec fn run(self, deltas: Seq<u64>) -> IntervalTimer
        decreases deltas.len(),
    {
        if deltas.len() == 0 {
            self
        } else {
            self.run(deltas.drop_last()).advanced(deltas.last())
        }
    }

    /// How many of those calls fire.
    pub open spec fn fire_count(self, deltas: Seq<u64>) -> nat
        decreases deltas.len(),
    {
        if deltas.len() == 0 {
            0
        } else {
            let before = self.fire_count(deltas.drop_last());
            if self.run(deltas.drop_last()).fires(deltas.last()) {
                before + 1
            } else {
                before
            }
        }
    }

    /// A timer of the given period with nothing accumulated.
    pub fn new(period: u64) -> (timer: IntervalTimer)
        ensures
            timer.period == period,
            timer.elapsed == 0,
    {
        IntervalTimer { period, elapsed: 0 }
    }

    pub fn period(&self) -> (p: u64)
        ensures
            p == self.period,
    {
        self.period
    }

    pub fn elapsed(&self) -> (e: u64)
        ensures
            e == self.elapsed,
    {
        self.elapsed
    }

    /// Accumulates `delta` and reports whether the period was reached. A
    /// firing pays out exactly one period, however many the call brought.
    pub fn advance(&mut self, delta: u64) -> (fired: bool)
        ensures
            fired == old(self).fires(delta),
            *final(self) == old(self).advanced(delta),
    {
        let sum = self.elapsed.saturating_add(delta);
        if sum >= self.period {
            self.elapsed = sum - self.period;
            true
        } else {
            self.elapsed = sum;
            false
        }
    }

    /// No time is lost by a call: what was accumulated and what was given is
    /// either still accumulated or was paid out as the one period of a firing.
    pub proof fn lemma_advance_conserves_time(self, delta: u64)
        requires
            self.elapsed + delta <= u64::MAX,
        ensures
            self.fires(delta) ==> self.advanced(delta).elapsed + self.period == self.elapsed
                + delta,
            !self.fires(delta) ==> self.advanced(delta).elapsed == self.elapsed + delta,
            self.advanced(delta).period == self.period,
    {
    }

    /// Over any run of calls the firings match the configured period: the
    /// periods paid out plus what is still accumulated equal all the time
    /// given, and no call fires more than once.
    pub proof fn lemma_run_conserves_time(self, deltas: Seq<u64>)
        requires
            self.elapsed + total_ticks(deltas) <= u64::MAX,
        ensures
            self.run(deltas).period == self.period,
            self.run(deltas).elapsed + self.fire_count(deltas) * self.period == self.elapsed
                + total_ticks(deltas),
            self.fire_count(deltas) <= deltas.len(),
        decreases deltas.len(),
    {
        let p = self.period as int;
        if deltas.len() == 0 {
            assert(0 * p == 0);
        } else {
            let earlier = deltas.drop_last();
            self.lemma_run_conserves_time(earlier);
            let before = self.run(earlier);
            before.lemma_advance_conserves_time(deltas.last());
            let n = self.fire_count(earlier) as int;
            if before.fires(deltas.last()) {
                assert(self.fire_count(deltas) == n + 1);
                assert((n + 1) * p == n * p + p) by (nonlinear_arith);
            } else {
                assert(self.fire_count(deltas) == n);
            }
        }
    }
}

} // verus!
