//! The injected host monotonic timer for scoped subsystem timing.
//!
//! The core never reads a host clock itself: outer crates implement [`HostTimer`] over their own
//! monotonic source, and tests use the deterministic [`FixedTimer`]. Unlike wall-clock time, a
//! `HostTimer` must never step backwards, because durations are differences of two reads.

use vstd::prelude::*;

verus! {

/// A monotonic, high-resolution host timer, supplied by the embedding program.
pub trait HostTimer {
    /// Monotonic host time in nanoseconds; non-decreasing across calls.
    fn now_ns(&self) -> u64;
}

/// Deterministic timer for tests: reads whatever it was last set or advanced to.
pub struct FixedTimer {
    now: u64,
}

impl FixedTimer {
    /// The instant the timer reads.
    pub closed spec fn spec_now(&self) -> u64 {
        self.now
    }

    /// A timer frozen at `start` nanoseconds.
    pub fn new(start: u64) -> (r: Self)
        ensures r.spec_now() == start,
    {
        FixedTimer { now: start }
    }

    /// Jump the timer to an absolute value `v`.
    pub fn set(&mut self, v: u64)
        ensures final(self).spec_now() == v,
    {
        self.now = v;
    }

    /// Advance the timer by `d` nanoseconds, saturating, so it never steps backwards.
    pub fn advance(&mut self, d: u64)
        ensures
            final(self).spec_now() == (if old(self).spec_now() + d > u64::MAX { u64::MAX as int } else {
                old(self).spec_now() + d
            }),
            final(self).spec_now() >= old(self).spec_now(),
    {
        self.now = self.now.saturating_add(d);
    }
}

impl HostTimer for FixedTimer {
    fn now_ns(&self) -> (r: u64)
        ensures r == self.spec_now(),
    {
        self.now
    }
}

} // verus!
