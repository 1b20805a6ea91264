//! Clocks that count milliseconds.
use vstd::prelude::*;

verus! {

/// A clock that reports the milliseconds since some fixed start.
pub trait Time {
    fn ms_since_start(&self) -> u64;
}

/// A clock that only moves when told to, for tests.
pub struct FakeTime {
    time: u64,
}

impl FakeTime {
    /// The clock's reading.
    pub closed spec fn now(&self) -> u64 {
        self.time
    }

    /// Moves the clock forward by `time_to_advance` milliseconds.
    pub fn advance(&mut self, time_to_advance: u64)
        requires
            old(self).now() + time_to_advance <= u64::MAX,
        ensures
            final(self).now() == old(self).now() + time_to_advance,
    {
        self.time = self.time + time_to_advance;
    }
}

impl Default for FakeTime {
    fn default() -> (t: FakeTime)
        ensures
            t.now() == 0,
    {
        FakeTime { time: 0 }
    }
}

impl Time for FakeTime {
    fn ms_since_start(&self) -> (ms: u64)
        ensures
            ms == self.now(),
    {
        self.time
    }
}

} // verus!
