//! Clocks for live operation and for replay.

use vstd::prelude::*;

use crate::domain::{Clock, RecvTs};

verus! {

/// Reads the system clock: nanoseconds since the UNIX epoch, or `None` if
/// the system clock stands before it.
///
/// Calls `std::time::SystemTime::elapsed` on the epoch. What it returns
/// depends on the time of the call, so nothing is claimed of it.
#[verifier::external_body]
fn nanos_since_epoch() -> Option<u128> {
    std::time::UNIX_EPOCH.elapsed().ok().map(|d| d.as_nanos())
}

/// The stamp of a reading of the system clock. Exact up to the year 2262;
/// a clock before the epoch gives zero.
pub fn stamp_of(nanos: Option<u128>) -> (r: RecvTs)
    ensures
        r == RecvTs::of(
            match nanos {
                Some(n) => #[verifier::truncate]
                (n as i64),
                None => 0,
            },
        ),
{
    match nanos {
        Some(n) => RecvTs::new(
            #[verifier::truncate]
            (n as i64),
        ),
        None => RecvTs::new(0),
    }
}

/// System clock.
#[derive(Debug, Clone, Copy)]
pub struct WallClock;

impl Default for WallClock {
    fn default() -> (r: WallClock)
        ensures
            r == WallClock,
    {
        WallClock
    }
}

impl Clock for WallClock {
    open spec fn reads(&self, t: RecvTs) -> bool {
        true
    }

    fn now(&self) -> (t: RecvTs) {
        stamp_of(nanos_since_epoch())
    }
}

/// Clock that stands still until it is set; a replay sets it to each
/// recorded time in turn.
#[derive(Debug)]
pub struct StubClock {
    current: i64,
}

impl StubClock {
    /// What the clock stands at.
    pub closed spec fn current(&self) -> i64 {
        self.current
    }

    /// A clock that stands at `nanos`.
    pub fn new(nanos: i64) -> (c: StubClock)
        ensures
            c.current() == nanos,
    {
        StubClock { current: nanos }
    }

    /// Sets the clock.
    pub fn set(&mut self, nanos: i64)
        ensures
            final(self).current() == nanos,
    {
        self.current = nanos;
    }
}

impl Clock for StubClock {
    open spec fn reads(&self, t: RecvTs) -> bool {
        t == RecvTs::of(self.current())
    }

    fn now(&self) -> (t: RecvTs) {
        RecvTs::new(self.current)
    }
}

} // verus!
