//! Spans of time and moments in time, as whole nanoseconds.

use vstd::prelude::*;

verus! {

/// The nanoseconds of one second.
pub const NANOS_PER_SEC: u128 = 1_000_000_000;

/// A span of time.
#[derive(Clone, Copy, Debug, PartialEq, Eq, Structural)]
pub struct Duration {
    pub nanos: u128,
}

/// A moment, counted from a fixed start of a monotonic clock.
#[derive(Clone, Copy, Debug, PartialEq, Eq, Structural)]
pub struct Instant {
    pub nanos: u128,
}

impl View for Duration {
    type V = nat;

    open spec fn view(&self) -> nat {
        self.nanos as nat
    }
}

impl View for Instant {
    type V = nat;

    open spec fn view(&self) -> nat {
        self.nanos as nat
    }
}

/// The length of `s` seconds.
pub open spec fn secs(s: nat) -> nat {
    s * 1_000_000_000
}

impl Duration {
    /// No time at all.
    pub fn zero() -> (r: Duration)
        ensures
            r@ == 0,
    {
        Duration { nanos: 0 }
    }

    /// `s` seconds.
    pub fn from_secs(s: u64) -> (r: Duration)
        ensures
            r@ == secs(s as nat),
    {
        Duration { nanos: s as u128 * NANOS_PER_SEC }
    }

    /// `ms` thousandths of a second.
    pub fn from_millis(ms: u64) -> (r: Duration)
        ensures
            r@ == ms * 1_000_000,
    {
        Duration { nanos: ms as u128 * 1_000_000 }
    }

    /// The whole seconds of this span.
    pub fn as_secs(self) -> (r: u128)
        ensures
            r == self@ / 1_000_000_000,
    {
        self.nanos / NANOS_PER_SEC
    }

    /// The shorter of two spans.
    pub fn min(self, other: Duration) -> (r: Duration)
        ensures
            r@ == if self@ <= other@ {
                self@
            } else {
                other@
            },
            r == self || r == other,
    {
        if self.nanos <= other.nanos {
            self
        } else {
            other
        }
    }

    /// The longer of two spans.
    pub fn max(self, other: Duration) -> (r: Duration)
        ensures
            r@ == if self@ >= other@ {
                self@
            } else {
                other@
            },
            r == self || r == other,
    {
        if self.nanos >= other.nanos {
            self
        } else {
            other
        }
    }
}

impl Instant {
    /// The moment `d` behind the clock's start.
    pub fn after_start(d: Duration) -> (r: Instant)
        ensures
            r@ == d@,
    {
        Instant { nanos: d.nanos }
    }

    /// The moment `d` later.
    pub fn plus(self, d: Duration) -> (r: Instant)
        requires
            self@ + d@ <= u128::MAX,
        ensures
            r@ == self@ + d@,
    {
        Instant { nanos: self.nanos + d.nanos }
    }

    /// How long ago `earlier` was; nothing where it lies ahead.
    pub fn saturating_duration_since(self, earlier: Instant) -> (r: Duration)
        ensures
            r@ == elapsed(earlier@, self@),
    {
        if self.nanos >= earlier.nanos {
            Duration { nanos: self.nanos - earlier.nanos }
        } else {
            Duration { nanos: 0 }
        }
    }
}

/// A clock that stands still until it is moved.
#[derive(Clone, Copy, Debug, PartialEq, Eq, Structural)]
pub struct TestClock {
    now: Instant,
}

impl View for TestClock {
    type V = Instant;

    closed spec fn view(&self) -> Instant {
        self.now
    }
}

impl TestClock {
    /// A clock that stands at this moment.
    pub fn new(now: Instant) -> (r: TestClock)
        ensures
            r@ == now,
    {
        TestClock { now }
    }

    /// Moves the clock on.
    pub fn advance(&mut self, delta: Duration)
        requires
            old(self)@@ + delta@ <= u128::MAX,
        ensures
            final(self)@@ == old(self)@@ + delta@,
    {
        self.now = self.now.plus(delta);
    }

    /// The moment that the clock stands at.
    pub fn now(&self) -> (r: Instant)
        ensures
            r == self@,
    {
        self.now
    }
}

/// The time from `from` to `to`; nothing where `to` lies before `from`.
pub open spec fn elapsed(from: nat, to: nat) -> nat {
    if to >= from {
        (to - from) as nat
    } else {
        0
    }
}

// ---- laws ----------------------------------------------------------------------------------

/// The time between two moments, put behind the first, is the second; where the second is not behind
/// the first there is none. A second is a thousand million of the parts that time is counted in.
pub proof fn how_time_is_counted(from: nat, to: nat, s: nat)
    ensures
        from <= to ==> from + elapsed(from, to) == to,
        from > to ==> elapsed(from, to) == 0,
        secs(s) == 1_000_000_000 * s,
{
}

} // verus!
