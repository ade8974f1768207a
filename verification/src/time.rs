//! Spans of time and clock readings, in nanoseconds.
//!
//! Sums stop at the largest representable value instead of wrapping.

use vstd::prelude::*;

verus! {

/// A span of time.
#[derive(Clone, Copy, PartialEq, Eq, Structural, Debug)]
pub struct Duration {
    pub nanos: u128,
}

/// A reading of a monotonic clock: the time since that clock's own origin.
#[derive(Clone, Copy, PartialEq, Eq, Structural, Debug)]
pub struct Instant {
    pub nanos: u128,
}

/// `a + b`, stopping at the largest 128-bit value.
pub open spec fn capped_sum(a: u128, b: u128) -> u128 {
    if a + b > u128::MAX {
        u128::MAX
    } else {
        (a + b) as u128
    }
}

pub open spec fn millis(ms: nat) -> Duration {
    Duration { nanos: (ms * 1_000_000) as u128 }
}

impl Duration {
    pub fn from_millis(ms: u64) -> (d: Duration)
        ensures
            d == millis(ms as nat),
            d.nanos == ms * 1_000_000,
    {
        Duration { nanos: ms as u128 * 1_000_000 }
    }

    pub fn from_secs(s: u64) -> (d: Duration)
        ensures
            d == millis(s as nat * 1000),
            d.nanos == s * 1_000_000_000,
    {
        Duration { nanos: s as u128 * 1_000_000_000 }
    }

    pub fn is_zero(self) -> (r: bool)
        ensures
            r == (self.nanos == 0),
    {
        self.nanos == 0
    }

    pub open spec fn shorter(self, other: Duration) -> Duration {
        if self.nanos <= other.nanos {
            self
        } else {
            other
        }
    }

    /// The shorter of the two spans.
    pub fn min(self, other: Duration) -> (r: Duration)
        ensures
            r == self.shorter(other),
    {
        if self.nanos <= other.nanos {
            self
        } else {
            other
        }
    }

    pub open spec fn spec_plus(self, other: Duration) -> Duration {
        Duration { nanos: capped_sum(self.nanos, other.nanos) }
    }

    /// The two spans one after the other.
    pub fn plus(self, other: Duration) -> (r: Duration)
        ensures
            r == self.spec_plus(other),
    {
        Duration { nanos: self.nanos.saturating_add(other.nanos) }
    }
}

impl Instant {
    pub open spec fn spec_plus(self, d: Duration) -> Instant {
        Instant { nanos: capped_sum(self.nanos, d.nanos) }
    }

    /// The instant that lies `d` after this one.
    pub fn plus(self, d: Duration) -> (r: Instant)
        ensures
            r == self.spec_plus(d),
    {
        Instant { nanos: self.nanos.saturating_add(d.nanos) }
    }

    pub open spec fn spec_until(self, later: Instant) -> Duration {
        if later.nanos > self.nanos {
            Duration { nanos: (later.nanos - self.nanos) as u128 }
        } else {
            Duration { nanos: 0 }
        }
    }

    /// How long it is from this instant until `later`; zero once it has passed.
    pub fn until(self, later: Instant) -> (r: Duration)
        ensures
            r == self.spec_until(later),
    {
        Duration { nanos: later.nanos.saturating_sub(self.nanos) }
    }
}

} // verus!
