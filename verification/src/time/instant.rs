use vstd::prelude::*;

verus! {

/// Nanoseconds in a millisecond, the length of one timer tick.
pub const NANOS_PER_MILLI: u64 = 1_000_000;

/// A point on the runtime's monotonic clock, in nanoseconds since the clock's origin.
#[derive(Debug, Clone, Copy, PartialEq, Eq, Structural)]
pub struct Instant {
    pub nanos: u64,
}

impl Instant {
    /// How many nanoseconds lie between `earlier` and `self`; none if `self` is not the later one.
    pub open spec fn spec_nanos_since(self, earlier: Instant) -> int {
        if self.nanos <= earlier.nanos {
            0
        } else {
            self.nanos - earlier.nanos
        }
    }

    /// How many whole milliseconds lie between `earlier` and `self`.
    pub open spec fn spec_millis_since(self, earlier: Instant) -> int {
        self.spec_nanos_since(earlier) / (NANOS_PER_MILLI as int)
    }

    /// The time from `earlier` to `self` in nanoseconds, zero if `self` is not the later one.
    pub fn saturating_nanos_since(self, earlier: Instant) -> (nanos: u64)
        ensures
            nanos == self.spec_nanos_since(earlier),
    {
        self.nanos.saturating_sub(earlier.nanos)
    }

    /// The time from `earlier` to `self` in whole milliseconds.
    pub fn saturating_millis_since(self, earlier: Instant) -> (millis: u64)
        ensures
            millis == self.spec_millis_since(earlier),
            millis <= u64::MAX / NANOS_PER_MILLI,
    {
        self.saturating_nanos_since(earlier) / NANOS_PER_MILLI
    }
}

/// The distance between two instants brings from the one to the other, and there is none from a later
/// to an earlier one; in milliseconds, it is the largest number of them that fits in.
pub proof fn law_distance_is_exact(earlier: Instant, later: Instant)
    ensures
        earlier.nanos <= later.nanos ==> earlier.nanos + later.spec_nanos_since(earlier) == later.nanos,
        later.nanos <= earlier.nanos ==> later.spec_nanos_since(earlier) == 0,
        later.spec_millis_since(earlier) * 1_000_000 <= later.spec_nanos_since(earlier),
        later.spec_nanos_since(earlier) < (later.spec_millis_since(earlier) + 1) * 1_000_000,
{
}

} // verus!
