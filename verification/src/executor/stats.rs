use vstd::prelude::*;

verus! {

/// A worker polls at least this many tasks before it looks at the common queue again.
pub const MIN_INTERVAL: u32 = 2;

/// A worker polls at most this many tasks before it looks at the common queue again.
pub const MAX_INTERVAL: u32 = 127;

/// What a worker starts with.
pub const INITIAL_INTERVAL: u32 = 61;

/// What a worker knows of its polls: how many there were in the current burst, and how many there
/// may be before it looks at the common queue again.
#[derive(Debug, Clone, Copy, PartialEq, Eq, Structural)]
pub struct Stats {
    pub tasks_in_batch: u32,
    pub interval: u32,
}

/// `interval`, brought within bounds.
pub open spec fn clamped(interval: u32) -> u32 {
    if interval < MIN_INTERVAL {
        MIN_INTERVAL
    } else if interval > MAX_INTERVAL {
        MAX_INTERVAL
    } else {
        interval
    }
}

impl Stats {
    pub open spec fn wf(&self) -> bool {
        MIN_INTERVAL <= self.interval <= MAX_INTERVAL
    }

    pub fn new() -> (stats: Self)
        ensures
            stats.wf(),
            stats == (Stats { tasks_in_batch: 0, interval: INITIAL_INTERVAL }),
    {
        Stats { tasks_in_batch: 0, interval: INITIAL_INTERVAL }
    }

    /// Starts a burst.
    pub fn start_batch(&mut self)
        ensures
            *final(self) == (Stats { tasks_in_batch: 0, ..*old(self) }),
    {
        self.tasks_in_batch = 0;
    }

    /// Counts a poll. The count starts over when it has run through.
    pub fn record_poll(&mut self)
        ensures
            *final(self) == (Stats {
                tasks_in_batch: if old(self).tasks_in_batch == u32::MAX {
                    0
                } else {
                    (old(self).tasks_in_batch + 1) as u32
                },
                ..*old(self)
            }),
    {
        self.tasks_in_batch = self.tasks_in_batch.wrapping_add(1);
    }

    /// Ends a burst: how many polls there were to learn from, if any.
    pub fn end_batch(&self) -> (polls: Option<u32>)
        ensures
            polls == (if self.tasks_in_batch == 0 {
                None
            } else {
                Some(self.tasks_in_batch)
            }),
    {
        if self.tasks_in_batch == 0 {
            None
        } else {
            Some(self.tasks_in_batch)
        }
    }

    /// Takes on an interval that has been learnt, brought within bounds.
    pub fn tune(&mut self, interval: u32)
        ensures
            final(self).wf(),
            *final(self) == (Stats { interval: clamped(interval), ..*old(self) }),
    {
        self.interval = if interval < MIN_INTERVAL {
            MIN_INTERVAL
        } else if interval > MAX_INTERVAL {
            MAX_INTERVAL
        } else {
            interval
        };
    }

    /// How many tasks to poll before looking at the common queue again.
    pub fn tuned_interval(&self) -> (interval: u32)
        ensures
            interval == self.interval,
            self.wf() ==> MIN_INTERVAL <= interval <= MAX_INTERVAL,
    {
        self.interval
    }
}

/// Bringing intervals within bounds keeps their order: what asks for no longer an interval does not
/// get a longer one.
pub proof fn law_tuning_keeps_order(a: u32, b: u32)
    requires
        a <= b,
    ensures
        MIN_INTERVAL <= clamped(a) <= clamped(b) <= MAX_INTERVAL,
{
}

/// An interval that is learnt is taken on as it is from 2 to 127, and otherwise the nearer of the two.
pub proof fn law_tuning_is_nearest(interval: u32, other: u32)
    requires
        2 <= other <= 127,
    ensures
        2 <= clamped(interval) <= 127,
        2 <= interval <= 127 ==> clamped(interval) == interval,
        interval <= clamped(interval) ==> clamped(interval) - interval <= if interval <= other {
            other - interval
        } else {
            interval - other
        },
        clamped(interval) <= interval ==> interval - clamped(interval) <= if interval <= other {
            other - interval
        } else {
            interval - other
        },
        forall|stats: Stats| #[trigger] stats.wf() ==> 2 <= stats.interval <= 127,
{
}

} // verus!
