use crate::executor::context::Context;
use crate::executor::handle::Handle;
use crate::executor::reactor::Registration;
use crate::poll::Poll;
use crate::time::instant::Instant;
use crate::time::wheel::{TimerEntry, TimerWheel};
use crate::waker::clone_waker;
use std::task::Waker;
use vstd::prelude::*;

verus! {

/// A future that is done once some time has passed.
#[derive(Debug, Clone, Copy, PartialEq, Eq, Structural)]
pub struct Sleep {
    /// When it is done.
    pub deadline: Instant,
    /// The reactor has been asked for a timer.
    pub registered: bool,
}

/// How a sleep stands.
#[derive(Debug, Clone, Copy, PartialEq, Eq, Structural)]
pub enum Progress {
    /// Its time has passed.
    Done,
    /// A timer runs for it.
    Timed,
    /// The reactor has to be asked for a timer.
    Untimed,
}

impl Sleep {
    /// A sleep of `duration` nanoseconds from `now` on.
    pub fn new(now: Instant, duration: u64) -> (sleep: Self)
        requires
            now.nanos + duration <= u64::MAX,
        ensures
            sleep == (Sleep { deadline: Instant { nanos: (now.nanos + duration) as u64 }, registered: false }),
    {
        Sleep { deadline: Instant { nanos: now.nanos + duration }, registered: false }
    }

    /// Whether the sleep is done at `now`.
    pub open spec fn done(&self, now: Instant) -> bool {
        self.deadline.nanos <= now.nanos
    }

    /// How the sleep stands at `now`. Only one that needs a timer needs a runtime.
    pub fn progress(&self, now: Instant) -> (progress: Progress)
        ensures
            progress == (if self.done(now) {
                Progress::Done
            } else if self.registered {
                Progress::Timed
            } else {
                Progress::Untimed
            }),
            progress is Done <==> self.deadline.nanos <= now.nanos,
            progress is Timed <==> self.deadline.nanos > now.nanos && self.registered,
    {
        if now.nanos >= self.deadline.nanos {
            Progress::Done
        } else if self.registered {
            Progress::Timed
        } else {
            Progress::Untimed
        }
    }

    /// Polls the sleep at `now`. The first time that it is not done, the reactor is asked for a
    /// timer. Says too whether the poller has to be told.
    pub fn poll(&mut self, now: Instant, waker: &Waker, handle: &mut Handle, context: &mut Context) -> (polled: (
        Poll<()>,
        bool,
    ))
        requires
            old(handle).wf(),
            old(context).wf(),
        ensures
            final(handle).wf(),
            final(context).wf(),
            polled.0 is Ready <==> old(self).done(now),
            polled.0 is Ready <==> old(self).deadline.nanos <= now.nanos,
            final(self).deadline == old(self).deadline,
            if polled.0 is Ready || old(self).registered {
                &&& *final(self) == *old(self)
                &&& *final(handle) == *old(handle)
                &&& *final(context) == *old(context)
                &&& !polled.1
            } else {
                &&& final(self).registered
                &&& old(handle).registers(
                    old(context),
                    Registration::Timer { deadline: old(self).deadline, waker: *waker },
                    final(handle),
                    final(context),
                    polled.1,
                )
            },
    {
        match self.progress(now) {
            Progress::Done => (Poll::Ready(()), false),
            Progress::Timed => (Poll::Pending, false),
            Progress::Untimed => {
                let notify = handle.register_timer(context, self.deadline, clone_waker(waker));
                self.registered = true;
                (Poll::Pending, notify)
            },
        }
    }
}

/// Waits for `duration` nanoseconds from `now` on.
pub fn sleep(now: Instant, duration: u64) -> (sleep: Sleep)
    requires
        now.nanos + duration <= u64::MAX,
    ensures
        sleep == (Sleep { deadline: Instant { nanos: (now.nanos + duration) as u64 }, registered: false }),
{
    Sleep::new(now, duration)
}

/// Whoever sleeps is not woken in vain: when the timer of a sleep fires, the sleep is done, and stays
/// so.
pub proof fn law_fired_sleep_is_done(
    sleep: Sleep,
    before: TimerWheel,
    now: Instant,
    after: TimerWheel,
    expired: Seq<Waker>,
    fired: Seq<TimerEntry>,
    i: int,
    later: Instant,
)
    requires
        before.ticks(now, after, expired),
        before.fires(now, fired),
        0 <= i < fired.len(),
        fired[i].deadline == sleep.deadline,
        now.nanos <= later.nanos,
    ensures
        sleep.done(later),
{
    crate::time::wheel::law_tick_is_punctual(before, now, after, expired);
    assert(fired[i].deadline.nanos <= now.nanos);
}

/// Whether a timer runs for it or not, a sleep is done from its deadline on, and not before.
pub proof fn law_sleep_is_punctual(sleep: Sleep, now: Instant)
    ensures
        sleep.done(now) <==> now.nanos >= sleep.deadline.nanos,
{
}

/// A sleep is not done before its time has passed, and is done from then on.
pub proof fn law_sleep_lasts(start: Instant, duration: u64, now: Instant)
    requires
        start.nanos + duration <= u64::MAX,
    ensures
        (Sleep { deadline: Instant { nanos: (start.nanos + duration) as u64 }, registered: false }).done(now)
            <==> now.nanos - start.nanos >= duration,
{
}

} // verus!
