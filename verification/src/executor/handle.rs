use crate::executor::context::{Context, REGISTRATION_BATCH};
use crate::executor::reactor::{Reactor, Registration, Wait};
use crate::executor::scheduler::{Scheduler, SpawnPlan};
use crate::layout::Layout;
use crate::time::instant::Instant;
use std::task::Waker;
use vstd::prelude::*;

verus! {

/// A runtime, as seen by tasks: the scheduler to spawn on, the reactor to register with.
pub struct Handle {
    pub scheduler: Scheduler,
    pub reactor: Reactor,
}

/// Takes all collected registrations out.
fn take_buffer(context: &mut Context) -> (batch: Vec<Registration>)
    ensures
        batch == old(context).registration_buffer,
        final(context).registration_buffer@ == Seq::<Registration>::empty(),
        *final(context) == (Context { registration_buffer: final(context).registration_buffer, ..*old(context) }),
{
    let mut batch: Vec<Registration> = Vec::with_capacity(REGISTRATION_BATCH);
    std::mem::swap(&mut batch, &mut context.registration_buffer);
    batch
}

/// What a thread has collected for the reactor: nothing, unless it is a worker.
pub open spec fn collected(context: &Context) -> Seq<Registration> {
    if context.is_worker {
        context.registration_buffer@
    } else {
        Seq::empty()
    }
}

/// How a worker that has found nothing sleeps.
pub enum Rest {
    /// Driving the reactor: waiting for events, and waking whoever waits for them.
    Drive(Wait),
    /// Parked, until it is unparked.
    Park,
}

impl Handle {
    pub open spec fn wf(&self) -> bool {
        &&& self.scheduler.wf()
        &&& self.reactor.wf()
    }

    pub fn new(scheduler: Scheduler, reactor: Reactor) -> (handle: Self)
        ensures
            handle == (Handle { scheduler, reactor }),
    {
        Handle { scheduler, reactor }
    }

    /// Decides where the task for a future of `layout` comes from.
    pub fn spawn(&mut self, context: &mut Context, layout: Layout) -> (plan: SpawnPlan)
        requires
            old(self).wf(),
            old(context).wf(),
        ensures
            final(self).wf(),
            final(context).wf(),
            final(self).reactor == old(self).reactor,
            old(self).scheduler.plans(old(context), layout, plan, &final(self).scheduler, final(context)),
            final(self).scheduler == (Scheduler {
                task_pools: final(self).scheduler.task_pools,
                ..old(self).scheduler
            }),
            *final(context) == (Context { local_task_pool: final(context).local_task_pool, ..*old(context) }),
    {
        self.scheduler.spawn(context, layout)
    }

    /// Registering turns this runtime into `after`, with the thread's context becoming
    /// `context_after`; the poller has to be told if `notify`. A worker collects registrations, and
    /// hands them over when there are enough; another thread hands over each at once.
    pub open spec fn registers(
        &self,
        context: &Context,
        registration: Registration,
        after: &Handle,
        context_after: &Context,
        notify: bool,
    ) -> bool {
        let collected = context.registration_buffer@.push(registration);
        &&& after.scheduler == self.scheduler
        &&& *context_after == (Context { registration_buffer: context_after.registration_buffer, ..*context })
        &&& if !context.is_worker {
            &&& context_after.registration_buffer == context.registration_buffer
            &&& self.reactor.accepts(seq![registration], after.reactor, notify)
        } else if collected.len() < REGISTRATION_BATCH {
            &&& context_after.registration_buffer@ == collected
            &&& after.reactor == self.reactor
            &&& !notify
        } else {
            &&& context_after.registration_buffer@ == Seq::<Registration>::empty()
            &&& self.reactor.accepts(collected, after.reactor, notify)
        }
    }

    fn register(&mut self, context: &mut Context, registration: Registration) -> (notify: bool)
        requires
            old(self).wf(),
            old(context).wf(),
        ensures
            final(self).wf(),
            final(context).wf(),
            old(self).registers(old(context), registration, final(self), final(context), notify),
    {
        if context.is_worker {
            context.registration_buffer.push(registration);
            if context.registration_buffer.len() >= REGISTRATION_BATCH {
                let batch = take_buffer(context);
                self.reactor.push_batch(batch)
            } else {
                false
            }
        } else {
            let mut batch: Vec<Registration> = Vec::with_capacity(1);
            batch.push(registration);
            assert(batch@ =~= seq![registration]);
            self.reactor.push_batch(batch)
        }
    }

    /// Has `waker` woken when the source `key` can be read from, or written to.
    pub fn register_io(&mut self, context: &mut Context, key: usize, waker: Waker, read: bool, write: bool) -> (notify:
        bool)
        requires
            old(self).wf(),
            old(context).wf(),
        ensures
            final(self).wf(),
            final(context).wf(),
            old(self).registers(
                old(context),
                Registration::IO { key, waker, read, write },
                final(self),
                final(context),
                notify,
            ),
    {
        self.register(context, Registration::IO { key, waker, read, write })
    }

    /// Has `waker` woken at `deadline`.
    pub fn register_timer(&mut self, context: &mut Context, deadline: Instant, waker: Waker) -> (notify: bool)
        requires
            old(self).wf(),
            old(context).wf(),
        ensures
            final(self).wf(),
            final(context).wf(),
            old(self).registers(
                old(context),
                Registration::Timer { deadline, waker },
                final(self),
                final(context),
                notify,
            ),
    {
        self.register(context, Registration::Timer { deadline, waker })
    }

    /// Hands over what a worker has collected, before it goes to sleep.
    pub fn flush_registrations(&mut self, context: &mut Context) -> (notify: bool)
        requires
            old(self).wf(),
            old(context).wf(),
        ensures
            final(self).wf(),
            final(context).wf(),
            final(self).scheduler == old(self).scheduler,
            *final(context) == (Context {
                registration_buffer: final(context).registration_buffer,
                ..*old(context)
            }),
            if old(context).is_worker {
                &&& final(context).registration_buffer@ == Seq::<Registration>::empty()
                &&& old(self).reactor.accepts(old(context).registration_buffer@, final(self).reactor, notify)
            } else {
                &&& final(context).registration_buffer == old(context).registration_buffer
                &&& final(self).reactor == old(self).reactor
                &&& !notify
            },
    {
        if context.is_worker && context.registration_buffer.len() > 0 {
            let batch = take_buffer(context);
            self.reactor.push_batch(batch)
        } else {
            assert(context.is_worker ==> self.reactor.registrations@ + context.registration_buffer@
                =~= self.reactor.registrations@);
            false
        }
    }

    /// What a worker that is to sleep does, which turns this runtime into `after` and its context into
    /// `context_after`; the poller has to be told if `notify`. It hands over what it has collected.
    /// Then it drives the reactor, unless somebody else does or the runtime shuts down.
    pub open spec fn rests(
        &self,
        context: &Context,
        now: Instant,
        rest: Rest,
        notify: bool,
        after: &Handle,
        context_after: &Context,
    ) -> bool {
        &&& after.scheduler == self.scheduler
        &&& *context_after == (Context { registration_buffer: context_after.registration_buffer, ..*context })
        &&& if context.is_worker {
            context_after.registration_buffer@ == Seq::<Registration>::empty()
        } else {
            context_after.registration_buffer == context.registration_buffer
        }
        &&& match rest {
            Rest::Park => {
                &&& self.reactor.is_polling || self.reactor.shutdown
                &&& self.reactor.accepts(collected(context), after.reactor, notify)
            },
            Rest::Drive(wait) => {
                &&& !self.reactor.is_polling
                &&& !self.reactor.shutdown
                &&& exists|flushed: Reactor|
                    {
                        &&& #[trigger] self.reactor.accepts(collected(context), flushed, notify)
                        &&& flushed.starts(now, wait, after.reactor)
                    }
            },
        }
    }

    /// Says how a worker that has found nothing is to sleep. Whether it drove the reactor or was
    /// parked, it is awake afterwards.
    pub fn begin_rest(&mut self, context: &mut Context, now: Instant) -> (resting: (Rest, bool))
        requires
            old(self).wf(),
            old(context).wf(),
        ensures
            final(self).wf(),
            final(context).wf(),
            old(self).rests(old(context), now, resting.0, resting.1, final(self), final(context)),
    {
        let notify = self.flush_registrations(context);
        let ghost flushed = self.reactor;
        match self.reactor.begin_poll(now) {
            Some(wait) => {
                proof {
                    assert(old(self).reactor.registrations@ + Seq::<Registration>::empty()
                        =~= old(self).reactor.registrations@);
                    assert(old(self).reactor.accepts(collected(old(context)), flushed, notify));
                }
                (Rest::Drive(wait), notify)
            },
            None => {
                let again = self.flush_registrations(context);
                proof {
                    assert(old(self).reactor.registrations@ + Seq::<Registration>::empty()
                        =~= old(self).reactor.registrations@);
                    assert(flushed.registrations@ + Seq::<Registration>::empty() =~= flushed.registrations@);
                }
                (Rest::Park, notify || again)
            },
        }
    }

    /// Tells the workers and the reactor to stop. Every worker is to be unparked; says whether the
    /// poller has to be told.
    pub fn shutdown(&mut self) -> (notify: bool)
        requires
            old(self).wf(),
        ensures
            final(self).wf(),
            final(self).scheduler == (Scheduler { shutdown: true, ..old(self).scheduler }),
            final(self).reactor == (Reactor { shutdown: true, notified: true, ..old(self).reactor }),
            notify <==> !old(self).reactor.notified,
    {
        self.scheduler.shutdown = true;
        self.reactor.shutdown = true;
        self.reactor.notify()
    }
}

/// Collecting loses nothing and changes no order: what the reactor has and what a worker has
/// collected, taken together, grow by each registration of that worker.
pub proof fn law_registrations_keep_order(
    before: Handle,
    context: Context,
    registration: Registration,
    after: Handle,
    context_after: Context,
    notify: bool,
)
    requires
        context.is_worker,
        before.registers(&context, registration, &after, &context_after, notify),
    ensures
        after.reactor.registrations@ + context_after.registration_buffer@ == (before.reactor.registrations@
            + context.registration_buffer@).push(registration),
{
    assert(after.reactor.registrations@ + context_after.registration_buffer@ =~= (before.reactor.registrations@
        + context.registration_buffer@).push(registration));
}

} // verus!
