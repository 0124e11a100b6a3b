use crate::counter::incremented;
use crate::queues::{Steal, TaskId};
use crate::workstealing::context::Context;
use crate::workstealing::scheduler::Scheduler;
use crate::workstealing::worker_pool::Pool;
use vstd::prelude::*;

verus! {

/// Every so many ticks a worker looks at the common queue first. The number is prime, so that
/// workers do not fall into step.
pub const GLOBAL_FIRST: usize = 61;

/// One thread's part in running tasks.
#[derive(Debug, Clone, Copy, PartialEq, Eq, Structural)]
pub struct Worker {
    pub index: usize,
    pub tick: usize,
}

impl Worker {
    pub fn new(index: usize) -> (worker: Self)
        ensures
            worker == (Worker { index, tick: 0 }),
    {
        Worker { index, tick: 0 }
    }

    pub fn get_index(&self) -> (index: usize)
        ensures
            index == self.index,
    {
        self.index
    }
}

impl Worker {
    /// The oldest of the common queue was taken, which turned this scheduler into `after`.
    pub open spec fn took_global(scheduler: &Scheduler, task: TaskId, after: &Scheduler) -> bool {
        &&& scheduler.global_queue.tries(Steal::Success(task), &after.global_queue)
        &&& scheduler.worker_pool.same_queues(&after.worker_pool)
    }

    /// The oldest of the worker's own queue was taken, which turned the queues into those of `after`.
    pub open spec fn took_local(&self, scheduler: &Scheduler, task: TaskId, after: &Scheduler) -> bool {
        let i = self.index as int;
        let own = scheduler.worker_pool.stealers@[i]@;
        &&& own.len() > 0
        &&& task == own[0]
        &&& after.worker_pool.stealers@ == scheduler.worker_pool.stealers@.update(i, after.worker_pool.stealers@[i])
        &&& after.worker_pool.stealers@[i]@ == own.skip(1)
    }

    /// The worker looked at the common queue, and got nothing.
    pub open spec fn looked_in_vain(scheduler: &Scheduler, after: &Scheduler) -> bool {
        let stolen = if scheduler.global_queue@.len() == 0 {
            Steal::Empty
        } else {
            Steal::Retry
        };
        scheduler.global_queue.tries(stolen, &after.global_queue)
    }

    /// Nothing was to be had: the worker's own queue is empty, and so is the common one (`Empty`), or
    /// every attempt on it failed (`Retry`).
    pub open spec fn took_nothing(&self, scheduler: &Scheduler, chosen: Steal, after: &Scheduler) -> bool {
        &&& scheduler.worker_pool.stealers@[self.index as int]@.len() == 0
        &&& scheduler.worker_pool.same_queues(&after.worker_pool)
        &&& scheduler.global_queue.tries(chosen, &after.global_queue)
    }

    /// On this tick the common queue goes before the worker's own.
    pub open spec fn common_first(tick: usize) -> bool {
        tick % GLOBAL_FIRST == 0
    }

    /// Choosing the next task turns worker, context and scheduler into those after. What is in the
    /// slot comes first; then the worker's own queue, and after it the common one, except that on
    /// some ticks the common queue goes before.
    pub open spec fn chooses(
        &self,
        context: &Context,
        scheduler: &Scheduler,
        chosen: Steal,
        after: &Worker,
        context_after: &Context,
        scheduler_after: &Scheduler,
    ) -> bool {
        let own = scheduler.worker_pool.stealers@[self.index as int]@;
        let tick = crate::counter::one_more(self.tick);
        match context.lifo_slot {
            Some(slot) => {
                &&& chosen == Steal::Success(slot)
                &&& *after == *self
                &&& *context_after == (Context { lifo_slot: None, ..*context })
                &&& *scheduler_after == *scheduler
            },
            None => {
                &&& *after == (Worker { tick, ..*self })
                &&& *context_after == *context
                &&& *scheduler_after == (Scheduler {
                    global_queue: scheduler_after.global_queue,
                    worker_pool: Pool { stealers: scheduler_after.worker_pool.stealers, ..scheduler.worker_pool },
                    ..*scheduler
                })
                &&& match chosen {
                    Steal::Success(t) => if Worker::common_first(tick) {
                        ||| Worker::took_global(scheduler, t, scheduler_after)
                        ||| {
                            &&& Worker::looked_in_vain(scheduler, scheduler_after)
                            &&& self.took_local(scheduler, t, scheduler_after)
                        }
                    } else if own.len() > 0 {
                        &&& self.took_local(scheduler, t, scheduler_after)
                        &&& scheduler_after.global_queue == scheduler.global_queue
                    } else {
                        Worker::took_global(scheduler, t, scheduler_after)
                    },
                    _ => self.took_nothing(scheduler, chosen, scheduler_after),
                }
            },
        }
    }

    /// What follows the first look at the common queue, or that there was none: a task that it
    /// brought is run, and the worker's own queue is left alone; otherwise the oldest of that queue
    /// is.
    pub fn after_first_look(&self, looked: Option<Steal>, scheduler: &mut Scheduler) -> (task: Option<TaskId>)
        requires
            old(scheduler).wf(),
            self.index < old(scheduler).worker_pool.stealers@.len(),
        ensures
            final(scheduler).wf(),
            match looked {
                Some(Steal::Success(first)) => {
                    &&& task == Some(first)
                    &&& *final(scheduler) == *old(scheduler)
                },
                _ => {
                    &&& *final(scheduler) == old(scheduler).with_queues(final(scheduler).worker_pool.stealers)
                    &&& match task {
                        Some(own) => self.took_local(old(scheduler), own, final(scheduler)),
                        None => {
                            &&& old(scheduler).worker_pool.stealers@[self.index as int]@.len() == 0
                            &&& old(scheduler).worker_pool.same_queues(&final(scheduler).worker_pool)
                        },
                    }
                },
            },
    {
        if let Some(Steal::Success(first)) = looked {
            return Some(first);
        }
        let ghost before = scheduler.worker_pool.stealers@;
        let popped = scheduler.worker_pool.stealers[self.index].pop();
        proof {
            let i = self.index as int;
            assert(scheduler.worker_pool.stealers@ =~= before.update(i, scheduler.worker_pool.stealers@[i]));
        }
        popped
    }

    /// Chooses the next task from what is at hand. If there is none, the reactor is to be driven,
    /// and then something to be stolen.
    pub fn next_task(&mut self, context: &mut Context, scheduler: &mut Scheduler) -> (chosen: Steal)
        requires
            old(scheduler).wf(),
            old(self).index < old(scheduler).worker_pool.stealers@.len(),
        ensures
            final(scheduler).wf(),
            old(self).chooses(
                old(context),
                old(scheduler),
                chosen,
                final(self),
                final(context),
                final(scheduler),
            ),
            final(scheduler).worker_pool.stealers@.len() == old(scheduler).worker_pool.stealers@.len(),
    {
        if let Some(task) = context.lifo_slot.take() {
            return Steal::Success(task);
        }
        self.tick = incremented(self.tick);
        let looked = if self.tick % GLOBAL_FIRST == 0 {
            Some(scheduler.steal_global())
        } else {
            None
        };
        if let Some(task) = self.after_first_look(looked, scheduler) {
            return Steal::Success(task);
        }
        match looked {
            Some(stolen) => stolen,
            None => scheduler.steal_global(),
        }
    }

    /// Steals from the other workers.
    pub fn steal(&mut self, context: &Context, scheduler: &mut Scheduler) -> (task: Option<TaskId>)
        requires
            old(scheduler).wf(),
            old(self).index < old(scheduler).worker_pool.stealers@.len(),
            context.stealers matches Some(listed) ==> forall|i: int| #![trigger listed@[i]]
                0 <= i < listed@.len() ==> listed@[i] < old(scheduler).worker_pool.stealers@.len(),
        ensures
            final(scheduler).wf(),
            *final(self) == *old(self),
            match context.stealers {
                Some(listed) => old(scheduler).worker_pool.steals(
                    old(self).index as int,
                    listed@,
                    task,
                    &final(scheduler).worker_pool,
                ),
                None => task is None && *final(scheduler) == *old(scheduler),
            },
            *final(scheduler) == (Scheduler { worker_pool: final(scheduler).worker_pool, ..*old(scheduler) }),
    {
        match &context.stealers {
            Some(listed) => scheduler.worker_pool.steal_local(self.index, listed),
            None => None,
        }
    }
}

} // verus!
