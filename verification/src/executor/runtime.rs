use crate::cpus::cpu_count;
use crate::executor::context::Context;
use crate::executor::handle::Handle;
use crate::executor::reactor::{Reactor, Registration, Slot};
use crate::executor::scheduler::{Scheduler, SpawnPlan};
use crate::executor::worker::Worker;
use crate::layout::{Layout, NUM_CLASSES};
use crate::queues::{LocalQueue, TaskId};
use crate::time::instant::Instant;
use crate::time::wheel::TimerEntry;
use vstd::multiset::Multiset;
use vstd::prelude::*;

verus! {

/// A runtime, with its workers, each to be run on a thread of its own.
pub struct Runtime {
    pub handle: Handle,
    pub workers: Vec<Worker>,
}

impl Runtime {
    /// Every worker has a queue of its own.
    pub open spec fn wf(&self) -> bool {
        &&& self.handle.wf()
        &&& self.workers@.len() == self.handle.scheduler.queues@.len()
        &&& forall|i: int| #![trigger self.workers@[i]]
            0 <= i < self.workers@.len() ==> self.workers@[i].id == i && self.workers@[i].employed(
                &self.handle.scheduler,
            )
    }

    /// A runtime, started at `now`, that has nothing to do.
    pub open spec fn idle(&self, now: Instant) -> bool {
        &&& self.handle.scheduler.queue@ == Seq::<TaskId>::empty()
        &&& forall|i: int| #![trigger self.handle.scheduler.queues@[i]]
            0 <= i < self.handle.scheduler.queues@.len() ==> self.handle.scheduler.queues@[i]@.len() == 0
        &&& self.handle.scheduler.unparkers == self.workers@.len()
        &&& self.handle.scheduler.sleeping_workers == 0
        &&& self.handle.scheduler.searching_workers == 0
        &&& self.handle.scheduler.notify_cursor == 0
        &&& !self.handle.scheduler.shutdown
        &&& forall|i: int| #![trigger self.handle.scheduler.task_pools@[i]]
            0 <= i < NUM_CLASSES ==> self.handle.scheduler.task_pools@[i]@.len() == 0
        &&& forall|i: int| #![trigger self.workers@[i]]
            0 <= i < self.workers@.len() ==> self.workers@[i] == Worker::fresh(i as usize)
        &&& !self.handle.reactor.notified
        &&& !self.handle.reactor.shutdown
        &&& !self.handle.reactor.is_polling
        &&& self.handle.reactor.registrations@ == Seq::<Registration>::empty()
        &&& self.handle.reactor.state.slots() == Map::<usize, Slot>::empty()
        &&& self.handle.reactor.state.wheel().pending() == Multiset::<TimerEntry>::empty()
        &&& self.handle.reactor.state.wheel().now() == 0
        &&& self.handle.reactor.state.wheel().start() == now
    }

    /// A runtime with `num_workers` workers, started at `now`.
    pub fn with_workers(num_workers: usize, now: Instant) -> (runtime: Self)
        ensures
            runtime.wf(),
            runtime.idle(now),
            runtime.workers@.len() == num_workers,
    {
        let mut queues: Vec<LocalQueue> = Vec::new();
        let mut workers: Vec<Worker> = Vec::new();
        let mut i: usize = 0;
        while i < num_workers
            invariant
                i <= num_workers,
                queues@.len() == i,
                workers@.len() == i,
                forall|k: int| #![trigger queues@[k]] 0 <= k < i ==> queues@[k].wf() && queues@[k]@.len() == 0,
                forall|k: int| #![trigger workers@[k]] 0 <= k < i ==> workers@[k] == Worker::fresh(k as usize) && workers@[k].wf(),
            decreases num_workers - i,
        {
            queues.push(LocalQueue::new());
            workers.push(Worker::new(i));
            i += 1;
        }
        let scheduler = Scheduler::new(queues, num_workers);
        Runtime { handle: Handle::new(scheduler, Reactor::new(now)), workers }
    }

    /// A runtime with one worker for each processor of this machine, started at `now`.
    pub fn new(now: Instant) -> (runtime: Self)
        ensures
            runtime.wf(),
            runtime.idle(now),
            runtime.workers@.len() >= 1,
    {
        Self::with_workers(cpu_count(), now)
    }

    /// Decides where the task for a future of `layout` comes from.
    pub fn spawn(&mut self, context: &mut Context, layout: Layout) -> (plan: SpawnPlan)
        requires
            old(self).wf(),
            old(context).wf(),
        ensures
            final(self).wf(),
            final(context).wf(),
            final(self).workers == old(self).workers,
            final(self).handle.reactor == old(self).handle.reactor,
            old(self).handle.scheduler.plans(
                old(context),
                layout,
                plan,
                &final(self).handle.scheduler,
                final(context),
            ),
            final(self).handle.scheduler == (Scheduler {
                task_pools: final(self).handle.scheduler.task_pools,
                ..old(self).handle.scheduler
            }),
            *final(context) == (Context { local_task_pool: final(context).local_task_pool, ..*old(context) }),
    {
        self.handle.spawn(context, layout)
    }
}

} // verus!
