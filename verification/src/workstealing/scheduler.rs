use crate::counter::{decremented, incremented, one_less, one_more};
use crate::cpus::cpu_count;
use crate::queues::{GlobalQueue, LocalQueue, Steal, TaskId};
use crate::workstealing::context::{Context, LocalPush};
use crate::workstealing::reactor::Reactor;
use crate::workstealing::worker::Worker;
use crate::workstealing::worker_pool::Pool;
use vstd::prelude::*;

verus! {

/// Whom to tell that there is work.
pub struct Notice {
    /// The workers to unpark, in order.
    pub unpark: Vec<usize>,
    /// Whether to wake the reactor.
    pub reactor: bool,
}

/// Hands tasks to workers.
pub struct Scheduler {
    pub global_queue: GlobalQueue,
    pub worker_pool: Pool,
    pub shutdown: bool,
    /// How many workers are looking for work.
    pub searching_workers: usize,
    /// How many workers sleep.
    pub parked_workers: usize,
    pub reactor: Reactor,
    /// The reactor has been told that there is work.
    pub notifying: bool,
}

/// Where a task went.
pub enum Queued {
    /// Into the slot of the thread.
    Slot,
    /// Into the slot of the thread; what was there went to the thread's queue.
    Displaced(Notice),
    /// Into the common queue.
    Global(Notice),
}

/// How many workers to unpark for `len` tasks in the common queue, with `searching` workers looking:
/// one always, and if some are looking but fewer than there are tasks, one for every four tasks that
/// are too many, one more at least and four more at most.
pub open spec fn workers_to_wake(len: int, searching: int) -> int {
    if searching == 0 || len <= searching {
        1
    } else {
        let more = (len - searching) / 4;
        if more < 1 {
            2
        } else if more > 4 {
            5
        } else {
            1 + more
        }
    }
}

impl Scheduler {
    pub open spec fn wf(&self) -> bool {
        self.worker_pool.wf()
    }

    pub fn new_with_workers(num_workers: usize) -> (scheduler: Self)
        ensures
            scheduler.wf(),
            scheduler.global_queue@ == Seq::<TaskId>::empty(),
            scheduler.worker_pool.workers@.len() == num_workers,
            forall|i: int| #![trigger scheduler.worker_pool.workers@[i]]
                0 <= i < num_workers ==> scheduler.worker_pool.workers@[i] == (Worker { index: i as usize, tick: 0 }),
            scheduler.worker_pool.stealers@.len() == num_workers,
            forall|i: int| #![trigger scheduler.worker_pool.stealers@[i]]
                0 <= i < num_workers ==> scheduler.worker_pool.stealers@[i]@.len() == 0,
            scheduler.worker_pool.unparkers == num_workers,
            scheduler.worker_pool.next_unparker == 0,
            !scheduler.shutdown,
            scheduler.searching_workers == 0,
            scheduler.parked_workers == 0,
            scheduler.reactor.sources() == crate::workstealing::reactor::no_sources(),
            scheduler.reactor.free_tokens() == seq![0usize],
            !scheduler.notifying,
    {
        Scheduler {
            global_queue: GlobalQueue::new(),
            worker_pool: Pool::new(num_workers),
            shutdown: false,
            searching_workers: 0,
            parked_workers: 0,
            reactor: Reactor::new(),
            notifying: false,
        }
    }

    /// A scheduler with one worker for each processor of this machine.
    pub fn new() -> (scheduler: Self)
        ensures
            scheduler.wf(),
            scheduler.global_queue@ == Seq::<TaskId>::empty(),
            scheduler.worker_pool.workers@.len() >= 1,
            forall|i: int| #![trigger scheduler.worker_pool.workers@[i]]
                0 <= i < scheduler.worker_pool.workers@.len() ==> scheduler.worker_pool.workers@[i] == (Worker {
                    index: i as usize,
                    tick: 0,
                }),
            scheduler.worker_pool.stealers@.len() == scheduler.worker_pool.workers@.len(),
            forall|i: int| #![trigger scheduler.worker_pool.stealers@[i]]
                0 <= i < scheduler.worker_pool.stealers@.len() ==> scheduler.worker_pool.stealers@[i]@.len() == 0,
            scheduler.worker_pool.unparkers == scheduler.worker_pool.workers@.len(),
            scheduler.worker_pool.next_unparker == 0,
            !scheduler.shutdown,
            scheduler.searching_workers == 0,
            scheduler.parked_workers == 0,
            scheduler.reactor.sources() == crate::workstealing::reactor::no_sources(),
            scheduler.reactor.free_tokens() == seq![0usize],
            !scheduler.notifying,
    {
        Self::new_with_workers(cpu_count())
    }

    /// Telling of work in the common queue. Some worker is always unparked, so that no task is
    /// missed; the reactor is woken only if nobody is looking for work and it has not been told.
    pub open spec fn notifies(&self, notice: Notice, after: &Scheduler) -> bool {
        &&& self.worker_pool.notifies(
            workers_to_wake(self.global_queue@.len() as int, self.searching_workers as int) as usize,
            notice.unpark@,
            after.worker_pool.next_unparker,
        )
        &&& notice.reactor <==> self.searching_workers == 0 && !self.notifying
        &&& *after == (Scheduler {
            worker_pool: Pool { next_unparker: after.worker_pool.next_unparker, ..self.worker_pool },
            notifying: self.notifying || self.searching_workers == 0,
            ..*self
        })
    }

    /// Says whom to tell of work in the common queue.
    pub fn notify_adaptive(&mut self) -> (notice: Notice)
        ensures
            old(self).notifies(notice, final(self)),
    {
        let searching: usize = self.searching_workers;
        let mut count: usize = 1;
        let mut reactor = false;
        if searching == 0 {
            reactor = !self.notifying;
            self.notifying = true;
        } else {
            let queued: usize = self.global_queue.len();
            if queued > searching {
                let more: usize = (queued - searching) / 4;
                count = if more < 1 {
                    2
                } else if more > 4 {
                    5
                } else {
                    1 + more
                };
            }
        }
        let unpark = self.worker_pool.notify_many(count);
        Notice { unpark, reactor }
    }

    /// Telling of work in a worker's own queue: only if nobody is looking for work and nobody has
    /// been told, and then one worker and the reactor.
    pub open spec fn notifies_local(&self, notice: Notice, after: &Scheduler) -> bool {
        if self.searching_workers == 0 && !self.notifying {
            &&& notice.reactor
            &&& self.worker_pool.notifies(1, notice.unpark@, after.worker_pool.next_unparker)
            &&& *after == (Scheduler {
                worker_pool: Pool { next_unparker: after.worker_pool.next_unparker, ..self.worker_pool },
                notifying: true,
                ..*self
            })
        } else {
            &&& !notice.reactor
            &&& notice.unpark@.len() == 0
            &&& *after == *self
        }
    }

    /// Says whom to tell of work in a worker's own queue.
    pub fn notify_local(&mut self) -> (notice: Notice)
        ensures
            old(self).notifies_local(notice, final(self)),
    {
        if self.searching_workers == 0 && !self.notifying {
            self.notifying = true;
            let unpark = self.worker_pool.notify_many(1);
            Notice { unpark, reactor: true }
        } else {
            Notice { unpark: Vec::new(), reactor: false }
        }
    }

    /// This scheduler with other queues for its workers.
    pub open spec fn with_queues(&self, stealers: Vec<LocalQueue>) -> Scheduler {
        Scheduler { worker_pool: Pool { stealers, ..self.worker_pool }, ..*self }
    }

    /// Queueing `task` behind all others of a worker, and telling of it, turns this scheduler into
    /// `after`.
    pub open spec fn pushes_local(&self, worker: int, task: TaskId, notice: Notice, after: &Scheduler) -> bool {
        let own = after.worker_pool.stealers@[worker];
        &&& after.worker_pool.stealers@ == self.worker_pool.stealers@.update(worker, own)
        &&& own@ == self.worker_pool.stealers@[worker]@.push(task)
        &&& self.with_queues(after.worker_pool.stealers).notifies_local(notice, after)
    }

    pub fn push_local(&mut self, worker: usize, task: TaskId) -> (notice: Notice)
        requires
            old(self).wf(),
            worker < old(self).worker_pool.stealers@.len(),
        ensures
            final(self).wf(),
            old(self).pushes_local(worker as int, task, notice, final(self)),
    {
        let ghost before = self.worker_pool.stealers@;
        self.worker_pool.stealers[worker].push(task);
        proof {
            let w = worker as int;
            assert(self.worker_pool.stealers@ =~= before.update(w, self.worker_pool.stealers@[w]));
        }
        self.notify_local()
    }

    /// Queueing a task turns scheduler and context into those after. The thread takes it if it is a
    /// worker; otherwise it goes to the common queue.
    pub open spec fn queues(
        &self,
        context: &Context,
        task: TaskId,
        queued: Queued,
        after: &Scheduler,
        context_after: &Context,
    ) -> bool {
        match queued {
            Queued::Slot => context.takes(task, self, LocalPush::Slot, context_after, after),
            Queued::Displaced(notice) => context.takes(task, self, LocalPush::Displaced(notice), context_after, after),
            Queued::Global(notice) => {
                &&& context.local_queue is None
                &&& *context_after == *context
                &&& after.global_queue@ == self.global_queue@.push(task)
                &&& (Scheduler { global_queue: after.global_queue, ..*self }).notifies(notice, after)
            },
        }
    }

    /// Queues a task.
    pub fn enqueue(&mut self, context: &mut Context, task: TaskId) -> (queued: Queued)
        requires
            old(self).wf(),
            old(context).at_home(old(self)),
        ensures
            final(self).wf(),
            old(self).queues(old(context), task, queued, final(self), final(context)),
            final(context).at_home(final(self)),
    {
        match context.try_push_local(task, self) {
            LocalPush::Slot => Queued::Slot,
            LocalPush::Displaced(notice) => Queued::Displaced(notice),
            LocalPush::Refused => {
                self.global_queue.push(task);
                Queued::Global(self.notify_adaptive())
            },
        }
    }

    /// Queues a new task. Nothing can be spawned once the scheduler shuts down.
    pub fn spawn_internal(&mut self, context: &mut Context, task: TaskId) -> (queued: Queued)
        requires
            !old(self).shutdown,
            old(self).wf(),
            old(context).at_home(old(self)),
        ensures
            final(self).wf(),
            old(self).queues(old(context), task, queued, final(self), final(context)),
            final(context).at_home(final(self)),
    {
        self.enqueue(context, task)
    }

    /// Tells everybody to stop. Returns the workers to unpark; the reactor is to be woken too.
    pub fn shutdown(&mut self) -> (unpark: Vec<usize>)
        ensures
            *final(self) == (Scheduler { shutdown: true, ..*old(self) }),
            unpark@ == Seq::new(old(self).worker_pool.unparkers as nat, |i: int| i as usize),
    {
        self.shutdown = true;
        self.worker_pool.unpark_all()
    }

    pub fn is_shutdown(&self) -> (shutdown: bool)
        ensures
            shutdown == self.shutdown,
    {
        self.shutdown
    }

    /// Takes the oldest task of the common queue, repeating the attempt for as long as it fails.
    /// `Retry` says that every attempt failed, and that no more of them can be counted.
    pub fn steal_global(&mut self) -> (stolen: Steal)
        ensures
            old(self).global_queue.tries(stolen, &final(self).global_queue),
            *final(self) == (Scheduler { global_queue: final(self).global_queue, ..*old(self) }),
    {
        self.global_queue.steal()
    }

    /// Hands the workers out, each to be started on a thread of its own.
    pub fn start(&mut self) -> (workers: Vec<Worker>)
        ensures
            workers@ == old(self).worker_pool.workers@,
            final(self).worker_pool.workers@.len() == 0,
            *final(self) == (Scheduler {
                worker_pool: Pool { workers: final(self).worker_pool.workers, ..old(self).worker_pool },
                ..*old(self)
            }),
    {
        self.worker_pool.start()
    }

    pub fn incr_searching(&mut self)
        ensures
            *final(self) == (Scheduler { searching_workers: one_more(old(self).searching_workers), ..*old(self) }),
    {
        self.searching_workers = incremented(self.searching_workers);
    }

    pub fn decr_searching(&mut self)
        ensures
            *final(self) == (Scheduler { searching_workers: one_less(old(self).searching_workers), ..*old(self) }),
    {
        self.searching_workers = decremented(self.searching_workers);
    }

    pub fn incr_parked(&mut self)
        ensures
            *final(self) == (Scheduler { parked_workers: one_more(old(self).parked_workers), ..*old(self) }),
    {
        self.parked_workers = incremented(self.parked_workers);
    }

    pub fn decr_parked(&mut self)
        ensures
            *final(self) == (Scheduler { parked_workers: one_less(old(self).parked_workers), ..*old(self) }),
    {
        self.parked_workers = decremented(self.parked_workers);
    }
}

/// Whoever queues a task in the common queue has somebody unparked, if there is anybody: no task is
/// left without a worker that looks for it.
pub proof fn law_somebody_is_told(scheduler: Scheduler, notice: Notice, after: Scheduler)
    requires
        scheduler.notifies(notice, &after),
        scheduler.worker_pool.unparkers > 0,
    ensures
        1 <= notice.unpark@.len() <= 5,
{
}

} // verus!
