use crate::executor::context::Context;
use crate::executor::join_handle::{JoinCell, JoinState};
use crate::executor::scheduler::{Scheduler, Wakeup};
use crate::queues::TaskId;
use vstd::multiset::Multiset;
use vstd::prelude::*;

verus! {

/// How many times in a row a task may be woken into the slot before it has to queue.
pub const LIFO_LIMIT: u8 = 3;

/// Where a task stands.
#[derive(Debug, Clone, Copy, PartialEq, Eq, Structural)]
pub enum ExecState {
    /// It waits to be woken, and is in no queue.
    Idle,
    /// It waits in a queue, or is to be queued as soon as it has been polled.
    Scheduled,
    /// A worker is polling it.
    Polling,
    /// Its future is done.
    Completed,
}

/// What the runtime keeps of a future that it runs.
pub struct Task<R> {
    pub state: ExecState,
    /// How many times in a row the task has been woken into the slot.
    pub lifo_count: u8,
    pub join: JoinCell<R>,
}

/// What came of waking a task.
#[derive(Debug, Clone, Copy, PartialEq, Eq)]
pub enum Woken {
    /// There was nothing to do: it is queued, or being polled, or done.
    Already,
    /// It is in the thread's slot.
    Slot,
    /// It is in the thread's own queue.
    Local,
    /// It is in the common queue; there may be somebody to tell.
    Injected(Wakeup),
}

/// The tasks that wait in a queue or in the thread's slot.
pub open spec fn ready_tasks(context: &Context, scheduler: &Scheduler) -> Multiset<TaskId> {
    match context.lifo_slot {
        Some(task) => scheduler.waiting().insert(task),
        None => scheduler.waiting(),
    }
}

/// The thread's own queue is among the scheduler's.
pub open spec fn at_home(context: &Context, scheduler: &Scheduler) -> bool {
    context.local_queue matches Some(q) ==> q < scheduler.queues@.len()
}

impl<R> Task<R> {
    /// A task about to be queued for the first time.
    pub open spec fn fresh() -> Task<R> {
        Task {
            state: ExecState::Scheduled,
            lifo_count: 0,
            join: JoinCell { state: JoinState::Running, result: None, waker: None },
        }
    }

    pub fn new() -> (task: Self)
        ensures
            task == Task::<R>::fresh(),
            task.join.wf(),
    {
        Task { state: ExecState::Scheduled, lifo_count: 0, join: JoinCell::new() }
    }

    /// Makes a done task ready for another future: nothing of the former one is left.
    pub fn reuse(&mut self)
        ensures
            *final(self) == Task::<R>::fresh(),
            final(self).join.wf(),
    {
        self.join = JoinCell::new();
        self.lifo_count = 0;
        self.state = ExecState::Scheduled;
    }

    /// Whether the task, being woken, gets the thread's slot: the thread is a worker, its slot is
    /// free, and the task has not been there too often.
    pub open spec fn takes_slot(&self, context: &Context) -> bool {
        context.is_worker && self.lifo_count < LIFO_LIMIT && context.lifo_slot is None
    }

    /// Waking the task, whose number is `id`, turns it into `after`, and context and scheduler into
    /// theirs. An idle task goes into the thread's slot, or else into a worker's own queue, or else
    /// into the common queue. One being polled is marked, to be queued once it has been polled.
    pub open spec fn wakes(
        &self,
        id: TaskId,
        context: &Context,
        scheduler: &Scheduler,
        woken: Woken,
        after: &Task<R>,
        context_after: &Context,
        scheduler_after: &Scheduler,
    ) -> bool {
        &&& after.join == self.join
        &&& after.state == (if self.state is Completed {
            ExecState::Completed
        } else {
            ExecState::Scheduled
        })
        &&& if self.state !is Idle {
            &&& woken is Already
            &&& after.lifo_count == self.lifo_count
            &&& *context_after == *context
            &&& *scheduler_after == *scheduler
        } else if self.takes_slot(context) {
            &&& woken is Slot
            &&& after.lifo_count == self.lifo_count + 1
            &&& *context_after == (Context { lifo_slot: Some(id), ..*context })
            &&& *scheduler_after == *scheduler
        } else if context.is_worker && context.local_queue is Some {
            let q = context.local_queue->0 as int;
            &&& woken is Local
            &&& after.lifo_count == 0
            &&& *context_after == *context
            &&& scheduler_after.same_but_queues(scheduler)
            &&& scheduler_after.queue == scheduler.queue
            &&& scheduler_after.queues@ == scheduler.queues@.update(q, scheduler_after.queues@[q])
            &&& scheduler_after.queues@[q]@ == scheduler.queues@[q]@.push(id)
        } else {
            &&& woken matches Woken::Injected(wakeup)
            &&& scheduler.notifies(wakeup, scheduler_after.notify_cursor)
            &&& after.lifo_count == 0
            &&& *context_after == *context
            &&& scheduler_after.queue@ == scheduler.queue@.push(id)
            &&& *scheduler_after == (Scheduler {
                queue: scheduler_after.queue,
                notify_cursor: scheduler_after.notify_cursor,
                ..*scheduler
            })
        }
    }

    /// Wakes the task. However often an idle task is woken, it is queued once.
    pub fn wake_by_ref(&mut self, id: TaskId, context: &mut Context, scheduler: &mut Scheduler) -> (woken: Woken)
        requires
            old(scheduler).wf(),
            at_home(old(context), old(scheduler)),
        ensures
            final(scheduler).wf(),
            old(self).wakes(
                id,
                old(context),
                old(scheduler),
                woken,
                final(self),
                final(context),
                final(scheduler),
            ),
            ready_tasks(final(context), final(scheduler)) == (if old(self).state is Idle {
                ready_tasks(old(context), old(scheduler)).insert(id)
            } else {
                ready_tasks(old(context), old(scheduler))
            }),
    {
        match self.state {
            ExecState::Completed => {
                return Woken::Already;
            },
            ExecState::Scheduled | ExecState::Polling => {
                self.state = ExecState::Scheduled;
                return Woken::Already;
            },
            ExecState::Idle => {},
        }
        self.state = ExecState::Scheduled;
        if context.is_worker {
            if self.lifo_count < LIFO_LIMIT && context.lifo_slot.is_none() {
                context.lifo_slot = Some(id);
                self.lifo_count = self.lifo_count + 1;
                return Woken::Slot;
            }
            if let Some(own) = context.local_queue {
                scheduler.push_local(own, id);
                self.lifo_count = 0;
                proof {
                    assert(ready_tasks(context, scheduler) =~= ready_tasks(old(context), old(scheduler)).insert(id));
                }
                return Woken::Local;
            }
        }
        let wakeup = scheduler.inject(id);
        self.lifo_count = 0;
        proof {
            assert(ready_tasks(context, scheduler) =~= ready_tasks(old(context), old(scheduler)).insert(id));
        }
        Woken::Injected(wakeup)
    }
}

/// A task that is used again says nothing of what it was used for before: its handle waits.
pub proof fn law_reused_task_is_awaited<R>(waker: std::task::Waker, poll: crate::poll::Poll<R>, after: JoinCell<R>)
    requires
        Task::<R>::fresh().join.polls(waker, poll, after),
    ensures
        poll is Pending,
{
}

/// Waking a task twice is waking it once: the second time, nothing is left to do.
pub proof fn law_second_wake_is_idle<R>(
    task1: Task<R>,
    id: TaskId,
    context1: Context,
    scheduler1: Scheduler,
    woken1: Woken,
    task2: Task<R>,
    context2: Context,
    scheduler2: Scheduler,
    woken2: Woken,
    task3: Task<R>,
    context3: Context,
    scheduler3: Scheduler,
)
    requires
        task1.wakes(id, &context1, &scheduler1, woken1, &task2, &context2, &scheduler2),
        task2.wakes(id, &context2, &scheduler2, woken2, &task3, &context3, &scheduler3),
    ensures
        woken2 is Already,
        task3 == task2,
        context3 == context2,
        scheduler3 == scheduler2,
{
}

/// The count never passes the limit, so that a task that keeps being woken queues in the end.
pub proof fn law_slot_is_limited<R>(
    task: Task<R>,
    id: TaskId,
    context: Context,
    scheduler: Scheduler,
    woken: Woken,
    after: Task<R>,
    context_after: Context,
    scheduler_after: Scheduler,
)
    requires
        task.wakes(id, &context, &scheduler, woken, &after, &context_after, &scheduler_after),
        task.lifo_count <= LIFO_LIMIT,
    ensures
        after.lifo_count <= LIFO_LIMIT,
        task.lifo_count == LIFO_LIMIT ==> woken !is Slot,
{
}

} // verus!
