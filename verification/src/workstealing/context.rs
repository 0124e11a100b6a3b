use crate::queues::TaskId;
use crate::workstealing::scheduler::{Notice, Scheduler};
use crate::workstealing::task_pool::Pool;
use vstd::prelude::*;

verus! {

/// What the runtime keeps for a thread.
pub struct Context {
    /// Memory that was given back on this thread.
    pub task_pool: Pool,
    /// Which worker the thread is.
    pub worker_index: Option<usize>,
    /// The queues that the thread may steal from.
    pub stealers: Option<Vec<usize>>,
    /// The queue that is the thread's own.
    pub local_queue: Option<usize>,
    /// A task to be run next.
    pub lifo_slot: Option<TaskId>,
}

/// What came of handing a task to the thread that it was woken on.
pub enum LocalPush {
    /// The thread has no queue: it did not take the task.
    Refused,
    /// The task is in the slot.
    Slot,
    /// The task is in the slot; what was there is in the thread's queue, and there may be somebody
    /// to tell.
    Displaced(Notice),
}

impl Context {
    pub open spec fn wf(&self) -> bool {
        self.task_pool.wf()
    }

    /// The thread's own queue is among the scheduler's.
    pub open spec fn at_home(&self, scheduler: &Scheduler) -> bool {
        self.local_queue matches Some(q) ==> q < scheduler.worker_pool.stealers@.len()
    }

    /// A thread that is no worker.
    pub fn new() -> (context: Self)
        ensures
            context.wf(),
            context.worker_index is None,
            context.stealers is None,
            context.local_queue is None,
            context.lifo_slot is None,
            forall|i: int| #![trigger context.task_pool.buckets@[i]]
                0 <= i < context.task_pool.buckets@.len() ==> context.task_pool.buckets@[i]@.len() == 0,
    {
        Context {
            task_pool: Pool::new(),
            worker_index: None,
            stealers: None,
            local_queue: None,
            lifo_slot: None,
        }
    }

    /// Handing `task` to the thread turns context and scheduler into those after. The newest task
    /// has the slot; what it displaces goes to the thread's queue, where others may steal it.
    pub open spec fn takes(
        &self,
        task: TaskId,
        scheduler: &Scheduler,
        push: LocalPush,
        after: &Context,
        scheduler_after: &Scheduler,
    ) -> bool {
        match self.local_queue {
            None => {
                &&& push is Refused
                &&& *after == *self
                &&& *scheduler_after == *scheduler
            },
            Some(q) => {
                &&& *after == (Context { lifo_slot: Some(task), ..*self })
                &&& match self.lifo_slot {
                    None => {
                        &&& push is Slot
                        &&& *scheduler_after == *scheduler
                    },
                    Some(displaced) => {
                        &&& push matches LocalPush::Displaced(notice)
                        &&& scheduler.pushes_local(q as int, displaced, notice, scheduler_after)
                    },
                }
            },
        }
    }

    /// Hands a task to the thread, if it is a worker.
    pub fn try_push_local(&mut self, task: TaskId, scheduler: &mut Scheduler) -> (push: LocalPush)
        requires
            old(scheduler).wf(),
            old(self).at_home(old(scheduler)),
        ensures
            final(scheduler).wf(),
            old(self).takes(task, old(scheduler), push, final(self), final(scheduler)),
            final(self).at_home(final(scheduler)),
    {
        match self.local_queue {
            None => LocalPush::Refused,
            Some(own) => {
                let displaced = self.lifo_slot.take();
                self.lifo_slot = Some(task);
                match displaced {
                    None => LocalPush::Slot,
                    Some(old_task) => LocalPush::Displaced(scheduler.push_local(own, old_task)),
                }
            },
        }
    }
}

} // verus!
