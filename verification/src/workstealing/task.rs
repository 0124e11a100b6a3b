use crate::layout::Layout;
use crate::poll::Poll;
use crate::queues::TaskId;
use crate::waker::clone_waker;
use crate::workstealing::context::Context;
use crate::workstealing::join::JoinError;
use crate::workstealing::scheduler::{Queued, Scheduler};
use crate::workstealing::task_pool::{Allocation, BlockId};
use std::task::Waker;
use vstd::prelude::*;

verus! {

/// How far a task's result has come.
#[derive(Debug, Clone, Copy, PartialEq, Eq, Structural)]
pub enum ResultState {
    Running,
    Completed,
    Panicked,
    Joined,
}

/// What is left in a task's memory when nobody refers to the task any more.
#[derive(Debug, Clone, Copy, PartialEq, Eq, Structural)]
pub enum Payload {
    /// The future, which never came to an end.
    Future,
    /// The result, which nobody took.
    Result,
    /// Nothing.
    Nothing,
}

/// What the runtime keeps of a task, in front of its future.
pub struct TaskHeader<T> {
    /// How many references to the task there are.
    pub ref_count: usize,
    /// The task has been woken and not polled since.
    pub notified: bool,
    pub result_state: ResultState,
    pub result: Option<T>,
    /// Whoever awaits the result.
    pub join_waker: Option<Waker>,
    /// The memory of header and payload together.
    pub layout: Layout,
    /// Where in that memory the future is, and later the result.
    pub future_offset: usize,
}

/// The memory that a task needs: its header, and behind it a place that fits the future and, when
/// that is done, the result. Returns the whole, and where that place is; `None` if that is more than
/// memory can be.
pub fn joint_layout(header: Layout, future: Layout, result: Layout) -> (joint: Option<(Layout, usize)>)
    requires
        header.valid(),
        future.valid(),
        result.valid(),
        future.spec_either(result).valid(),
    ensures
        ({
            let payload = future.spec_either(result);
            &&& joint is Some <==> header.spec_end(payload) + crate::layout::max_of(header.align, payload.align)
                <= isize::MAX + 1
            &&& joint matches Some((whole, offset)) ==> {
                &&& offset == header.spec_offset(payload)
                &&& whole.align == crate::layout::max_of(header.align, payload.align)
                &&& whole.size == crate::layout::rounded_up(offset + payload.size, whole.align as int)
                &&& header.size <= offset
                &&& offset + future.size <= whole.size
                &&& offset + result.size <= whole.size
            }
        }),
{
    header.extend(future.either(result))
}

impl<T> TaskHeader<T> {
    /// There is a result exactly when the task has come to its end and nobody has taken it.
    pub open spec fn wf(&self) -> bool {
        self.result is Some <==> self.result_state is Completed
    }

    /// A task that nobody but the caller refers to.
    pub fn new(layout: Layout, future_offset: usize) -> (task: Self)
        ensures
            task.wf(),
            task == (TaskHeader::<T> {
                ref_count: 1,
                notified: false,
                result_state: ResultState::Running,
                result: None,
                join_waker: None,
                layout,
                future_offset,
            }),
    {
        TaskHeader {
            ref_count: 1,
            notified: false,
            result_state: ResultState::Running,
            result: None,
            join_waker: None,
            layout,
            future_offset,
        }
    }

    /// Makes another reference, for a queue, a waker, or a handle.
    pub fn add_ref(&mut self)
        requires
            old(self).ref_count < usize::MAX,
        ensures
            *final(self) == (TaskHeader { ref_count: (old(self).ref_count + 1) as usize, ..*old(self) }),
    {
        self.ref_count = self.ref_count + 1;
    }

    /// What is in the task's memory besides the header.
    pub open spec fn payload(&self) -> Payload {
        match self.result_state {
            ResultState::Running => Payload::Future,
            ResultState::Completed => Payload::Result,
            _ => Payload::Nothing,
        }
    }

    /// Gives a reference up. With the last one the task is at its end: what is left in its memory is
    /// to be dropped, and the memory to be given back.
    pub fn drop_ref(&mut self) -> (last: Option<Payload>)
        requires
            old(self).ref_count > 0,
        ensures
            *final(self) == (TaskHeader { ref_count: (old(self).ref_count - 1) as usize, ..*old(self) }),
            last == (if old(self).ref_count == 1 {
                Some(old(self).payload())
            } else {
                None
            }),
    {
        self.ref_count = self.ref_count - 1;
        if self.ref_count > 0 {
            return None;
        }
        Some(
            match self.result_state {
                ResultState::Running => Payload::Future,
                ResultState::Completed => Payload::Result,
                ResultState::Panicked | ResultState::Joined => Payload::Nothing,
            },
        )
    }

    /// Waking the task by a reference that stays with the waker turns it into `after`, and
    /// scheduler and context into theirs. A task that has been woken already is left alone;
    /// otherwise it is queued, and the queue refers to it.
    pub open spec fn wakes_by_ref(
        &self,
        id: TaskId,
        context: &Context,
        scheduler: &Scheduler,
        queued: Option<Queued>,
        after: &TaskHeader<T>,
        context_after: &Context,
        scheduler_after: &Scheduler,
    ) -> bool {
        match queued {
            None => {
                &&& self.notified
                &&& *after == *self
                &&& *context_after == *context
                &&& *scheduler_after == *scheduler
            },
            Some(q) => {
                &&& !self.notified
                &&& *after == (TaskHeader { notified: true, ref_count: (self.ref_count + 1) as usize, ..*self })
                &&& scheduler.queues(context, id, q, scheduler_after, context_after)
            },
        }
    }

    /// Wakes the task; the waker keeps its reference.
    pub fn wake_by_ref(&mut self, id: TaskId, context: &mut Context, scheduler: &mut Scheduler) -> (queued: Option<
        Queued,
    >)
        requires
            old(self).ref_count < usize::MAX,
            old(scheduler).wf(),
            old(context).at_home(old(scheduler)),
        ensures
            final(scheduler).wf(),
            final(context).at_home(final(scheduler)),
            old(self).wakes_by_ref(
                id,
                old(context),
                old(scheduler),
                queued,
                final(self),
                final(context),
                final(scheduler),
            ),
    {
        if self.notified {
            return None;
        }
        self.notified = true;
        self.add_ref();
        Some(scheduler.enqueue(context, id))
    }

    /// Wakes the task; the waker's own reference goes to the queue, or is given up if the task has
    /// been woken already, in which case it may have been the last.
    pub fn wake(&mut self, id: TaskId, context: &mut Context, scheduler: &mut Scheduler) -> (woken: (
        Option<Queued>,
        Option<Payload>,
    ))
        requires
            old(self).ref_count > 0,
            old(scheduler).wf(),
            old(context).at_home(old(scheduler)),
        ensures
            final(scheduler).wf(),
            final(context).at_home(final(scheduler)),
            match woken.0 {
                None => {
                    &&& old(self).notified
                    &&& *final(self) == (TaskHeader { ref_count: (old(self).ref_count - 1) as usize, ..*old(self) })
                    &&& woken.1 == (if old(self).ref_count == 1 {
                        Some(old(self).payload())
                    } else {
                        None
                    })
                    &&& *final(context) == *old(context)
                    &&& *final(scheduler) == *old(scheduler)
                },
                Some(q) => {
                    &&& !old(self).notified
                    &&& *final(self) == (TaskHeader { notified: true, ..*old(self) })
                    &&& woken.1 is None
                    &&& old(scheduler).queues(old(context), id, q, final(scheduler), final(context))
                },
            },
    {
        if self.notified {
            let last = self.drop_ref();
            return (None, last);
        }
        self.notified = true;
        (Some(scheduler.enqueue(context, id)), None)
    }

    /// Takes the task on to be polled: from now on it can be woken again.
    pub fn begin_poll(&mut self)
        ensures
            *final(self) == (TaskHeader { notified: false, ..*old(self) }),
    {
        self.notified = false;
    }

    /// Leaves the result of the task. Returns whoever awaits it, to be woken.
    pub fn complete(&mut self, result: T) -> (waker: Option<Waker>)
        ensures
            final(self).wf(),
            *final(self) == (TaskHeader {
                result_state: ResultState::Completed,
                result: Some(result),
                join_waker: None,
                ..*old(self)
            }),
            waker == old(self).join_waker,
    {
        self.result = Some(result);
        self.result_state = ResultState::Completed;
        self.join_waker.take()
    }

    /// Notes that the task panicked. Returns whoever awaits it, to be woken.
    pub fn fail(&mut self) -> (waker: Option<Waker>)
        ensures
            final(self).wf(),
            *final(self) == (TaskHeader {
                result_state: ResultState::Panicked,
                result: None,
                join_waker: None,
                ..*old(self)
            }),
            waker == old(self).join_waker,
    {
        self.result = None;
        self.result_state = ResultState::Panicked;
        self.join_waker.take()
    }

    /// Awaiting the task's result on behalf of `waker` gives `poll` and turns it into `after`.
    pub open spec fn joins(&self, waker: Waker, poll: Poll<Result<T, JoinError>>, after: &TaskHeader<T>) -> bool {
        match self.result_state {
            ResultState::Completed => {
                &&& poll matches Poll::Ready(Ok(value)) && self.result == Some(value)
                &&& *after == (TaskHeader { result_state: ResultState::Joined, result: None, ..*self })
            },
            ResultState::Panicked => {
                &&& poll matches Poll::Ready(Err(_))
                &&& *after == *self
            },
            _ => {
                &&& poll is Pending
                &&& *after == (TaskHeader { join_waker: Some(waker), ..*self })
            },
        }
    }

    /// Takes the result, or has `waker` woken when there is one. A result can be taken only once.
    pub fn poll_join(&mut self, waker: &Waker) -> (poll: Poll<Result<T, JoinError>>)
        requires
            old(self).wf(),
            old(self).result_state !is Joined,
        ensures
            final(self).wf(),
            old(self).joins(*waker, poll, final(self)),
    {
        if let Some(value) = self.result.take() {
            self.result_state = ResultState::Joined;
            return Poll::Ready(Ok(value));
        }
        if let ResultState::Panicked = self.result_state {
            return Poll::Ready(Err(JoinError {  }));
        }
        self.join_waker = Some(clone_waker(waker));
        Poll::Pending
    }
}

/// Makes tasks.
pub struct Task;

impl Task {
    /// Plans a new task: what is kept of it, and where its memory comes from. `None` if it needs more than
    /// memory can be.
    pub fn spawn<T>(context: &mut Context, header: Layout, future: Layout, result: Layout) -> (spawned: Option<
        (TaskHeader<T>, Allocation),
    >)
        requires
            header.valid(),
            future.valid(),
            result.valid(),
            future.spec_either(result).valid(),
            old(context).wf(),
        ensures
            final(context).wf(),
            *final(context) == (Context { task_pool: final(context).task_pool, ..*old(context) }),
            ({
                let payload = future.spec_either(result);
                let align = crate::layout::max_of(header.align, payload.align);
                match spawned {
                    None => {
                        &&& header.spec_end(payload) + align > isize::MAX + 1
                        &&& *final(context) == *old(context)
                    },
                    Some((task, allocation)) => {
                        &&& header.spec_end(payload) + align <= isize::MAX + 1
                        &&& task.wf()
                        &&& task == (TaskHeader::<T> {
                            ref_count: 1,
                            notified: false,
                            result_state: ResultState::Running,
                            result: None,
                            join_waker: None,
                            layout: Layout {
                                size: crate::layout::rounded_up(header.spec_end(payload), align as int) as usize,
                                align,
                            },
                            future_offset: header.spec_offset(payload) as usize,
                        })
                        &&& old(context).task_pool.allocates(task.layout, allocation, &final(context).task_pool)
                    },
                }
            }),
    {
        match joint_layout(header, future, result) {
            None => None,
            Some((layout, future_offset)) => {
                let allocation = context.task_pool.allocate(layout);
                Some((TaskHeader::new(layout, future_offset), allocation))
            },
        }
    }
}

/// What became of a task whose last reference was given up.
#[derive(Debug, Clone, Copy, PartialEq, Eq, Structural)]
pub struct Released {
    /// What is to be dropped.
    pub payload: Payload,
    /// Whether the pool keeps the memory; otherwise it is to be freed.
    pub kept: bool,
}

impl<T> TaskHeader<T> {
    /// Gives a reference up; with the last one the memory of the task, `block`, goes back to the pool.
    pub fn release(&mut self, block: BlockId, context: &mut Context) -> (released: Option<Released>)
        requires
            old(self).ref_count > 0,
            old(context).wf(),
        ensures
            final(context).wf(),
            *final(context) == (Context { task_pool: final(context).task_pool, ..*old(context) }),
            *final(self) == (TaskHeader { ref_count: (old(self).ref_count - 1) as usize, ..*old(self) }),
            match released {
                None => {
                    &&& old(self).ref_count > 1
                    &&& *final(context) == *old(context)
                },
                Some(r) => {
                    &&& old(self).ref_count == 1
                    &&& r.payload == old(self).payload()
                    &&& r.kept <==> crate::workstealing::task_pool::bucket_of(old(self).layout) is Some
                    &&& old(context).task_pool.takes_back(block, old(self).layout, &final(context).task_pool)
                },
            },
    {
        match self.drop_ref() {
            None => None,
            Some(payload) => {
                let kept = context.task_pool.deallocate(block, self.layout);
                Some(Released { payload, kept })
            },
        }
    }
}

/// However often a task is woken before it is polled, it is queued once and referred to once more.
pub proof fn law_redundant_wakes_cost_nothing<T>(
    task1: TaskHeader<T>,
    id: TaskId,
    context1: Context,
    scheduler1: Scheduler,
    queued1: Option<Queued>,
    task2: TaskHeader<T>,
    context2: Context,
    scheduler2: Scheduler,
    queued2: Option<Queued>,
    task3: TaskHeader<T>,
    context3: Context,
    scheduler3: Scheduler,
)
    requires
        task1.wakes_by_ref(id, &context1, &scheduler1, queued1, &task2, &context2, &scheduler2),
        task2.wakes_by_ref(id, &context2, &scheduler2, queued2, &task3, &context3, &scheduler3),
    ensures
        queued2 is None,
        task3 == task2,
        context3 == context2,
        scheduler3 == scheduler2,
{
}

/// A result is dropped with the task only if nobody took it, and then exactly once: taking it leaves
/// nothing to drop.
pub proof fn law_taken_result_is_not_dropped<T>(
    task: TaskHeader<T>,
    waker: Waker,
    poll: Poll<Result<T, JoinError>>,
    after: TaskHeader<T>,
)
    requires
        task.joins(waker, poll, &after),
        task.payload() is Result,
    ensures
        poll matches Poll::Ready(Ok(value)) && task.result == Some(value),
        after.payload() is Nothing,
{
}

} // verus!
