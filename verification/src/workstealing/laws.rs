//! What the operations of this runtime are for, in terms of what goes in and what comes out.
use crate::layout::Layout;
use crate::poll::Poll;
use crate::queues::{Steal, TaskId};
use crate::workstealing::context::{Context, LocalPush};
use crate::workstealing::join::JoinError;
use crate::workstealing::scheduler::{workers_to_wake, Notice, Queued, Scheduler};
use crate::workstealing::task::TaskHeader;
use crate::workstealing::task_pool::{bucket_of, spec_bucket_index, Allocation, BlockId, Pool as TaskPool};
use crate::workstealing::worker::Worker;
use crate::workstealing::worker_pool::Pool;
use std::task::Waker;
use vstd::arithmetic::power2::pow2;
use vstd::prelude::*;

verus! {

/// Workers are unparked in turn, as many as was asked for, each of them one that there is; the turn moves
/// on by as many. With nobody to unpark, or nobody asked for, nothing happens.
pub proof fn law_pool_unparks_in_turn(pool: Pool, count: usize, unpark: Seq<usize>, turn: usize, i: int)
    requires
        pool.notifies(count, unpark, turn),
    ensures
        pool.unparkers == 0 ==> unpark.len() == 0 && turn == pool.next_unparker,
        pool.unparkers > 0 ==> {
            &&& unpark.len() == count
            &&& pool.next_unparker + count <= usize::MAX ==> turn == pool.next_unparker + count
            &&& pool.next_unparker + count > usize::MAX ==> turn + usize::MAX + 1 == pool.next_unparker + count
            &&& 0 <= i < count ==> {
                &&& unpark[i] < pool.unparkers
                &&& pool.next_unparker + i < pool.unparkers ==> unpark[i] == pool.next_unparker + i
                &&& pool.next_unparker + i <= usize::MAX ==> unpark[i] == (pool.next_unparker + i)
                    % pool.unparkers as int
                &&& pool.next_unparker + i > usize::MAX ==> unpark[i] == (pool.next_unparker + i - usize::MAX - 1)
                    % pool.unparkers as int
            }
        },
{
    if pool.unparkers > 0 && 0 <= i < count {
        assert(unpark[i] == crate::workstealing::worker_pool::wrapped(pool.next_unparker, i as usize) % pool.unparkers);
        if pool.next_unparker + i < pool.unparkers {
            vstd::arithmetic::div_mod::lemma_small_mod(
                (pool.next_unparker + i) as nat,
                pool.unparkers as nat,
            );
        }
    }
}

/// A thief robs the first of those listed that is not itself and has something queued: it gets that
/// worker's oldest task to run, and behind its own tasks about half of the rest, in order. Nobody else
/// is touched.
pub proof fn law_pool_robs_the_first_listed(
    pool: Pool,
    thief: int,
    listed: Seq<usize>,
    task: Option<TaskId>,
    after: Pool,
    rich: int,
) -> (first: int)
    requires
        pool.steals(thief, listed, task, &after),
        0 <= rich < listed.len(),
        listed[rich] != thief,
        pool.stealers@[listed[rich] as int]@.len() > 0,
        0 <= thief < pool.stealers@.len(),
        forall|i: int| #![trigger listed[i]] 0 <= i < listed.len() ==> listed[i] < pool.stealers@.len(),
    ensures
        0 <= first <= rich,
        listed[first] != thief,
        forall|i: int| #![trigger listed[i]]
            0 <= i < first && listed[i] != thief ==> pool.stealers@[listed[i] as int]@.len() == 0,
        task is Some,
        ({
            let victim = listed[first] as int;
            let own = pool.stealers@[thief]@;
            let moved = after.stealers@[thief]@.skip(own.len() as int);
            &&& after.stealers@[thief]@ == own + moved
            &&& pool.stealers@[victim]@ == seq![task->0] + moved + after.stealers@[victim]@
            &&& moved.len() <= 31
            &&& moved.len() <= after.stealers@[victim]@.len()
            &&& moved.len() < 31 ==> after.stealers@[victim]@.len() <= moved.len() + 1
            &&& after.stealers@.len() == pool.stealers@.len()
            &&& forall|i: int| #![trigger after.stealers@[i]]
                0 <= i < pool.stealers@.len() && i != thief && i != victim ==> after.stealers@[i]@
                    == pool.stealers@[i]@
        }),
{
    let t = task->0;
    if task is None {
        assert(listed[rich] == thief || pool.stealers@[listed[rich] as int]@.len() == 0);
    }
    let first = choose|i: int|
        {
            &&& 0 <= i < listed.len()
            &&& #[trigger] pool.nothing_before(thief, listed, i)
            &&& listed[i] != thief
            &&& pool.robbed(thief, listed[i] as int, t, &after)
        };
    if rich < first {
        assert(listed[rich] == thief || pool.stealers@[listed[rich] as int]@.len() == 0);
    }
    let victim = listed[first] as int;
    let all = pool.stealers@[victim]@;
    let own = pool.stealers@[thief]@;
    crate::queues::law_batch_is_half(all.len());
    let moved = after.stealers@[thief]@.skip(own.len() as int);
    assert(moved =~= all.subrange(1, 1 + crate::queues::batch_of(all.len())));
    assert(after.stealers@[thief]@ =~= own + moved);
    assert(all =~= seq![t] + moved + after.stealers@[victim]@);
    first
}

/// With nothing queued at any of those listed but itself, a thief gets nothing, and nothing changes.
pub proof fn law_pool_thief_finds_nothing(pool: Pool, thief: int, listed: Seq<usize>, task: Option<TaskId>, after: Pool)
    requires
        pool.steals(thief, listed, task, &after),
        forall|i: int| #![trigger listed[i]]
            0 <= i < listed.len() && listed[i] != thief ==> pool.stealers@[listed[i] as int]@.len() == 0,
    ensures
        task is None,
        after.stealers@.len() == pool.stealers@.len(),
        forall|i: int| #![trigger after.stealers@[i]]
            0 <= i < pool.stealers@.len() ==> after.stealers@[i]@ == pool.stealers@[i]@,
{
}

/// With nobody looking for work, or as many as there are tasks, one worker is enough. Else there are two
/// to five: one, and another for every four tasks that are too many.
pub proof fn law_more_work_wakes_more(len: int, searching: int)
    requires
        0 <= len,
        0 <= searching,
    ensures
        ({
            let woken = workers_to_wake(len, searching);
            let extra = len - searching;
            &&& 1 <= woken <= 5
            &&& woken == 1 <==> searching == 0 || extra <= 0
            &&& searching > 0 && extra > 0 ==> {
                &&& woken == 2 <==> extra < 8
                &&& woken == 3 <==> 8 <= extra < 12
                &&& woken == 4 <==> 12 <= extra < 16
                &&& woken == 5 <==> 16 <= extra
            }
        }),
{
}

/// Telling of work in the common queue unparks somebody, if there is anybody, in turn, and wakes the
/// reactor if nobody looks for work and it was not told before. Nothing but that is changed.
pub proof fn law_notice_reaches_somebody(before: Scheduler, notice: Notice, after: Scheduler)
    requires
        before.notifies(notice, &after),
    ensures
        notice.reactor <==> before.searching_workers == 0 && !before.notifying,
        after.notifying <==> before.notifying || before.searching_workers == 0,
        before.worker_pool.unparkers == 0 ==> notice.unpark@.len() == 0,
        before.worker_pool.unparkers > 0 ==> {
            &&& notice.unpark@.len() >= 1
            &&& notice.unpark@[0] < before.worker_pool.unparkers
            &&& notice.unpark@[0] == before.worker_pool.next_unparker % before.worker_pool.unparkers
        },
        before.worker_pool.unparkers > 0 && before.searching_workers == 0 ==> notice.unpark@.len() == 1,
        before.worker_pool.unparkers > 0 && before.searching_workers > 0 ==> {
            let extra = before.global_queue@.len() - before.searching_workers;
            &&& extra <= 0 <==> notice.unpark@.len() == 1
            &&& 0 < extra < 8 <==> notice.unpark@.len() == 2
            &&& extra >= 16 <==> notice.unpark@.len() == 5
            &&& 8 <= extra < 16 ==> notice.unpark@.len() == 1 + extra / 4
        },
        before.worker_pool.next_unparker + notice.unpark@.len() <= usize::MAX ==> after.worker_pool.next_unparker
            == before.worker_pool.next_unparker + notice.unpark@.len(),
        after.global_queue == before.global_queue,
        after.worker_pool.stealers == before.worker_pool.stealers,
        after.worker_pool.workers == before.worker_pool.workers,
        after.worker_pool.unparkers == before.worker_pool.unparkers,
        after.shutdown == before.shutdown,
        after.searching_workers == before.searching_workers,
        after.parked_workers == before.parked_workers,
        after.reactor == before.reactor,
{
    let count = workers_to_wake(before.global_queue@.len() as int, before.searching_workers as int);
    law_more_work_wakes_more(before.global_queue@.len() as int, before.searching_workers as int);
    law_pool_unparks_in_turn(
        before.worker_pool,
        count as usize,
        notice.unpark@,
        after.worker_pool.next_unparker,
        0,
    );
}

/// Queueing a task at a worker puts it behind all others there. Somebody is told exactly if nobody looks
/// for work and nobody was told: the worker whose turn it is, and the reactor.
pub proof fn law_local_push_tells_once(before: Scheduler, worker: int, task: TaskId, notice: Notice, after: Scheduler)
    requires
        before.pushes_local(worker, task, notice, &after),
        0 <= worker < before.worker_pool.stealers@.len(),
    ensures
        after.worker_pool.stealers@.len() == before.worker_pool.stealers@.len(),
        after.worker_pool.stealers@[worker]@ == before.worker_pool.stealers@[worker]@.push(task),
        forall|i: int| #![trigger after.worker_pool.stealers@[i]]
            0 <= i < before.worker_pool.stealers@.len() && i != worker ==> after.worker_pool.stealers@[i]
                == before.worker_pool.stealers@[i],
        after.global_queue == before.global_queue,
        after.shutdown == before.shutdown,
        after.searching_workers == before.searching_workers,
        after.parked_workers == before.parked_workers,
        after.reactor == before.reactor,
        after.worker_pool.unparkers == before.worker_pool.unparkers,
        after.worker_pool.workers == before.worker_pool.workers,
        notice.reactor <==> before.searching_workers == 0 && !before.notifying,
        notice.reactor && before.worker_pool.unparkers > 0 ==> {
            &&& notice.unpark@.len() == 1
            &&& notice.unpark@[0] == before.worker_pool.next_unparker % before.worker_pool.unparkers
            &&& before.worker_pool.next_unparker < usize::MAX ==> after.worker_pool.next_unparker
                == before.worker_pool.next_unparker + 1
        },
        !notice.reactor ==> {
            &&& notice.unpark@.len() == 0
            &&& after.worker_pool.next_unparker == before.worker_pool.next_unparker
        },
        after.notifying <==> before.notifying || before.searching_workers == 0,
{
    let queued = before.with_queues(after.worker_pool.stealers);
    if queued.searching_workers == 0 && !queued.notifying {
        law_pool_unparks_in_turn(queued.worker_pool, 1, notice.unpark@, after.worker_pool.next_unparker, 0);
    }
}

/// A thread with a queue of its own puts a task into its slot, and what was there to the end of its
/// queue; a thread without one refuses it.
pub proof fn law_newest_task_has_the_slot(
    context: Context,
    task: TaskId,
    before: Scheduler,
    push: LocalPush,
    context_after: Context,
    after: Scheduler,
)
    requires
        context.takes(task, &before, push, &context_after, &after),
        context.at_home(&before),
    ensures
        push is Refused <==> context.local_queue is None,
        push is Refused ==> context_after == context && after == before,
        push is Slot <==> context.local_queue is Some && context.lifo_slot is None,
        push is Slot ==> after == before,
        push is Displaced <==> context.local_queue is Some && context.lifo_slot is Some,
        push !is Refused ==> {
            &&& context_after.lifo_slot == Some(task)
            &&& context_after.local_queue == context.local_queue
            &&& context_after.task_pool == context.task_pool
            &&& context_after.worker_index == context.worker_index
            &&& context_after.stealers == context.stealers
        },
        push is Displaced ==> {
            let q = context.local_queue->0 as int;
            &&& after.worker_pool.stealers@[q]@ == before.worker_pool.stealers@[q]@.push(context.lifo_slot->0)
            &&& after.global_queue == before.global_queue
        },
        push matches LocalPush::Displaced(notice) ==> (notice.reactor <==> before.searching_workers == 0
            && !before.notifying),
{
    if let LocalPush::Displaced(notice) = push {
        law_local_push_tells_once(before, context.local_queue->0 as int, context.lifo_slot->0, notice, after);
    }
}

/// A task that is queued is in exactly one place more: in the slot of the thread, if that has a queue of
/// its own; else at the end of the common queue, and then somebody is told.
pub proof fn law_queued_task_has_a_place(
    before: Scheduler,
    context: Context,
    task: TaskId,
    queued: Queued,
    after: Scheduler,
    context_after: Context,
)
    requires
        before.queues(&context, task, queued, &after, &context_after),
        context.at_home(&before),
    ensures
        queued is Global <==> context.local_queue is None,
        queued is Slot <==> context.local_queue is Some && context.lifo_slot is None,
        queued !is Global ==> {
            &&& context_after.lifo_slot == Some(task)
            &&& after.global_queue == before.global_queue
        },
        queued is Displaced ==> after.worker_pool.stealers@[context.local_queue->0 as int]@
            == before.worker_pool.stealers@[context.local_queue->0 as int]@.push(context.lifo_slot->0),
        queued is Slot ==> after == before,
        queued matches Queued::Global(notice) ==> {
            &&& after.global_queue@ == before.global_queue@.push(task)
            &&& after.worker_pool.stealers == before.worker_pool.stealers
            &&& context_after == context
            &&& before.worker_pool.unparkers > 0 ==> notice.unpark@.len() >= 1
            &&& notice.reactor <==> before.searching_workers == 0 && !before.notifying
        },
        after.shutdown == before.shutdown,
        after.searching_workers == before.searching_workers,
        after.parked_workers == before.parked_workers,
        after.reactor == before.reactor,
{
    match queued {
        Queued::Slot => {
            law_newest_task_has_the_slot(context, task, before, LocalPush::Slot, context_after, after);
        },
        Queued::Displaced(notice) => {
            law_newest_task_has_the_slot(context, task, before, LocalPush::Displaced(notice), context_after, after);
            law_local_push_tells_once(before, context.local_queue->0 as int, context.lifo_slot->0, notice, after);
        },
        Queued::Global(notice) => {
            let mid = Scheduler { global_queue: after.global_queue, ..before };
            law_notice_reaches_somebody(mid, notice, after);
        },
    }
}

/// A worker runs what is in its slot; else the oldest of its own queue, and only if that is empty the
/// oldest of the common one. On every 61st tick it looks at the common queue first. It takes one task
/// and no more, and gets none only if there is none, or no attempt on the common queue was settled.
pub proof fn law_choice_goes_by_rank(
    worker: Worker,
    context: Context,
    before: Scheduler,
    chosen: Steal,
    worker_after: Worker,
    context_after: Context,
    after: Scheduler,
)
    requires
        worker.chooses(&context, &before, chosen, &worker_after, &context_after, &after),
        worker.index < before.worker_pool.stealers@.len(),
    ensures
        worker_after.index == worker.index,
        context.lifo_slot matches Some(slot) ==> {
            &&& chosen == Steal::Success(slot)
            &&& context_after == (Context { lifo_slot: None, ..context })
            &&& worker_after == worker
            &&& after == before
        },
        context.lifo_slot is None ==> {
            let own = before.worker_pool.stealers@[worker.index as int]@;
            let own_after = after.worker_pool.stealers@[worker.index as int]@;
            let common = before.global_queue@;
            let common_after = after.global_queue@;
            &&& context_after == context
            &&& worker.tick < usize::MAX ==> worker_after.tick == worker.tick + 1
            &&& worker.tick == usize::MAX ==> worker_after.tick == 0
            &&& worker_after.tick as int % 61 != 0 && own.len() > 0 ==> {
                &&& chosen is Success
                &&& own == seq![chosen->Success_0] + own_after
                &&& after.global_queue == before.global_queue
            }
            &&& own.len() == 0 && chosen is Success ==> common == seq![chosen->Success_0] + common_after
            &&& own.len() == 0 && common.len() == 0 ==> chosen is Empty
            &&& chosen is Empty ==> own.len() == 0 && common.len() == 0
            &&& chosen is Retry ==> own.len() == 0 && common.len() > 0
            &&& chosen is Retry ==> after.global_queue.attempts() - before.global_queue.attempts() >= u64::MAX
            &&& worker_after.tick as int % 61 == 0 ==> after.global_queue.attempts() > before.global_queue.attempts()
            &&& worker_after.tick as int % 61 == 0 && common.len() == 0 && own.len() > 0 ==> {
                &&& chosen is Success
                &&& own == seq![chosen->Success_0] + own_after
            }
            &&& worker_after.tick as int % 61 == 0 && chosen is Success ==> {
                ||| (common == seq![chosen->Success_0] + common_after && own_after == own)
                ||| {
                    &&& own == seq![chosen->Success_0] + own_after
                    &&& common_after == common
                    &&& common.len() > 0 ==> after.global_queue.attempts() - before.global_queue.attempts() >= u64::MAX
                }
            }
            &&& chosen !is Success ==> own_after == own && common_after == common
            &&& forall|i: int| #![trigger after.worker_pool.stealers@[i]]
                0 <= i < before.worker_pool.stealers@.len() && i != worker.index ==> after.worker_pool.stealers@[i]@
                    == before.worker_pool.stealers@[i]@
            &&& after.worker_pool.stealers@.len() == before.worker_pool.stealers@.len()
        },
        after.searching_workers == before.searching_workers,
        after.parked_workers == before.parked_workers,
        after.shutdown == before.shutdown,
        after.notifying == before.notifying,
        after.reactor == before.reactor,
        after.worker_pool.unparkers == before.worker_pool.unparkers,
        after.worker_pool.next_unparker == before.worker_pool.next_unparker,
{
    let w = worker.index as int;
    let own = before.worker_pool.stealers@[w]@;
    let common = before.global_queue@;
    if context.lifo_slot is None {
        crate::counter::law_counting_is_by_one(worker.tick);
        if let Steal::Success(t) = chosen {
            if own.len() > 0 {
                assert(own =~= seq![own[0]] + own.skip(1));
            }
            if common.len() > 0 {
                assert(common =~= seq![common[0]] + common.skip(1));
            }
            assert(after.worker_pool.stealers@[w]@ == own || after.worker_pool.stealers@[w]@ == own.skip(1));
        } else {
            assert(after.worker_pool.stealers@[w]@ == own);
        }
    }
}

/// A task that was not woken since it was last polled is queued and referred to once more; one that was
/// is left alone.
pub proof fn law_wake_queues_once<T>(
    task: TaskHeader<T>,
    id: TaskId,
    context: Context,
    before: Scheduler,
    queued: Option<Queued>,
    task_after: TaskHeader<T>,
    context_after: Context,
    after: Scheduler,
)
    requires
        task.wakes_by_ref(id, &context, &before, queued, &task_after, &context_after, &after),
        task.ref_count < usize::MAX,
        context.at_home(&before),
    ensures
        queued is Some <==> !task.notified,
        task_after.notified,
        task.notified ==> task_after == task && context_after == context && after == before,
        !task.notified ==> {
            &&& task_after.ref_count == task.ref_count + 1
            &&& task_after.result_state == task.result_state
            &&& task_after.result == task.result
            &&& task_after.join_waker == task.join_waker
            &&& task_after.layout == task.layout
            &&& task_after.future_offset == task.future_offset
            &&& context.local_queue is Some ==> context_after.lifo_slot == Some(id)
            &&& context.local_queue is None ==> after.global_queue@ == before.global_queue@.push(id)
        },
{
    if let Some(q) = queued {
        law_queued_task_has_a_place(before, context, id, q, after, context_after);
    }
}

/// Whoever awaits a task gets its result once it is completed, an error once it has panicked, and waits
/// as long as it runs. Nothing else of the task changes.
pub proof fn law_join_waits_for_the_end<T>(
    task: TaskHeader<T>,
    waker: Waker,
    poll: Poll<Result<T, JoinError>>,
    after: TaskHeader<T>,
)
    requires
        task.wf(),
        task.joins(waker, poll, &after),
    ensures
        poll is Pending <==> task.result_state is Running || task.result_state is Joined,
        task.result_state is Completed ==> {
            &&& task.result is Some
            &&& poll == Poll::Ready(Ok::<T, JoinError>(task.result->0))
            &&& after.result_state is Joined
            &&& after.result is None
            &&& after.join_waker == task.join_waker
        },
        task.result_state is Panicked ==> {
            &&& poll is Ready
            &&& poll->Ready_0 is Err
            &&& after == task
        },
        poll is Pending ==> {
            &&& after.join_waker == Some(waker)
            &&& after.result_state == task.result_state
            &&& after.result == task.result
        },
        after.ref_count == task.ref_count,
        after.notified == task.notified,
        after.layout == task.layout,
        after.future_offset == task.future_offset,
{
}

/// What is left in a task's memory: its future while it runs, its result once it is completed, and
/// nothing if it has panicked or its result was taken.
pub proof fn law_payload_follows_the_state<T>(task: TaskHeader<T>)
    ensures
        task.payload() is Future <==> task.result_state is Running,
        task.payload() is Result <==> task.result_state is Completed,
        task.payload() is Nothing <==> task.result_state is Panicked || task.result_state is Joined,
{
}

/// Memory is pooled if it is aligned to no more than 16, and has from 1 to 32,768 bytes; its bucket is
/// that of the first of 32, 64, 128 bytes and so on that it fits into.
pub proof fn law_memory_has_a_bucket(layout: Layout, bucket: usize)
    ensures
        spec_bucket_index(layout.size) is None <==> layout.size == 0 || layout.size > 32_768,
        spec_bucket_index(layout.size) == Some(bucket) <==> {
            &&& 0 < layout.size <= 32_768
            &&& bucket <= 10
            &&& layout.size <= 32 * pow2(bucket as nat)
            &&& bucket == 0 || 32 * pow2((bucket - 1) as nat) < layout.size
        },
        bucket_of(layout) is None <==> layout.align > 16 || layout.size == 0 || layout.size > 32_768,
        bucket_of(layout) == Some(bucket) <==> layout.align <= 16 && spec_bucket_index(layout.size) == Some(bucket),
{
    if 0 < layout.size <= 32_768 {
        crate::layout::law_class_is_tight(layout.size as int, bucket as int);
    }
}

/// Memory is the block of the right bucket that was given back last; else a new one as large as any of
/// that bucket. What is not pooled is allocated as it is. No other bucket is touched.
pub proof fn law_memory_is_used_again(
    pool: TaskPool,
    layout: Layout,
    allocation: Allocation,
    after: TaskPool,
    bucket: usize,
    other: int,
)
    requires
        pool.wf(),
        pool.allocates(layout, allocation, &after),
        bucket <= 10,
        0 <= other <= 10,
        other != bucket,
        layout.size <= 32 * pow2(bucket as nat),
        bucket == 0 || 32 * pow2((bucket - 1) as nat) < layout.size,
    ensures
        ({
            let held = pool.buckets@[bucket as int]@;
            let held_after = after.buckets@[bucket as int]@;
            let pooled = layout.align <= 16 && 0 < layout.size <= 32_768;
            &&& !pooled ==> allocation == Allocation::Fresh(layout) && after == pool
            &&& pooled && held.len() > 0 ==> {
                &&& allocation is Reused
                &&& held == held_after.push(allocation->Reused_0)
            }
            &&& pooled && held.len() == 0 ==> {
                &&& allocation is Fresh
                &&& allocation->Fresh_0.size == 32 * pow2(bucket as nat)
                &&& allocation->Fresh_0.align == 16
                &&& after == pool
            }
            &&& after.buckets@[other] == pool.buckets@[other]
        }),
{
    law_memory_has_a_bucket(layout, bucket);
    let held = pool.buckets@[bucket as int]@;
    crate::layout::law_classes_double(bucket as int);
    crate::layout::class_sizes_end();
    crate::layout::class_size_grows(bucket as int, 10);
    if held.len() > 0 {
        assert(held =~= held.drop_last().push(held.last()));
    }
}

/// Memory that is given back goes on top of its bucket, if it is pooled, and nowhere otherwise.
pub proof fn law_memory_goes_back(
    pool: TaskPool,
    block: BlockId,
    layout: Layout,
    after: TaskPool,
    bucket: usize,
    other: int,
)
    requires
        pool.wf(),
        pool.takes_back(block, layout, &after),
        bucket <= 10,
        0 <= other <= 10,
        other != bucket,
        layout.size <= 32 * pow2(bucket as nat),
        bucket == 0 || 32 * pow2((bucket - 1) as nat) < layout.size,
    ensures
        ({
            let pooled = layout.align <= 16 && 0 < layout.size <= 32_768;
            &&& after.buckets@[bucket as int]@ == (if pooled {
                pool.buckets@[bucket as int]@.push(block)
            } else {
                pool.buckets@[bucket as int]@
            })
            &&& after.buckets@[other] == pool.buckets@[other]
        }),
{
    law_memory_has_a_bucket(layout, bucket);
}

} // verus!
