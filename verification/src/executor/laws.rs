//! What the executor's operations are for, in terms of what goes in and what comes out.
use crate::executor::context::Context;
use crate::executor::handle::{Handle, Rest};
use crate::executor::reactor::{
    all_registered, all_slots_after, all_woken_by, registered, slots_after, timers_of, woken_by, Dispatch, Reactor, Readiness,
    Registration, Slot, Wait, Watch,
};
use crate::executor::runtime::Runtime;
use crate::executor::scheduler::{pooled, spec_pool_index, Recycled, Scheduler, SpawnPlan, Wakeup};
use crate::executor::task::{ready_tasks, Task, Woken};
use crate::executor::worker::{Action, Found, Polled, Search, Worker};
use crate::layout::Layout;
use crate::queues::{LocalQueue, Steal, TaskId};
use crate::time::instant::Instant;
use crate::time::wheel::{TimerEntry, TimerWheel};
use std::task::Waker;
use vstd::arithmetic::power2::pow2;
use vstd::multiset::Multiset;
use vstd::prelude::*;

verus! {

/// A thief looks at every other worker, beginning with one drawn at random and going round: it robs the
/// first that has something queued, and gets that worker's oldest task.
pub proof fn law_thief_robs_the_first(
    worker: Worker,
    before: Scheduler,
    stolen: Steal,
    after: Scheduler,
    rich: int,
) -> (robbed: int)
    requires
        worker.steals(&before, stolen, &after),
        0 <= rich < before.queues@.len(),
        rich != worker.id,
        before.queues@[rich]@.len() > 0,
    ensures
        0 <= robbed < before.queues@.len(),
        robbed != worker.id,
        before.queues@[robbed]@.len() > 0,
        stolen == Steal::Success(before.queues@[robbed]@[0]),
        before.queues@[robbed]@.len() > after.queues@[robbed]@.len(),
        ({
            let len = before.queues@.len() as int;
            let start = crate::executor::worker::xorshift(worker.rng) as int % len;
            forall|v: int| #![trigger before.queues@[v]]
                0 <= v < len && v != worker.id && before.queues@[v]@.len() > 0 ==> (if robbed >= start {
                    robbed - start
                } else {
                    robbed - start + len
                }) <= (if v >= start {
                    v - start
                } else {
                    v - start + len
                })
        }),
{
    let len = before.queues@.len() as int;
    let start = worker.first_victim(&before);
    assert(!worker.others_idle(&before));
    let task = stolen->Success_0;
    let i = choose|i: int|
        {
            &&& 0 <= i < len
            &&& #[trigger] worker.passed(&before, start, i)
            &&& crate::executor::worker::round_robin(start, i, len) != worker.id
            &&& before.robbed(
                worker.id as int,
                crate::executor::worker::round_robin(start, i, len),
                task,
                &after,
            )
        };
    let robbed = crate::executor::worker::round_robin(start, i, len);
    assert forall|v: int| #![trigger before.queues@[v]]
        0 <= v < len && v != worker.id && before.queues@[v]@.len() > 0 implies i <= (if v >= start {
        v - start
    } else {
        v - start + len
    }) by {
        let j = if v >= start {
            v - start
        } else {
            v - start + len
        };
        assert(crate::executor::worker::round_robin(start, j, len) == v);
    }
    crate::queues::law_batch_is_half(before.queues@[robbed]@.len());
    robbed
}

/// A thief that finds every other worker without work makes one attempt on the common queue: it gets the
/// oldest task there, and its own queue some of the next oldest, in order; or nothing changes.
pub proof fn law_thief_falls_back(worker: Worker, before: Scheduler, stolen: Steal, after: Scheduler)
    requires
        worker.steals(&before, stolen, &after),
        worker.id < before.queues@.len(),
        forall|v: int|
            0 <= v < before.queues@.len() && v != worker.id ==> (#[trigger] before.queues@[v])@.len() == 0,
    ensures
        after.queue.attempts() == before.queue.attempts() + 1,
        stolen is Empty <==> before.queue@.len() == 0,
        stolen matches Steal::Success(task) ==> {
            let own = before.queues@[worker.id as int]@;
            let own_after = after.queues@[worker.id as int]@;
            &&& own_after.len() >= own.len()
            &&& own_after.take(own.len() as int) == own
            &&& before.queue@ == seq![task] + own_after.skip(own.len() as int) + after.queue@
        },
        stolen !is Success ==> {
            &&& after.queue@ == before.queue@
            &&& after.queues@[worker.id as int]@ == before.queues@[worker.id as int]@
        },
        forall|v: int| #![trigger after.queues@[v]]
            0 <= v < before.queues@.len() && v != worker.id ==> after.queues@[v]@ == before.queues@[v]@,
{
    assert(worker.others_idle(&before));
    let w = worker.id as int;
    if let Steal::Success(task) = stolen {
        let count = choose|count: int|
            #[trigger] crate::queues::batch_moved(
                before.queue@,
                before.queues@[w]@,
                count,
                after.queue@,
                after.queues@[w]@,
            );
        crate::queues::law_batch_keeps_order(
            before.queue@,
            before.queues@[w]@,
            count,
            after.queue@,
            after.queues@[w]@,
        );
    }
}

/// Robbing a worker leaves it about half of its work: the thief gets the oldest task to run, and behind
/// its own tasks the next oldest, in order. Nothing is lost, and nobody else is touched.
pub proof fn law_robbery_halves(before: Scheduler, thief: int, victim: int, task: TaskId, after: Scheduler)
    requires
        before.robbed(thief, victim, task, &after),
        0 <= thief < before.queues@.len(),
        0 <= victim < before.queues@.len(),
        thief != victim,
    ensures
        ({
            let own = before.queues@[thief]@;
            let moved = after.queues@[thief]@.skip(own.len() as int);
            &&& after.queues@[thief]@ == own + moved
            &&& before.queues@[victim]@ == seq![task] + moved + after.queues@[victim]@
            &&& moved.len() <= 31
            &&& moved.len() <= after.queues@[victim]@.len()
            &&& moved.len() < 31 ==> after.queues@[victim]@.len() <= moved.len() + 1
        }),
        after.queue == before.queue,
        after.queues@.len() == before.queues@.len(),
        forall|v: int| #![trigger after.queues@[v]]
            0 <= v < before.queues@.len() && v != thief && v != victim ==> after.queues@[v]@ == before.queues@[v]@,
{
    let all = before.queues@[victim]@;
    let own = before.queues@[thief]@;
    crate::queues::law_batch_is_half(all.len());
    let moved = after.queues@[thief]@.skip(own.len() as int);
    assert(moved =~= all.subrange(1, 1 + crate::queues::batch_of(all.len())));
    assert(after.queues@[thief]@ =~= own + moved);
    assert(all =~= seq![task] + moved + after.queues@[victim]@);
}

/// Taking from the common queue changes the thief's own queue and no other, and leaves as many queues.
pub proof fn law_refill_is_for_the_thief(before: Scheduler, thief: int, task: TaskId, after: Scheduler, other: int)
    requires
        before.refilled(thief, task, &after),
        0 <= thief < before.queues@.len(),
        0 <= other < before.queues@.len(),
        other != thief,
    ensures
        before.queue@.len() > 0,
        after.queues@.len() == before.queues@.len(),
        after.queues@[other]@ == before.queues@[other]@,
        after.queues@[thief]@.len() >= before.queues@[thief]@.len(),
        after.queues@[thief]@.take(before.queues@[thief]@.len() as int) == before.queues@[thief]@,
        before.queue@ == seq![task] + after.queues@[thief]@.skip(before.queues@[thief]@.len() as int) + after.queue@,
{
    let count = choose|count: int|
        #[trigger] crate::queues::batch_moved(
            before.queue@,
            before.queues@[thief]@,
            count,
            after.queue@,
            after.queues@[thief]@,
        );
    crate::queues::law_batch_keeps_order(
        before.queue@,
        before.queues@[thief]@,
        count,
        after.queue@,
        after.queues@[thief]@,
    );
}

/// Schedulers with the same queues have as many of them, and the same tasks in each, in the same order.
pub proof fn law_same_queues_hold_the_same(a: Scheduler, b: Scheduler, v: int)
    requires
        a.same_queues(&b),
        0 <= v < a.queues@.len(),
    ensures
        a.queues@.len() == b.queues@.len(),
        a.queue@ == b.queue@,
        a.queues@[v]@ == b.queues@[v]@,
{
}

/// Schedulers that differ in their queues at most agree in everything else, and have as many queues.
pub proof fn law_only_queues_differ(a: Scheduler, b: Scheduler)
    requires
        a.same_but_queues(&b),
    ensures
        a.queues@.len() == b.queues@.len(),
        a.unparkers == b.unparkers,
        a.sleeping_workers == b.sleeping_workers,
        a.searching_workers == b.searching_workers,
        a.notify_cursor == b.notify_cursor,
        a.shutdown == b.shutdown,
        a.task_pools == b.task_pools,
{
}

/// Looking for work moves tasks between queues and does nothing else to the scheduler.
pub proof fn law_stealing_moves_tasks_only(worker: Worker, before: Scheduler, stolen: Steal, after: Scheduler)
    requires
        worker.steals(&before, stolen, &after),
    ensures
        after.unparkers == before.unparkers,
        after.sleeping_workers == before.sleeping_workers,
        after.searching_workers == before.searching_workers,
        after.notify_cursor == before.notify_cursor,
        after.shutdown == before.shutdown,
        after.task_pools == before.task_pools,
        after.queues@.len() == before.queues@.len(),
{
}

/// The generator mixes a number with itself three times: shifted up by 13 places, down by 17, and up by
/// 5, what leaves the 32 places being lost.
pub proof fn law_generator_mixes(x: u32) -> (mixed: (u32, u32))
    ensures
        mixed.0 == x ^ ((x as u64 * 8192) % 0x1_0000_0000) as u32,
        mixed.1 == mixed.0 ^ (mixed.0 / 131_072),
        crate::executor::worker::xorshift(x) == mixed.1 ^ ((mixed.1 as u64 * 32) % 0x1_0000_0000) as u32,
{
    let a = x ^ (x << 13u32);
    let b = a ^ (a >> 17u32);
    assert(x << 13u32 == ((x as u64 * 8192) % 0x1_0000_0000) as u32) by (bit_vector);
    assert(a >> 17u32 == a / 131_072) by (bit_vector);
    assert(b << 5u32 == ((b as u64 * 32) % 0x1_0000_0000) as u32) by (bit_vector);
    (a, b)
}

/// A worker runs what is in its slot, three times in a row at most; else the oldest of its own queue;
/// else, every so many ticks, the oldest that waits for anybody. It takes nothing but what it runs, and
/// perhaps some more of what waits for anybody.
pub proof fn law_choice_goes_by_rank(
    worker: Worker,
    context: Context,
    scheduler: Scheduler,
    task: Option<TaskId>,
    after: Worker,
    context_after: Context,
    scheduler_after: Scheduler,
)
    requires
        worker.chooses(&context, &scheduler, task, &after, &context_after, &scheduler_after),
        worker.id < scheduler.queues@.len(),
    ensures
        after == (Worker { lifo_count: after.lifo_count, ..worker }),
        context_after == (Context { lifo_slot: context_after.lifo_slot, ..context }),
        worker.lifo_count < 3 && context.lifo_slot is Some ==> {
            &&& task == context.lifo_slot
            &&& context_after.lifo_slot is None
            &&& after.lifo_count == worker.lifo_count + 1
            &&& scheduler_after == scheduler
        },
        worker.lifo_count >= 3 || context.lifo_slot is None ==> {
            &&& context_after.lifo_slot == context.lifo_slot
            &&& after.lifo_count == 0
            &&& scheduler.queues@[worker.id as int]@.len() > 0 ==> {
                &&& task is Some
                &&& scheduler.queues@[worker.id as int]@ == seq![task->0] + scheduler_after.queues@[worker.id as int]@
                &&& scheduler_after.queue == scheduler.queue
            }
            &&& scheduler.queues@[worker.id as int]@.len() == 0 && worker.tick % (worker.stats.interval as usize) != 0
                ==> task is None && scheduler_after.queue == scheduler.queue
            &&& scheduler.queues@[worker.id as int]@.len() == 0 && worker.tick % (worker.stats.interval as usize) == 0
                ==> {
                &&& scheduler_after.queue.attempts() == scheduler.queue.attempts() + 1
                &&& task matches Some(t) ==> scheduler.queue@ == seq![t] + scheduler_after.queues@[worker.id as int]@
                    + scheduler_after.queue@
                &&& task is None ==> scheduler_after.queue@ == scheduler.queue@
            }
            &&& forall|v: int| #![trigger scheduler_after.queues@[v]]
                0 <= v < scheduler.queues@.len() && v != worker.id ==> scheduler_after.queues@[v]@
                    == scheduler.queues@[v]@
            &&& task is None ==> scheduler_after.queues@[worker.id as int]@.len() == 0
        },
        scheduler_after.queues@.len() == scheduler.queues@.len(),
        scheduler_after.unparkers == scheduler.unparkers,
        scheduler_after.sleeping_workers == scheduler.sleeping_workers,
        scheduler_after.searching_workers == scheduler.searching_workers,
        scheduler_after.notify_cursor == scheduler.notify_cursor,
        scheduler_after.shutdown == scheduler.shutdown,
        scheduler_after.task_pools == scheduler.task_pools,
{
    let w = worker.id as int;
    let own = scheduler.queues@[w]@;
    if worker.lifo_count >= 3 || context.lifo_slot is None {
        if own.len() > 0 {
            assert(own =~= seq![task->0] + scheduler_after.queues@[w]@);
        } else if task is Some {
            let count = choose|count: int|
                #[trigger] crate::queues::batch_moved(
                    scheduler.queue@,
                    own,
                    count,
                    scheduler_after.queue@,
                    scheduler_after.queues@[w]@,
                );
            crate::queues::law_batch_keeps_order(
                scheduler.queue@,
                own,
                count,
                scheduler_after.queue@,
                scheduler_after.queues@[w]@,
            );
            assert(scheduler_after.queues@[w]@.skip(0) =~= scheduler_after.queues@[w]@);
        }
    }
}

/// A worker whose budget is spent gives a task away to whoever comes first, what is in its slot before
/// the oldest of its queue, and may poll 128 times again. One whose budget is not spent gives nothing
/// away.
pub proof fn law_spent_budget_gives_away(
    worker: Worker,
    context: Context,
    scheduler: Scheduler,
    wakeup: Option<Wakeup>,
    after: Worker,
    context_after: Context,
    scheduler_after: Scheduler,
)
    requires
        worker.yields(&context, &scheduler, wakeup, &after, &context_after, &scheduler_after),
        worker.id < scheduler.queues@.len(),
    ensures
        after == (Worker { budget: after.budget, ..worker }),
        worker.budget > 0 ==> {
            &&& wakeup is None
            &&& after == worker
            &&& context_after == context
            &&& scheduler_after == scheduler
        },
        worker.budget == 0 ==> {
            let own = scheduler.queues@[worker.id as int]@;
            let own_after = scheduler_after.queues@[worker.id as int]@;
            &&& after.budget == 128
            &&& context_after.lifo_slot is None
            &&& context.lifo_slot matches Some(task) ==> {
                &&& scheduler_after.queue@ == scheduler.queue@.push(task)
                &&& own_after == own
            }
            &&& context.lifo_slot is None && own.len() > 0 ==> {
                &&& scheduler_after.queue@ == scheduler.queue@.push(own[0])
                &&& own == seq![own[0]] + own_after
            }
            &&& context.lifo_slot is None && own.len() == 0 ==> {
                &&& scheduler_after.queue@ == scheduler.queue@
                &&& own_after == own
            }
            &&& wakeup is Some <==> context.lifo_slot is Some || own.len() > 0
            &&& wakeup is None ==> scheduler_after.notify_cursor == scheduler.notify_cursor
            &&& scheduler_after.unparkers == scheduler.unparkers
            &&& scheduler_after.shutdown == scheduler.shutdown
            &&& scheduler_after.task_pools == scheduler.task_pools
            &&& scheduler_after.queues@.len() == scheduler.queues@.len()
            &&& scheduler_after.searching_workers == scheduler.searching_workers
            &&& scheduler_after.sleeping_workers == scheduler.sleeping_workers
            &&& forall|v: int| #![trigger scheduler_after.queues@[v]]
                0 <= v < scheduler.queues@.len() && v != worker.id ==> scheduler_after.queues@[v]@
                    == scheduler.queues@[v]@
        },
        worker.budget == 0 && wakeup is Some ==> {
            &&& wakeup->0.reactor <==> scheduler.searching_workers < 2
            &&& wakeup->0.unpark is Some <==> scheduler.searching_workers < 2 && scheduler.unparkers > 0
            &&& wakeup->0.unpark matches Some(w) ==> w == scheduler.notify_cursor % scheduler.unparkers
        },
{
    let own = scheduler.queues@[worker.id as int]@;
    if worker.budget == 0 && context.lifo_slot is None && own.len() > 0 {
        assert(own =~= seq![own[0]] + scheduler_after.queues@[worker.id as int]@);
    }
}

/// A worker stops exactly when the runtime shuts down. While there is something in its slot or in its
/// own queue, and its budget is not spent, it runs something of that.
pub proof fn law_worker_runs_what_it_has(
    worker: Worker,
    context: Context,
    scheduler: Scheduler,
    next: (Action, Option<Wakeup>),
    after: Worker,
    context_after: Context,
    scheduler_after: Scheduler,
)
    requires
        worker.acts(&context, &scheduler, next, &after, &context_after, &scheduler_after),
        worker.id < scheduler.queues@.len(),
    ensures
        next.0 is Stop <==> scheduler.shutdown,
        scheduler.shutdown ==> next.1 is None && after == worker && context_after == context && scheduler_after
            == scheduler,
        !scheduler.shutdown && worker.budget > 0 && context.lifo_slot is Some && worker.lifo_count < 3 ==> next.0
            == Action::Run(context.lifo_slot->0),
        !scheduler.shutdown && worker.budget > 0 && (context.lifo_slot is None || worker.lifo_count >= 3)
            && scheduler.queues@[worker.id as int]@.len() > 0 ==> next.0 == Action::Run(
            scheduler.queues@[worker.id as int]@[0],
        ),
        !scheduler.shutdown && worker.budget > 0 && context.lifo_slot is None
            && scheduler.queues@[worker.id as int]@.len() == 0 && worker.tick % (worker.stats.interval as usize) != 0
            ==> next.0 is Search,
        !scheduler.shutdown && worker.budget > 0 && context.lifo_slot is None
            && scheduler.queues@[worker.id as int]@.len() == 0 && worker.tick % (worker.stats.interval as usize) == 0
            ==> {
            &&& scheduler_after.queue.attempts() == scheduler.queue.attempts() + 1
            &&& next.0 matches Action::Run(task) ==> scheduler.queue@.len() > 0 && task == scheduler.queue@[0]
            &&& scheduler.queue@.len() == 0 ==> next.0 is Search
        },
        !scheduler.shutdown && worker.budget > 0 ==> next.1 is None && after.budget == worker.budget,
        !scheduler.shutdown && worker.budget == 0 ==> after.budget == 128 && context_after.lifo_slot is None,
        !scheduler.shutdown && worker.budget == 0 && context.lifo_slot is Some
            && scheduler.queues@[worker.id as int]@.len() > 0 ==> {
            &&& next.0 == Action::Run(scheduler.queues@[worker.id as int]@[0])
            &&& scheduler_after.queue@ == scheduler.queue@.push(context.lifo_slot->0)
            &&& next.1 is Some
        },
        !scheduler.shutdown && worker.budget == 0 && context.lifo_slot is None
            && scheduler.queues@[worker.id as int]@.len() > 1 ==> {
            &&& next.0 == Action::Run(scheduler.queues@[worker.id as int]@[1])
            &&& scheduler_after.queue@ == scheduler.queue@.push(scheduler.queues@[worker.id as int]@[0])
            &&& next.1 is Some
        },
        scheduler_after.searching_workers == scheduler.searching_workers,
        scheduler_after.sleeping_workers == scheduler.sleeping_workers,
        scheduler_after.shutdown == scheduler.shutdown,
        scheduler_after.task_pools == scheduler.task_pools,
        after.id == worker.id,
        after.tick == worker.tick,
        after.rng == worker.rng,
        after.stats == worker.stats,
{
    if !scheduler.shutdown {
        let (mid, context_mid, scheduler_mid) = choose|mid: Worker, context_mid: Context, scheduler_mid: Scheduler|
            {
                &&& #[trigger] worker.yields(&context, &scheduler, next.1, &mid, &context_mid, &scheduler_mid)
                &&& mid.chooses(
                    &context_mid,
                    &scheduler_mid,
                    next.0.task(),
                    &after,
                    &context_after,
                    &scheduler_after,
                )
            };
        law_spent_budget_gives_away(worker, context, scheduler, next.1, mid, context_mid, scheduler_mid);
        law_choice_goes_by_rank(
            mid,
            context_mid,
            scheduler_mid,
            next.0.task(),
            after,
            context_after,
            scheduler_after,
        );
        if next.0.task() is Some && worker.budget > 0 && context.lifo_slot is None
            && scheduler.queues@[worker.id as int]@.len() == 0 {
            assert((seq![next.0.task()->0] + scheduler_after.queues@[worker.id as int]@ + scheduler_after.queue@)[0]
                == next.0.task()->0);
        }
    }
}

/// A new worker has its number, and has done nothing: it may poll 128 times, and look at what waits for
/// anybody every 61 ticks. No two workers draw the same numbers, as long as there are not too many.
pub proof fn law_new_worker_is_fresh(id: usize, other: usize)
    ensures
        ({
            let worker = Worker::fresh(id);
            &&& worker.id == id
            &&& worker.tick == 0
            &&& worker.budget == 128
            &&& worker.lifo_count == 0
            &&& worker.stats.interval == 61
            &&& worker.stats.tasks_in_batch == 0
            &&& id < u32::MAX ==> worker.rng == id + 1
            &&& id < u32::MAX && other < u32::MAX && id != other ==> worker.rng != Worker::fresh(other).rng
        }),
{
}

/// A look around gives a task, or says how the search goes on: unchanged if an attempt has to be
/// repeated; else 150 more looks after the first, one fewer each time, and then the last look.
pub proof fn law_search_goes_on(worker: Worker, search: Search, before: Scheduler, found: Found, after: Scheduler)
    requires
        worker.looks_around(search, &before, found, &after),
        forall|v: int|
            0 <= v < before.queues@.len() && v != worker.id ==> (#[trigger] before.queues@[v])@.len() == 0,
    ensures
        before.queue@.len() == 0 ==> found == Found::Nothing(
            match search {
                Search::First => Search::Spinning(150),
                Search::Spinning(left) => if left >= 2 {
                    Search::Spinning((left - 1) as u8)
                } else {
                    Search::Last
                },
                Search::Last => Search::Last,
            },
        ),
        before.queue@.len() > 0 ==> found == Found::Task(before.queue@[0]) || found == Found::Nothing(search),
        found is Task ==> after.searching_workers == (if before.searching_workers == 0 {
            usize::MAX as int
        } else {
            before.searching_workers - 1
        }),
        found !is Task ==> after.searching_workers == before.searching_workers,
        found !is Sleep,
{
    assert(worker.others_idle(&before));
}

/// The last look is made at what waits for anybody, and only if fewer are searching than half of the
/// processors, or than two. With a task in hand the worker does not sleep; otherwise it counts as
/// asleep. Either way it searches no longer.
pub proof fn law_last_look_is_for_few(
    worker: Worker,
    cpus: usize,
    before: Scheduler,
    found: Found,
    after: Scheduler,
)
    requires
        worker.looks_last(cpus, &before, found, &after),
        before.searching_workers > 0,
    ensures
        after.searching_workers == before.searching_workers - 1,
        after.queues == before.queues,
        found is Task || found is Sleep,
        ({
            let few = after.searching_workers < 2 || 2 * after.searching_workers + 2 <= cpus;
            &&& few ==> after.queue.attempts() == before.queue.attempts() + 1
            &&& !few ==> found is Sleep && after.queue == before.queue
        }),
        found matches Found::Task(task) ==> {
            &&& before.queue@ == seq![task] + after.queue@
            &&& after.sleeping_workers == before.sleeping_workers
        },
        found is Sleep ==> {
            &&& after.queue@ == before.queue@
            &&& before.sleeping_workers < usize::MAX ==> after.sleeping_workers == before.sleeping_workers + 1
        },
{
    if let Found::Task(task) = found {
        assert(before.queue@ =~= seq![task] + after.queue@);
    }
}

/// Waking an idle task puts it into exactly one place: the slot of a worker, if that is free and the task
/// was not put there three times in a row; else that worker's own queue, at its end; else the queue for
/// anybody. A task that is not idle is put nowhere.
pub proof fn law_woken_task_has_one_place<R>(
    task: Task<R>,
    id: TaskId,
    context: Context,
    scheduler: Scheduler,
    woken: Woken,
    after: Task<R>,
    context_after: Context,
    scheduler_after: Scheduler,
)
    requires
        task.wakes(id, &context, &scheduler, woken, &after, &context_after, &scheduler_after),
        context.local_queue matches Some(q) ==> q < scheduler.queues@.len(),
    ensures
        after.join == task.join,
        task.state is Completed ==> after.state is Completed,
        task.state !is Completed ==> after.state is Scheduled,
        task.state !is Idle ==> {
            &&& woken is Already
            &&& context_after == context
            &&& scheduler_after == scheduler
            &&& after.lifo_count == task.lifo_count
        },
        task.state is Idle && context.is_worker && context.lifo_slot is None && task.lifo_count < 3 ==> {
            &&& woken is Slot
            &&& context_after.lifo_slot == Some(id)
            &&& after.lifo_count == task.lifo_count + 1
            &&& scheduler_after == scheduler
        },
        task.state is Idle && context.is_worker && (context.lifo_slot is Some || task.lifo_count >= 3)
            && context.local_queue is Some ==> {
            let q = context.local_queue->0 as int;
            &&& woken is Local
            &&& after.lifo_count == 0
            &&& scheduler_after.queues@[q]@ == scheduler.queues@[q]@.push(id)
            &&& scheduler_after.queue == scheduler.queue
            &&& context_after == context
            &&& forall|v: int| #![trigger scheduler_after.queues@[v]]
                0 <= v < scheduler.queues@.len() && v != q ==> scheduler_after.queues@[v] == scheduler.queues@[v]
        },
        task.state is Idle && (!context.is_worker || (context.local_queue is None && (context.lifo_slot is Some
            || task.lifo_count >= 3))) ==> {
            &&& woken is Injected
            &&& after.lifo_count == 0
            &&& scheduler_after.queue@ == scheduler.queue@.push(id)
            &&& scheduler_after.queues == scheduler.queues
            &&& context_after == context
            &&& scheduler.searching_workers < 2 ==> woken->Injected_0.reactor
            &&& scheduler.searching_workers < 2 && scheduler.unparkers > 0 ==> woken->Injected_0.unpark is Some
        },
        scheduler_after.sleeping_workers == scheduler.sleeping_workers,
        scheduler_after.searching_workers == scheduler.searching_workers,
        scheduler_after.shutdown == scheduler.shutdown,
        Task::<R>::fresh().state is Scheduled,
        Task::<R>::fresh().lifo_count == 0,
        Task::<R>::fresh().join.result is None,
        Task::<R>::fresh().join.waker is None,
        Task::<R>::fresh().join.state is Running,
{
}

/// A poll of a task has one of three ends. A task that is done is completed and queued no more. One that
/// was not woken meanwhile is idle. One that was is at the end of the queue for anybody, once more, and
/// stays scheduled.
pub proof fn law_polled_task_goes_one_way<R>(
    id: TaskId,
    task: Task<R>,
    context: Context,
    scheduler: Scheduler,
    ready: bool,
    layout: Layout,
    sole_owner: bool,
    polled: Polled,
    task_after: Task<R>,
    scheduler_after: Scheduler,
)
    requires
        Worker::follows_up(
            id,
            &task,
            &context,
            &scheduler,
            ready,
            layout,
            sole_owner,
            polled,
            &task_after,
            &scheduler_after,
        ),
        task.state is Polling || task.state is Scheduled,
    ensures
        task_after.join == task.join,
        polled is Done <==> ready,
        polled is Idle <==> !ready && task.state is Polling,
        polled is Again <==> !ready && task.state is Scheduled,
        ready ==> task_after.state is Completed,
        polled is Idle ==> task_after.state is Idle,
        polled is Again ==> task_after.state is Scheduled && scheduler_after.queue@ == scheduler.queue@.push(id),
        polled !is Again ==> scheduler_after.queue == scheduler.queue && scheduler_after.notify_cursor
            == scheduler.notify_cursor,
        scheduler_after.queues == scheduler.queues,
        scheduler_after.searching_workers == scheduler.searching_workers,
        scheduler_after.sleeping_workers == scheduler.sleeping_workers,
        polled matches Polled::Again(wakeup) ==> (scheduler.searching_workers < 2 ==> wakeup.reactor),
        ready && !sole_owner ==> polled == Polled::Done(Recycled::Dropped),
{
}

/// Notifying tells a worker and the reactor, unless two or more are looking for work; whoever is told can
/// be unparked, and with the cursor within the workers it is the one at the cursor. The cursor moves on
/// by one when somebody is told, and only then.
pub proof fn law_notifying_tells_somebody(scheduler: Scheduler, wakeup: Wakeup, cursor: usize)
    requires
        scheduler.notifies(wakeup, cursor),
    ensures
        wakeup.reactor <==> scheduler.searching_workers < 2,
        wakeup.unpark is Some <==> scheduler.searching_workers < 2 && scheduler.unparkers > 0,
        wakeup.unpark matches Some(w) ==> w < scheduler.unparkers,
        wakeup.unpark is Some && scheduler.notify_cursor < scheduler.unparkers ==> wakeup.unpark == Some(
            scheduler.notify_cursor,
        ),
        wakeup.unpark is Some && scheduler.notify_cursor < usize::MAX ==> cursor == scheduler.notify_cursor + 1,
        wakeup.unpark is None ==> cursor == scheduler.notify_cursor,
{
    if scheduler.unparkers > 0 && scheduler.notify_cursor < scheduler.unparkers {
        vstd::arithmetic::div_mod::lemma_small_mod(scheduler.notify_cursor as nat, scheduler.unparkers as nat);
    }
}

/// Unparking reaches everybody: of as many notifications in a row as there are workers, with few looking
/// for work and the cursor not starting over meanwhile, no two tell the same worker.
pub proof fn law_unparking_reaches_everybody(
    schedulers: Seq<Scheduler>,
    wakeups: Seq<Wakeup>,
    n: int,
    i: int,
    j: int,
)
    requires
        0 < n,
        schedulers.len() == n + 1,
        wakeups.len() == n,
        schedulers[0].notify_cursor + n <= usize::MAX,
        forall|k: int| #![trigger schedulers[k]] 0 <= k < n ==> {
            &&& schedulers[k].notifies(wakeups[k], schedulers[k + 1].notify_cursor)
            &&& schedulers[k].unparkers == n
            &&& schedulers[k].searching_workers < 2
        },
        0 <= i < j < n,
    ensures
        wakeups[i].unpark is Some,
        wakeups[j].unpark is Some,
        wakeups[i].unpark->0 < n,
        wakeups[j].unpark->0 < n,
        wakeups[i].unpark != wakeups[j].unpark,
{
    cursor_after(schedulers, wakeups, n, i);
    cursor_after(schedulers, wakeups, n, j);
    let a = schedulers[0].notify_cursor + i;
    let b = schedulers[0].notify_cursor + j;
    assert(schedulers[i].notifies(wakeups[i], schedulers[i + 1].notify_cursor));
    assert(schedulers[j].notifies(wakeups[j], schedulers[j + 1].notify_cursor));
    assert(a % n != b % n) by (nonlinear_arith)
        requires
            0 <= a < b,
            b - a < n,
    ;
}

proof fn cursor_after(schedulers: Seq<Scheduler>, wakeups: Seq<Wakeup>, n: int, k: int)
    requires
        0 < n,
        schedulers.len() == n + 1,
        schedulers[0].notify_cursor + n <= usize::MAX,
        forall|k: int| #![trigger schedulers[k]] 0 <= k < n ==> {
            &&& schedulers[k].notifies(wakeups[k], schedulers[k + 1].notify_cursor)
            &&& schedulers[k].unparkers == n
            &&& schedulers[k].searching_workers < 2
        },
        0 <= k <= n,
    ensures
        schedulers[k].notify_cursor == schedulers[0].notify_cursor + k,
    decreases k,
{
    if k > 0 {
        cursor_after(schedulers, wakeups, n, k - 1);
        assert(schedulers[k - 1].notifies(wakeups[k - 1], schedulers[k].notify_cursor));
    }
}

/// A worker that was told once is told again exactly after everybody else: two notifications tell the
/// same worker if and only if the cursor has gone round in between.
pub proof fn law_rounds_repeat(a: Scheduler, wakeup_a: Wakeup, cursor_a: usize, b: Scheduler, wakeup_b: Wakeup, cursor_b: usize)
    requires
        a.notifies(wakeup_a, cursor_a),
        b.notifies(wakeup_b, cursor_b),
        a.unparkers == b.unparkers,
        a.unparkers > 0,
        a.searching_workers < 2,
        b.searching_workers < 2,
    ensures
        wakeup_a.unpark == wakeup_b.unpark <==> (a.notify_cursor - b.notify_cursor) % (a.unparkers as int) == 0,
{
    let n = a.unparkers as int;
    vstd::arithmetic::div_mod::lemma_mod_equivalence(a.notify_cursor as int, b.notify_cursor as int, n);
}

/// Memory is of a class if it is aligned to no more than 16, and has from 1 to 32,768 bytes; its class is
/// the first of 32, 64, 128 bytes and so on that it fits into.
pub proof fn law_memory_has_a_class(layout: Layout, class: usize)
    ensures
        spec_pool_index(layout) is None <==> layout.align > 16 || layout.size == 0 || layout.size > 32_768,
        spec_pool_index(layout) == Some(class) <==> {
            &&& layout.align <= 16
            &&& 0 < layout.size <= 32_768
            &&& class <= 10
            &&& layout.size <= 32 * pow2(class as nat)
            &&& class == 0 || 32 * pow2((class - 1) as nat) < layout.size
        },
{
    if 0 < layout.size <= 32_768 {
        crate::layout::law_class_is_tight(layout.size as int, class as int);
    }
}

/// A future gets the youngest done task of its class that the thread has kept; else the oldest that the
/// scheduler has; else a new one that takes up the whole class. One without a class gets a new one of
/// its own size. No other class is touched.
pub proof fn law_spawning_uses_what_is_there(
    scheduler: Scheduler,
    context: Context,
    layout: Layout,
    plan: SpawnPlan,
    after: Scheduler,
    context_after: Context,
    class: usize,
    other: int,
)
    requires
        scheduler.wf(),
        context.wf(),
        scheduler.plans(&context, layout, plan, &after, &context_after),
        class <= 10,
        0 <= other <= 10,
        other != class,
        layout.size <= 32 * pow2(class as nat),
        class == 0 || 32 * pow2((class - 1) as nat) < layout.size,
    ensures
        layout.align > 16 || layout.size == 0 || layout.size > 32_768 ==> {
            &&& plan == SpawnPlan::Create(None)
            &&& after == scheduler
            &&& context_after == context
        },
        layout.align <= 16 && 0 < layout.size <= 32_768 ==> {
            let kept = context.local_task_pool@[class as int]@;
            let shared = scheduler.task_pools@[class as int]@;
            &&& kept.len() > 0 ==> {
                &&& plan is Reuse
                &&& kept == context_after.local_task_pool@[class as int]@.push(plan->Reuse_0)
                &&& after == scheduler
            }
            &&& kept.len() == 0 && shared.len() > 0 ==> {
                &&& plan is Reuse
                &&& shared == seq![plan->Reuse_0] + after.task_pools@[class as int]@
                &&& context_after == context
            }
            &&& kept.len() == 0 && shared.len() == 0 ==> {
                &&& plan is Create
                &&& plan->Create_0 is Some
                &&& plan->Create_0->0.size == 32 * pow2(class as nat)
                &&& plan->Create_0->0.align == 16
                &&& context_after == context
                &&& after.task_pools@[class as int]@ == shared
            }
            &&& context_after.local_task_pool@[other] == context.local_task_pool@[other]
            &&& after.task_pools@[other]@ == scheduler.task_pools@[other]@
        },
{
    law_memory_has_a_class(layout, class);
    if layout.align <= 16 && 0 < layout.size <= 32_768 {
        let kept = context.local_task_pool@[class as int]@;
        let shared = scheduler.task_pools@[class as int]@;
        crate::layout::law_classes_double(class as int);
        crate::layout::class_sizes_end();
        crate::layout::class_size_grows(class as int, 10);
        if kept.len() > 0 {
            assert(kept =~= kept.drop_last().push(kept.last()));
        } else if shared.len() > 0 {
            assert(shared =~= seq![shared[0]] + shared.skip(1));
        } else {
            assert(after.task_pools@[class as int]@ == shared);
            assert(after.task_pools@[other]@ == scheduler.task_pools@[other]@);
        }
    }
}

/// A done task that nobody else holds, with memory of some class, is kept by the thread as long as that
/// has fewer than 128 of the class; else by the scheduler as long as that has fewer than 1,024. Any
/// other done task is dropped.
pub proof fn law_done_task_is_kept(
    scheduler: Scheduler,
    context: Context,
    layout: Layout,
    sole_owner: bool,
    task: TaskId,
    after: Scheduler,
    context_after: Context,
    class: usize,
    other: int,
)
    requires
        scheduler.wf(),
        context.wf(),
        pooled(
            &context,
            &scheduler,
            layout,
            task,
            scheduler.recycles(&context, layout, sole_owner),
            &context_after,
            &after,
        ),
        class <= 10,
        0 <= other <= 10,
        other != class,
        layout.size <= 32 * pow2(class as nat),
        class == 0 || 32 * pow2((class - 1) as nat) < layout.size,
    ensures
        ({
            let went = scheduler.recycles(&context, layout, sole_owner);
            let kept = context.local_task_pool@[class as int]@;
            let shared = scheduler.task_pools@[class as int]@;
            let kept_after = context_after.local_task_pool@[class as int]@;
            let shared_after = after.task_pools@[class as int]@;
            let usable = sole_owner && layout.align <= 16 && 0 < layout.size <= 32_768;
            &&& went is Kept <==> usable && kept.len() < 128
            &&& went is Shared <==> usable && kept.len() >= 128 && shared.len() < 1024
            &&& kept_after == (if went is Kept {
                kept.push(task)
            } else {
                kept
            })
            &&& shared_after == (if went is Shared {
                shared.push(task)
            } else {
                shared
            })
            &&& context_after.local_task_pool@[other] == context.local_task_pool@[other]
            &&& after.task_pools@[other]@ == scheduler.task_pools@[other]@
        }),
{
    law_memory_has_a_class(layout, class);
    let went = scheduler.recycles(&context, layout, sole_owner);
    if went is Dropped {
        assert(after.task_pools@[other]@ == scheduler.task_pools@[other]@);
        assert(after.task_pools@[class as int]@ == scheduler.task_pools@[class as int]@);
    }
}

/// What the queues hold is what is in one of them.
proof fn queues_hold(queues: Seq<LocalQueue>, task: TaskId)
    ensures
        crate::executor::scheduler::queues_tasks(queues).contains(task) <==> exists|v: int|
            0 <= v < queues.len() && (#[trigger] queues[v])@.contains(task),
    decreases queues.len(),
{
    if queues.len() > 0 {
        let rest = queues.drop_last();
        queues_hold(rest, task);
        queues.last()@.to_multiset_ensures();
        if exists|v: int| 0 <= v < queues.len() && (#[trigger] queues[v])@.contains(task) {
            let v = choose|v: int| 0 <= v < queues.len() && (#[trigger] queues[v])@.contains(task);
            if v < rest.len() {
                assert(rest[v]@.contains(task));
            }
        }
        if crate::executor::scheduler::queues_tasks(queues).contains(task) {
            if queues.last()@.contains(task) {
                assert(queues[queues.len() - 1]@.contains(task));
            } else {
                let v = choose|v: int| 0 <= v < rest.len() && (#[trigger] rest[v])@.contains(task);
                assert(queues[v]@.contains(task));
            }
        }
    }
}

/// A task waits if it is in the common queue or in that of some worker, and nowhere else; it is ready if
/// it waits or is in the thread's slot.
pub proof fn law_waiting_is_queued(context: Context, scheduler: Scheduler, task: TaskId)
    ensures
        scheduler.waiting().contains(task) <==> scheduler.queue@.contains(task) || exists|v: int|
            0 <= v < scheduler.queues@.len() && (#[trigger] scheduler.queues@[v])@.contains(task),
        ready_tasks(&context, &scheduler).contains(task) <==> context.lifo_slot == Some(task)
            || scheduler.queue@.contains(task) || exists|v: int|
            0 <= v < scheduler.queues@.len() && (#[trigger] scheduler.queues@[v])@.contains(task),
        ready_tasks(&context, &scheduler).count(task) == scheduler.waiting().count(task) + (if context.lifo_slot == Some(
            task,
        ) {
            1nat
        } else {
            0nat
        }),
{
    queues_hold(scheduler.queues@, task);
    scheduler.queue@.to_multiset_ensures();
}

/// Whoever asks for a source gets the place to read, or to write, that was asked for and that nobody
/// has; who has it keeps it. Nothing changes for other sources, nor for timers, and the poller is told
/// of everybody new.
pub proof fn law_registration_takes_a_free_place(
    watch: Watch,
    key: usize,
    waker: Waker,
    read: bool,
    write: bool,
    other: usize,
)
    ensures
        ({
            let after = registered(watch, Registration::IO { key, waker, read, write });
            let had_reader = watch.slots.contains_key(key) && watch.slots[key].reader is Some;
            let had_writer = watch.slots.contains_key(key) && watch.slots[key].writer is Some;
            let news = (read && !had_reader) || (write && !had_writer);
            &&& after.slots.contains_key(key)
            &&& had_reader ==> after.slots[key].reader == watch.slots[key].reader
            &&& had_writer ==> after.slots[key].writer == watch.slots[key].writer
            &&& !had_reader ==> after.slots[key].reader == (if read {
                Some(waker)
            } else {
                None
            })
            &&& !had_writer ==> after.slots[key].writer == (if write {
                Some(waker)
            } else {
                None
            })
            &&& other != key ==> {
                &&& after.slots.contains_key(other) <==> watch.slots.contains_key(other)
                &&& after.slots[other] == watch.slots[other]
            }
            &&& after.timers == watch.timers
            &&& !news ==> after.interests == watch.interests
            &&& news ==> after.interests == watch.interests.push(
                Readiness {
                    key,
                    readable: read || had_reader,
                    writable: write || had_writer,
                },
            )
        }),
{
}

/// A timer that is asked for is added to those that are pending, and nothing else changes.
pub proof fn law_timer_is_added(watch: Watch, deadline: Instant, waker: Waker)
    ensures
        ({
            let after = registered(watch, Registration::Timer { deadline, waker });
            &&& after.timers == watch.timers.insert(TimerEntry { deadline, waker })
            &&& after.slots == watch.slots
            &&& after.interests == watch.interests
        }),
{
}

/// Removing a source forgets whoever waits for it, and nobody else; the poller is told nothing.
pub proof fn law_removal_forgets_one(watch: Watch, key: usize, other: usize)
    ensures
        ({
            let after = registered(watch, Registration::Delete { key });
            &&& !after.slots.contains_key(key)
            &&& other != key ==> {
                &&& after.slots.contains_key(other) <==> watch.slots.contains_key(other)
                &&& after.slots[other] == watch.slots[other]
            }
            &&& after.timers == watch.timers
            &&& after.interests == watch.interests
        }),
{
}

/// Registrations act one after the other, in the order in which they came; the timers asked for come in
/// that order too.
pub proof fn law_registrations_act_in_order(watch: Watch, earlier: Seq<Registration>, next: Registration)
    ensures
        all_registered(watch, Seq::empty()) == watch,
        all_registered(watch, earlier.push(next)) == registered(all_registered(watch, earlier), next),
        timers_of(Seq::empty()) == Seq::<TimerEntry>::empty(),
        next matches Registration::Timer { deadline, waker } ==> timers_of(earlier.push(next)) == timers_of(
            earlier,
        ).push(TimerEntry { deadline, waker }),
        next !is Timer ==> timers_of(earlier.push(next)) == timers_of(earlier),
{
    assert(earlier.push(next).drop_last() =~= earlier);
}

/// An event wakes whoever waits for what it says, the reader before the writer; they wait no longer, and
/// nothing changes for anybody else.
pub proof fn law_event_wakes_who_waits(slots: Map<usize, Slot>, event: Readiness, other: usize)
    ensures
        ({
            let woken = woken_by(slots, event);
            let after = slots_after(slots, event);
            let known = slots.contains_key(event.key);
            let reads = known && event.readable && slots[event.key].reader is Some;
            let writes = known && event.writable && slots[event.key].writer is Some;
            &&& reads && writes ==> woken == seq![slots[event.key].reader->0, slots[event.key].writer->0]
            &&& reads && !writes ==> woken == seq![slots[event.key].reader->0]
            &&& !reads && writes ==> woken == seq![slots[event.key].writer->0]
            &&& !reads && !writes ==> woken == Seq::<Waker>::empty()
            &&& after.contains_key(event.key) <==> known
            &&& known && event.readable ==> after[event.key].reader is None
            &&& known && event.writable ==> after[event.key].writer is None
            &&& known && !event.readable ==> after[event.key].reader == slots[event.key].reader
            &&& known && !event.writable ==> after[event.key].writer == slots[event.key].writer
            &&& other != event.key ==> {
                &&& after.contains_key(other) <==> slots.contains_key(other)
                &&& after[other] == slots[other]
            }
        }),
{
    let woken = woken_by(slots, event);
    let known = slots.contains_key(event.key);
    if known && event.readable && slots[event.key].reader is Some {
        if event.writable && slots[event.key].writer is Some {
            assert(woken =~= seq![slots[event.key].reader->0, slots[event.key].writer->0]);
        } else {
            assert(woken =~= seq![slots[event.key].reader->0]);
        }
    } else if known && event.writable && slots[event.key].writer is Some {
        assert(woken =~= seq![slots[event.key].writer->0]);
    } else {
        assert(woken =~= Seq::<Waker>::empty());
    }
}

/// Events act one after the other, in the order in which they came.
pub proof fn law_events_act_in_order(slots: Map<usize, Slot>, earlier: Seq<Readiness>, next: Readiness)
    ensures
        all_woken_by(slots, Seq::empty()) == Seq::<Waker>::empty(),
        all_slots_after(slots, Seq::empty()) == slots,
        all_slots_after(slots, earlier.push(next)) == slots_after(all_slots_after(slots, earlier), next),
        all_woken_by(slots, earlier.push(next)) == all_woken_by(slots, earlier) + woken_by(
            all_slots_after(slots, earlier),
            next,
        ),
{
    assert(earlier.push(next).drop_last() =~= earlier);
}

/// A batch is queued behind what is queued. The poller has to be told of it unless it was told already,
/// and nothing is told of nothing.
pub proof fn law_batch_is_queued(before: Reactor, batch: Seq<Registration>, after: Reactor, notify: bool)
    requires
        before.accepts(batch, after, notify),
    ensures
        after.registrations@ == before.registrations@ + batch,
        notify <==> batch.len() > 0 && !before.notified,
        after.notified <==> batch.len() > 0 || before.notified,
        after.state == before.state,
        after.shutdown == before.shutdown,
        after.is_polling == before.is_polling,
{
}

/// Starting to drive the reactor acts on everything that is queued, and waits for as long as no timer is
/// due: for ever only if there is none. With nothing queued, nobody is forgotten and nothing asked for.
pub proof fn law_driving_waits_for_timers(before: Reactor, now: Instant, wait: Wait, after: Reactor, entry: TimerEntry)
    requires
        before.starts(now, wait, after),
    ensures
        after.is_polling,
        !after.notified,
        after.shutdown == before.shutdown,
        after.registrations@.len() == 0,
        wait.timeout is None <==> after.state.wheel().pending() == Multiset::<TimerEntry>::empty(),
        after.state.wheel().pending().contains(entry) ==> {
            &&& wait.timeout is Some
            &&& wait.timeout->0 == 0 || now.nanos + wait.timeout->0 <= entry.deadline.nanos
        },
        before.state.wheel().pending().contains(entry) ==> after.state.wheel().pending().contains(entry),
        after.state.wheel().now() == before.state.wheel().now(),
        after.state.wheel().start() == before.state.wheel().start(),
        after.state.wheel().pending().count(entry) == before.state.wheel().pending().count(entry) + timers_of(
            before.registrations@,
        ).to_multiset().count(entry),
        before.registrations@.len() == 0 ==> {
            &&& after.state.slots() == before.state.slots()
            &&& after.state.wheel().pending() == before.state.wheel().pending()
            &&& wait.interests@.len() == 0
        },
        before.registrations@.contains(
            Registration::Timer { deadline: entry.deadline, waker: entry.waker },
        ) ==> after.state.wheel().pending().contains(entry),
{
    let start = before.state.watch(Seq::empty());
    let all = before.registrations@;
    let told = after.state.watch(wait.interests@);
    crate::executor::reactor::law_timers_are_kept(start, all, entry);
    let timer = Registration::Timer { deadline: entry.deadline, waker: entry.waker };
    if all.contains(timer) {
        let p = choose|p: int| 0 <= p < all.len() && all[p] == timer;
        assert(all[p] == timer);
        assert(told.timers.contains(entry));
    }
    if all.len() == 0 {
        assert(told == start);
        assert(told.interests == start.interests);
        assert(told.slots == start.slots);
        assert(told.timers == start.timers);
    }
    if after.state.wheel().pending().contains(entry) {
        assert(after.state.wheel().pending().count(entry) > 0);
    }
}

/// A dispatch with nothing queued and no timer pending wakes exactly whom the events wake; with one
/// event, those that it is for, the reader before the writer.
pub proof fn law_dispatch_wakes_exactly(
    before: Reactor,
    event: Readiness,
    now: Instant,
    dispatch: Dispatch,
    after: Reactor,
    other: usize,
)
    requires
        before.dispatches(seq![event], now, dispatch, after),
        before.registrations@.len() == 0,
        before.state.wheel().pending() == Multiset::<TimerEntry>::empty(),
        before.state.slots().contains_key(event.key),
        other != event.key,
    ensures
        ({
            let slot = before.state.slots()[event.key];
            let slot_after = after.state.slots()[event.key];
            let reads = event.readable && slot.reader is Some;
            let writes = event.writable && slot.writer is Some;
            &&& dispatch.interests@.len() == 0
            &&& dispatch.wakers@.len() == (if reads {
                1int
            } else {
                0
            }) + (if writes {
                1int
            } else {
                0
            })
            &&& reads ==> dispatch.wakers@[0] == slot.reader->0
            &&& writes ==> dispatch.wakers@.last() == slot.writer->0
            &&& after.state.slots().contains_key(event.key)
            &&& slot_after.reader == (if event.readable {
                None
            } else {
                slot.reader
            })
            &&& slot_after.writer == (if event.writable {
                None
            } else {
                slot.writer
            })
            &&& after.state.slots().contains_key(other) <==> before.state.slots().contains_key(other)
            &&& after.state.slots()[other] == before.state.slots()[other]
        }),
{
    let events = seq![event];
    let start = before.state.watch(Seq::empty());
    let watch = all_registered(start, before.registrations@);
    assert(watch == start);
    assert(events =~= Seq::<Readiness>::empty().push(event));
    law_events_act_in_order(watch.slots, Seq::empty(), event);
    law_event_wakes_who_waits(watch.slots, event, other);
    let woken = all_woken_by(watch.slots, events);
    let (wheel, expired) = choose|wheel: TimerWheel, expired: Seq<Waker>|
        {
            &&& #[trigger] wheel.ticks(now, after.state.wheel(), expired)
            &&& before.state.wheel().takes_in(timers_of(before.registrations@), &wheel)
            &&& wheel.pending() == watch.timers
            &&& dispatch.wakers@ == woken + expired
        };
    let fired = wheel.expiring(now);
    fired.to_multiset_ensures();
    if fired.len() > 0 {
        assert(fired.contains(fired[0]));
        assert(fired.to_multiset().count(fired[0]) > 0);
    }
    assert(expired.len() == 0);
    assert(dispatch.wakers@ =~= woken);
    assert(woken =~= woken_by(watch.slots, event));
}

/// A worker collects up to 15 registrations, and hands them over with the next, in order; any other
/// thread hands over each at once. Nothing else of the runtime or of the thread changes.
pub proof fn law_registrations_are_collected(
    before: Handle,
    context: Context,
    registration: Registration,
    after: Handle,
    context_after: Context,
    notify: bool,
)
    requires
        before.registers(&context, registration, &after, &context_after, notify),
    ensures
        after.scheduler == before.scheduler,
        after.reactor.state == before.reactor.state,
        after.reactor.shutdown == before.reactor.shutdown,
        after.reactor.is_polling == before.reactor.is_polling,
        context_after == (Context { registration_buffer: context_after.registration_buffer, ..context }),
        !context.is_worker ==> {
            &&& after.reactor.registrations@ == before.reactor.registrations@.push(registration)
            &&& context_after.registration_buffer == context.registration_buffer
            &&& notify <==> !before.reactor.notified
            &&& after.reactor.notified
        },
        context.is_worker && context.registration_buffer@.len() < 15 ==> {
            &&& after.reactor == before.reactor
            &&& context_after.registration_buffer@ == context.registration_buffer@.push(registration)
            &&& !notify
        },
        context.is_worker && context.registration_buffer@.len() >= 15 ==> {
            &&& after.reactor.registrations@ == before.reactor.registrations@ + context.registration_buffer@.push(
                registration,
            )
            &&& context_after.registration_buffer@.len() == 0
            &&& notify <==> !before.reactor.notified
            &&& after.reactor.notified
        },
{
    if !context.is_worker {
        assert(before.reactor.registrations@ + seq![registration] =~= before.reactor.registrations@.push(registration));
    }
}

/// A worker that goes to sleep drives the reactor exactly if nobody does and the runtime goes on; else it
/// parks. Either way what it has collected is handed over, all of it.
pub proof fn law_sleeper_drives_the_reactor(
    before: Handle,
    context: Context,
    now: Instant,
    rest: Rest,
    notify: bool,
    after: Handle,
    context_after: Context,
    entry: TimerEntry,
)
    requires
        before.rests(&context, now, rest, notify, &after, &context_after),
    ensures
        rest is Park <==> before.reactor.is_polling || before.reactor.shutdown,
        after.scheduler == before.scheduler,
        context_after == (Context { registration_buffer: context_after.registration_buffer, ..context }),
        context.is_worker ==> context_after.registration_buffer@.len() == 0,
        !context.is_worker ==> context_after.registration_buffer == context.registration_buffer,
        notify <==> context.is_worker && context.registration_buffer@.len() > 0 && !before.reactor.notified,
        rest is Park && context.is_worker ==> after.reactor.registrations@ == before.reactor.registrations@
            + context.registration_buffer@,
        rest is Park && !context.is_worker ==> after.reactor.registrations@ == before.reactor.registrations@,
        rest matches Rest::Drive(wait) ==> {
            &&& after.reactor.is_polling
            &&& after.reactor.registrations@.len() == 0
            &&& wait.timeout is None <==> after.reactor.state.wheel().pending() == Multiset::<TimerEntry>::empty()
            &&& after.reactor.state.wheel().pending().contains(entry) ==> wait.timeout->0 == 0 || now.nanos
                + wait.timeout->0 <= entry.deadline.nanos
            &&& context.is_worker && context.registration_buffer@.contains(
                Registration::Timer { deadline: entry.deadline, waker: entry.waker },
            ) ==> after.reactor.state.wheel().pending().contains(entry)
        },
{
    if let Rest::Drive(wait) = rest {
        let flushed = choose|flushed: Reactor|
            {
                &&& #[trigger] before.reactor.accepts(crate::executor::handle::collected(&context), flushed, notify)
                &&& flushed.starts(now, wait, after.reactor)
            };
        law_driving_waits_for_timers(flushed, now, wait, after.reactor, entry);
        let timer = Registration::Timer { deadline: entry.deadline, waker: entry.waker };
        if context.is_worker && context.registration_buffer@.contains(timer) {
            let own = context.registration_buffer@;
            let k = choose|k: int| 0 <= k < own.len() && own[k] == timer;
            assert(flushed.registrations@[before.reactor.registrations@.len() + k] == timer);
        }
    } else {
        assert(before.reactor.registrations@ + Seq::<Registration>::empty() =~= before.reactor.registrations@);
    }
}

/// A new runtime has a queue and an unparker for each of its workers, which are numbered in order, and
/// nothing to do: nothing is queued, kept, registered or pending, and nobody sleeps or searches.
pub proof fn law_new_runtime_has_nothing(runtime: Runtime, now: Instant, w: int, class: int)
    requires
        runtime.wf(),
        runtime.idle(now),
        0 <= w < runtime.workers@.len(),
        0 <= class <= 10,
    ensures
        runtime.handle.scheduler.queues@.len() == runtime.workers@.len(),
        runtime.handle.scheduler.unparkers == runtime.workers@.len(),
        runtime.handle.scheduler.queue@.len() == 0,
        runtime.handle.scheduler.queues@[w]@.len() == 0,
        runtime.handle.scheduler.task_pools@[class]@.len() == 0,
        runtime.handle.scheduler.sleeping_workers == 0,
        runtime.handle.scheduler.searching_workers == 0,
        runtime.handle.scheduler.notify_cursor == 0,
        !runtime.handle.scheduler.shutdown,
        runtime.workers@[w].id == w,
        runtime.workers@[w].budget == 128,
        runtime.workers@[w].tick == 0,
        runtime.handle.reactor.registrations@.len() == 0,
        runtime.handle.reactor.state.slots().dom() == Set::<usize>::empty(),
        runtime.handle.reactor.state.wheel().pending().len() == 0,
        runtime.handle.reactor.state.wheel().now() == 0,
        runtime.handle.reactor.state.wheel().start() == now,
        !runtime.handle.reactor.notified,
        !runtime.handle.reactor.shutdown,
        !runtime.handle.reactor.is_polling,
{
    assert(runtime.handle.reactor.state.slots().dom() =~= Set::<usize>::empty());
}

} // verus!
