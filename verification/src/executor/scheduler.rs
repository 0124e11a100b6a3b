use crate::counter::{incremented, one_more};
use crate::executor::context::Context;
use crate::layout::{block_size, class_of, Layout, CLASS_ALIGN, MAX_CLASS_SIZE, NUM_CLASSES};
use crate::queues::{GlobalQueue, LocalQueue, RecyclePool, Steal, TaskId};
use vstd::multiset::Multiset;
use vstd::prelude::*;

verus! {

/// How many done tasks of a size class the scheduler keeps for all threads.
pub const POOL_CAPACITY: usize = 1024;

/// With this many workers looking for work, nobody else is woken to look for it.
pub const ENOUGH_SEARCHING: usize = 2;

/// Whom to tell that there is work.
#[derive(Debug, Clone, Copy, PartialEq, Eq)]
pub struct Wakeup {
    /// The worker to unpark.
    pub unpark: Option<usize>,
    /// Whether to wake the reactor, should a worker be waiting in it.
    pub reactor: bool,
}

/// Where the task for a new future comes from.
#[derive(Debug, Clone, Copy, PartialEq, Eq)]
pub enum SpawnPlan {
    /// A done task whose memory fits.
    Reuse(TaskId),
    /// A new task, with memory of the given layout, or else of the future's own.
    Create(Option<Layout>),
}

/// Hands tasks to workers, and keeps done tasks to be used again.
pub struct Scheduler {
    /// The queue of tasks without a worker of their own.
    pub queue: GlobalQueue,
    /// The workers' own queues.
    pub queues: Vec<LocalQueue>,
    /// How many workers can be unparked.
    pub unparkers: usize,
    /// How many workers sleep.
    pub sleeping_workers: usize,
    /// How many workers are looking for work.
    pub searching_workers: usize,
    /// Whose turn it is to be unparked.
    pub notify_cursor: usize,
    /// The runtime is shutting down.
    pub shutdown: bool,
    /// Done tasks to be used again, by size class.
    pub task_pools: Vec<RecyclePool>,
}

/// The size class of a future's memory, if it has one.
pub open spec fn spec_pool_index(layout: Layout) -> Option<usize> {
    if layout.align > CLASS_ALIGN || layout.size > MAX_CLASS_SIZE || layout.size == 0 {
        None
    } else {
        Some(crate::layout::spec_class_of(layout.size as int) as usize)
    }
}

/// The tasks in several local queues.
pub open spec fn queues_tasks(queues: Seq<LocalQueue>) -> Multiset<TaskId>
    decreases queues.len(),
{
    if queues.len() == 0 {
        Multiset::empty()
    } else {
        queues_tasks(queues.drop_last()).add(queues.last()@.to_multiset())
    }
}

/// Changing one queue changes what the queues hold by what that queue holds.
pub proof fn queues_tasks_update(queues: Seq<LocalQueue>, i: int, queue: LocalQueue)
    requires
        0 <= i < queues.len(),
    ensures
        queues_tasks(queues.update(i, queue)).add(queues[i]@.to_multiset()) == queues_tasks(queues).add(
            queue@.to_multiset(),
        ),
    decreases queues.len(),
{
    let after = queues.update(i, queue);
    if i == queues.len() - 1 {
        assert(after.drop_last() =~= queues.drop_last());
    } else {
        queues_tasks_update(queues.drop_last(), i, queue);
        assert(after.drop_last() =~= queues.drop_last().update(i, queue));
    }
    let left = queues_tasks(after).add(queues[i]@.to_multiset());
    let right = queues_tasks(queues).add(queue@.to_multiset());
    assert forall|t: TaskId| left.count(t) == right.count(t) by {
        if i < queues.len() - 1 {
            assert(queues_tasks(queues.drop_last().update(i, queue)).add(queues[i]@.to_multiset()).count(t)
                == queues_tasks(queues.drop_last()).add(queue@.to_multiset()).count(t));
        }
    }
    assert(left =~= right);
}

impl Scheduler {
    pub open spec fn wf(&self) -> bool {
        &&& forall|i: int| #![trigger self.queues@[i]] 0 <= i < self.queues@.len() ==> self.queues@[i].wf()
        &&& self.task_pools@.len() == NUM_CLASSES
        &&& forall|i: int| #![trigger self.task_pools@[i]]
            0 <= i < NUM_CLASSES ==> self.task_pools@[i].capacity() == POOL_CAPACITY
    }

    /// All tasks that wait in a queue.
    pub open spec fn waiting(&self) -> Multiset<TaskId> {
        self.queue@.to_multiset().add(queues_tasks(self.queues@))
    }

    /// The two differ in their queues at most.
    pub open spec fn same_but_queues(&self, other: &Scheduler) -> bool {
        &&& self.unparkers == other.unparkers
        &&& self.sleeping_workers == other.sleeping_workers
        &&& self.searching_workers == other.searching_workers
        &&& self.notify_cursor == other.notify_cursor
        &&& self.shutdown == other.shutdown
        &&& self.task_pools == other.task_pools
        &&& self.queues@.len() == other.queues@.len()
    }

    pub fn new(queues: Vec<LocalQueue>, unparkers: usize) -> (scheduler: Self)
        requires
            forall|i: int| #![trigger queues@[i]] 0 <= i < queues@.len() ==> queues@[i].wf(),
        ensures
            scheduler.wf(),
            scheduler.queue@ == Seq::<TaskId>::empty(),
            scheduler.queues == queues,
            scheduler.unparkers == unparkers,
            scheduler.sleeping_workers == 0,
            scheduler.searching_workers == 0,
            scheduler.notify_cursor == 0,
            !scheduler.shutdown,
            forall|i: int| #![trigger scheduler.task_pools@[i]]
                0 <= i < NUM_CLASSES ==> scheduler.task_pools@[i]@.len() == 0,
    {
        let mut task_pools: Vec<RecyclePool> = Vec::with_capacity(NUM_CLASSES);
        let mut i: usize = 0;
        while i < NUM_CLASSES
            invariant
                i <= NUM_CLASSES,
                task_pools@.len() == i,
                forall|k: int| #![trigger task_pools@[k]]
                    0 <= k < i ==> task_pools@[k]@.len() == 0 && task_pools@[k].capacity() == POOL_CAPACITY,
            decreases NUM_CLASSES - i,
        {
            task_pools.push(RecyclePool::new(POOL_CAPACITY));
            i += 1;
        }
        Scheduler {
            queue: GlobalQueue::new(),
            queues,
            unparkers,
            sleeping_workers: 0,
            searching_workers: 0,
            notify_cursor: 0,
            shutdown: false,
            task_pools,
        }
    }

    /// Whom to tell of work, and how the cursor moves on: nobody if enough are looking for it, else
    /// the worker whose turn it is, and the reactor.
    pub open spec fn notifies(&self, wakeup: Wakeup, cursor: usize) -> bool {
        if self.searching_workers < ENOUGH_SEARCHING {
            &&& wakeup.reactor
            &&& wakeup.unpark == (if self.unparkers > 0 {
                Some((self.notify_cursor % self.unparkers) as usize)
            } else {
                None
            })
            &&& cursor == (if self.unparkers == 0 {
                self.notify_cursor
            } else {
                one_more(self.notify_cursor)
            })
        } else {
            &&& !wakeup.reactor
            &&& wakeup.unpark is None
            &&& cursor == self.notify_cursor
        }
    }

    /// Says whom to tell that there is work.
    pub fn notify(&mut self) -> (wakeup: Wakeup)
        ensures
            old(self).notifies(wakeup, final(self).notify_cursor),
            *final(self) == (Scheduler { notify_cursor: final(self).notify_cursor, ..*old(self) }),
            wakeup.reactor <==> old(self).searching_workers < 2,
            wakeup.unpark is Some <==> old(self).searching_workers < 2 && old(self).unparkers > 0,
            wakeup.unpark matches Some(w) ==> w == old(self).notify_cursor as int % old(self).unparkers as int,
            wakeup.unpark is None ==> final(self).notify_cursor == old(self).notify_cursor,
            wakeup.unpark is Some && old(self).notify_cursor < usize::MAX ==> final(self).notify_cursor == old(
                self,
            ).notify_cursor + 1,
    {
        if self.searching_workers >= ENOUGH_SEARCHING {
            return Wakeup { unpark: None, reactor: false };
        }
        if self.unparkers == 0 {
            return Wakeup { unpark: None, reactor: true };
        }
        let turn: usize = self.notify_cursor % self.unparkers;
        self.notify_cursor = incremented(self.notify_cursor);
        Wakeup { unpark: Some(turn), reactor: true }
    }

    /// Queues a task for whichever worker comes first, and says whom to tell.
    pub fn inject(&mut self, task: TaskId) -> (wakeup: Wakeup)
        requires
            old(self).wf(),
        ensures
            final(self).wf(),
            final(self).queue@ == old(self).queue@.push(task),
            old(self).notifies(wakeup, final(self).notify_cursor),
            *final(self) == (Scheduler {
                queue: final(self).queue,
                notify_cursor: final(self).notify_cursor,
                ..*old(self)
            }),
            final(self).waiting() == old(self).waiting().insert(task),
    {
        self.queue.push(task);
        proof {
            old(self).queue@.to_multiset_ensures();
            assert(self.waiting() =~= old(self).waiting().insert(task));
        }
        self.notify()
    }

    /// One attempt to take the oldest task of the common queue.
    pub fn steal(&mut self) -> (stolen: Steal)
        requires
            old(self).wf(),
        ensures
            final(self).wf(),
            crate::queues::steal_outcome(old(self).queue@, stolen, final(self).queue@),
            final(self).queue.attempts() == old(self).queue.attempts() + 1,
            *final(self) == (Scheduler { queue: final(self).queue, ..*old(self) }),
            match stolen {
                Steal::Success(task) => final(self).waiting().insert(task) == old(self).waiting(),
                _ => final(self).waiting() == old(self).waiting(),
            },
    {
        let stolen = self.queue.try_steal();
        proof {
            if let Steal::Success(task) = stolen {
                let all = old(self).queue@;
                first_and_rest(all, 1);
                assert(all.subrange(1, 1) =~= Seq::<TaskId>::empty());
                Seq::<TaskId>::empty().to_multiset_ensures();
                assert(self.waiting().insert(task) =~= old(self).waiting());
            }
        }
        stolen
    }

    /// Which pool a done task of a layout goes to: one of power-of-two classes from 32 bytes to 32
    /// kilobytes. Layouts that are empty, larger, or aligned more strictly than 16 have none.
    pub fn pool_index(layout: Layout) -> (index: Option<usize>)
        ensures
            index == spec_pool_index(layout),
            index matches Some(i) ==> crate::layout::is_class_of(layout.size as int, i as int),
    {
        if layout.align > CLASS_ALIGN || layout.size > MAX_CLASS_SIZE {
            return None;
        }
        if layout.size == 0 {
            return None;
        }
        Some(class_of(layout.size))
    }
}

/// A sequence is its first, the rest up to `n`, and what follows.
pub proof fn first_and_rest(all: Seq<TaskId>, n: int)
    requires
        1 <= n <= all.len(),
    ensures
        all.to_multiset() == all.skip(n).to_multiset().add(all.subrange(1, n).to_multiset()).insert(all[0]),
{
    let head = all.subrange(1, n);
    let tail = all.skip(n);
    assert(all =~= seq![all[0]] + (head + tail));
    vstd::seq_lib::lemma_multiset_commutative(seq![all[0]], head + tail);
    vstd::seq_lib::lemma_multiset_commutative(head, tail);
    let empty = Seq::<TaskId>::empty();
    empty.to_multiset_ensures();
    assert(seq![all[0]] =~= empty.push(all[0]));
    tail.to_multiset_ensures();
    all.to_multiset_ensures();
    assert(all.to_multiset() =~= tail.to_multiset().add(head.to_multiset()).insert(all[0]));
}

/// Moving tasks between two queues.
proof fn two_queues_changed(before: Seq<LocalQueue>, after: Seq<LocalQueue>, i: int, j: int)
    requires
        0 <= i < before.len(),
        0 <= j < before.len(),
        i != j,
        after == before.update(i, after[i]).update(j, after[j]),
    ensures
        queues_tasks(after).add(before[i]@.to_multiset()).add(before[j]@.to_multiset()) == queues_tasks(before).add(
            after[i]@.to_multiset(),
        ).add(after[j]@.to_multiset()),
{
    let mid = before.update(i, after[i]);
    queues_tasks_update(before, i, after[i]);
    queues_tasks_update(mid, j, after[j]);
    let left = queues_tasks(after).add(before[i]@.to_multiset()).add(before[j]@.to_multiset());
    let right = queues_tasks(before).add(after[i]@.to_multiset()).add(after[j]@.to_multiset());
    assert forall|t: TaskId| left.count(t) == right.count(t) by {
        assert(queues_tasks(mid).add(before[i]@.to_multiset()).count(t) == queues_tasks(before).add(
            after[i]@.to_multiset(),
        ).count(t));
        assert(queues_tasks(after).add(mid[j]@.to_multiset()).count(t) == queues_tasks(mid).add(
            after[j]@.to_multiset(),
        ).count(t));
    }
    assert(left =~= right);
}

impl Scheduler {
    /// Nothing about the queues of the two differs.
    pub open spec fn same_queues(&self, other: &Scheduler) -> bool {
        &&& self.queue@ == other.queue@
        &&& self.queues@.len() == other.queues@.len()
        &&& forall|i: int| #![trigger self.queues@[i]]
            0 <= i < self.queues@.len() ==> self.queues@[i]@ == other.queues@[i]@
    }

    /// Stealing from the queue of `victim` into that of `thief` turns this scheduler into `after`.
    pub open spec fn robbed(&self, thief: int, victim: int, task: TaskId, after: &Scheduler) -> bool {
        let all = self.queues@[victim]@;
        let batch = crate::queues::batch_of(all.len());
        &&& all.len() > 0
        &&& task == all[0]
        &&& after.queue == self.queue
        &&& after.queues@.len() == self.queues@.len()
        &&& after.queues@[thief]@ == self.queues@[thief]@ + all.subrange(1, 1 + batch)
        &&& after.queues@[victim]@ == all.skip(1 + batch)
        &&& forall|i: int| #![trigger after.queues@[i]]
            0 <= i < self.queues@.len() && i != thief && i != victim ==> after.queues@[i]@ == self.queues@[i]@
    }

    /// Taking from the common queue into that of `thief` turns this scheduler into `after`.
    pub open spec fn refilled(&self, thief: int, task: TaskId, after: &Scheduler) -> bool {
        &&& self.queue@.len() > 0
        &&& task == self.queue@[0]
        &&& exists|count: int|
            #[trigger] crate::queues::batch_moved(
                self.queue@,
                self.queues@[thief]@,
                count,
                after.queue@,
                after.queues@[thief]@,
            )
        &&& after.queues@.len() == self.queues@.len()
        &&& forall|i: int| #![trigger after.queues@[i]]
            0 <= i < self.queues@.len() && i != thief ==> after.queues@[i]@ == self.queues@[i]@
    }

    /// Steals from one worker for another.
    pub fn steal_local(&mut self, thief: usize, victim: usize) -> (task: Option<TaskId>)
        requires
            old(self).wf(),
            thief < old(self).queues@.len(),
            victim < old(self).queues@.len(),
            thief != victim,
        ensures
            final(self).wf(),
            final(self).same_but_queues(old(self)),
            match task {
                Some(t) => {
                    &&& old(self).robbed(thief as int, victim as int, t, final(self))
                    &&& final(self).waiting().insert(t) == old(self).waiting()
                },
                None => {
                    &&& old(self).queues@[victim as int]@.len() == 0
                    &&& final(self).queue == old(self).queue
                    &&& final(self).same_queues(old(self))
                    &&& final(self).waiting() == old(self).waiting()
                },
            },
    {
        let ghost before = self.queues@;
        let task = if thief < victim {
            let (low, high) = self.queues.as_mut_slice().split_at_mut(victim);
            low[thief].steal_into(&mut high[0])
        } else {
            let (low, high) = self.queues.as_mut_slice().split_at_mut(thief);
            high[0].steal_into(&mut low[victim])
        };
        proof {
            let t = thief as int;
            let v = victim as int;
            let after = self.queues@;
            assert(after =~= before.update(t, after[t]).update(v, after[v]));
            two_queues_changed(before, after, t, v);
            let all = before[v]@;
            if let Some(stolen) = task {
                let n = 1 + crate::queues::batch_of(all.len());
                first_and_rest(all, n);
                vstd::seq_lib::lemma_multiset_commutative(before[t]@, all.subrange(1, n));
                let left = self.waiting().insert(stolen);
                let right = old(self).waiting();
                assert forall|x: TaskId| left.count(x) == right.count(x) by {
                    assert(queues_tasks(after).add(before[t]@.to_multiset()).add(before[v]@.to_multiset()).count(x)
                        == queues_tasks(before).add(after[t]@.to_multiset()).add(after[v]@.to_multiset()).count(x));
                }
                assert(left =~= right);
            } else {
                let left = self.waiting();
                let right = old(self).waiting();
                assert forall|x: TaskId| left.count(x) == right.count(x) by {
                    assert(queues_tasks(after).add(before[t]@.to_multiset()).add(before[v]@.to_multiset()).count(x)
                        == queues_tasks(before).add(after[t]@.to_multiset()).add(after[v]@.to_multiset()).count(x));
                }
                assert(left =~= right);
            }
        }
        task
    }

    /// One attempt to take the oldest task of the common queue, and a batch of the next oldest into
    /// the queue of `thief`.
    pub fn steal_batch(&mut self, thief: usize) -> (stolen: Steal)
        requires
            old(self).wf(),
            thief < old(self).queues@.len(),
        ensures
            final(self).wf(),
            final(self).same_but_queues(old(self)),
            final(self).queue.attempts() == old(self).queue.attempts() + 1,
            match stolen {
                Steal::Success(t) => {
                    &&& old(self).refilled(thief as int, t, final(self))
                    &&& final(self).waiting().insert(t) == old(self).waiting()
                },
                _ => {
                    &&& stolen is Empty <==> old(self).queue@.len() == 0
                    &&& final(self).same_queues(old(self))
                    &&& final(self).waiting() == old(self).waiting()
                },
            },
    {
        let ghost before = self.queues@;
        let ghost common = self.queue@;
        let stolen = self.queue.try_steal_batch_and_pop(&mut self.queues[thief]);
        proof {
            let t = thief as int;
            let after = self.queues@;
            assert(after =~= before.update(t, after[t]));
            queues_tasks_update(before, t, after[t]);
            let own = queues_tasks(after).add(before[t]@.to_multiset());
            let other = queues_tasks(before).add(after[t]@.to_multiset());
            if let Steal::Success(task) = stolen {
                let count = choose|count: int|
                    #[trigger] crate::queues::batch_moved(common, before[t]@, count, self.queue@, after[t]@);
                first_and_rest(common, count);
                vstd::seq_lib::lemma_multiset_commutative(before[t]@, common.subrange(1, count));
                let left = self.waiting().insert(task);
                let right = old(self).waiting();
                assert forall|x: TaskId| left.count(x) == right.count(x) by {
                    assert(own.count(x) == other.count(x));
                }
                assert(left =~= right);
            } else {
                let left = self.waiting();
                let right = old(self).waiting();
                assert forall|x: TaskId| left.count(x) == right.count(x) by {
                    assert(own.count(x) == other.count(x));
                }
                assert(left =~= right);
            }
        }
        stolen
    }

    /// Takes the oldest task of a worker's own queue.
    pub fn pop_local(&mut self, worker: usize) -> (task: Option<TaskId>)
        requires
            old(self).wf(),
            worker < old(self).queues@.len(),
        ensures
            final(self).wf(),
            final(self).same_but_queues(old(self)),
            final(self).queue == old(self).queue,
            match task {
                Some(t) => {
                    let own = old(self).queues@[worker as int]@;
                    &&& own.len() > 0
                    &&& t == own[0]
                    &&& final(self).queues@ == old(self).queues@.update(
                        worker as int,
                        final(self).queues@[worker as int],
                    )
                    &&& final(self).queues@[worker as int]@ == own.skip(1)
                    &&& final(self).waiting().insert(t) == old(self).waiting()
                },
                None => {
                    &&& old(self).queues@[worker as int]@.len() == 0
                    &&& final(self).same_queues(old(self))
                    &&& final(self).waiting() == old(self).waiting()
                },
            },
    {
        let ghost before = self.queues@;
        let task = self.queues[worker].pop();
        proof {
            let w = worker as int;
            let after = self.queues@;
            assert(after =~= before.update(w, after[w]));
            queues_tasks_update(before, w, after[w]);
            let own = queues_tasks(after).add(before[w]@.to_multiset());
            let other = queues_tasks(before).add(after[w]@.to_multiset());
            if let Some(t) = task {
                first_and_rest(before[w]@, 1);
                assert(before[w]@.subrange(1, 1) =~= Seq::<TaskId>::empty());
                Seq::<TaskId>::empty().to_multiset_ensures();
                let left = self.waiting().insert(t);
                let right = old(self).waiting();
                assert forall|x: TaskId| left.count(x) == right.count(x) by {
                    assert(own.count(x) == other.count(x));
                }
                assert(left =~= right);
            } else {
                let left = self.waiting();
                let right = old(self).waiting();
                assert forall|x: TaskId| left.count(x) == right.count(x) by {
                    assert(own.count(x) == other.count(x));
                }
                assert(left =~= right);
            }
        }
        task
    }

    /// Queues a task behind all others of a worker.
    pub fn push_local(&mut self, worker: usize, task: TaskId)
        requires
            old(self).wf(),
            worker < old(self).queues@.len(),
        ensures
            final(self).wf(),
            final(self).same_but_queues(old(self)),
            final(self).queue == old(self).queue,
            final(self).queues@ == old(self).queues@.update(worker as int, final(self).queues@[worker as int]),
            final(self).queues@[worker as int]@ == old(self).queues@[worker as int]@.push(task),
            final(self).waiting() == old(self).waiting().insert(task),
    {
        let ghost before = self.queues@;
        self.queues[worker].push(task);
        proof {
            let w = worker as int;
            let after = self.queues@;
            assert(after =~= before.update(w, after[w]));
            queues_tasks_update(before, w, after[w]);
            before[w]@.to_multiset_ensures();
            let own = queues_tasks(after).add(before[w]@.to_multiset());
            let other = queues_tasks(before).add(after[w]@.to_multiset());
            let left = self.waiting();
            let right = old(self).waiting().insert(task);
            assert forall|x: TaskId| left.count(x) == right.count(x) by {
                assert(own.count(x) == other.count(x));
            }
            assert(left =~= right);
        }
    }
}

impl Scheduler {
    /// Where the task for a future of `layout` comes from, and what that does to the pools: the
    /// youngest done task of the right class that the thread has kept, or else the oldest that the
    /// scheduler has, or else a new one, whose memory takes up the whole class.
    pub open spec fn plans(
        &self,
        context: &Context,
        layout: Layout,
        plan: SpawnPlan,
        after: &Scheduler,
        context_after: &Context,
    ) -> bool {
        match spec_pool_index(layout) {
            None => {
                &&& plan == SpawnPlan::Create(None)
                &&& *after == *self
                &&& *context_after == *context
            },
            Some(index) => {
                let i = index as int;
                let kept = context.local_task_pool@[i]@;
                let shared = self.task_pools@[i]@;
                if kept.len() > 0 {
                    &&& plan == SpawnPlan::Reuse(kept.last())
                    &&& *after == *self
                    &&& context_after.local_task_pool@ == context.local_task_pool@.update(
                        i,
                        context_after.local_task_pool@[i],
                    )
                    &&& context_after.local_task_pool@[i]@ == kept.drop_last()
                } else if shared.len() > 0 {
                    &&& plan == SpawnPlan::Reuse(shared[0])
                    &&& *context_after == *context
                    &&& after.task_pools@ == self.task_pools@.update(i, after.task_pools@[i])
                    &&& after.task_pools@[i]@ == shared.skip(1)
                } else {
                    &&& plan == SpawnPlan::Create(
                        Some(Layout { size: crate::layout::class_size(i) as usize, align: CLASS_ALIGN }),
                    )
                    &&& *context_after == *context
                    &&& forall|k: int| #![trigger after.task_pools@[k]]
                        0 <= k < NUM_CLASSES ==> after.task_pools@[k]@ == self.task_pools@[k]@
                }
            },
        }
    }

    /// Decides where the task for a future of `layout` comes from. A done task is taken out of its
    /// pool. The task, once it holds the future, is to be injected.
    pub fn spawn(&mut self, context: &mut Context, layout: Layout) -> (plan: SpawnPlan)
        requires
            old(self).wf(),
            old(context).wf(),
        ensures
            final(self).wf(),
            final(context).wf(),
            old(self).plans(old(context), layout, plan, final(self), final(context)),
            *final(self) == (Scheduler { task_pools: final(self).task_pools, ..*old(self) }),
            *final(context) == (Context { local_task_pool: final(context).local_task_pool, ..*old(context) }),
    {
        match Self::pool_index(layout) {
            None => SpawnPlan::Create(None),
            Some(index) => {
                let ghost i = index as int;
                if context.local_task_pool[index].len() > 0 {
                    let ghost kept = context.local_task_pool@;
                    if let Some(task) = context.local_task_pool[index].pop() {
                        assert(context.local_task_pool@ =~= kept.update(i, context.local_task_pool@[i]));
                        return SpawnPlan::Reuse(task);
                    }
                }
                let ghost shared = self.task_pools@;
                match self.task_pools[index].pop() {
                    Some(task) => {
                        assert(self.task_pools@ =~= shared.update(i, self.task_pools@[i]));
                        SpawnPlan::Reuse(task)
                    },
                    None => SpawnPlan::Create(Some(Layout { size: block_size(index), align: CLASS_ALIGN })),
                }
            },
        }
    }
}

/// Where a done task went.
#[derive(Debug, Clone, Copy, PartialEq, Eq, Structural)]
pub enum Recycled {
    /// Into the thread's own pool.
    Kept,
    /// Into the scheduler's pool.
    Shared,
    /// Nowhere: it may be freed.
    Dropped,
}

/// Putting `task` where it `went` turns context and scheduler into those after.
pub open spec fn pooled(
    context: &Context,
    scheduler: &Scheduler,
    layout: Layout,
    task: TaskId,
    went: Recycled,
    context_after: &Context,
    scheduler_after: &Scheduler,
) -> bool {
    let i = spec_pool_index(layout)->0 as int;
    match went {
        Recycled::Kept => {
            &&& scheduler_after.task_pools == scheduler.task_pools
            &&& context_after.local_task_pool@ == context.local_task_pool@.update(i, context_after.local_task_pool@[i])
            &&& context_after.local_task_pool@[i]@ == context.local_task_pool@[i]@.push(task)
        },
        Recycled::Shared => {
            &&& context_after.local_task_pool == context.local_task_pool
            &&& scheduler_after.task_pools@ == scheduler.task_pools@.update(i, scheduler_after.task_pools@[i])
            &&& scheduler_after.task_pools@[i]@ == scheduler.task_pools@[i]@.push(task)
        },
        Recycled::Dropped => {
            &&& context_after.local_task_pool == context.local_task_pool
            &&& forall|k: int| #![trigger scheduler_after.task_pools@[k]]
                0 <= k < NUM_CLASSES ==> scheduler_after.task_pools@[k]@ == scheduler.task_pools@[k]@
        },
    }
}

impl Scheduler {
    /// Where a done task with memory of `layout` goes. It is used again only if nobody else holds
    /// it, and if its memory is of some class. The thread keeps what it has room for, and shares
    /// what the scheduler has room for.
    pub open spec fn recycles(&self, context: &Context, layout: Layout, sole_owner: bool) -> Recycled {
        match spec_pool_index(layout) {
            Some(index) if sole_owner => {
                if context.local_task_pool@[index as int]@.len() < crate::executor::context::LOCAL_POOL_CAPACITY {
                    Recycled::Kept
                } else if self.task_pools@[index as int]@.len() < POOL_CAPACITY {
                    Recycled::Shared
                } else {
                    Recycled::Dropped
                }
            },
            _ => Recycled::Dropped,
        }
    }

    /// Puts a done task where it can be used again.
    pub fn recycle_task(&mut self, context: &mut Context, task: TaskId, layout: Layout, sole_owner: bool) -> (went:
        Recycled)
        requires
            old(self).wf(),
            old(context).wf(),
        ensures
            final(self).wf(),
            final(context).wf(),
            *final(self) == (Scheduler { task_pools: final(self).task_pools, ..*old(self) }),
            *final(context) == (Context { local_task_pool: final(context).local_task_pool, ..*old(context) }),
            went == old(self).recycles(old(context), layout, sole_owner),
            pooled(old(context), old(self), layout, task, went, final(context), final(self)),
    {
        if !sole_owner {
            return Recycled::Dropped;
        }
        match Self::pool_index(layout) {
            None => Recycled::Dropped,
            Some(index) => {
                let ghost i = index as int;
                if context.local_task_pool[index].len() < crate::executor::context::LOCAL_POOL_CAPACITY {
                    let ghost kept = context.local_task_pool@;
                    context.local_task_pool[index].push(task);
                    assert(context.local_task_pool@ =~= kept.update(i, context.local_task_pool@[i]));
                    Recycled::Kept
                } else {
                    let ghost shared = self.task_pools@;
                    let kept = self.task_pools[index].push(task);
                    assert(self.task_pools@ =~= shared.update(i, self.task_pools@[i]));
                    if kept {
                        Recycled::Shared
                    } else {
                        Recycled::Dropped
                    }
                }
            },
        }
    }
}

/// Memory made for a future of some class fits every future of that class: it is large enough and
/// aligned strictly enough, and it is of that class itself.
pub proof fn law_pooled_memory_fits(layout: Layout)
    requires
        spec_pool_index(layout) is Some,
    ensures
        ({
            let index = spec_pool_index(layout)->0;
            let block = Layout { size: crate::layout::class_size(index as int) as usize, align: CLASS_ALIGN };
            &&& index < NUM_CLASSES
            &&& layout.size <= block.size
            &&& layout.align <= block.align
            &&& spec_pool_index(block) == Some(index)
        }),
{
    let size = layout.size as int;
    crate::layout::law_class_exists(size);
    let class = crate::layout::spec_class_of(size);
    let block = crate::layout::class_size(class);
    crate::layout::class_sizes_end();
    crate::layout::class_size_grows(class, NUM_CLASSES - 1);
    if class > 0 {
        crate::layout::class_size_grows(class - 1, class);
    }
    assert(crate::layout::is_class_of(block, class));
    crate::layout::law_class_exists(block);
    crate::layout::law_class_is_unique(block, class, crate::layout::spec_class_of(block));
}

/// A task that a thread has just kept is the next that it uses again for a future of the same class.
pub proof fn law_kept_task_is_reused(
    first: Scheduler,
    context1: Context,
    task: TaskId,
    layout: Layout,
    second: Scheduler,
    context2: Context,
    wanted: Layout,
    plan: SpawnPlan,
    third: Scheduler,
    context3: Context,
)
    requires
        spec_pool_index(layout) is Some,
        spec_pool_index(wanted) == spec_pool_index(layout),
        context1.wf(),
        context2.wf(),
        pooled(&context1, &first, layout, task, Recycled::Kept, &context2, &second),
        second.plans(&context2, wanted, plan, &third, &context3),
    ensures
        plan == SpawnPlan::Reuse(task),
        context3.local_task_pool@[spec_pool_index(layout)->0 as int]@
            == context1.local_task_pool@[spec_pool_index(layout)->0 as int]@,
{
}

} // verus!
