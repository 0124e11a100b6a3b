use crate::counter::{decremented, incremented};
use crate::cpus::cpu_count;
use crate::executor::context::Context;
use crate::executor::scheduler::{Recycled, Scheduler, Wakeup};
use crate::executor::stats::Stats;
use crate::executor::task::{ExecState, Task};
use crate::layout::Layout;
use crate::queues::{Steal, TaskId};
use vstd::prelude::*;

verus! {

/// How many polls a worker makes before it gives a task away.
pub const BUDGET: u8 = 128;

/// How many times in a row a worker runs what is in its slot before it looks elsewhere.
pub const LIFO_POLLS: u8 = 3;

/// How many times a worker looks for work once more before it prepares to sleep.
pub const SPINS: u8 = 150;

/// One thread's part in running tasks.
pub struct Worker {
    /// Which worker this is, and which local queue is its own.
    pub id: usize,
    /// How many tasks the worker has been given.
    pub tick: usize,
    /// How many polls are left before a task is given away.
    pub budget: u8,
    /// The state of the generator that picks whom to steal from.
    pub rng: u32,
    /// How many times in a row the task came from the slot.
    pub lifo_count: u8,
    pub stats: Stats,
}

/// The number that follows `x` in the xorshift sequence.
pub open spec fn xorshift(x: u32) -> u32 {
    let a = x ^ (x << 13u32);
    let b = a ^ (a >> 17u32);
    b ^ (b << 5u32)
}

/// The generator never gets stuck: from a number other than zero it goes to another, and never to
/// zero.
pub proof fn law_xorshift_moves_on(x: u32)
    requires
        x != 0,
    ensures
        xorshift(x) != 0,
        xorshift(x) != x,
{
    assert(x != 0 ==> ({
        let a = x ^ (x << 13u32);
        let b = a ^ (a >> 17u32);
        (b ^ (b << 5u32)) != 0 && (b ^ (b << 5u32)) != x
    })) by (bit_vector);
}

/// The generator loses nothing: different numbers have different successors.
pub proof fn law_xorshift_is_injective(x: u32, y: u32)
    requires
        x != y,
    ensures
        xorshift(x) != xorshift(y),
{
    assert(x != y ==> ({
        let a = x ^ (x << 13u32);
        let b = a ^ (a >> 17u32);
        let c = y ^ (y << 13u32);
        let d = c ^ (c >> 17u32);
        (b ^ (b << 5u32)) != (d ^ (d << 5u32))
    })) by (bit_vector);
}

/// The `i`-th place in a round of `len` that begins at `start`.
pub open spec fn round_robin(start: int, i: int, len: int) -> int {
    if start + i < len {
        start + i
    } else {
        start + i - len
    }
}

impl Worker {
    pub open spec fn wf(&self) -> bool {
        self.stats.wf()
    }

    /// A worker that has done nothing yet.
    pub open spec fn fresh(id: usize) -> Worker {
        Worker {
            id,
            tick: 0,
            budget: BUDGET,
            rng: if (id as u32) == u32::MAX {
                0
            } else {
                ((id as u32) + 1) as u32
            },
            lifo_count: 0,
            stats: Stats { tasks_in_batch: 0, interval: crate::executor::stats::INITIAL_INTERVAL },
        }
    }

    pub fn new(id: usize) -> (worker: Self)
        ensures
            worker.wf(),
            worker == Worker::fresh(id),
    {
        Worker {
            id,
            tick: 0,
            budget: BUDGET,
            rng: (id as u32).wrapping_add(1),
            lifo_count: 0,
            stats: Stats::new(),
        }
    }

    /// Draws a number.
    pub fn fast_rng(&mut self) -> (drawn: u32)
        ensures
            drawn == xorshift(old(self).rng),
            *final(self) == (Worker { rng: drawn, ..*old(self) }),
    {
        self.rng = self.rng ^ (self.rng << 13u32);
        self.rng = self.rng ^ (self.rng >> 17u32);
        self.rng = self.rng ^ (self.rng << 5u32);
        self.rng
    }
}

impl Worker {
    /// The worker has a queue of its own among those of the scheduler.
    pub open spec fn employed(&self, scheduler: &Scheduler) -> bool {
        &&& self.wf()
        &&& scheduler.wf()
        &&& self.id < scheduler.queues@.len()
    }

    /// Giving a task away when the budget is spent, first what is in the slot, or else the oldest in
    /// the worker's own queue, turns worker, context and scheduler into those after.
    pub open spec fn yields(
        &self,
        context: &Context,
        scheduler: &Scheduler,
        wakeup: Option<Wakeup>,
        after: &Worker,
        context_after: &Context,
        scheduler_after: &Scheduler,
    ) -> bool {
        let own = scheduler.queues@[self.id as int]@;
        if self.budget > 0 {
            &&& wakeup is None
            &&& *after == *self
            &&& *context_after == *context
            &&& *scheduler_after == *scheduler
        } else {
            &&& *after == (Worker { budget: BUDGET, ..*self })
            &&& *context_after == (Context { lifo_slot: None, ..*context })
            &&& scheduler_after.queues@.len() == scheduler.queues@.len()
            &&& forall|i: int| #![trigger scheduler_after.queues@[i]]
                0 <= i < scheduler.queues@.len() && i != self.id ==> scheduler_after.queues@[i]@
                    == scheduler.queues@[i]@
            &&& scheduler_after.sleeping_workers == scheduler.sleeping_workers
            &&& scheduler_after.searching_workers == scheduler.searching_workers
            &&& scheduler_after.unparkers == scheduler.unparkers
            &&& scheduler_after.shutdown == scheduler.shutdown
            &&& scheduler_after.task_pools == scheduler.task_pools
            &&& match context.lifo_slot {
                Some(task) => {
                    &&& wakeup matches Some(w) && scheduler.notifies(w, scheduler_after.notify_cursor)
                    &&& scheduler_after.queue@ == scheduler.queue@.push(task)
                    &&& scheduler_after.queues@[self.id as int]@ == own
                },
                None if own.len() > 0 => {
                    &&& wakeup matches Some(w) && scheduler.notifies(w, scheduler_after.notify_cursor)
                    &&& scheduler_after.queue@ == scheduler.queue@.push(own[0])
                    &&& scheduler_after.queues@[self.id as int]@ == own.skip(1)
                },
                None => {
                    &&& wakeup is None
                    &&& scheduler_after.notify_cursor == scheduler.notify_cursor
                    &&& scheduler_after.queue@ == scheduler.queue@
                    &&& scheduler_after.queues@[self.id as int]@ == own
                },
            }
        }
    }

    /// Gives a task away if the budget is spent, so that others may run it.
    pub fn cooperative_yield(&mut self, context: &mut Context, scheduler: &mut Scheduler) -> (wakeup: Option<Wakeup>)
        requires
            old(self).employed(old(scheduler)),
        ensures
            final(self).employed(final(scheduler)),
            old(self).yields(
                old(context),
                old(scheduler),
                wakeup,
                final(self),
                final(context),
                final(scheduler),
            ),
            crate::executor::task::ready_tasks(final(context), final(scheduler))
                == crate::executor::task::ready_tasks(old(context), old(scheduler)),
    {
        if self.budget > 0 {
            return None;
        }
        self.budget = BUDGET;
        let task = match context.lifo_slot.take() {
            Some(task) => Some(task),
            None => scheduler.pop_local(self.id),
        };
        match task {
            Some(task) => Some(scheduler.inject(task)),
            None => None,
        }
    }

    /// The worker takes its next task from the slot.
    pub open spec fn turns_to_slot(&self, context: &Context) -> bool {
        self.lifo_count < LIFO_POLLS && context.lifo_slot is Some
    }

    /// Choosing the next task turns worker, context and scheduler into those after. What is in the
    /// slot comes first, unless that was so too often in a row; then the oldest in the worker's own
    /// queue; then, every so many ticks, the oldest in the common queue, on which one attempt is made.
    pub open spec fn chooses(
        &self,
        context: &Context,
        scheduler: &Scheduler,
        task: Option<TaskId>,
        after: &Worker,
        context_after: &Context,
        scheduler_after: &Scheduler,
    ) -> bool {
        let own = scheduler.queues@[self.id as int]@;
        if self.turns_to_slot(context) {
            &&& task == context.lifo_slot
            &&& *after == (Worker { lifo_count: (self.lifo_count + 1) as u8, ..*self })
            &&& *context_after == (Context { lifo_slot: None, ..*context })
            &&& *scheduler_after == *scheduler
        } else {
            &&& *after == (Worker { lifo_count: 0, ..*self })
            &&& *context_after == *context
            &&& scheduler_after.same_but_queues(scheduler)
            &&& if own.len() > 0 {
                &&& task == Some(own[0])
                &&& scheduler_after.queue == scheduler.queue
                &&& scheduler_after.queues@ == scheduler.queues@.update(
                    self.id as int,
                    scheduler_after.queues@[self.id as int],
                )
                &&& scheduler_after.queues@[self.id as int]@ == own.skip(1)
            } else {
                &&& if self.tick % (self.stats.interval as usize) == 0 {
                    scheduler_after.queue.attempts() == scheduler.queue.attempts() + 1
                } else {
                    scheduler_after.queue == scheduler.queue
                }
                &&& match task {
                    Some(t) => {
                        &&& self.tick % (self.stats.interval as usize) == 0
                        &&& scheduler.refilled(self.id as int, t, scheduler_after)
                    },
                    None => scheduler_after.same_queues(scheduler),
                }
            }
        }
    }

    /// Whether it is the turn of the common queue.
    pub fn turns_to_common(&self) -> (turn: bool)
        requires
            self.wf(),
        ensures
            turn == (self.tick % (self.stats.interval as usize) == 0),
    {
        let interval: usize = self.stats.tuned_interval() as usize;
        self.tick % interval == 0
    }

    /// Chooses the next task. There may be none although the common queue is not empty: it may not
    /// be its turn, or the attempt on it may have failed.
    pub fn next_local_task(&mut self, context: &mut Context, scheduler: &mut Scheduler) -> (task: Option<TaskId>)
        requires
            old(self).employed(old(scheduler)),
        ensures
            final(self).employed(final(scheduler)),
            old(self).chooses(
                old(context),
                old(scheduler),
                task,
                final(self),
                final(context),
                final(scheduler),
            ),
            match task {
                Some(t) => crate::executor::task::ready_tasks(final(context), final(scheduler)).insert(t)
                    == crate::executor::task::ready_tasks(old(context), old(scheduler)),
                None => crate::executor::task::ready_tasks(final(context), final(scheduler))
                    == crate::executor::task::ready_tasks(old(context), old(scheduler)),
            },
    {
        if self.lifo_count < LIFO_POLLS {
            if let Some(task) = context.lifo_slot.take() {
                self.lifo_count = self.lifo_count + 1;
                return Some(task);
            }
        }
        self.lifo_count = 0;
        let ghost before = *scheduler;
        if let Some(task) = scheduler.pop_local(self.id) {
            proof {
                assert(crate::executor::task::ready_tasks(context, scheduler).insert(task)
                    =~= crate::executor::task::ready_tasks(old(context), old(scheduler)));
            }
            return Some(task);
        }
        if self.turns_to_common() {
            if let Steal::Success(task) = scheduler.steal_batch(self.id) {
                proof {
                    assert(scheduler.queues@.len() == before.queues@.len());
                    assert(before.refilled(self.id as int, task, scheduler));
                    assert(crate::executor::task::ready_tasks(context, scheduler).insert(task)
                        =~= crate::executor::task::ready_tasks(old(context), old(scheduler)));
                }
                return Some(task);
            }
        }
        None
    }
}

impl Worker {
    /// No other worker has anything queued.
    pub open spec fn others_idle(&self, scheduler: &Scheduler) -> bool {
        forall|v: int| #![trigger scheduler.queues@[v]]
            0 <= v < scheduler.queues@.len() && v != self.id ==> scheduler.queues@[v]@.len() == 0
    }

    /// Of the places before the `i`-th in a round that begins at `start`, each is the worker's own or
    /// has nothing queued.
    pub open spec fn passed(&self, scheduler: &Scheduler, start: int, i: int) -> bool {
        let len = scheduler.queues@.len() as int;
        forall|j: int| #![trigger round_robin(start, j, len)]
            0 <= j < i ==> round_robin(start, j, len) == self.id
                || scheduler.queues@[round_robin(start, j, len)]@.len() == 0
    }

    /// Where the round of victims begins, once the generator has drawn a number.
    pub open spec fn first_victim(&self, scheduler: &Scheduler) -> int {
        xorshift(self.rng) as int % scheduler.queues@.len() as int
    }

    /// Looking for work elsewhere turns the scheduler into the one after. The other workers are
    /// asked in turn, beginning with one drawn at random; the first that has something queued is
    /// robbed. If none has, one attempt is made on the common queue, which may have to be repeated.
    pub open spec fn steals(&self, scheduler: &Scheduler, stolen: Steal, scheduler_after: &Scheduler) -> bool {
        let len = scheduler.queues@.len() as int;
        &&& scheduler_after.same_but_queues(scheduler)
        &&& if self.others_idle(scheduler) {
            &&& scheduler_after.queue.attempts() == scheduler.queue.attempts() + 1
            &&& match stolen {
                Steal::Success(task) => scheduler.refilled(self.id as int, task, scheduler_after),
                _ => {
                    &&& stolen is Empty <==> scheduler.queue@.len() == 0
                    &&& scheduler_after.same_queues(scheduler)
                },
            }
        } else {
            &&& stolen matches Steal::Success(task)
            &&& exists|i: int|
                {
                    &&& 0 <= i < len
                    &&& #[trigger] self.passed(scheduler, self.first_victim(scheduler), i)
                    &&& round_robin(self.first_victim(scheduler), i, len) != self.id
                    &&& scheduler.robbed(
                        self.id as int,
                        round_robin(self.first_victim(scheduler), i, len),
                        task,
                        scheduler_after,
                    )
                }
        }
    }

    /// Looks for work elsewhere, once.
    pub fn steal(&mut self, scheduler: &mut Scheduler) -> (stolen: Steal)
        requires
            old(self).employed(old(scheduler)),
        ensures
            final(self).employed(final(scheduler)),
            *final(self) == (Worker { rng: xorshift(old(self).rng), ..*old(self) }),
            old(self).steals(old(scheduler), stolen, final(scheduler)),
            (exists|v: int|
                0 <= v < old(scheduler).queues@.len() && v != old(self).id && (#[trigger] old(
                    scheduler,
                ).queues@[v])@.len() > 0) ==> exists|v: int|
                {
                    &&& 0 <= v < old(scheduler).queues@.len()
                    &&& v != old(self).id
                    &&& (#[trigger] old(scheduler).queues@[v])@.len() > 0
                    &&& stolen == Steal::Success(old(scheduler).queues@[v]@[0])
                },
            (forall|v: int|
                0 <= v < old(scheduler).queues@.len() && v != old(self).id ==> (#[trigger] old(
                    scheduler,
                ).queues@[v])@.len() == 0) ==> match stolen {
                Steal::Success(task) => old(scheduler).queue@.len() > 0 && task == old(scheduler).queue@[0],
                Steal::Empty => old(scheduler).queue@.len() == 0,
                Steal::Retry => old(scheduler).queue@.len() > 0,
            },
            match stolen {
                Steal::Success(task) => final(scheduler).waiting().insert(task) == old(scheduler).waiting(),
                _ => final(scheduler).waiting() == old(scheduler).waiting(),
            },
    {
        let drawn: u32 = self.fast_rng();
        let len: usize = scheduler.queues.len();
        let start: usize = drawn as usize % len;
        let mut i: usize = 0;
        while i < len
            invariant
                i <= len,
                len == scheduler.queues@.len(),
                start < len,
                start == old(self).first_victim(old(scheduler)),
                self.employed(scheduler),
                self.id == old(self).id,
                *self == (Worker { rng: xorshift(old(self).rng), ..*old(self) }),
                scheduler.same_but_queues(old(scheduler)),
                scheduler.same_queues(old(scheduler)),
                scheduler.queue == old(scheduler).queue,
                scheduler.waiting() == old(scheduler).waiting(),
                old(self).passed(old(scheduler), start as int, i as int),
            decreases len - i,
        {
            let victim: usize = if i < len - start {
                start + i
            } else {
                i - (len - start)
            };
            assert(victim == round_robin(start as int, i as int, len as int));
            if victim != self.id {
                let ghost before = *scheduler;
                if let Some(task) = scheduler.steal_local(self.id, victim) {
                    proof {
                        assert(before.queues@[victim as int]@ == old(scheduler).queues@[victim as int]@);
                        assert(before.queues@[self.id as int]@ == old(scheduler).queues@[self.id as int]@);
                        assert forall|k: int| #![trigger scheduler.queues@[k]]
                            0 <= k < len && k != self.id && k != victim implies scheduler.queues@[k]@
                            == old(scheduler).queues@[k]@ by {
                            assert(before.queues@[k]@ == old(scheduler).queues@[k]@);
                        }
                        assert(old(scheduler).robbed(self.id as int, victim as int, task, scheduler));
                        assert(!old(self).others_idle(old(scheduler)));
                    }
                    return Steal::Success(task);
                }
                proof {
                    assert(before.queues@[victim as int]@ == old(scheduler).queues@[victim as int]@);
                    assert forall|k: int| #![trigger scheduler.queues@[k]] 0 <= k < len implies scheduler.queues@[k]@
                        == old(scheduler).queues@[k]@ by {
                        assert(before.queues@[k]@ == old(scheduler).queues@[k]@);
                    }
                }
            }
            i += 1;
        }
        proof {
            assert forall|v: int| #![trigger old(scheduler).queues@[v]]
                0 <= v < len && v != self.id implies old(scheduler).queues@[v]@.len() == 0 by {
                let j = if v >= start {
                    v - start
                } else {
                    v - start + len
                };
                assert(round_robin(start as int, j, len as int) == v);
            }
        }
        let ghost before = *scheduler;
        let stolen = scheduler.steal_batch(self.id);
        proof {
            assert forall|k: int| #![trigger scheduler.queues@[k]]
                0 <= k < len && (k != self.id || stolen !is Success) implies scheduler.queues@[k]@
                == old(scheduler).queues@[k]@ by {
                assert(before.queues@[k]@ == old(scheduler).queues@[k]@);
            }
            assert(before.queues@[self.id as int]@ == old(scheduler).queues@[self.id as int]@);
        }
        stolen
    }
}

/// How far a search for work has come.
#[derive(Debug, Clone, Copy, PartialEq, Eq, Structural)]
pub enum Search {
    /// The first look around.
    First,
    /// Looking again, so many times more.
    Spinning(u8),
    /// One last look at the common queue.
    Last,
}

/// What came of one step of a search.
#[derive(Debug, Clone, Copy, PartialEq, Eq, Structural)]
pub enum Found {
    /// A task to run; the search is over.
    Task(TaskId),
    /// Nothing yet; the search goes on.
    Nothing(Search),
    /// Nothing at all; the worker counts as asleep, and is to sleep.
    Sleep,
}

/// What follows a look around at which nothing was to be had.
pub open spec fn next_search(search: Search) -> Search {
    match search {
        Search::First => Search::Spinning(SPINS),
        Search::Spinning(left) if left > 1 => Search::Spinning((left - 1) as u8),
        _ => Search::Last,
    }
}

/// How few workers have to be looking for work for one of `cpus` processors to look once more.
pub open spec fn few_searching(cpus: usize) -> usize {
    if cpus / 2 > 2 {
        cpus / 2
    } else {
        2
    }
}

/// What `scheduler` becomes when a worker ends its search.
pub open spec fn search_ended(scheduler: &Scheduler) -> Scheduler {
    Scheduler { searching_workers: crate::counter::one_less(scheduler.searching_workers), ..*scheduler }
}

/// Starts a search: one more worker is looking for work.
pub fn begin_search(scheduler: &mut Scheduler) -> (search: Search)
    ensures
        search == Search::First,
        *final(scheduler) == (Scheduler {
            searching_workers: crate::counter::one_more(old(scheduler).searching_workers),
            ..*old(scheduler)
        }),
{
    scheduler.searching_workers = incremented(scheduler.searching_workers);
    Search::First
}

fn end_search(scheduler: &mut Scheduler)
    ensures
        *final(scheduler) == search_ended(old(scheduler)),
{
    scheduler.searching_workers = decremented(scheduler.searching_workers);
}

/// What follows the last look of a search, or that there was none: a task is to be run; without one
/// the worker counts as asleep, and is to sleep.
pub fn after_last_look(looked: Option<Steal>, scheduler: &mut Scheduler) -> (found: Found)
    ensures
        match looked {
            Some(Steal::Success(task)) => {
                &&& found == Found::Task(task)
                &&& *final(scheduler) == *old(scheduler)
            },
            _ => {
                &&& found == Found::Sleep
                &&& *final(scheduler) == (Scheduler {
                    sleeping_workers: crate::counter::one_more(old(scheduler).sleeping_workers),
                    ..*old(scheduler)
                })
            },
        },
{
    if let Some(Steal::Success(task)) = looked {
        return Found::Task(task);
    }
    scheduler.sleeping_workers = incremented(scheduler.sleeping_workers);
    Found::Sleep
}

/// A worker that was asleep is awake.
pub fn end_sleep(scheduler: &mut Scheduler)
    ensures
        *final(scheduler) == (Scheduler {
            sleeping_workers: crate::counter::one_less(old(scheduler).sleeping_workers),
            ..*old(scheduler)
        }),
{
    scheduler.sleeping_workers = decremented(scheduler.sleeping_workers);
}

impl Worker {
    /// A look around that may be repeated, which `stolen` came of, and `scheduler_after`. A task
    /// ends the search. An attempt that has to be repeated leaves the search where it is.
    pub open spec fn looks_around(
        &self,
        search: Search,
        scheduler: &Scheduler,
        found: Found,
        scheduler_after: &Scheduler,
    ) -> bool {
        exists|stolen: Steal, mid: Scheduler|
            {
                &&& #[trigger] self.steals(scheduler, stolen, &mid)
                &&& match stolen {
                    Steal::Success(task) => {
                        &&& found == Found::Task(task)
                        &&& *scheduler_after == search_ended(&mid)
                    },
                    Steal::Retry => {
                        &&& found == Found::Nothing(search)
                        &&& *scheduler_after == mid
                    },
                    Steal::Empty => {
                        &&& found == Found::Nothing(next_search(search))
                        &&& *scheduler_after == mid
                    },
                }
            }
    }

    /// The last look: one attempt on the common queue, and only if few others are looking.
    pub open spec fn looks_last(
        &self,
        cpus: usize,
        scheduler: &Scheduler,
        found: Found,
        scheduler_after: &Scheduler,
    ) -> bool {
        let ended = search_ended(scheduler);
        match found {
            Found::Task(task) => {
                &&& ended.searching_workers < few_searching(cpus)
                &&& scheduler_after.queue.attempts() == scheduler.queue.attempts() + 1
                &&& crate::queues::steal_outcome(scheduler.queue@, Steal::Success(task), scheduler_after.queue@)
                &&& *scheduler_after == (Scheduler { queue: scheduler_after.queue, ..ended })
            },
            Found::Sleep => {
                &&& if ended.searching_workers < few_searching(cpus) {
                    &&& scheduler_after.queue.attempts() == scheduler.queue.attempts() + 1
                    &&& scheduler_after.queue@ == scheduler.queue@
                } else {
                    scheduler_after.queue == scheduler.queue
                }
                &&& *scheduler_after == (Scheduler {
                    queue: scheduler_after.queue,
                    sleeping_workers: crate::counter::one_more(scheduler.sleeping_workers),
                    ..ended
                })
            },
            Found::Nothing(_) => false,
        }
    }

    /// One step of a search for work, on a machine with `cpus` processors.
    pub fn search_step(&mut self, search: Search, scheduler: &mut Scheduler, cpus: usize) -> (found: Found)
        requires
            old(self).employed(old(scheduler)),
        ensures
            final(self).employed(final(scheduler)),
            match search {
                Search::Last => {
                    &&& *final(self) == *old(self)
                    &&& old(self).looks_last(cpus, old(scheduler), found, final(scheduler))
                },
                _ => {
                    &&& *final(self) == (Worker { rng: xorshift(old(self).rng), ..*old(self) })
                    &&& old(self).looks_around(search, old(scheduler), found, final(scheduler))
                },
            },
            search !is Last && (exists|v: int|
                0 <= v < old(scheduler).queues@.len() && v != old(self).id && (#[trigger] old(
                    scheduler,
                ).queues@[v])@.len() > 0) ==> exists|v: int|
                {
                    &&& 0 <= v < old(scheduler).queues@.len()
                    &&& v != old(self).id
                    &&& (#[trigger] old(scheduler).queues@[v])@.len() > 0
                    &&& found == Found::Task(old(scheduler).queues@[v]@[0])
                },
            match found {
                Found::Task(task) => final(scheduler).waiting().insert(task) == old(scheduler).waiting(),
                _ => final(scheduler).waiting() == old(scheduler).waiting(),
            },
    {
        match search {
            Search::Last => {
                end_search(scheduler);
                let few: usize = if cpus / 2 > 2 {
                    cpus / 2
                } else {
                    2
                };
                let looked = if scheduler.searching_workers < few {
                    Some(scheduler.steal())
                } else {
                    None
                };
                after_last_look(looked, scheduler)
            },
            _ => {
                let stolen = self.steal(scheduler);
                let ghost mid = *scheduler;
                assert(old(self).steals(old(scheduler), stolen, &mid));
                match stolen {
                    Steal::Success(task) => {
                        end_search(scheduler);
                        Found::Task(task)
                    },
                    Steal::Retry => Found::Nothing(search),
                    Steal::Empty => {
                        let next = match search {
                            Search::First => Search::Spinning(SPINS),
                            Search::Spinning(left) if left > 1 => Search::Spinning(left - 1),
                            _ => Search::Last,
                        };
                        Found::Nothing(next)
                    },
                }
            },
        }
    }

    /// One step of a search for work, on this machine.
    pub fn search(&mut self, search: Search, scheduler: &mut Scheduler) -> (found: Found)
        requires
            old(self).employed(old(scheduler)),
        ensures
            final(self).employed(final(scheduler)),
            match search {
                Search::Last => {
                    &&& *final(self) == *old(self)
                    &&& exists|cpus: usize|
                        #[trigger] old(self).looks_last(cpus, old(scheduler), found, final(scheduler))
                },
                _ => {
                    &&& *final(self) == (Worker { rng: xorshift(old(self).rng), ..*old(self) })
                    &&& old(self).looks_around(search, old(scheduler), found, final(scheduler))
                },
            },
            match found {
                Found::Task(task) => final(scheduler).waiting().insert(task) == old(scheduler).waiting(),
                _ => final(scheduler).waiting() == old(scheduler).waiting(),
            },
    {
        let cpus: usize = cpu_count();
        let found = self.search_step(search, scheduler, cpus);
        proof {
            assert(search is Last ==> old(self).looks_last(cpus, old(scheduler), found, scheduler));
        }
        found
    }
}

/// While a worker searches it counts as searching, and not after.
pub proof fn law_search_is_counted(worker: Worker, search: Search, before: Scheduler, found: Found, after: Scheduler)
    requires
        worker.looks_around(search, &before, found, &after),
    ensures
        after.searching_workers == (match found {
            Found::Nothing(_) => before.searching_workers,
            _ => crate::counter::one_less(before.searching_workers),
        }),
        after.sleeping_workers == before.sleeping_workers,
{
}

/// Work that waits in another worker's queue is found at the first look around, whichever worker has
/// it: a task that was the oldest of some other worker.
pub proof fn law_search_finds_work(
    worker: Worker,
    search: Search,
    before: Scheduler,
    found: Found,
    after: Scheduler,
    victim: int,
) -> (robbed: int)
    requires
        worker.looks_around(search, &before, found, &after),
        0 <= victim < before.queues@.len(),
        victim != worker.id,
        before.queues@[victim]@.len() > 0,
    ensures
        0 <= robbed < before.queues@.len(),
        robbed != worker.id,
        before.queues@[robbed]@.len() > 0,
        found == Found::Task(before.queues@[robbed]@[0]),
{
    let (stolen, mid) = choose|stolen: Steal, mid: Scheduler|
        {
            &&& #[trigger] worker.steals(&before, stolen, &mid)
            &&& match stolen {
                Steal::Success(task) => found == Found::Task(task),
                Steal::Retry => found == Found::Nothing(search),
                Steal::Empty => found == Found::Nothing(next_search(search)),
            }
        };
    crate::executor::laws::law_thief_robs_the_first(worker, before, stolen, mid, victim)
}

/// What came of polling a task.
#[derive(Debug, Clone, Copy, PartialEq, Eq)]
pub enum Polled {
    /// Its future is done, and the task went to be used again, or not.
    Done(Recycled),
    /// It waits to be woken.
    Idle,
    /// It was woken while it was polled, and is queued again; there may be somebody to tell.
    Again(Wakeup),
}

impl Worker {
    /// Takes on a task that came out of a queue. If it is scheduled, its future is to be polled,
    /// and the budget is charged for it; otherwise there is nothing to do.
    pub fn begin_execute<R>(&mut self, id: TaskId, task: &mut Task<R>, context: &mut Context) -> (poll: bool)
        ensures
            poll <==> old(task).state is Scheduled,
            poll ==> {
                &&& *final(self) == (Worker {
                    budget: if old(self).budget == 0 {
                        0
                    } else {
                        (old(self).budget - 1) as u8
                    },
                    ..*old(self)
                })
                &&& *final(task) == (Task { state: ExecState::Polling, ..*old(task) })
                &&& *final(context) == (Context { current_task: Some(id), ..*old(context) })
            },
            !poll ==> {
                &&& *final(self) == (Worker { tick: crate::counter::one_more(old(self).tick), ..*old(self) })
                &&& *final(task) == *old(task)
                &&& *final(context) == *old(context)
            },
    {
        match task.state {
            ExecState::Scheduled => {
                task.state = ExecState::Polling;
                self.budget = self.budget.saturating_sub(1);
                context.current_task = Some(id);
                true
            },
            _ => {
                self.tick = incremented(self.tick);
                false
            },
        }
    }

    /// What follows the poll of a task turns task, context and scheduler into those after. A done
    /// task goes where it can be used again. One that is not done waits to be woken, or is queued
    /// again if that has happened meanwhile.
    pub open spec fn follows_up<R>(
        id: TaskId,
        task: &Task<R>,
        context: &Context,
        scheduler: &Scheduler,
        ready: bool,
        layout: Layout,
        sole_owner: bool,
        polled: Polled,
        task_after: &Task<R>,
        scheduler_after: &Scheduler,
    ) -> bool {
        if ready {
            &&& polled == Polled::Done(scheduler.recycles(context, layout, sole_owner))
            &&& *task_after == (Task { state: ExecState::Completed, ..*task })
            &&& *scheduler_after == (Scheduler { task_pools: scheduler_after.task_pools, ..*scheduler })
        } else if task.state is Polling {
            &&& polled is Idle
            &&& *task_after == (Task { state: ExecState::Idle, ..*task })
            &&& *scheduler_after == *scheduler
        } else {
            &&& polled matches Polled::Again(wakeup)
            &&& scheduler.notifies(wakeup, scheduler_after.notify_cursor)
            &&& *task_after == *task
            &&& scheduler_after.queue@ == scheduler.queue@.push(id)
            &&& *scheduler_after == (Scheduler {
                queue: scheduler_after.queue,
                notify_cursor: scheduler_after.notify_cursor,
                ..*scheduler
            })
        }
    }

    /// Follows up on the poll of a task, whose memory is of `layout`. `ready` says that its future
    /// is done, `sole_owner` that nobody else holds the task.
    pub fn finish_execute<R>(
        &mut self,
        id: TaskId,
        task: &mut Task<R>,
        context: &mut Context,
        scheduler: &mut Scheduler,
        ready: bool,
        layout: Layout,
        sole_owner: bool,
    ) -> (polled: Polled)
        requires
            old(scheduler).wf(),
            old(context).wf(),
            old(self).wf(),
            old(task).state is Polling || old(task).state is Scheduled,
        ensures
            final(scheduler).wf(),
            final(context).wf(),
            final(self).wf(),
            final(self).tick == crate::counter::one_more(old(self).tick),
            final(self).stats.interval == old(self).stats.interval,
            final(self).stats.tasks_in_batch == (if old(self).stats.tasks_in_batch == u32::MAX {
                0
            } else {
                old(self).stats.tasks_in_batch + 1
            }),
            *final(self) == (Worker { tick: final(self).tick, stats: final(self).stats, ..*old(self) }),
            *final(context) == (Context {
                current_task: None,
                local_task_pool: final(context).local_task_pool,
                ..*old(context)
            }),
            Worker::follows_up(
                id,
                old(task),
                old(context),
                old(scheduler),
                ready,
                layout,
                sole_owner,
                polled,
                final(task),
                final(scheduler),
            ),
            crate::executor::scheduler::pooled(
                old(context),
                old(scheduler),
                layout,
                id,
                match polled {
                    Polled::Done(went) => went,
                    _ => Recycled::Dropped,
                },
                final(context),
                final(scheduler),
            ),
            crate::executor::task::ready_tasks(final(context), final(scheduler)) == (match polled {
                Polled::Again(_) => crate::executor::task::ready_tasks(old(context), old(scheduler)).insert(id),
                _ => crate::executor::task::ready_tasks(old(context), old(scheduler)),
            }),
    {
        self.stats.record_poll();
        context.current_task = None;
        self.tick = incremented(self.tick);
        if ready {
            task.state = ExecState::Completed;
            return Polled::Done(scheduler.recycle_task(context, id, layout, sole_owner));
        }
        match task.state {
            ExecState::Polling => {
                task.state = ExecState::Idle;
                Polled::Idle
            },
            _ => {
                let wakeup = scheduler.inject(id);
                assert(crate::executor::task::ready_tasks(context, scheduler)
                    =~= crate::executor::task::ready_tasks(old(context), old(scheduler)).insert(id));
                Polled::Again(wakeup)
            },
        }
    }
}

/// A wakeup is never lost: a task that was woken while it was polled, and is not done, waits in the
/// common queue again.
pub proof fn law_woken_task_is_queued_again<R>(
    id: TaskId,
    task: Task<R>,
    context: Context,
    scheduler: Scheduler,
    layout: Layout,
    sole_owner: bool,
    polled: Polled,
    task_after: Task<R>,
    scheduler_after: Scheduler,
)
    requires
        task.state is Scheduled,
        Worker::follows_up(
            id,
            &task,
            &context,
            &scheduler,
            false,
            layout,
            sole_owner,
            polled,
            &task_after,
            &scheduler_after,
        ),
    ensures
        task_after.state is Scheduled,
        scheduler_after.queue@.contains(id),
{
    assert(scheduler_after.queue@.last() == id);
}

/// What a worker is to do next.
#[derive(Debug, Clone, Copy, PartialEq, Eq, Structural)]
pub enum Action {
    /// Stop: the runtime is shutting down.
    Stop,
    /// Run a task.
    Run(TaskId),
    /// Look for work elsewhere.
    Search,
}

impl Action {
    /// The task to run, if any.
    pub open spec fn task(self) -> Option<TaskId> {
        match self {
            Action::Run(task) => Some(task),
            _ => None,
        }
    }
}

impl Worker {
    /// Deciding what to do next turns worker, context and scheduler into those after.
    pub open spec fn acts(
        &self,
        context: &Context,
        scheduler: &Scheduler,
        next: (Action, Option<Wakeup>),
        after: &Worker,
        context_after: &Context,
        scheduler_after: &Scheduler,
    ) -> bool {
        if scheduler.shutdown {
            &&& next.0 is Stop
            &&& next.1 is None
            &&& *after == *self
            &&& *context_after == *context
            &&& *scheduler_after == *scheduler
        } else {
            &&& next.0 !is Stop
            &&& exists|mid: Worker, context_mid: Context, scheduler_mid: Scheduler|
                {
                    &&& #[trigger] self.yields(context, scheduler, next.1, &mid, &context_mid, &scheduler_mid)
                    &&& mid.chooses(
                        &context_mid,
                        &scheduler_mid,
                        next.0.task(),
                        after,
                        context_after,
                        scheduler_after,
                    )
                }
        }
    }

    /// Decides what to do next. A worker stops when the runtime shuts down. Otherwise it gives a
    /// task away if its budget is spent, and chooses the next task to run.
    pub fn next_action(&mut self, context: &mut Context, scheduler: &mut Scheduler) -> (next: (Action, Option<Wakeup>))
        requires
            old(self).employed(old(scheduler)),
        ensures
            final(self).employed(final(scheduler)),
            old(self).acts(old(context), old(scheduler), next, final(self), final(context), final(scheduler)),
            match next.0 {
                Action::Run(task) => crate::executor::task::ready_tasks(final(context), final(scheduler)).insert(task)
                    == crate::executor::task::ready_tasks(old(context), old(scheduler)),
                _ => crate::executor::task::ready_tasks(final(context), final(scheduler))
                    == crate::executor::task::ready_tasks(old(context), old(scheduler)),
            },
    {
        if scheduler.shutdown {
            return (Action::Stop, None);
        }
        let wakeup = self.cooperative_yield(context, scheduler);
        let ghost mid = *self;
        let ghost context_mid = *context;
        let ghost scheduler_mid = *scheduler;
        let chosen = self.next_local_task(context, scheduler);
        let action = match chosen {
            Some(task) => Action::Run(task),
            None => Action::Search,
        };
        proof {
            assert(old(self).yields(old(context), old(scheduler), wakeup, &mid, &context_mid, &scheduler_mid));
            assert(mid.chooses(&context_mid, &scheduler_mid, action.task(), self, context, scheduler));
            assert(old(self).acts(old(context), old(scheduler), (action, wakeup), self, context, scheduler));
        }
        (action, wakeup)
    }
}

/// What is in the slot does not starve the queue: once the slot has been served often enough in a
/// row, what waits in the worker's own queue comes first.
pub proof fn law_slot_gives_way(
    worker: Worker,
    context: Context,
    scheduler: Scheduler,
    task: Option<TaskId>,
    after: Worker,
    context_after: Context,
    scheduler_after: Scheduler,
)
    requires
        worker.chooses(&context, &scheduler, task, &after, &context_after, &scheduler_after),
        worker.lifo_count <= LIFO_POLLS,
    ensures
        after.lifo_count <= LIFO_POLLS,
        worker.lifo_count == LIFO_POLLS && scheduler.queues@[worker.id as int]@.len() > 0 ==> task == Some(
            scheduler.queues@[worker.id as int]@[0],
        ),
{
}

/// The slot does not have its way for long: of four choices in a row, whatever happens between them,
/// three at most come from the slot.
pub proof fn law_slot_is_bounded(
    workers: Seq<Worker>,
    contexts: Seq<Context>,
    schedulers: Seq<Scheduler>,
    tasks: Seq<Option<TaskId>>,
    after: Seq<Worker>,
    contexts_after: Seq<Context>,
    schedulers_after: Seq<Scheduler>,
)
    requires
        workers.len() == LIFO_POLLS + 1,
        forall|i: int| #![trigger workers[i]]
            0 <= i < workers.len() ==> workers[i].chooses(
                &contexts[i],
                &schedulers[i],
                tasks[i],
                &after[i],
                &contexts_after[i],
                &schedulers_after[i],
            ),
        forall|i: int, j: int| #![trigger workers[i], workers[j]]
            0 <= i < workers.len() && j == i + 1 && j < workers.len() ==> workers[j].lifo_count == after[i].lifo_count,
    ensures
        exists|i: int| 0 <= i < workers.len() && !(#[trigger] workers[i]).turns_to_slot(&contexts[i]),
{
    if forall|i: int| 0 <= i < workers.len() ==> (#[trigger] workers[i]).turns_to_slot(&contexts[i]) {
        assert(workers[0].turns_to_slot(&contexts[0]));
        assert(workers[1].turns_to_slot(&contexts[1]));
        assert(workers[2].turns_to_slot(&contexts[2]));
        assert(workers[3].turns_to_slot(&contexts[3]));
    }
}

/// Whenever a worker has had the chance to give a task away, it may poll again, and no more often
/// than its budget says.
pub proof fn law_budget_is_renewed(
    worker: Worker,
    context: Context,
    scheduler: Scheduler,
    wakeup: Option<Wakeup>,
    after: Worker,
    context_after: Context,
    scheduler_after: Scheduler,
)
    requires
        worker.yields(&context, &scheduler, wakeup, &after, &context_after, &scheduler_after),
        worker.budget <= BUDGET,
    ensures
        0 < after.budget <= BUDGET,
{
}

} // verus!
