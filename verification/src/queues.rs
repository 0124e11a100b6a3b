//! The queues that tasks wait in.
use crossbeam::deque::Injector;
use crossbeam::deque::Worker as Deque;
use crossbeam::queue::ArrayQueue;
use vstd::prelude::*;

verus! {

/// A task, known to the queues by its number.
pub type TaskId = u64;

/// What came of an attempt to take a task out of a queue.
#[derive(Debug, Clone, Copy, PartialEq, Eq, Structural)]
pub enum Steal {
    /// The queue was empty at the time.
    Empty,
    /// A task was taken.
    Success(TaskId),
    /// Something got in the way; the attempt may be repeated.
    Retry,
}

/// `crossbeam::deque::Worker`, the owner's side of a work-stealing deque.
#[verifier::external_type_specification]
#[verifier::external_body]
#[verifier::reject_recursive_types(T)]
pub struct ExDeque<T>(Deque<T>);

/// `crossbeam::deque::Injector`, the shared queue that feeds the workers.
#[verifier::external_type_specification]
#[verifier::external_body]
#[verifier::reject_recursive_types(T)]
pub struct ExInjector<T>(crossbeam::deque::Injector<T>);

/// `crossbeam::queue::ArrayQueue`, a bounded queue.
#[verifier::external_type_specification]
#[verifier::external_body]
#[verifier::reject_recursive_types(T)]
pub struct ExArrayQueue<T>(crossbeam::queue::ArrayQueue<T>);

/// The tasks in a deque, oldest first.
pub uninterp spec fn deque_tasks(deque: Deque<u64>) -> Seq<u64>;

/// The deque was made by `new_fifo`, and no stealer of it is held anywhere.
pub uninterp spec fn deque_is_private_fifo(deque: Deque<u64>) -> bool;

/// The tasks in an injector, oldest first.
pub uninterp spec fn injector_tasks(injector: Injector<u64>) -> Seq<u64>;

/// The tasks in a bounded queue, oldest first.
pub uninterp spec fn bounded_tasks(queue: ArrayQueue<u64>) -> Seq<u64>;

/// How many tasks a bounded queue was made for.
pub uninterp spec fn bounded_capacity(queue: ArrayQueue<u64>) -> nat;

/// `crossbeam::deque::Worker::new_fifo` makes an empty deque whose tasks are pushed and popped at
/// opposite ends. It has no stealer yet.
#[verifier::external_body]
fn deque_new_fifo() -> (deque: Deque<u64>)
    ensures
        deque_tasks(deque) == Seq::<u64>::empty(),
        deque_is_private_fifo(deque),
{
    Deque::new_fifo()
}

/// `crossbeam::deque::Worker::push` adds a task behind all others.
#[verifier::external_body]
fn deque_push(deque: &mut Deque<u64>, task: u64)
    requires
        deque_is_private_fifo(*old(deque)),
    ensures
        deque_tasks(*final(deque)) == deque_tasks(*old(deque)).push(task),
        deque_is_private_fifo(*final(deque)),
{
    deque.push(task)
}

/// `crossbeam::deque::Worker::pop` takes the oldest task of a first-in first-out deque. With no
/// stealer about, it finds nothing only if there is nothing.
#[verifier::external_body]
fn deque_pop(deque: &mut Deque<u64>) -> (task: Option<u64>)
    requires
        deque_is_private_fifo(*old(deque)),
    ensures
        deque_is_private_fifo(*final(deque)),
        match task {
            Some(t) => {
                &&& deque_tasks(*old(deque)).len() > 0
                &&& t == deque_tasks(*old(deque))[0]
                &&& deque_tasks(*final(deque)) == deque_tasks(*old(deque)).skip(1)
            },
            None => {
                &&& deque_tasks(*old(deque)).len() == 0
                &&& deque_tasks(*final(deque)) == deque_tasks(*old(deque))
            },
        },
{
    deque.pop()
}

/// How many tasks a thief takes along, besides the one that it runs at once, from a deque that
/// holds `len`: half of the rest, rounded down, and no more than 31.
pub open spec fn batch_of(len: nat) -> int
    recommends
        len > 0,
{
    let half = (len - 1) / 2;
    if half <= 31 {
        half
    } else {
        31
    }
}

/// `crossbeam::deque::Stealer::steal_batch_and_pop`, on a stealer that `Worker::stealer` makes for
/// this one call, takes the oldest task and hands it over, and moves a batch of the next oldest to
/// the back of `thief`, in the same order. Both deques being private, no other thread competes, so
/// no attempt has to be repeated.
#[verifier::external_body]
fn deque_steal_batch_and_pop(victim: &mut Deque<u64>, thief: &mut Deque<u64>) -> (stolen: Steal)
    requires
        deque_is_private_fifo(*old(victim)),
        deque_is_private_fifo(*old(thief)),
    ensures
        deque_is_private_fifo(*final(victim)),
        deque_is_private_fifo(*final(thief)),
        match stolen {
            Steal::Success(task) => {
                let tasks = deque_tasks(*old(victim));
                &&& tasks.len() > 0
                &&& task == tasks[0]
                &&& deque_tasks(*final(victim)) == tasks.skip(1 + batch_of(tasks.len()))
                &&& deque_tasks(*final(thief)) == deque_tasks(*old(thief)) + tasks.subrange(
                    1,
                    1 + batch_of(tasks.len()),
                )
            },
            Steal::Empty => {
                &&& deque_tasks(*old(victim)).len() == 0
                &&& deque_tasks(*final(victim)) == deque_tasks(*old(victim))
                &&& deque_tasks(*final(thief)) == deque_tasks(*old(thief))
            },
            Steal::Retry => false,
        },
{
    match victim.stealer().steal_batch_and_pop(thief) {
        crossbeam::deque::Steal::Empty => Steal::Empty,
        crossbeam::deque::Steal::Success(task) => Steal::Success(task),
        crossbeam::deque::Steal::Retry => Steal::Retry,
    }
}

/// `crossbeam::deque::Injector::new` makes an empty injector.
#[verifier::external_body]
fn injector_new() -> (injector: Injector<u64>)
    ensures
        injector_tasks(injector) == Seq::<u64>::empty(),
{
    Injector::new()
}

/// `crossbeam::deque::Injector::push` adds a task behind all others.
#[verifier::external_body]
fn injector_push(injector: &mut Injector<u64>, task: u64)
    ensures
        injector_tasks(*final(injector)) == injector_tasks(*old(injector)).push(task),
{
    injector.push(task)
}

/// `crossbeam::deque::Injector::len` counts the tasks.
#[verifier::external_body]
fn injector_len(injector: &Injector<u64>) -> (len: usize)
    ensures
        len == injector_tasks(*injector).len(),
{
    injector.len()
}

/// `crossbeam::deque::Injector::steal` takes the oldest task. An attempt on an injector that is
/// not empty may fail without a competitor, since the exchange that it rests on may fail
/// spuriously; the injector is then as it was.
#[verifier::external_body]
fn injector_steal(injector: &mut Injector<u64>) -> (stolen: Steal)
    ensures
        match stolen {
            Steal::Success(task) => {
                &&& injector_tasks(*old(injector)).len() > 0
                &&& task == injector_tasks(*old(injector))[0]
                &&& injector_tasks(*final(injector)) == injector_tasks(*old(injector)).skip(1)
            },
            Steal::Empty => {
                &&& injector_tasks(*old(injector)).len() == 0
                &&& injector_tasks(*final(injector)) == injector_tasks(*old(injector))
            },
            Steal::Retry => {
                &&& injector_tasks(*old(injector)).len() > 0
                &&& injector_tasks(*final(injector)) == injector_tasks(*old(injector))
            },
        },
{
    match injector.steal() {
        crossbeam::deque::Steal::Empty => Steal::Empty,
        crossbeam::deque::Steal::Success(task) => Steal::Success(task),
        crossbeam::deque::Steal::Retry => Steal::Retry,
    }
}

/// Taking `count` tasks out of `from`: the first is handed over, the others go to the back of `to`.
pub open spec fn batch_moved(from: Seq<u64>, to: Seq<u64>, count: int, from_after: Seq<u64>, to_after: Seq<u64>) -> bool {
    &&& 1 <= count <= from.len()
    &&& from_after == from.skip(count)
    &&& to_after == to + from.subrange(1, count)
}

/// `crossbeam::deque::Injector::steal_batch_and_pop` takes the oldest task and hands it over, and
/// moves some number of the next oldest to the back of `thief`, in the same order. How many is not
/// specified. Like `steal`, it may fail spuriously, and then leaves both as they were.
#[verifier::external_body]
fn injector_steal_batch_and_pop(injector: &mut Injector<u64>, thief: &mut Deque<u64>) -> (stolen: Steal)
    requires
        deque_is_private_fifo(*old(thief)),
    ensures
        deque_is_private_fifo(*final(thief)),
        match stolen {
            Steal::Success(task) => {
                &&& injector_tasks(*old(injector)).len() > 0
                &&& task == injector_tasks(*old(injector))[0]
                &&& exists|count: int|
                    #[trigger] batch_moved(
                        injector_tasks(*old(injector)),
                        deque_tasks(*old(thief)),
                        count,
                        injector_tasks(*final(injector)),
                        deque_tasks(*final(thief)),
                    )
            },
            Steal::Empty => {
                &&& injector_tasks(*old(injector)).len() == 0
                &&& injector_tasks(*final(injector)) == injector_tasks(*old(injector))
                &&& deque_tasks(*final(thief)) == deque_tasks(*old(thief))
            },
            Steal::Retry => {
                &&& injector_tasks(*old(injector)).len() > 0
                &&& injector_tasks(*final(injector)) == injector_tasks(*old(injector))
                &&& deque_tasks(*final(thief)) == deque_tasks(*old(thief))
            },
        },
{
    match injector.steal_batch_and_pop(thief) {
        crossbeam::deque::Steal::Empty => Steal::Empty,
        crossbeam::deque::Steal::Success(task) => Steal::Success(task),
        crossbeam::deque::Steal::Retry => Steal::Retry,
    }
}

/// `crossbeam::queue::ArrayQueue::new` makes an empty queue for `capacity` tasks. It panics if that
/// is zero, or if so many slots, each a task and a stamp of up to eight bytes, are more than memory
/// can be.
#[verifier::external_body]
fn bounded_new(capacity: usize) -> (queue: ArrayQueue<u64>)
    requires
        0 < capacity <= isize::MAX / 16,
    ensures
        bounded_tasks(queue) == Seq::<u64>::empty(),
        bounded_capacity(queue) == capacity,
{
    ArrayQueue::new(capacity)
}

/// `crossbeam::queue::ArrayQueue::push` adds a task behind all others, or hands it back if the
/// queue is full.
#[verifier::external_body]
fn bounded_push(queue: &mut ArrayQueue<u64>, task: u64) -> (result: Result<(), u64>)
    ensures
        bounded_capacity(*final(queue)) == bounded_capacity(*old(queue)),
        match result {
            Ok(()) => {
                &&& bounded_tasks(*old(queue)).len() < bounded_capacity(*old(queue))
                &&& bounded_tasks(*final(queue)) == bounded_tasks(*old(queue)).push(task)
            },
            Err(back) => {
                &&& bounded_tasks(*old(queue)).len() == bounded_capacity(*old(queue))
                &&& back == task
                &&& bounded_tasks(*final(queue)) == bounded_tasks(*old(queue))
            },
        },
{
    queue.push(task)
}

/// `crossbeam::queue::ArrayQueue::pop` takes the oldest task, if there is any.
#[verifier::external_body]
fn bounded_pop(queue: &mut ArrayQueue<u64>) -> (task: Option<u64>)
    ensures
        bounded_capacity(*final(queue)) == bounded_capacity(*old(queue)),
        match task {
            Some(t) => {
                &&& bounded_tasks(*old(queue)).len() > 0
                &&& t == bounded_tasks(*old(queue))[0]
                &&& bounded_tasks(*final(queue)) == bounded_tasks(*old(queue)).skip(1)
            },
            None => {
                &&& bounded_tasks(*old(queue)).len() == 0
                &&& bounded_tasks(*final(queue)) == bounded_tasks(*old(queue))
            },
        },
{
    queue.pop()
}

/// A worker's own queue, first in first out, from which other workers may steal.
pub struct LocalQueue {
    queue: Deque<u64>,
}

impl View for LocalQueue {
    type V = Seq<TaskId>;

    /// The waiting tasks, oldest first.
    closed spec fn view(&self) -> Seq<TaskId> {
        deque_tasks(self.queue)
    }
}

impl LocalQueue {
    /// Nobody but this value has a hand on the deque.
    pub closed spec fn wf(&self) -> bool {
        deque_is_private_fifo(self.queue)
    }

    pub fn new() -> (queue: Self)
        ensures
            queue.wf(),
            queue@ == Seq::<TaskId>::empty(),
    {
        LocalQueue { queue: deque_new_fifo() }
    }

    pub fn pop(&mut self) -> (task: Option<TaskId>)
        requires
            old(self).wf(),
        ensures
            final(self).wf(),
            match task {
                Some(t) => old(self)@.len() > 0 && t == old(self)@[0] && final(self)@ == old(self)@.skip(1),
                None => old(self)@.len() == 0 && final(self)@ == old(self)@,
            },
    {
        deque_pop(&mut self.queue)
    }

    pub fn push(&mut self, task: TaskId)
        requires
            old(self).wf(),
        ensures
            final(self).wf(),
            final(self)@ == old(self)@.push(task),
    {
        deque_push(&mut self.queue, task)
    }

    /// Steals from `victim`: takes its oldest task to run at once, and half of the rest, 31 at most,
    /// into this queue.
    pub fn steal_into(&mut self, victim: &mut LocalQueue) -> (task: Option<TaskId>)
        requires
            old(self).wf(),
            old(victim).wf(),
        ensures
            final(self).wf(),
            final(victim).wf(),
            match task {
                Some(t) => {
                    let all = old(victim)@;
                    &&& all.len() > 0
                    &&& t == all[0]
                    &&& final(self)@ == old(self)@ + all.subrange(1, 1 + batch_of(all.len()))
                    &&& final(victim)@ == all.skip(1 + batch_of(all.len()))
                },
                None => {
                    &&& old(victim)@.len() == 0
                    &&& final(self)@ == old(self)@
                    &&& final(victim)@ == old(victim)@
                },
            },
    {
        match deque_steal_batch_and_pop(&mut victim.queue, &mut self.queue) {
            Steal::Success(task) => Some(task),
            Steal::Empty => None,
            Steal::Retry => None,
        }
    }
}

/// How often an attempt on the common queue is made before it is given up: as often as can be
/// counted, which is for longer than any machine runs.
pub const ATTEMPTS: u64 = u64::MAX;

/// The queue that tasks without a worker of their own wait in.
pub struct GlobalQueue {
    queue: Injector<u64>,
    /// How many attempts have been made on it.
    attempts: Ghost<nat>,
}

/// What follows an attempt on the common queue.
#[derive(Debug, Clone, Copy, PartialEq, Eq, Structural)]
pub enum AfterAttempt {
    /// Another attempt, with so many left behind it.
    Repeat(u64),
    /// Nothing; this came of it.
    Settled(Steal),
}

/// Decides whether an attempt is repeated, with `left` more to be made: only one that failed is.
pub fn after_attempt(stolen: Steal, left: u64) -> (next: AfterAttempt)
    ensures
        next == (if stolen == Steal::Retry && left > 0 {
            AfterAttempt::Repeat((left - 1) as u64)
        } else {
            AfterAttempt::Settled(stolen)
        }),
{
    match stolen {
        Steal::Retry if left > 0 => AfterAttempt::Repeat(left - 1),
        _ => AfterAttempt::Settled(stolen),
    }
}

impl View for GlobalQueue {
    type V = Seq<TaskId>;

    /// The waiting tasks, oldest first.
    closed spec fn view(&self) -> Seq<TaskId> {
        injector_tasks(self.queue)
    }
}

/// What a single attempt to take the oldest of `before` has done.
pub open spec fn steal_outcome(before: Seq<TaskId>, stolen: Steal, after: Seq<TaskId>) -> bool {
    match stolen {
        Steal::Success(task) => before.len() > 0 && task == before[0] && after == before.skip(1),
        Steal::Empty => before.len() == 0 && after == before,
        Steal::Retry => before.len() > 0 && after == before,
    }
}

impl GlobalQueue {
    /// How many attempts have been made to take something out.
    pub closed spec fn attempts(&self) -> nat {
        self.attempts@
    }

    /// `after` is this queue after attempts until there was something, or there was nothing, or none
    /// was left: a failed attempt is repeated, and nothing else is.
    pub open spec fn tries(&self, stolen: Steal, after: &GlobalQueue) -> bool {
        &&& steal_outcome(self@, stolen, after@)
        &&& match stolen {
            Steal::Success(_) => self.attempts() < after.attempts() <= self.attempts() + ATTEMPTS,
            Steal::Empty => after.attempts() == self.attempts() + 1,
            Steal::Retry => after.attempts() == self.attempts() + ATTEMPTS,
        }
    }

    pub fn new() -> (queue: Self)
        ensures
            queue@ == Seq::<TaskId>::empty(),
            queue.attempts() == 0,
    {
        GlobalQueue { queue: injector_new(), attempts: Ghost(0) }
    }

    pub fn push(&mut self, task: TaskId)
        ensures
            final(self)@ == old(self)@.push(task),
            final(self).attempts() == old(self).attempts(),
    {
        injector_push(&mut self.queue, task)
    }

    pub fn len(&self) -> (len: usize)
        ensures
            len == self@.len(),
    {
        injector_len(&self.queue)
    }

    /// One attempt to take the oldest task.
    pub fn try_steal(&mut self) -> (stolen: Steal)
        ensures
            steal_outcome(old(self)@, stolen, final(self)@),
            final(self).attempts() == old(self).attempts() + 1,
    {
        self.attempts = Ghost(self.attempts@ + 1);
        injector_steal(&mut self.queue)
    }

    /// Takes the oldest task, repeating the attempt for as long as it fails. `Retry` says that every
    /// attempt failed, and that no more of them can be counted; the queue is then not empty.
    pub fn steal(&mut self) -> (stolen: Steal)
        ensures
            old(self).tries(stolen, final(self)),
    {
        let mut left: u64 = ATTEMPTS - 1;
        loop
            invariant
                self@ == old(self)@,
                left < ATTEMPTS,
                self.attempts() + left + 1 == old(self).attempts() + ATTEMPTS,
                left < ATTEMPTS - 1 ==> self@.len() > 0,
            decreases left,
        {
            let stolen = self.try_steal();
            match after_attempt(stolen, left) {
                AfterAttempt::Repeat(fewer) => {
                    left = fewer;
                },
                AfterAttempt::Settled(stolen) => {
                    return stolen;
                },
            }
        }
    }

    /// One attempt to take the oldest task to run at once, and a batch of the next oldest into
    /// `thief`.
    pub fn try_steal_batch_and_pop(&mut self, thief: &mut LocalQueue) -> (stolen: Steal)
        requires
            old(thief).wf(),
        ensures
            final(thief).wf(),
            final(self).attempts() == old(self).attempts() + 1,
            match stolen {
                Steal::Success(task) => {
                    &&& old(self)@.len() > 0
                    &&& task == old(self)@[0]
                    &&& exists|count: int|
                        #[trigger] batch_moved(old(self)@, old(thief)@, count, final(self)@, final(thief)@)
                },
                _ => {
                    &&& stolen is Empty <==> old(self)@.len() == 0
                    &&& final(self)@ == old(self)@
                    &&& final(thief)@ == old(thief)@
                },
            },
    {
        let ghost from = self@;
        let ghost to = thief@;
        self.attempts = Ghost(self.attempts@ + 1);
        let stolen = injector_steal_batch_and_pop(&mut self.queue, &mut thief.queue);
        proof {
            if stolen is Success {
                let count = choose|count: int|
                    #[trigger] batch_moved(from, to, count, injector_tasks(self.queue), deque_tasks(thief.queue));
                assert(batch_moved(from, to, count, self@, thief@));
            }
        }
        stolen
    }
}

/// A bounded store of tasks that are done and may be used again.
pub struct RecyclePool {
    queue: ArrayQueue<u64>,
}

impl View for RecyclePool {
    type V = Seq<TaskId>;

    /// The stored tasks, oldest first.
    closed spec fn view(&self) -> Seq<TaskId> {
        bounded_tasks(self.queue)
    }
}

impl RecyclePool {
    /// How many tasks the pool has room for.
    pub closed spec fn capacity(&self) -> nat {
        bounded_capacity(self.queue)
    }

    pub fn new(capacity: usize) -> (pool: Self)
        requires
            0 < capacity <= isize::MAX / 16,
        ensures
            pool@ == Seq::<TaskId>::empty(),
            pool.capacity() == capacity,
    {
        RecyclePool { queue: bounded_new(capacity) }
    }

    /// Stores a task if there is room for it.
    pub fn push(&mut self, task: TaskId) -> (kept: bool)
        ensures
            final(self).capacity() == old(self).capacity(),
            kept <==> old(self)@.len() < old(self).capacity(),
            final(self)@ == (if kept {
                old(self)@.push(task)
            } else {
                old(self)@
            }),
    {
        match bounded_push(&mut self.queue, task) {
            Ok(()) => true,
            Err(_) => false,
        }
    }

    pub fn pop(&mut self) -> (task: Option<TaskId>)
        ensures
            final(self).capacity() == old(self).capacity(),
            match task {
                Some(t) => old(self)@.len() > 0 && t == old(self)@[0] && final(self)@ == old(self)@.skip(1),
                None => old(self)@.len() == 0 && final(self)@ == old(self)@,
            },
    {
        bounded_pop(&mut self.queue)
    }
}

/// A thief takes along about as much as it leaves: of what is behind the oldest task half, rounded
/// down, unless that is more than 31.
pub proof fn law_batch_is_half(len: nat)
    requires
        len > 0,
    ensures
        0 <= batch_of(len) <= 31,
        2 * batch_of(len) <= len - 1,
        batch_of(len) < 31 ==> len - 1 <= 2 * batch_of(len) + 1,
        batch_of(len) == 31 ==> len >= 63,
{
}

/// Moving a batch takes the oldest task out, and behind it some of the next oldest, which stand behind
/// what the thief had, in the same order; nothing is lost or doubled.
pub proof fn law_batch_keeps_order(from: Seq<u64>, to: Seq<u64>, count: int, from_after: Seq<u64>, to_after: Seq<u64>)
    requires
        batch_moved(from, to, count, from_after, to_after),
        from.len() > 0,
    ensures
        to_after.len() >= to.len(),
        to_after.take(to.len() as int) == to,
        from == seq![from[0]] + to_after.skip(to.len() as int) + from_after,
{
    assert(to_after.take(to.len() as int) =~= to);
    assert(from =~= seq![from[0]] + to_after.skip(to.len() as int) + from_after);
}

/// An attempt takes the oldest task or nothing at all; it says that there is nothing exactly if there
/// is nothing.
pub proof fn law_attempt_takes_the_oldest(before: Seq<TaskId>, stolen: Steal, after: Seq<TaskId>)
    requires
        steal_outcome(before, stolen, after),
    ensures
        stolen is Empty <==> before.len() == 0,
        stolen matches Steal::Success(task) ==> before == seq![task] + after,
        stolen !is Success ==> after == before,
{
    if let Steal::Success(task) = stolen {
        assert(before =~= seq![task] + after);
    }
}

/// Attempts are made until one settles the matter: from a queue that holds something the oldest task is
/// taken, unless every attempt there can be has failed; from an empty one nothing is taken.
pub proof fn law_attempts_settle(before: GlobalQueue, stolen: Steal, after: GlobalQueue)
    requires
        before.tries(stolen, &after),
    ensures
        stolen is Empty <==> before@.len() == 0,
        stolen matches Steal::Success(task) ==> before@ == seq![task] + after@,
        stolen !is Success ==> after@ == before@,
        after.attempts() >= before.attempts() + 1,
        stolen is Retry ==> after.attempts() - before.attempts() >= u64::MAX,
{
    law_attempt_takes_the_oldest(before@, stolen, after@);
}

} // verus!
