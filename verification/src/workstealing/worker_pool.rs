use crate::queues::{LocalQueue, TaskId};
use crate::workstealing::worker::Worker;
use vstd::prelude::*;

verus! {

/// The workers, their queues, and whose turn it is to be unparked.
pub struct Pool {
    /// The workers that have not been started.
    pub workers: Vec<Worker>,
    /// The workers' queues.
    pub stealers: Vec<LocalQueue>,
    /// How many workers can be unparked.
    pub unparkers: usize,
    /// Whose turn it is to be unparked.
    pub next_unparker: usize,
}

/// `a + b`, starting over at zero where that is too large.
pub open spec fn wrapped(a: usize, b: usize) -> usize {
    if a + b > usize::MAX {
        (a + b - usize::MAX - 1) as usize
    } else {
        (a + b) as usize
    }
}

impl Pool {
    pub open spec fn wf(&self) -> bool {
        forall|i: int| #![trigger self.stealers@[i]] 0 <= i < self.stealers@.len() ==> self.stealers@[i].wf()
    }

    pub fn new(num_workers: usize) -> (pool: Self)
        ensures
            pool.wf(),
            pool.workers@.len() == num_workers,
            forall|i: int| #![trigger pool.workers@[i]]
                0 <= i < num_workers ==> pool.workers@[i] == (Worker { index: i as usize, tick: 0 }),
            pool.stealers@.len() == num_workers,
            forall|i: int| #![trigger pool.stealers@[i]] 0 <= i < num_workers ==> pool.stealers@[i]@.len() == 0,
            pool.unparkers == num_workers,
            pool.next_unparker == 0,
    {
        let mut workers: Vec<Worker> = Vec::new();
        let mut stealers: Vec<LocalQueue> = Vec::new();
        let mut index: usize = 0;
        while index < num_workers
            invariant
                index <= num_workers,
                workers@.len() == index,
                stealers@.len() == index,
                forall|i: int| #![trigger workers@[i]]
                    0 <= i < index ==> workers@[i] == (Worker { index: i as usize, tick: 0 }),
                forall|i: int| #![trigger stealers@[i]]
                    0 <= i < index ==> stealers@[i].wf() && stealers@[i]@.len() == 0,
            decreases num_workers - index,
        {
            workers.push(Worker::new(index));
            stealers.push(LocalQueue::new());
            index += 1;
        }
        Pool { workers, stealers, unparkers: num_workers, next_unparker: 0 }
    }

    /// Hands the workers out, each to be started on a thread of its own. They can be started once.
    pub fn start(&mut self) -> (workers: Vec<Worker>)
        ensures
            workers@ == old(self).workers@,
            final(self).workers@.len() == 0,
            *final(self) == (Pool { workers: final(self).workers, ..*old(self) }),
    {
        let mut workers: Vec<Worker> = Vec::new();
        std::mem::swap(&mut workers, &mut self.workers);
        workers
    }

    /// Unparking `count` workers in turn: `unpark` says whom, and the turn moves on by as many.
    pub open spec fn notifies(&self, count: usize, unpark: Seq<usize>, turn: usize) -> bool {
        if self.unparkers == 0 || count == 0 {
            &&& unpark.len() == 0
            &&& turn == self.next_unparker
        } else {
            &&& unpark.len() == count
            &&& forall|i: int| #![trigger unpark[i]]
                0 <= i < count ==> unpark[i] == wrapped(self.next_unparker, i as usize) % self.unparkers
            &&& turn == wrapped(self.next_unparker, count)
        }
    }

    /// Says which `count` workers to unpark, in turn.
    pub fn notify_many(&mut self, count: usize) -> (unpark: Vec<usize>)
        ensures
            old(self).notifies(count, unpark@, final(self).next_unparker),
            *final(self) == (Pool { next_unparker: final(self).next_unparker, ..*old(self) }),
            forall|i: int| #![trigger unpark@[i]] 0 <= i < unpark@.len() ==> unpark@[i] < old(self).unparkers,
    {
        let mut unpark: Vec<usize> = Vec::new();
        if self.unparkers == 0 || count == 0 {
            return unpark;
        }
        let start: usize = self.next_unparker;
        self.next_unparker = start.wrapping_add(count);
        let mut i: usize = 0;
        while i < count
            invariant
                i <= count,
                self.unparkers > 0,
                unpark@.len() == i,
                forall|k: int| #![trigger unpark@[k]]
                    0 <= k < i ==> unpark@[k] == wrapped(start, k as usize) % self.unparkers,
            decreases count - i,
        {
            let turn: usize = start.wrapping_add(i);
            unpark.push(turn % self.unparkers);
            i += 1;
        }
        unpark
    }

    /// All workers that can be unparked.
    pub fn unpark_all(&self) -> (unpark: Vec<usize>)
        ensures
            unpark@ == Seq::new(self.unparkers as nat, |i: int| i as usize),
    {
        let mut unpark: Vec<usize> = Vec::new();
        let mut i: usize = 0;
        while i < self.unparkers
            invariant
                i <= self.unparkers,
                unpark@ == Seq::new(i as nat, |k: int| k as usize),
            decreases self.unparkers - i,
        {
            unpark.push(i);
            i += 1;
            assert(unpark@ =~= Seq::new(i as nat, |k: int| k as usize));
        }
        unpark
    }

    /// Stealing for the queue of `thief` from those listed turns this pool into `after`. They are
    /// asked in order, the thief's own being passed over; the first that has something is robbed.
    pub open spec fn steals(&self, thief: int, listed: Seq<usize>, task: Option<TaskId>, after: &Pool) -> bool {
        match task {
            Some(t) => exists|i: int|
                {
                    &&& 0 <= i < listed.len()
                    &&& #[trigger] self.nothing_before(thief, listed, i)
                    &&& listed[i] != thief
                    &&& self.robbed(thief, listed[i] as int, t, after)
                },
            None => {
                &&& self.nothing_before(thief, listed, listed.len() as int)
                &&& self.same_queues(after)
            },
        }
    }

    /// Of the first `n` listed, each is the thief itself or has nothing queued.
    pub open spec fn nothing_before(&self, thief: int, listed: Seq<usize>, n: int) -> bool {
        forall|i: int| #![trigger listed[i]]
            0 <= i < n ==> listed[i] == thief || self.stealers@[listed[i] as int]@.len() == 0
    }

    /// Nothing about the queues of the two differs.
    pub open spec fn same_queues(&self, other: &Pool) -> bool {
        &&& self.stealers@.len() == other.stealers@.len()
        &&& forall|i: int| #![trigger other.stealers@[i]]
            0 <= i < self.stealers@.len() ==> other.stealers@[i]@ == self.stealers@[i]@
    }

    /// Stealing from `victim` for `thief` turns this pool into `after`.
    pub open spec fn robbed(&self, thief: int, victim: int, task: TaskId, after: &Pool) -> bool {
        let all = self.stealers@[victim]@;
        let batch = crate::queues::batch_of(all.len());
        &&& all.len() > 0
        &&& task == all[0]
        &&& after.stealers@.len() == self.stealers@.len()
        &&& after.stealers@[thief]@ == self.stealers@[thief]@ + all.subrange(1, 1 + batch)
        &&& after.stealers@[victim]@ == all.skip(1 + batch)
        &&& forall|i: int| #![trigger after.stealers@[i]]
            0 <= i < self.stealers@.len() && i != thief && i != victim ==> after.stealers@[i]@ == self.stealers@[i]@
    }

    fn steal_from(&mut self, thief: usize, victim: usize) -> (task: Option<TaskId>)
        requires
            old(self).wf(),
            thief < old(self).stealers@.len(),
            victim < old(self).stealers@.len(),
            thief != victim,
        ensures
            final(self).wf(),
            *final(self) == (Pool { stealers: final(self).stealers, ..*old(self) }),
            match task {
                Some(t) => old(self).robbed(thief as int, victim as int, t, final(self)),
                None => {
                    &&& old(self).stealers@[victim as int]@.len() == 0
                    &&& old(self).same_queues(final(self))
                },
            },
    {
        let ghost before = self.stealers@;
        let task = if thief < victim {
            let (low, high) = self.stealers.as_mut_slice().split_at_mut(victim);
            low[thief].steal_into(&mut high[0])
        } else {
            let (low, high) = self.stealers.as_mut_slice().split_at_mut(thief);
            high[0].steal_into(&mut low[victim])
        };
        proof {
            let t = thief as int;
            let v = victim as int;
            assert(self.stealers@ =~= before.update(t, self.stealers@[t]).update(v, self.stealers@[v]));
        }
        task
    }

    /// Steals for the queue of `thief` from those listed.
    pub fn steal_local(&mut self, thief: usize, listed: &Vec<usize>) -> (task: Option<TaskId>)
        requires
            old(self).wf(),
            thief < old(self).stealers@.len(),
            forall|i: int| #![trigger listed@[i]] 0 <= i < listed@.len() ==> listed@[i] < old(self).stealers@.len(),
        ensures
            final(self).wf(),
            *final(self) == (Pool { stealers: final(self).stealers, ..*old(self) }),
            old(self).steals(thief as int, listed@, task, final(self)),
    {
        let mut i: usize = 0;
        while i < listed.len()
            invariant
                i <= listed.len(),
                self.wf(),
                *self == (Pool { stealers: self.stealers, ..*old(self) }),
                old(self).same_queues(self),
                old(self).nothing_before(thief as int, listed@, i as int),
                thief < self.stealers@.len(),
                forall|k: int| #![trigger listed@[k]] 0 <= k < listed@.len() ==> listed@[k] < self.stealers@.len(),
            decreases listed.len() - i,
        {
            let victim: usize = listed[i];
            if victim != thief {
                let ghost before = *self;
                if let Some(task) = self.steal_from(thief, victim) {
                    proof {
                        assert(before.stealers@[victim as int]@ == old(self).stealers@[victim as int]@);
                        assert(before.stealers@[thief as int]@ == old(self).stealers@[thief as int]@);
                        assert forall|k: int| #![trigger self.stealers@[k]]
                            0 <= k < old(self).stealers@.len() && k != thief && k != victim implies self.stealers@[k]@
                            == old(self).stealers@[k]@ by {
                            assert(before.stealers@[k]@ == old(self).stealers@[k]@);
                        }
                        assert(old(self).robbed(thief as int, victim as int, task, self));
                        assert(old(self).nothing_before(thief as int, listed@, i as int));
                    }
                    return Some(task);
                }
                proof {
                    assert(before.stealers@[victim as int]@ == old(self).stealers@[victim as int]@);
                    assert forall|k: int| #![trigger self.stealers@[k]]
                        0 <= k < old(self).stealers@.len() implies self.stealers@[k]@ == old(self).stealers@[k]@ by {
                        assert(before.stealers@[k]@ == old(self).stealers@[k]@);
                    }
                }
            }
            i += 1;
        }
        None
    }
}

/// Unparking in turn reaches everybody: in a round of as many as there are workers, no two of those
/// unparked are the same, as long as the turn does not start over meanwhile.
pub proof fn law_round_reaches_all(pool: Pool, unpark: Seq<usize>, turn: usize, i: int, j: int)
    requires
        pool.notifies(pool.unparkers, unpark, turn),
        pool.next_unparker + pool.unparkers <= usize::MAX,
        0 <= i < j < pool.unparkers,
    ensures
        unpark[i] != unpark[j],
{
    let n = pool.unparkers as int;
    let a = pool.next_unparker + i;
    let b = pool.next_unparker + j;
    assert(unpark[i] == wrapped(pool.next_unparker, i as usize) % pool.unparkers);
    assert(unpark[j] == wrapped(pool.next_unparker, j as usize) % pool.unparkers);
    assert(a % n != b % n) by (nonlinear_arith)
        requires
            0 <= a < b,
            b - a < n,
    ;
}

} // verus!
