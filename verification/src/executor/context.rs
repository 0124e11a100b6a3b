use crate::executor::reactor::Registration;
use crate::layout::NUM_CLASSES;
use crate::queues::TaskId;
use vstd::prelude::*;

verus! {

/// How many done tasks of a size class a thread keeps for itself.
pub const LOCAL_POOL_CAPACITY: usize = 128;

/// How many registrations a worker collects before it hands them to the reactor.
pub const REGISTRATION_BATCH: usize = 16;

/// What the runtime keeps for a thread.
pub struct Context {
    /// The runtime that the thread has entered.
    pub runtime: Option<u64>,
    /// The thread is a worker: it looks into its slot and flushes its registrations.
    pub is_worker: bool,
    /// A task woken by the thread, to be run next.
    pub lifo_slot: Option<TaskId>,
    /// The task being polled.
    pub current_task: Option<TaskId>,
    /// Which of the scheduler's local queues is the thread's own.
    pub local_queue: Option<usize>,
    /// Done tasks to be used again, by size class.
    pub local_task_pool: Vec<Vec<TaskId>>,
    /// Registrations not yet handed to the reactor.
    pub registration_buffer: Vec<Registration>,
}

impl Context {
    pub open spec fn wf(&self) -> bool {
        &&& self.local_task_pool@.len() == NUM_CLASSES
        &&& forall|i: int| #![trigger self.local_task_pool@[i]]
            0 <= i < NUM_CLASSES ==> self.local_task_pool@[i]@.len() <= LOCAL_POOL_CAPACITY
        &&& self.registration_buffer@.len() < REGISTRATION_BATCH
    }

    /// A thread that the runtime knows nothing of.
    pub fn new() -> (context: Self)
        ensures
            context.wf(),
            context.runtime is None,
            !context.is_worker,
            context.lifo_slot is None,
            context.current_task is None,
            context.local_queue is None,
            forall|i: int| #![trigger context.local_task_pool@[i]]
                0 <= i < NUM_CLASSES ==> context.local_task_pool@[i]@.len() == 0,
            context.registration_buffer@.len() == 0,
    {
        let mut local_task_pool: Vec<Vec<TaskId>> = Vec::with_capacity(NUM_CLASSES);
        let mut i: usize = 0;
        while i < NUM_CLASSES
            invariant
                i <= NUM_CLASSES,
                local_task_pool@.len() == i,
                forall|k: int| #![trigger local_task_pool@[k]] 0 <= k < i ==> local_task_pool@[k]@.len() == 0,
            decreases NUM_CLASSES - i,
        {
            local_task_pool.push(Vec::new());
            i += 1;
        }
        Context {
            runtime: None,
            is_worker: false,
            lifo_slot: None,
            current_task: None,
            local_queue: None,
            local_task_pool,
            registration_buffer: Vec::new(),
        }
    }

    /// The runtime that the thread has entered.
    pub fn current(&self) -> (runtime: Option<u64>)
        ensures
            runtime == self.runtime,
    {
        self.runtime
    }
}

/// Enters a runtime, leaving whichever the thread was in.
pub fn enter(context: &mut Context, runtime: u64)
    ensures
        *final(context) == (Context { runtime: Some(runtime), ..*old(context) }),
{
    context.runtime = Some(runtime);
}

/// Leaves the runtime.
pub fn exit(context: &mut Context)
    ensures
        *final(context) == (Context { runtime: None, ..*old(context) }),
{
    context.runtime = None;
}

/// Makes the thread a worker.
pub fn enter_worker(context: &mut Context)
    ensures
        *final(context) == (Context { is_worker: true, ..*old(context) }),
{
    context.is_worker = true;
}

} // verus!
