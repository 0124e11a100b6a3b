//! Runs futures on the library, with several workers taking turns on one thread and a clock that
//! moves on while they sleep.
use std::any::Any;
use std::collections::HashMap;
use std::future::Future;
use std::pin::Pin;
use std::sync::atomic::{AtomicUsize, Ordering};
use std::sync::{Arc, Mutex};
use std::task::{Context as PollContext, Poll as StdPoll, Wake, Waker};
use taiga::executor::context::{enter, enter_worker, Context};
use taiga::executor::handle::{Handle, Rest};
use taiga::executor::join_handle::JoinState;
use taiga::executor::runtime::Runtime;
use taiga::executor::scheduler::SpawnPlan;
use taiga::executor::task::Task;
use taiga::executor::worker::{begin_search, end_sleep, Action, Found, Search, Worker};
use taiga::layout::Layout;
use taiga::poll::Poll;
use taiga::queues::TaskId;
use taiga::time::instant::Instant;
use taiga::time::sleep::{sleep, Sleep};

const MS: u64 = 1_000_000;

type Outcome = Result<Box<dyn Any + Send>, Box<dyn Any + Send>>;
type Body = Pin<Box<dyn Future<Output = ()> + Send>>;

struct Entry {
    task: Task<Outcome>,
    body: Option<Body>,
    layout: Layout,
    held: bool,
}

struct State {
    handle: Handle,
    workers: Vec<Worker>,
    contexts: Vec<Context>,
    outside: Context,
    active: Option<usize>,
    searches: Vec<Option<Search>>,
    tasks: HashMap<TaskId, Entry>,
    next_id: TaskId,
    reused: usize,
    now: u64,
}

#[derive(Clone)]
struct Machine(Arc<Mutex<State>>);

struct Alarm {
    machine: Machine,
    id: TaskId,
}

impl Wake for Alarm {
    fn wake(self: Arc<Self>) {
        let mut state = self.machine.0.lock().unwrap();
        let State { handle, contexts, outside, active, tasks, .. } = &mut *state;
        let context = match *active {
            Some(i) => &mut contexts[i],
            None => outside,
        };
        if let Some(entry) = tasks.get_mut(&self.id) {
            let _ = entry.task.wake_by_ref(self.id, context, &mut handle.scheduler);
        }
    }
}

struct Joining<T> {
    machine: Machine,
    id: TaskId,
    kind: std::marker::PhantomData<T>,
}

impl<T> Unpin for Joining<T> {}

impl<T: Any + Send> Future for Joining<T> {
    type Output = Result<T, Box<dyn Any + Send>>;

    fn poll(self: Pin<&mut Self>, cx: &mut PollContext<'_>) -> StdPoll<Self::Output> {
        let mut state = self.machine.0.lock().unwrap();
        let entry = state.tasks.get_mut(&self.id).unwrap();
        assert_ne!(entry.task.join.state, JoinState::Joined);
        match entry.task.join.poll(cx.waker()) {
            Poll::Ready(outcome) => StdPoll::Ready(outcome.map(|value| *value.downcast::<T>().unwrap())),
            Poll::Pending => StdPoll::Pending,
        }
    }
}

impl<T> Drop for Joining<T> {
    fn drop(&mut self) {
        let mut state = self.machine.0.lock().unwrap();
        if let Some(entry) = state.tasks.get_mut(&self.id) {
            entry.held = false;
        }
    }
}

struct Nap {
    machine: Machine,
    sleep: Option<Sleep>,
    duration: u64,
}

impl Future for Nap {
    type Output = ();

    fn poll(mut self: Pin<&mut Self>, cx: &mut PollContext<'_>) -> StdPoll<()> {
        let machine = self.machine.clone();
        let mut state = machine.0.lock().unwrap();
        let State { handle, contexts, active, now, .. } = &mut *state;
        let now = Instant { nanos: *now };
        let duration = self.duration;
        let nap = self.sleep.get_or_insert_with(|| sleep(now, duration));
        match nap.poll(now, cx.waker(), handle, &mut contexts[active.unwrap()]) {
            (Poll::Ready(()), _) => StdPoll::Ready(()),
            (Poll::Pending, _) => StdPoll::Pending,
        }
    }
}

impl Machine {
    fn new() -> Machine {
        let runtime = Runtime::with_workers(3, Instant { nanos: 0 });
        let mut contexts = Vec::new();
        for worker in &runtime.workers {
            let mut context = Context::new();
            enter(&mut context, 1);
            enter_worker(&mut context);
            context.local_queue = Some(worker.id);
            contexts.push(context);
        }
        let searches = vec![None, None, None];
        Machine(Arc::new(Mutex::new(State {
            handle: runtime.handle,
            workers: runtime.workers,
            contexts,
            outside: Context::new(),
            active: None,
            searches,
            tasks: HashMap::new(),
            next_id: 0,
            reused: 0,
            now: 0,
        })))
    }

    fn nap(&self, duration: u64) -> Nap {
        Nap { machine: self.clone(), sleep: None, duration }
    }

    fn now(&self) -> u64 {
        self.0.lock().unwrap().now
    }

    fn spawn<F, T>(&self, future: F) -> Joining<T>
    where
        F: Future<Output = T> + Send + 'static,
        T: Any + Send,
    {
        self.spawn_caught(async move { Ok(future.await) })
    }

    /// Spawns a future that ends in a value, or in what it panicked with.
    fn spawn_caught<F, T>(&self, future: F) -> Joining<T>
    where
        F: Future<Output = Result<T, Box<dyn Any + Send>>> + Send + 'static,
        T: Any + Send,
    {
        let wanted = Layout { size: std::mem::size_of::<F>(), align: std::mem::align_of::<F>() };
        let mut state = self.0.lock().unwrap();
        let State { handle, contexts, outside, active, tasks, next_id, reused, .. } = &mut *state;
        let context = match *active {
            Some(i) => &mut contexts[i],
            None => outside,
        };
        let id = match handle.spawn(context, wanted) {
            SpawnPlan::Reuse(id) => {
                let entry = tasks.get_mut(&id).unwrap();
                assert!(entry.layout.size >= wanted.size && entry.layout.align >= wanted.align);
                entry.task.reuse();
                entry.held = true;
                *reused += 1;
                id
            }
            SpawnPlan::Create(layout) => {
                let id = *next_id;
                *next_id += 1;
                let layout = layout.unwrap_or(wanted);
                tasks.insert(id, Entry { task: Task::new(), body: None, layout, held: true });
                id
            }
        };
        let machine = self.clone();
        let body = async move {
            let outcome = future.await.map(|value| Box::new(value) as Box<dyn Any + Send>);
            let waker = {
                let mut state = machine.0.lock().unwrap();
                let i = state.active.unwrap();
                let id = state.contexts[i].current_task.unwrap();
                state.tasks.get_mut(&id).unwrap().task.join.complete(outcome)
            };
            if let Some(waker) = waker {
                waker.wake();
            }
        };
        tasks.get_mut(&id).unwrap().body = Some(Box::pin(body));
        let _ = handle.scheduler.inject(id);
        Joining { machine: self.clone(), id, kind: std::marker::PhantomData }
    }

    fn execute(&self, i: usize, id: TaskId) {
        let mut body = {
            let mut state = self.0.lock().unwrap();
            let State { workers, contexts, tasks, .. } = &mut *state;
            let entry = tasks.get_mut(&id).unwrap();
            if !workers[i].begin_execute(id, &mut entry.task, &mut contexts[i]) {
                return;
            }
            state.tasks.get_mut(&id).unwrap().body.take().unwrap()
        };
        let waker = Waker::from(Arc::new(Alarm { machine: self.clone(), id }));
        let ready = body.as_mut().poll(&mut PollContext::from_waker(&waker)).is_ready();
        let mut done = Some(body);
        let mut state = self.0.lock().unwrap();
        let State { handle, workers, contexts, tasks, .. } = &mut *state;
        let entry = tasks.get_mut(&id).unwrap();
        if !ready {
            entry.body = done.take();
        }
        let _ = workers[i].finish_execute(
            id,
            &mut entry.task,
            &mut contexts[i],
            &mut handle.scheduler,
            ready,
            entry.layout,
            !entry.held,
        );
        drop(state);
        drop(done);
    }

    /// Lets a worker sleep. The clock jumps, so the others hand over first what they have collected.
    fn rest(&self, i: usize) {
        let wakers = {
            let mut state = self.0.lock().unwrap();
            let State { handle, contexts, now, .. } = &mut *state;
            for context in contexts.iter_mut() {
                let _ = handle.flush_registrations(context);
            }
            match handle.begin_rest(&mut contexts[i], Instant { nanos: *now }).0 {
                Rest::Park => Vec::new(),
                Rest::Drive(wait) => {
                    *now += wait.timeout.unwrap_or(0);
                    handle.reactor.dispatch(vec![], Instant { nanos: *now }).wakers
                }
            }
        };
        for waker in wakers {
            waker.wake();
        }
        let mut state = self.0.lock().unwrap();
        let _ = state.handle.reactor.end_poll();
        end_sleep(&mut state.handle.scheduler);
    }

    fn step(&self, i: usize) -> bool {
        let found = {
            let mut state = self.0.lock().unwrap();
            state.active = Some(i);
            let State { handle, workers, contexts, searches, .. } = &mut *state;
            match searches[i].take() {
                Some(search) => workers[i].search(search, &mut handle.scheduler),
                None => match workers[i].next_action(&mut contexts[i], &mut handle.scheduler).0 {
                    Action::Stop => return false,
                    Action::Run(id) => Found::Task(id),
                    Action::Search => Found::Nothing(begin_search(&mut handle.scheduler)),
                },
            }
        };
        match found {
            Found::Task(id) => self.execute(i, id),
            Found::Nothing(search) => self.0.lock().unwrap().searches[i] = Some(search),
            Found::Sleep => self.rest(i),
        }
        self.0.lock().unwrap().active = None;
        true
    }

    fn run_for(&self, steps: usize) {
        for step in 0..steps {
            self.step(step % 3);
        }
    }

    fn block_on<F, T>(&self, future: F) -> T
    where
        F: Future<Output = T> + Send + 'static,
        T: Any + Send,
    {
        let result = Arc::new(Mutex::new(None));
        let place = result.clone();
        let _handle = self.spawn(async move {
            let value = future.await;
            *place.lock().unwrap() = Some(value);
        });
        for step in 0..10_000_000 {
            self.step(step % 3);
            if let Some(value) = result.lock().unwrap().take() {
                return value;
            }
        }
        panic!("stalled");
    }
}

#[test]
fn test_runtime_new() {
    let runtime = Runtime::new(Instant { nanos: 0 });
    assert!(!runtime.workers.is_empty());
}

#[test]
fn test_runtime_block_on() {
    let runtime = Machine::new();
    let result = runtime.block_on(async { 42 });
    assert_eq!(result, 42);
}

#[test]
fn test_runtime_spawn() {
    let runtime = Machine::new();
    let handle = runtime.spawn(async { 100 });
    let result = runtime.block_on(async move { handle.await.unwrap() });
    assert_eq!(result, 100);
}

#[test]
fn test_join_handle_success() {
    let runtime = Machine::new();
    let handle = runtime.spawn(async { 42 });
    let result = runtime.block_on(handle).unwrap();
    assert_eq!(result, 42);
}

async fn fails() -> Result<(), Box<dyn Any + Send>> {
    Err(Box::new("Task panicked"))
}

#[test]
fn test_join_handle_panic() {
    let runtime = Machine::new();
    let handle = runtime.spawn_caught(fails());
    let result = runtime.block_on(handle);
    assert!(result.is_err());
}

#[test]
fn test_spawn_result() {
    let runtime = Machine::new();
    let inner = runtime.clone();
    let result = runtime.block_on(async move {
        let handle = inner.spawn(async { 42 });
        handle.await.unwrap()
    });
    assert_eq!(result, 42);
}

#[test]
fn test_panic_propagation() {
    let runtime = Machine::new();
    let inner = runtime.clone();
    runtime.block_on(async move {
        let handle = inner.spawn_caught(fails());
        let res = handle.await;
        assert!(res.is_err());
    });
}

#[test]
fn test_work_stealing() {
    let runtime = Machine::new();
    let counter = Arc::new(AtomicUsize::new(0));
    let num_tasks = 1000;

    let c_clone = counter.clone();
    let inner = runtime.clone();
    runtime.block_on(async move {
        let mut handles = Vec::with_capacity(num_tasks);
        for _ in 0..num_tasks {
            let c = c_clone.clone();
            handles.push(inner.spawn(async move {
                c.fetch_add(1, Ordering::SeqCst);
            }));
        }

        for h in handles {
            h.await.unwrap();
        }
    });

    assert_eq!(counter.load(Ordering::SeqCst), num_tasks);
}

#[test]
fn test_timer_sleep() {
    let runtime = Machine::new();
    let inner = runtime.clone();
    runtime.block_on(async move {
        let start = inner.now();
        let duration = 100 * MS;
        inner.nap(duration).await;
        let elapsed = inner.now() - start;
        assert!(elapsed >= duration - 10 * MS);
        assert!(elapsed <= duration + MS);
    });
}

#[test]
fn test_sleep_basic() {
    let runtime = Machine::new();
    let inner = runtime.clone();
    runtime.block_on(async move {
        let start = inner.now();
        inner.nap(50 * MS).await;
        let elapsed = inner.now() - start;
        assert!(elapsed >= 50 * MS);
    });
}

#[test]
fn test_sleep_zero() {
    let runtime = Machine::new();
    let inner = runtime.clone();
    runtime.block_on(async move {
        inner.nap(0).await;
    });
}

#[test]
fn many_sleeps_end_in_their_order() {
    let runtime = Machine::new();
    let inner = runtime.clone();
    let ends = runtime.block_on(async move {
        let ends = Arc::new(Mutex::new(Vec::new()));
        let mut handles = Vec::new();
        for ms in [70u64, 5, 4100, 64, 1, 300_000] {
            let machine = inner.clone();
            let ends = ends.clone();
            handles.push(inner.spawn(async move {
                let start = machine.now();
                machine.nap(ms * MS + 123_456).await;
                ends.lock().unwrap().push((ms, machine.now() - start));
            }));
        }
        for handle in handles {
            handle.await.unwrap();
        }
        let ends = ends.lock().unwrap().clone();
        ends
    });
    let order: Vec<u64> = ends.iter().map(|end| end.0).collect();
    assert_eq!(order, vec![1, 5, 64, 70, 4100, 300_000]);
    for (ms, elapsed) in ends {
        assert!(elapsed >= ms * MS + 123_456);
    }
}

#[test]
fn test_nested_spawn() {
    let runtime = Machine::new();
    let inner = runtime.clone();
    runtime.block_on(async move {
        let innermost = inner.clone();
        let h1 = inner.spawn(async move {
            let h2 = innermost.spawn(async { 100 });
            h2.await.unwrap()
        });
        assert_eq!(h1.await.unwrap(), 100);
    });
}

#[test]
fn test_runtime_shutdown() {
    let runtime = Machine::new();
    assert!(runtime.step(0));
    runtime.0.lock().unwrap().searches = vec![None, None, None];
    assert!(runtime.0.lock().unwrap().handle.shutdown());
    for i in 0..3 {
        assert!(!runtime.step(i));
    }
}

#[test]
fn test_reuse_join_bug() {
    let runtime = Machine::new();

    // Tasks that are dropped at once are used again.
    for _ in 0..130 {
        let handle1 = runtime.spawn(async { 42usize });
        drop(handle1);
    }
    runtime.run_for(2_000);

    // Everything that the threads have kept is handed to everybody, as when they have no room.
    {
        let mut state = runtime.0.lock().unwrap();
        let State { handle, contexts, .. } = &mut *state;
        for context in contexts.iter_mut() {
            for class in 0..11 {
                while let Some(task) = context.local_task_pool[class].pop() {
                    assert!(handle.scheduler.task_pools[class].push(task));
                }
            }
        }
        assert_eq!(state.reused, 0);
    }

    let handle2 = runtime.spawn(async { 84usize });
    assert_eq!(runtime.0.lock().unwrap().reused, 1);
    let res = runtime.block_on(handle2).unwrap();
    assert_eq!(res, 84, "it returned the old task's value");
}

#[test]
fn a_new_runtime_is_idle() {
    let mut runtime = Runtime::with_workers(2, Instant { nanos: 7 });
    assert_eq!(runtime.workers.len(), 2);
    for (i, worker) in runtime.workers.iter().enumerate() {
        assert_eq!((worker.id, worker.tick, worker.budget, worker.rng), (i, 0, 128, i as u32 + 1));
        assert_eq!((worker.lifo_count, worker.stats.tasks_in_batch), (0, 0));
    }
    assert!(!runtime.handle.reactor.notified);
    assert!(!runtime.handle.reactor.is_polling);
    assert!(runtime.handle.reactor.registrations.is_empty());
    assert_eq!(runtime.handle.reactor.begin_poll(Instant { nanos: 7 }).unwrap().timeout, None);
    assert!(Runtime::new(Instant { nanos: 0 }).workers.len() >= 1);
}
