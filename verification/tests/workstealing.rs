use futures::task::noop_waker;
use std::sync::atomic::{AtomicUsize, Ordering};
use std::sync::Arc;
use std::task::{Wake, Waker};
use taiga::layout::Layout;
use taiga::poll::Poll;
use taiga::queues::{after_attempt, AfterAttempt, GlobalQueue, LocalQueue, Steal};
use taiga::workstealing::context::{Context, LocalPush};
use taiga::workstealing::join::JoinError;
use taiga::workstealing::reactor::{Event, Interest, Reactor, Token};
use taiga::workstealing::runtime_context::Context as RuntimeContext;
use taiga::workstealing::scheduler::{Queued, Scheduler};
use taiga::workstealing::task::{joint_layout, Payload, Released, ResultState, Task, TaskHeader};
use taiga::workstealing::task_pool;
use taiga::workstealing::worker::Worker;
use taiga::workstealing::worker_pool;

struct Counter(AtomicUsize);

impl Wake for Counter {
    fn wake(self: Arc<Self>) {
        self.0.fetch_add(1, Ordering::SeqCst);
    }
}

fn counter() -> (Arc<Counter>, Waker) {
    let counter = Arc::new(Counter(AtomicUsize::new(0)));
    let waker = Waker::from(counter.clone());
    (counter, waker)
}

const READ: Interest = Interest { readable: true, writable: false };
const WRITE: Interest = Interest { readable: false, writable: true };

fn small() -> Layout {
    Layout { size: 64, align: 8 }
}

#[test]
fn test_executor_context_metadata() {
    let mut ctx = Context::new();
    ctx.worker_index = Some(5);
    ctx.stealers = Some(vec![1, 2, 3]);

    assert_eq!(ctx.worker_index, Some(5));
    let stealers = ctx.stealers.as_ref().unwrap();
    assert_eq!(stealers.len(), 3);
    assert_eq!(stealers[0], 1);
}

#[test]
fn test_try_push_local_logic() {
    let mut scheduler = Scheduler::new_with_workers(1);
    let mut ctx = Context::new();
    ctx.local_queue = Some(0);

    // The first goes to the empty slot.
    assert!(matches!(ctx.try_push_local(1, &mut scheduler), LocalPush::Slot));
    assert!(scheduler.worker_pool.stealers[0].pop().is_none(), "t1 should be in LIFO, not in queue");

    // The second has the slot, and the first moves to the queue.
    assert!(matches!(ctx.try_push_local(2, &mut scheduler), LocalPush::Displaced(_)));
    assert_eq!(scheduler.worker_pool.stealers[0].pop(), Some(1), "t1 should have moved to the queue");
    assert!(scheduler.worker_pool.stealers[0].pop().is_none(), "Only one task (t1) should be in the queue");

    // The third has the slot, and the second moves to the queue.
    assert!(matches!(ctx.try_push_local(3, &mut scheduler), LocalPush::Displaced(_)));
    assert_eq!(scheduler.worker_pool.stealers[0].pop(), Some(2), "t2 should have moved to the queue");
    assert!(scheduler.worker_pool.stealers[0].pop().is_none(), "Only one task (t2) should be in the queue");
    assert_eq!(ctx.lifo_slot, Some(3));
}

#[test]
fn a_thread_without_a_queue_takes_nothing() {
    let mut scheduler = Scheduler::new_with_workers(1);
    let mut ctx = Context::new();
    assert!(matches!(ctx.try_push_local(1, &mut scheduler), LocalPush::Refused));
    assert_eq!(ctx.lifo_slot, None);
}

#[test]
fn test_local_queue_basic() {
    let mut lq = LocalQueue::new();
    assert!(lq.pop().is_none());
}

#[test]
fn a_local_queue_is_first_in_first_out() {
    let mut lq = LocalQueue::new();
    for task in 0..200 {
        lq.push(task);
    }
    for task in 0..200 {
        assert_eq!(lq.pop(), Some(task));
    }
    assert_eq!(lq.pop(), None);
}

#[test]
fn test_local_queue_batch_steal() {
    let mut q_src = LocalQueue::new();
    let mut q_dest = LocalQueue::new();

    for task in 0..10 {
        q_src.push(task);
    }

    let stolen_task = q_dest.steal_into(&mut q_src);
    assert_eq!(stolen_task, Some(0), "Should have stolen at least one task for immediate execution");

    let mut dest_count = 0;
    while q_dest.pop().is_some() {
        dest_count += 1;
    }
    assert_eq!(dest_count, 4, "Should have 4 tasks left in dest queue (half size - 1)");

    let mut src_count = 0;
    while q_src.pop().is_some() {
        src_count += 1;
    }
    assert_eq!(src_count, 5, "Source should have 5 tasks left (half size)");
}

#[test]
fn a_batch_is_never_larger_than_it_may_be() {
    for len in 1u64..200 {
        let mut from = LocalQueue::new();
        let mut to = LocalQueue::new();
        for task in 0..len {
            from.push(task);
        }
        assert_eq!(to.steal_into(&mut from), Some(0));
        let batch = ((len - 1) / 2).min(31);
        for task in 1..=batch {
            assert_eq!(to.pop(), Some(task));
        }
        assert_eq!(to.pop(), None);
        for task in batch + 1..len {
            assert_eq!(from.pop(), Some(task));
        }
        assert_eq!(from.pop(), None);
    }
    let mut empty = LocalQueue::new();
    assert_eq!(LocalQueue::new().steal_into(&mut empty), None);
}

#[test]
fn test_global_queue_push_steal() {
    let mut gq = GlobalQueue::new();
    gq.push(7);
    assert_eq!(gq.len(), 1);
    assert_eq!(gq.steal(), Steal::Success(7));
    assert_eq!(gq.steal(), Steal::Empty);
}

#[test]
fn a_batch_from_the_common_queue_keeps_its_order() {
    let mut gq = GlobalQueue::new();
    let mut own = LocalQueue::new();
    for task in 0..40 {
        gq.push(task);
    }
    let mut first = gq.try_steal_batch_and_pop(&mut own);
    while first == Steal::Retry {
        first = gq.try_steal_batch_and_pop(&mut own);
    }
    assert_eq!(first, Steal::Success(0));
    let mut next = 1;
    while let Some(task) = own.pop() {
        assert_eq!(task, next);
        next += 1;
    }
    while next < 40 {
        assert_eq!(gq.steal(), Steal::Success(next));
        next += 1;
    }
    assert_eq!(gq.try_steal_batch_and_pop(&mut own), Steal::Empty);
}

#[test]
fn test_reactor_token_lifecycle() {
    let mut reactor = Reactor::new();

    let token1 = reactor.alloc_token();
    let token2 = reactor.alloc_token();
    assert_ne!(token1, token2);

    reactor.deregister(token1);
    let token3 = reactor.alloc_token();
    assert_eq!(token1, token3);
}

#[test]
fn test_has_wakers_correctness() {
    let mut reactor = Reactor::new();
    assert!(!reactor.has_wakers());

    let token = reactor.alloc_token();
    assert!(reactor.has_wakers());

    reactor.deregister(token);
    assert!(!reactor.has_wakers());
    reactor.deregister(token);
    assert!(!reactor.has_wakers());
}

#[test]
fn an_event_wakes_whoever_asked_before() {
    let mut reactor = Reactor::new();
    let token = reactor.alloc_token();
    let (woken, waker) = counter();
    assert!(reactor.add_waker(token, WRITE, waker).is_none());
    let wakers = reactor.dispatch(&vec![Event { token, readable: true, writable: false }]);
    assert!(wakers.is_empty());
    for waker in reactor.dispatch(&vec![Event { token, readable: false, writable: true }]) {
        waker.wake();
    }
    assert_eq!(woken.0.load(Ordering::SeqCst), 1);
    let wakers = reactor.dispatch(&vec![Event { token, readable: true, writable: true }]);
    assert!(wakers.is_empty());
}

#[test]
fn whoever_asks_after_the_event_is_woken_at_once() {
    let mut reactor = Reactor::new();
    let token = reactor.alloc_token();
    let wakers = reactor.dispatch(&vec![Event { token, readable: true, writable: false }]);
    assert!(wakers.is_empty());
    assert!(reactor.add_waker(token, READ, noop_waker()).is_some());
    assert!(reactor.add_waker(token, WRITE, noop_waker()).is_none());
    reactor.clear_readiness(token, READ);
    assert!(reactor.add_waker(token, READ, noop_waker()).is_none());
}

#[test]
fn a_wish_to_read_goes_first() {
    let mut reactor = Reactor::new();
    let token = reactor.alloc_token();
    let both = Interest { readable: true, writable: true };
    assert!(reactor.add_waker(token, both, noop_waker()).is_none());
    assert!(reactor.dispatch(&vec![Event { token, readable: false, writable: true }]).is_empty());
    assert_eq!(reactor.dispatch(&vec![Event { token, readable: true, writable: false }]).len(), 1);
}

#[test]
fn unknown_sources_are_passed_over() {
    let mut reactor = Reactor::new();
    let token = Token(99);
    assert!(reactor.add_waker(token, READ, noop_waker()).is_none());
    reactor.clear_readiness(token, READ);
    assert!(reactor.dispatch(&vec![Event { token, readable: true, writable: true }]).is_empty());
    assert!(!reactor.has_wakers());
}

#[test]
fn test_context_nesting() {
    let mut context = RuntimeContext::new();
    assert!(context.current().is_none());

    let guard1 = context.enter(1);
    assert_eq!(context.current(), Some(1));

    let guard2 = context.enter(2);
    assert_eq!(context.current(), Some(2));
    context.leave(guard2);

    assert_eq!(context.current(), Some(1));
    context.leave(guard1);
    assert!(context.current().is_none());
}

#[test]
fn test_scheduler_spawn() {
    let mut scheduler = Scheduler::new();
    let mut context = Context::new();

    assert_eq!(scheduler.steal_global(), Steal::Empty);
    assert!(matches!(scheduler.spawn_internal(&mut context, 1), Queued::Global(_)));
    assert_eq!(scheduler.steal_global(), Steal::Success(1));
    assert_eq!(scheduler.steal_global(), Steal::Empty);
}

#[test]
fn test_adaptive_notification() {
    let mut scheduler = Scheduler::new_with_workers(4);

    assert_eq!(scheduler.searching_workers, 0);
    assert_eq!(scheduler.parked_workers, 0);

    scheduler.incr_searching();
    assert_eq!(scheduler.searching_workers, 1);

    scheduler.incr_parked();
    assert_eq!(scheduler.parked_workers, 1);

    scheduler.decr_searching();
    assert_eq!(scheduler.searching_workers, 0);

    scheduler.decr_parked();
    assert_eq!(scheduler.parked_workers, 0);
}

#[test]
fn more_tasks_wake_more_workers() {
    let mut scheduler = Scheduler::new_with_workers(8);
    let notice = scheduler.notify_adaptive();
    assert_eq!(notice.unpark, vec![0]);
    assert!(notice.reactor);
    let notice = scheduler.notify_adaptive();
    assert_eq!(notice.unpark, vec![1]);
    assert!(!notice.reactor);

    scheduler.searching_workers = 1;
    for task in 0..3 {
        scheduler.global_queue.push(task);
    }
    let notice = scheduler.notify_adaptive();
    assert_eq!(notice.unpark, vec![2, 3]);
    assert!(!notice.reactor);
    for task in 3..13 {
        scheduler.global_queue.push(task);
    }
    assert_eq!(scheduler.notify_adaptive().unpark, vec![4, 5, 6, 7]);
    for task in 13..100 {
        scheduler.global_queue.push(task);
    }
    assert_eq!(scheduler.notify_adaptive().unpark, vec![0, 1, 2, 3, 4]);
    scheduler.searching_workers = 100;
    assert_eq!(scheduler.notify_adaptive().unpark, vec![5]);
}

#[test]
fn local_work_is_told_of_once() {
    let mut scheduler = Scheduler::new_with_workers(2);
    let notice = scheduler.notify_local();
    assert_eq!((notice.unpark, notice.reactor), (vec![0], true));
    let notice = scheduler.notify_local();
    assert_eq!((notice.unpark, notice.reactor), (vec![], false));
    scheduler.notifying = false;
    scheduler.incr_searching();
    let notice = scheduler.notify_local();
    assert_eq!((notice.unpark, notice.reactor), (vec![], false));
}

#[test]
fn shutting_down_unparks_everybody() {
    let mut scheduler = Scheduler::new_with_workers(3);
    assert!(!scheduler.is_shutdown());
    assert_eq!(scheduler.shutdown(), vec![0, 1, 2]);
    assert!(scheduler.is_shutdown());
}

#[test]
fn test_task_construction_and_waking() {
    let mut scheduler = Scheduler::new();
    let mut context = Context::new();
    let mut task: TaskHeader<()> = TaskHeader::new(small(), 32);

    assert_eq!(scheduler.steal_global(), Steal::Empty);
    assert!(task.wake_by_ref(5, &mut context, &mut scheduler).is_some());
    assert_eq!(scheduler.steal_global(), Steal::Success(5));
}

#[test]
fn test_redundant_wake_refcount() {
    let mut scheduler = Scheduler::new();
    let mut context = Context::new();
    let mut task: TaskHeader<()> = TaskHeader::new(small(), 32);
    assert_eq!(task.ref_count, 1);

    // The waker refers to the task too.
    task.add_ref();
    for _ in 0..10 {
        let _ = task.wake_by_ref(5, &mut context, &mut scheduler);
    }
    assert_eq!(task.ref_count, 3, "Refcount should only increase once when woken multiple times");

    // Whoever takes it out of the queue has the queue's reference.
    assert_eq!(scheduler.steal_global(), Steal::Success(5));
    assert_eq!(task.ref_count, 3);
    assert_eq!(task.drop_ref(), None);
    assert_eq!(task.ref_count, 2);
}

#[test]
fn waking_hands_the_reference_over() {
    let mut scheduler = Scheduler::new();
    let mut context = Context::new();
    let mut task: TaskHeader<u8> = TaskHeader::new(small(), 32);
    let (queued, last) = task.wake(5, &mut context, &mut scheduler);
    assert!(queued.is_some());
    assert_eq!(last, None);
    assert_eq!(task.ref_count, 1);
    let (queued, last) = task.wake(5, &mut context, &mut scheduler);
    assert!(queued.is_none());
    assert_eq!(last, Some(Payload::Future));
    assert_eq!(task.ref_count, 0);
    task.add_ref();
    task.begin_poll();
    assert!(!task.notified);
}

#[test]
fn test_task_memory_locality() {
    let header = Layout {
        size: std::mem::size_of::<TaskHeader<()>>(),
        align: std::mem::align_of::<TaskHeader<()>>(),
    };
    let future = Layout { size: 129, align: 1 };
    let result = Layout { size: 0, align: 1 };
    let (whole, future_offset) = joint_layout(header, future, result).unwrap();
    assert!(future_offset >= header.size);
    assert!(future_offset < 1024);
    assert!(whole.size >= future_offset + 129);
}

#[test]
fn memory_is_padded_and_aligned() {
    let header = Layout { size: 20, align: 4 };
    let future = Layout { size: 9, align: 8 };
    let result = Layout { size: 2, align: 16 };
    assert_eq!(joint_layout(header, future, result), Some((Layout { size: 48, align: 16 }, 32)));
    let huge = Layout { size: isize::MAX as usize - 15, align: 16 };
    assert_eq!(joint_layout(header, huge, result), None);
}

#[test]
fn test_task_payload_cleanup() {
    struct DropTracker<'a>(&'a AtomicUsize);
    impl Drop for DropTracker<'_> {
        fn drop(&mut self) {
            self.0.fetch_add(1, Ordering::SeqCst);
        }
    }
    let drop_count = AtomicUsize::new(0);

    // A task that was completed: its future is dropped when the result is left.
    {
        let tracker = DropTracker(&drop_count);
        let mut task: TaskHeader<i32> = TaskHeader::new(small(), 32);
        task.begin_poll();
        drop(tracker);
        assert!(task.complete(42).is_none());
        assert_eq!(drop_count.load(Ordering::SeqCst), 1);
        assert_eq!(task.drop_ref(), Some(Payload::Result));
    }
    assert_eq!(drop_count.load(Ordering::SeqCst), 1);

    drop_count.store(0, Ordering::SeqCst);

    // A task that was given up: its future is dropped with it.
    {
        let tracker = DropTracker(&drop_count);
        let mut task: TaskHeader<()> = TaskHeader::new(small(), 32);
        if task.drop_ref() == Some(Payload::Future) {
            drop(tracker);
        }
        assert_eq!(drop_count.load(Ordering::SeqCst), 1);
    }
}

#[test]
fn results_are_taken_once() {
    let (woken, waker) = counter();
    let mut task: TaskHeader<i32> = TaskHeader::new(small(), 32);
    assert_eq!(task.poll_join(&waker), Poll::Pending);
    task.complete(42).unwrap().wake();
    assert_eq!(woken.0.load(Ordering::SeqCst), 1);
    assert_eq!(task.poll_join(&waker), Poll::Ready(Ok(42)));
    assert_eq!(task.result_state, ResultState::Joined);
    assert_eq!(task.drop_ref(), Some(Payload::Nothing));
}

#[test]
fn a_panic_is_told_to_whoever_awaits() {
    let (woken, waker) = counter();
    let mut task: TaskHeader<i32> = TaskHeader::new(small(), 32);
    assert_eq!(task.poll_join(&waker), Poll::Pending);
    task.fail().unwrap().wake();
    assert_eq!(woken.0.load(Ordering::SeqCst), 1);
    assert_eq!(task.poll_join(&waker), Poll::Ready(Err(JoinError {})));
    assert_eq!(JoinError {}.message(), "JoinError: task panicked or was cancelled");
    assert_eq!(task.drop_ref(), Some(Payload::Nothing));
}

#[test]
fn test_pool_construction() {
    let mut pool = worker_pool::Pool::new(4);
    assert_eq!(pool.unparkers, 4);
    assert_eq!(pool.stealers.len(), 4);
    assert_eq!(pool.workers.len(), 4);
    let workers = pool.start();
    assert_eq!(workers.len(), 4);
    assert_eq!(workers[3].get_index(), 3);
    assert!(pool.start().is_empty());
}

#[test]
fn test_pool_unparking_round_robin() {
    let mut pool = worker_pool::Pool::new(4);
    assert_eq!(pool.next_unparker, 0);

    assert_eq!(pool.notify_many(2), vec![0, 1]);
    assert_eq!(pool.next_unparker, 2);

    assert_eq!(pool.notify_many(3), vec![2, 3, 0]);
    assert_eq!(pool.next_unparker, 5);
}

#[test]
fn test_empty_pool() {
    let mut pool = worker_pool::Pool::new(0);
    assert_eq!(pool.unparkers, 0);
    assert_eq!(pool.stealers.len(), 0);

    assert!(pool.notify_many(1).is_empty());
    assert!(pool.unpark_all().is_empty());
}

#[test]
fn a_worker_looks_at_its_slot_its_queue_and_the_common_queue() {
    let mut scheduler = Scheduler::new_with_workers(2);
    let mut context = Context::new();
    let mut worker = Worker::new(0);
    context.lifo_slot = Some(1);
    scheduler.worker_pool.stealers[0].push(2);
    scheduler.global_queue.push(3);
    assert_eq!(worker.next_task(&mut context, &mut scheduler), Steal::Success(1));
    assert_eq!(worker.tick, 0);
    assert_eq!(worker.next_task(&mut context, &mut scheduler), Steal::Success(2));
    assert_eq!(worker.next_task(&mut context, &mut scheduler), Steal::Success(3));
    assert_eq!(worker.next_task(&mut context, &mut scheduler), Steal::Empty);
    assert_eq!(worker.tick, 3);
}

#[test]
fn the_common_queue_goes_first_on_some_ticks() {
    let mut scheduler = Scheduler::new_with_workers(1);
    let mut context = Context::new();
    let mut worker = Worker::new(0);
    worker.tick = 60;
    scheduler.worker_pool.stealers[0].push(2);
    scheduler.global_queue.push(3);
    assert_eq!(worker.next_task(&mut context, &mut scheduler), Steal::Success(3));
    assert_eq!(worker.next_task(&mut context, &mut scheduler), Steal::Success(2));
}

#[test]
fn a_worker_steals_from_those_listed() {
    let mut scheduler = Scheduler::new_with_workers(3);
    let mut context = Context::new();
    let mut worker = Worker::new(0);
    assert_eq!(worker.steal(&context, &mut scheduler), None);
    context.stealers = Some(vec![0, 1, 2]);
    scheduler.worker_pool.stealers[0].push(1);
    scheduler.worker_pool.stealers[2].push(9);
    assert_eq!(worker.steal(&context, &mut scheduler), Some(9));
    assert_eq!(worker.steal(&context, &mut scheduler), None);
    assert_eq!(scheduler.worker_pool.stealers[0].pop(), Some(1));
}

#[test]
fn memory_that_was_given_back_is_used_again() {
    let mut pool = task_pool::Pool::new();
    let layout = Layout { size: 100, align: 8 };
    assert_eq!(
        pool.allocate(layout),
        task_pool::Allocation::Fresh(Layout { size: 128, align: 16 })
    );
    assert!(pool.deallocate(11, layout));
    assert!(pool.deallocate(12, layout));
    let other = Layout { size: 65, align: 16 };
    assert_eq!(pool.allocate(other), task_pool::Allocation::Reused(12));
    assert_eq!(pool.allocate(layout), task_pool::Allocation::Reused(11));
    assert_eq!(
        pool.allocate(layout),
        task_pool::Allocation::Fresh(Layout { size: 128, align: 16 })
    );
}

#[test]
fn some_memory_is_not_pooled() {
    let mut pool = task_pool::Pool::new();
    for layout in [
        Layout { size: 0, align: 1 },
        Layout { size: 32_769, align: 1 },
        Layout { size: 32, align: 32 },
    ] {
        assert_eq!(pool.allocate(layout), task_pool::Allocation::Fresh(layout));
        assert!(!pool.deallocate(1, layout));
    }
    assert_eq!(task_pool::Pool::bucket_index(1), Some(0));
    assert_eq!(task_pool::Pool::bucket_index(32_768), Some(10));
}

#[test]
fn the_memory_of_a_task_comes_from_the_pool_and_goes_back() {
    let mut context = Context::new();
    let header = Layout { size: 20, align: 4 };
    let future = Layout { size: 9, align: 8 };
    let result = Layout { size: 2, align: 16 };
    let (mut task, allocation) = Task::spawn::<u8>(&mut context, header, future, result).unwrap();
    assert_eq!(allocation, task_pool::Allocation::Fresh(Layout { size: 64, align: 16 }));
    assert_eq!(task.layout, Layout { size: 48, align: 16 });
    assert_eq!(task.future_offset, 32);
    task.add_ref();
    assert_eq!(task.release(77, &mut context), None);
    assert_eq!(
        task.release(77, &mut context),
        Some(Released { payload: Payload::Future, kept: true })
    );
    let (_, allocation) = Task::spawn::<u8>(&mut context, header, future, result).unwrap();
    assert_eq!(allocation, task_pool::Allocation::Reused(77));
    let huge = Layout { size: isize::MAX as usize - 15, align: 16 };
    assert!(Task::spawn::<u8>(&mut context, header, huge, result).is_none());
}

#[test]
fn only_a_failed_attempt_is_repeated() {
    assert_eq!(after_attempt(Steal::Retry, 7), AfterAttempt::Repeat(6));
    assert_eq!(after_attempt(Steal::Retry, 0), AfterAttempt::Settled(Steal::Retry));
    assert_eq!(after_attempt(Steal::Empty, 7), AfterAttempt::Settled(Steal::Empty));
    assert_eq!(after_attempt(Steal::Success(3), 7), AfterAttempt::Settled(Steal::Success(3)));
}

#[test]
fn what_the_first_look_brings_goes_before_the_own_queue() {
    let mut scheduler = Scheduler::new_with_workers(1);
    let worker = Worker::new(0);
    for task in 1..4 {
        scheduler.worker_pool.stealers[0].push(task);
    }
    assert_eq!(worker.after_first_look(Some(Steal::Success(9)), &mut scheduler), Some(9));
    assert_eq!(worker.after_first_look(Some(Steal::Empty), &mut scheduler), Some(1));
    assert_eq!(worker.after_first_look(Some(Steal::Retry), &mut scheduler), Some(2));
    assert_eq!(worker.after_first_look(None, &mut scheduler), Some(3));
    assert_eq!(worker.after_first_look(None, &mut scheduler), None);
}

#[test]
fn tokens_that_were_given_back_come_first() {
    let mut reactor = Reactor::new();
    for i in 0..4 {
        assert_eq!(reactor.alloc_token(), Token(i));
    }
    reactor.deregister(Token(1));
    reactor.deregister(Token(3));
    reactor.deregister(Token(9));
    assert_eq!(reactor.alloc_token(), Token(3));
    assert_eq!(reactor.alloc_token(), Token(1));
    assert_eq!(reactor.alloc_token(), Token(4));
}
