use taiga::executor::context::{enter, enter_worker, exit, Context};
use taiga::executor::scheduler::{Recycled, Scheduler, SpawnPlan};
use taiga::executor::task::{ExecState, Task, Woken};
use taiga::layout::Layout;
use taiga::queues::{LocalQueue, Steal, TaskId};

fn bytes(size: usize) -> Layout {
    Layout { size, align: 1 }
}

fn take(scheduler: &mut Scheduler) -> Option<TaskId> {
    loop {
        match scheduler.steal() {
            Steal::Success(task) => return Some(task),
            Steal::Empty => return None,
            Steal::Retry => {}
        }
    }
}

#[test]
fn test_pool_index() {
    assert_eq!(Scheduler::pool_index(bytes(0)), None);
    assert_eq!(Scheduler::pool_index(bytes(32)), Some(0));
    assert_eq!(Scheduler::pool_index(bytes(64)), Some(1));
    assert_eq!(Scheduler::pool_index(bytes(32768)), Some(10));
    assert_eq!(Scheduler::pool_index(bytes(32769)), None);
    assert_eq!(Scheduler::pool_index(Layout { size: 32, align: 32 }), None);
}

#[test]
fn test_pool_index_boundaries() {
    assert_eq!(Scheduler::pool_index(Layout { size: 32, align: 32 }), None);
    assert_eq!(Scheduler::pool_index(Layout { size: 32769, align: 16 }), None);

    assert_eq!(Scheduler::pool_index(bytes(32)), Some(0));
    assert_eq!(Scheduler::pool_index(bytes(33)), Some(1));
    assert_eq!(Scheduler::pool_index(bytes(64)), Some(1));
    assert_eq!(Scheduler::pool_index(bytes(65)), Some(2));
}

#[test]
fn every_class_doubles_the_one_before() {
    let mut size = 32;
    for class in 0..11 {
        assert_eq!(Scheduler::pool_index(bytes(size)), Some(class));
        if class < 10 {
            assert_eq!(Scheduler::pool_index(bytes(size + 1)), Some(class + 1));
        }
        size *= 2;
    }
    assert_eq!(Scheduler::pool_index(bytes(1)), Some(0));
}

#[test]
fn test_scheduler_new() {
    let scheduler = Scheduler::new(vec![], 0);
    assert_eq!(scheduler.unparkers, 0);
    assert!(!scheduler.shutdown);
}

#[test]
fn test_inject_and_steal() {
    let mut scheduler = Scheduler::new(vec![], 0);
    let task: TaskId = 7;

    let _ = scheduler.inject(task);
    match take(&mut scheduler) {
        Some(t) => assert_eq!(t, task),
        None => panic!("Failed to steal task"),
    }
    assert_eq!(take(&mut scheduler), None);
}

#[test]
fn injected_tasks_come_out_in_order() {
    let mut scheduler = Scheduler::new(vec![], 0);
    for task in 0..100 {
        let _ = scheduler.inject(task);
    }
    for task in 0..100 {
        assert_eq!(take(&mut scheduler), Some(task));
    }
    assert_eq!(take(&mut scheduler), None);
}

#[test]
fn test_notify_logic() {
    let mut scheduler = Scheduler::new(vec![], 2);

    scheduler.searching_workers = 0;
    let wakeup = scheduler.notify();
    assert!(wakeup.reactor);
    assert_eq!(wakeup.unpark, Some(0));
    assert_eq!(scheduler.notify_cursor, 1);

    let wakeup = scheduler.notify();
    assert!(wakeup.reactor);
    assert_eq!(wakeup.unpark, Some(1));
    assert_eq!(scheduler.notify_cursor, 2);

    scheduler.searching_workers = 2;
    let wakeup = scheduler.notify();
    assert!(!wakeup.reactor);
    assert_eq!(wakeup.unpark, None);
    assert_eq!(scheduler.notify_cursor, 2);
}

#[test]
fn the_cursor_starts_over() {
    let mut scheduler = Scheduler::new(vec![], 2);
    scheduler.notify_cursor = usize::MAX;
    let wakeup = scheduler.notify();
    assert_eq!(wakeup.unpark, Some(1));
    assert_eq!(scheduler.notify_cursor, 0);
}

#[test]
fn test_inject_notifications() {
    let mut scheduler = Scheduler::new(vec![], 0);
    let wakeup = scheduler.inject(1);
    assert!(wakeup.reactor);
    assert_eq!(wakeup.unpark, None);
}

#[test]
fn test_spawn_and_reuse() {
    let mut scheduler = Scheduler::new(vec![], 0);
    let mut context = Context::new();

    // A new task, for want of one to use again.
    let plan = scheduler.spawn(&mut context, bytes(24));
    assert_eq!(plan, SpawnPlan::Create(Some(Layout { size: 32, align: 16 })));
    let _ = scheduler.inject(1);
    assert!(take(&mut scheduler).is_some());

    // One that the thread has kept.
    let layout = bytes(32);
    let idx = Scheduler::pool_index(layout).unwrap();
    let dummy_task: TaskId = 2;
    context.local_task_pool[idx].push(dummy_task);
    let plan = scheduler.spawn(&mut context, bytes(16));
    assert_eq!(plan, SpawnPlan::Reuse(dummy_task));
    let _ = scheduler.inject(dummy_task);
    assert!(take(&mut scheduler).is_some());

    // One that the scheduler has.
    let dummy_task_global: TaskId = 3;
    assert!(scheduler.task_pools[idx].push(dummy_task_global));
    let plan = scheduler.spawn(&mut context, bytes(16));
    assert_eq!(plan, SpawnPlan::Reuse(dummy_task_global));
    let _ = scheduler.inject(dummy_task_global);
    assert!(take(&mut scheduler).is_some());

    // None is left.
    let plan = scheduler.spawn(&mut context, bytes(33));
    assert_eq!(plan, SpawnPlan::Create(Some(Layout { size: 64, align: 16 })));
    let plan = scheduler.spawn(&mut context, bytes(0));
    assert_eq!(plan, SpawnPlan::Create(None));
}

#[test]
fn done_tasks_are_kept_then_shared_then_dropped() {
    let mut scheduler = Scheduler::new(vec![], 0);
    let mut context = Context::new();
    let layout = Layout { size: 32, align: 16 };
    for task in 0..128 {
        assert_eq!(scheduler.recycle_task(&mut context, task, layout, true), Recycled::Kept);
    }
    for task in 128..128 + 1024 {
        assert_eq!(scheduler.recycle_task(&mut context, task, layout, true), Recycled::Shared);
    }
    assert_eq!(scheduler.recycle_task(&mut context, 9999, layout, true), Recycled::Dropped);

    // The thread's own are used first, the youngest before the others; the shared ones in order.
    assert_eq!(scheduler.spawn(&mut context, layout), SpawnPlan::Reuse(127));
    for task in (0..127).rev() {
        assert_eq!(scheduler.spawn(&mut context, layout), SpawnPlan::Reuse(task));
    }
    assert_eq!(scheduler.spawn(&mut context, layout), SpawnPlan::Reuse(128));
    assert_eq!(scheduler.spawn(&mut context, layout), SpawnPlan::Reuse(129));
}

#[test]
fn a_task_that_is_held_is_not_used_again() {
    let mut scheduler = Scheduler::new(vec![], 0);
    let mut context = Context::new();
    let layout = Layout { size: 32, align: 16 };
    assert_eq!(scheduler.recycle_task(&mut context, 1, layout, false), Recycled::Dropped);
    assert_eq!(scheduler.recycle_task(&mut context, 1, bytes(0), true), Recycled::Dropped);
    assert_eq!(
        scheduler.spawn(&mut context, layout),
        SpawnPlan::Create(Some(Layout { size: 32, align: 16 }))
    );
}

#[test]
fn test_task_new() {
    let task: Task<()> = Task::new();
    assert_eq!(task.state, ExecState::Scheduled);
    assert_eq!(task.join.state, taiga::executor::join_handle::JoinState::Running);
}

#[test]
fn test_task_reuse() {
    let mut task: Task<()> = Task::new();
    task.state = ExecState::Idle;
    task.reuse();
    assert_eq!(task.state, ExecState::Scheduled);
}

#[test]
fn woken_tasks_go_to_slot_then_queue_then_everybody() {
    let mut scheduler = Scheduler::new(vec![LocalQueue::new()], 1);
    let mut context = Context::new();
    let mut a: Task<()> = Task::new();
    let mut b: Task<()> = Task::new();
    a.state = ExecState::Idle;
    b.state = ExecState::Idle;

    // Not a worker: the common queue.
    assert!(matches!(a.wake_by_ref(1, &mut context, &mut scheduler), Woken::Injected(_)));
    assert_eq!(take(&mut scheduler), Some(1));

    // A worker: first the slot, then its queue.
    enter_worker(&mut context);
    context.local_queue = Some(0);
    a.state = ExecState::Idle;
    assert_eq!(a.wake_by_ref(1, &mut context, &mut scheduler), Woken::Slot);
    assert_eq!(context.lifo_slot, Some(1));
    assert_eq!(a.lifo_count, 1);
    assert_eq!(b.wake_by_ref(2, &mut context, &mut scheduler), Woken::Local);
    assert_eq!(scheduler.queues[0].pop(), Some(2));
}

#[test]
fn waking_twice_queues_once() {
    let mut scheduler = Scheduler::new(vec![], 0);
    let mut context = Context::new();
    let mut task: Task<()> = Task::new();
    task.state = ExecState::Idle;
    assert!(matches!(task.wake_by_ref(1, &mut context, &mut scheduler), Woken::Injected(_)));
    assert_eq!(task.wake_by_ref(1, &mut context, &mut scheduler), Woken::Already);
    assert_eq!(take(&mut scheduler), Some(1));
    assert_eq!(take(&mut scheduler), None);
}

#[test]
fn waking_while_polled_marks_and_waking_when_done_does_nothing() {
    let mut scheduler = Scheduler::new(vec![], 0);
    let mut context = Context::new();
    let mut task: Task<()> = Task::new();
    task.state = ExecState::Polling;
    assert_eq!(task.wake_by_ref(1, &mut context, &mut scheduler), Woken::Already);
    assert_eq!(task.state, ExecState::Scheduled);
    task.state = ExecState::Completed;
    assert_eq!(task.wake_by_ref(1, &mut context, &mut scheduler), Woken::Already);
    assert_eq!(task.state, ExecState::Completed);
    assert_eq!(take(&mut scheduler), None);
}

#[test]
fn the_slot_is_limited() {
    let mut scheduler = Scheduler::new(vec![LocalQueue::new()], 1);
    let mut context = Context::new();
    enter_worker(&mut context);
    context.local_queue = Some(0);
    let mut task: Task<()> = Task::new();
    for _ in 0..3 {
        task.state = ExecState::Idle;
        assert_eq!(task.wake_by_ref(1, &mut context, &mut scheduler), Woken::Slot);
        context.lifo_slot = None;
    }
    task.state = ExecState::Idle;
    assert_eq!(task.wake_by_ref(1, &mut context, &mut scheduler), Woken::Local);
    assert_eq!(task.lifo_count, 0);
}

#[test]
fn a_thread_enters_and_leaves_a_runtime() {
    let mut context = Context::new();
    assert_eq!(context.current(), None);
    enter(&mut context, 5);
    assert_eq!(context.current(), Some(5));
    exit(&mut context);
    assert_eq!(context.current(), None);
}

#[test]
fn a_recycle_pool_holds_what_it_was_made_for() {
    let mut pool = taiga::queues::RecyclePool::new(100_000);
    for task in 0..100_000 {
        assert!(pool.push(task));
    }
    assert!(!pool.push(100_000));
    assert_eq!(pool.pop(), Some(0));
    assert!(pool.push(100_000));
}
