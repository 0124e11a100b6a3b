use taiga::executor::context::{enter_worker, Context};
use taiga::executor::scheduler::{Recycled, Scheduler};
use taiga::executor::stats::Stats;
use taiga::executor::task::{ExecState, Task};
use taiga::executor::worker::{after_last_look, begin_search, end_sleep, Action, Found, Polled, Search, Worker};
use taiga::layout::Layout;
use taiga::queues::{LocalQueue, Steal};

fn queues(n: usize) -> Vec<LocalQueue> {
    let mut all = Vec::new();
    for _ in 0..n {
        all.push(LocalQueue::new());
    }
    all
}

fn worker_context() -> Context {
    let mut context = Context::new();
    enter_worker(&mut context);
    context.local_queue = Some(0);
    context
}

#[test]
fn test_worker_new() {
    let worker = Worker::new(0);
    assert_eq!(worker.id, 0);
    assert_eq!(worker.tick, 0);
    assert_eq!(worker.budget, 128);
}

#[test]
fn test_fast_rng() {
    let mut worker = Worker::new(0);
    let rng1 = worker.fast_rng();
    let rng2 = worker.fast_rng();
    let rng3 = worker.fast_rng();

    assert_ne!(rng1, rng2);
    assert_ne!(rng2, rng3);
}

#[test]
fn the_generator_is_xorshift() {
    let mut worker = Worker::new(0);
    assert_eq!(worker.rng, 1);
    assert_eq!(worker.fast_rng(), 270_369);
    assert_eq!(worker.fast_rng(), 67_634_689);
}

#[test]
fn test_execute_task() {
    let mut scheduler = Scheduler::new(vec![], 0);
    let mut worker = Worker::new(0);
    let mut context = Context::new();
    let mut task: Task<()> = Task::new();
    assert_eq!(task.state, ExecState::Scheduled);

    assert!(worker.begin_execute(1, &mut task, &mut context));
    assert_eq!(context.current_task, Some(1));
    let layout = Layout { size: 0, align: 1 };
    let polled = worker.finish_execute(1, &mut task, &mut context, &mut scheduler, true, layout, false);
    assert_eq!(polled, Polled::Done(Recycled::Dropped));

    assert_eq!(worker.budget, 127);
    assert_eq!(worker.tick, 1);
    assert_eq!(context.current_task, None);
    assert_eq!(task.state, ExecState::Completed);
}

#[test]
fn a_pending_task_goes_idle_unless_it_was_woken() {
    let mut scheduler = Scheduler::new(vec![], 0);
    let mut worker = Worker::new(0);
    let mut context = Context::new();
    let mut task: Task<()> = Task::new();
    let layout = Layout { size: 32, align: 16 };

    assert!(worker.begin_execute(1, &mut task, &mut context));
    let polled = worker.finish_execute(1, &mut task, &mut context, &mut scheduler, false, layout, false);
    assert_eq!(polled, Polled::Idle);
    assert_eq!(task.state, ExecState::Idle);

    task.state = ExecState::Scheduled;
    assert!(worker.begin_execute(1, &mut task, &mut context));
    let _ = task.wake_by_ref(1, &mut context, &mut scheduler);
    let polled = worker.finish_execute(1, &mut task, &mut context, &mut scheduler, false, layout, false);
    assert!(matches!(polled, Polled::Again(_)));
    assert_eq!(task.state, ExecState::Scheduled);
    loop {
        match scheduler.steal() {
            Steal::Success(id) => {
                assert_eq!(id, 1);
                break;
            }
            Steal::Empty => panic!("the task is lost"),
            Steal::Retry => {}
        }
    }
}

#[test]
fn what_is_not_scheduled_is_not_polled() {
    let mut worker = Worker::new(0);
    let mut context = Context::new();
    let mut task: Task<()> = Task::new();
    task.state = ExecState::Idle;
    assert!(!worker.begin_execute(1, &mut task, &mut context));
    assert_eq!(worker.budget, 128);
    assert_eq!(worker.tick, 1);
}

#[test]
fn a_spent_budget_gives_the_slot_away() {
    let mut scheduler = Scheduler::new(queues(1), 1);
    let mut worker = Worker::new(0);
    let mut context = worker_context();
    context.lifo_slot = Some(8);
    worker.budget = 0;
    let wakeup = worker.cooperative_yield(&mut context, &mut scheduler);
    assert_eq!(wakeup.unwrap().unpark, Some(0));
    assert_eq!(worker.budget, 128);
    assert_eq!(context.lifo_slot, None);
    assert_eq!(scheduler.queue.len(), 1);
    assert!(worker.cooperative_yield(&mut context, &mut scheduler).is_none());
}

#[test]
fn a_spent_budget_gives_the_oldest_away() {
    let mut scheduler = Scheduler::new(queues(1), 1);
    let mut worker = Worker::new(0);
    let mut context = worker_context();
    scheduler.queues[0].push(1);
    scheduler.queues[0].push(2);
    worker.budget = 0;
    assert!(worker.cooperative_yield(&mut context, &mut scheduler).is_some());
    assert_eq!(scheduler.queues[0].pop(), Some(2));
    worker.budget = 0;
    assert!(worker.cooperative_yield(&mut context, &mut scheduler).is_none());
    assert_eq!(worker.budget, 128);
}

#[test]
fn the_slot_comes_first_but_not_for_ever() {
    let mut scheduler = Scheduler::new(queues(1), 1);
    let mut worker = Worker::new(0);
    let mut context = worker_context();
    scheduler.queues[0].push(50);
    for _ in 0..3 {
        context.lifo_slot = Some(1);
        assert_eq!(worker.next_local_task(&mut context, &mut scheduler), Some(1));
    }
    context.lifo_slot = Some(1);
    assert_eq!(worker.next_local_task(&mut context, &mut scheduler), Some(50));
    assert_eq!(worker.lifo_count, 0);
    assert_eq!(worker.next_local_task(&mut context, &mut scheduler), Some(1));
}

#[test]
fn the_common_queue_is_looked_at_now_and_then() {
    let mut scheduler = Scheduler::new(queues(1), 1);
    let mut worker = Worker::new(0);
    let mut context = worker_context();
    let _ = scheduler.inject(3);
    worker.tick = 1;
    assert_eq!(worker.next_local_task(&mut context, &mut scheduler), None);
    worker.tick = 61;
    let mut found = None;
    for _ in 0..1000 {
        found = worker.next_local_task(&mut context, &mut scheduler);
        if found.is_some() {
            break;
        }
    }
    assert_eq!(found, Some(3));
}

#[test]
fn a_worker_robs_the_first_that_has_something() {
    let mut scheduler = Scheduler::new(queues(3), 3);
    let mut worker = Worker::new(0);
    scheduler.queues[2].push(1);
    scheduler.queues[2].push(2);
    scheduler.queues[2].push(3);
    assert_eq!(worker.steal(&mut scheduler), Steal::Success(1));
    assert_eq!(scheduler.queues[0].pop(), Some(2));
    assert_eq!(scheduler.queues[0].pop(), None);
    assert_eq!(scheduler.queues[2].pop(), Some(3));
    assert_eq!(worker.steal(&mut scheduler), Steal::Empty);
}

#[test]
fn a_worker_does_not_rob_itself() {
    let mut scheduler = Scheduler::new(queues(2), 2);
    let mut worker = Worker::new(1);
    scheduler.queues[1].push(1);
    assert_eq!(worker.steal(&mut scheduler), Steal::Empty);
    assert_eq!(scheduler.queues[1].pop(), Some(1));
}

fn search_to_the_end(worker: &mut Worker, scheduler: &mut Scheduler) -> (Found, usize) {
    let mut search = begin_search(scheduler);
    assert_eq!(scheduler.searching_workers, 1);
    let mut steps = 0;
    loop {
        steps += 1;
        match worker.search_step(search, scheduler, 8) {
            Found::Nothing(next) => search = next,
            found => return (found, steps),
        }
    }
}

#[test]
fn a_search_for_nothing_ends_in_sleep() {
    let mut scheduler = Scheduler::new(queues(2), 2);
    let mut worker = Worker::new(0);
    let (found, steps) = search_to_the_end(&mut worker, &mut scheduler);
    assert_eq!(found, Found::Sleep);
    assert_eq!(steps, 1 + 150 + 1);
    assert_eq!(scheduler.searching_workers, 0);
    assert_eq!(scheduler.sleeping_workers, 1);
    end_sleep(&mut scheduler);
    assert_eq!(scheduler.sleeping_workers, 0);
}

#[test]
fn a_search_finds_what_others_have() {
    let mut scheduler = Scheduler::new(queues(2), 2);
    let mut worker = Worker::new(0);
    scheduler.queues[1].push(9);
    let (found, steps) = search_to_the_end(&mut worker, &mut scheduler);
    assert_eq!(found, Found::Task(9));
    assert_eq!(steps, 1);
    assert_eq!(scheduler.searching_workers, 0);
    assert_eq!(scheduler.sleeping_workers, 0);
}

#[test]
fn a_search_finds_what_waits_for_anybody() {
    let mut scheduler = Scheduler::new(queues(2), 2);
    let mut worker = Worker::new(0);
    let _ = scheduler.inject(4);
    let (found, _) = search_to_the_end(&mut worker, &mut scheduler);
    assert_eq!(found, Found::Task(4));
}

#[test]
fn the_last_look_is_left_out_while_many_search() {
    let mut scheduler = Scheduler::new(queues(2), 2);
    let mut worker = Worker::new(0);
    let _ = scheduler.inject(4);
    scheduler.searching_workers = 5;
    assert_eq!(worker.search_step(Search::Last, &mut scheduler, 8), Found::Sleep);
    assert_eq!(scheduler.searching_workers, 4);
    scheduler.searching_workers = 4;
    let mut found = worker.search_step(Search::Last, &mut scheduler, 8);
    while found == Found::Sleep {
        scheduler.searching_workers = 4;
        found = worker.search_step(Search::Last, &mut scheduler, 8);
    }
    assert_eq!(found, Found::Task(4));
}

#[test]
fn a_search_on_this_machine_ends_too() {
    let mut scheduler = Scheduler::new(queues(1), 1);
    let mut worker = Worker::new(0);
    let mut search = begin_search(&mut scheduler);
    loop {
        match worker.search(search, &mut scheduler) {
            Found::Nothing(next) => search = next,
            found => {
                assert_eq!(found, Found::Sleep);
                break;
            }
        }
    }
    assert_eq!(scheduler.searching_workers, 0);
}

#[test]
fn a_worker_decides_what_to_do() {
    let mut scheduler = Scheduler::new(queues(1), 1);
    let mut worker = Worker::new(0);
    let mut context = worker_context();
    worker.tick = 1;
    assert_eq!(worker.next_action(&mut context, &mut scheduler), (Action::Search, None));
    scheduler.queues[0].push(6);
    assert_eq!(worker.next_action(&mut context, &mut scheduler), (Action::Run(6), None));
    scheduler.shutdown = true;
    scheduler.queues[0].push(7);
    assert_eq!(worker.next_action(&mut context, &mut scheduler), (Action::Stop, None));
}

#[test]
fn the_interval_stays_within_bounds() {
    let mut stats = Stats::new();
    assert_eq!(stats.tuned_interval(), 61);
    stats.tune(0);
    assert_eq!(stats.tuned_interval(), 2);
    stats.tune(1_000_000);
    assert_eq!(stats.tuned_interval(), 127);
    stats.tune(50);
    assert_eq!(stats.tuned_interval(), 50);
}

#[test]
fn polls_are_counted_by_the_burst() {
    let mut stats = Stats::new();
    assert_eq!(stats.end_batch(), None);
    stats.record_poll();
    stats.record_poll();
    assert_eq!(stats.end_batch(), Some(2));
    stats.start_batch();
    assert_eq!(stats.end_batch(), None);
}

#[test]
fn the_last_look_decides() {
    let mut scheduler = Scheduler::new(queues(1), 1);
    assert_eq!(after_last_look(Some(Steal::Success(3)), &mut scheduler), Found::Task(3));
    assert_eq!(scheduler.sleeping_workers, 0);
    for looked in [Some(Steal::Empty), Some(Steal::Retry), None] {
        assert_eq!(after_last_look(looked, &mut scheduler), Found::Sleep);
    }
    assert_eq!(scheduler.sleeping_workers, 3);
}

#[test]
fn the_common_queue_has_its_turn() {
    let mut worker = Worker::new(0);
    for (tick, turn) in [(0, true), (1, false), (60, false), (61, true), (122, true)] {
        worker.tick = tick;
        assert_eq!(worker.turns_to_common(), turn);
    }
    worker.stats.tune(2);
    worker.tick = 4;
    assert!(worker.turns_to_common());
}
