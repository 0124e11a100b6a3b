use futures::task::noop_waker;
use std::sync::atomic::{AtomicUsize, Ordering};
use std::sync::Arc;
use std::task::{Wake, Waker};
use taiga::executor::context::{enter_worker, Context};
use taiga::executor::handle::{Handle, Rest};
use taiga::executor::reactor::{Reactor, Readiness, Registration};
use taiga::executor::scheduler::Scheduler;
use taiga::time::instant::Instant;

const MS: u64 = 1_000_000;

struct Counter(AtomicUsize);

impl Wake for Counter {
    fn wake(self: Arc<Self>) {
        self.0.fetch_add(1, Ordering::SeqCst);
    }
}

fn counter() -> (Arc<Counter>, Waker) {
    let counter = Arc::new(Counter(AtomicUsize::new(0)));
    let waker = Waker::from(counter.clone());
    (counter, waker)
}

fn count(counter: &Arc<Counter>) -> usize {
    counter.0.load(Ordering::SeqCst)
}

fn at(ms: u64) -> Instant {
    Instant { nanos: ms * MS }
}

fn reading(key: usize, waker: Waker) -> Registration {
    Registration::IO { key, waker, read: true, write: false }
}

fn event(key: usize, readable: bool, writable: bool) -> Readiness {
    Readiness { key, readable, writable }
}

#[test]
fn test_reactor_new() {
    let reactor = Reactor::new(at(0));
    assert!(!reactor.notified);
    assert!(!reactor.shutdown);
}

#[test]
fn test_push_batch() {
    let mut reactor = Reactor::new(at(0));
    let waker = noop_waker();
    let reg = Registration::IO { key: 1, waker, read: true, write: false };
    assert!(reactor.push_batch(vec![reg]));
    assert!(reactor.notified);
    assert!(!reactor.registrations.is_empty());
}

#[test]
fn an_empty_batch_is_nothing() {
    let mut reactor = Reactor::new(at(0));
    assert!(!reactor.push_batch(vec![]));
    assert!(!reactor.notified);
    assert!(reactor.registrations.is_empty());
}

#[test]
fn test_notify() {
    let mut reactor = Reactor::new(at(0));
    assert!(reactor.notify());
    assert!(reactor.notified);
    assert!(!reactor.notify());
    assert!(reactor.notified);
}

#[test]
fn only_one_drives_and_nobody_after_shutdown() {
    let mut reactor = Reactor::new(at(0));
    assert!(reactor.begin_poll(at(0)).is_some());
    assert!(reactor.begin_poll(at(0)).is_none());
    let _ = reactor.end_poll();
    assert!(reactor.begin_poll(at(0)).is_some());
    let _ = reactor.end_poll();
    reactor.shutdown = true;
    assert!(reactor.begin_poll(at(0)).is_none());
    assert!(!reactor.is_polling);
}

#[test]
fn readers_and_writers_are_woken_by_their_events() {
    for key in [5, 1023, 1024, 70_000] {
        let mut reactor = Reactor::new(at(0));
        let (reads, reader) = counter();
        let (writes, writer) = counter();
        reactor.push_batch(vec![
            reading(key, reader),
            Registration::IO { key, waker: writer, read: false, write: true },
        ]);
        let wait = reactor.begin_poll(at(0)).unwrap();
        assert_eq!(wait.interests, vec![event(key, true, false), event(key, true, true)]);
        assert_eq!(wait.timeout, None);

        for waker in reactor.dispatch(vec![event(key, true, false)], at(1)).wakers {
            waker.wake();
        }
        assert_eq!((count(&reads), count(&writes)), (1, 0));
        for waker in reactor.dispatch(vec![event(key, true, true)], at(2)).wakers {
            waker.wake();
        }
        assert_eq!((count(&reads), count(&writes)), (1, 1));
        assert!(reactor.dispatch(vec![event(key, true, true)], at(3)).wakers.is_empty());
    }
}

#[test]
fn whoever_waits_keeps_the_place() {
    let mut reactor = Reactor::new(at(0));
    let (first, first_waker) = counter();
    let (second, second_waker) = counter();
    reactor.push_batch(vec![reading(3, first_waker), reading(3, second_waker)]);
    let wait = reactor.begin_poll(at(0)).unwrap();
    assert_eq!(wait.interests, vec![event(3, true, false)]);
    for waker in reactor.dispatch(vec![event(3, true, false)], at(0)).wakers {
        waker.wake();
    }
    assert_eq!((count(&first), count(&second)), (1, 0));
}

#[test]
fn one_waker_may_wait_for_both() {
    let mut reactor = Reactor::new(at(0));
    let (woken, waker) = counter();
    reactor.push_batch(vec![Registration::IO { key: 2, waker, read: true, write: true }]);
    let wait = reactor.begin_poll(at(0)).unwrap();
    assert_eq!(wait.interests, vec![event(2, true, true)]);
    for waker in reactor.dispatch(vec![event(2, true, true)], at(0)).wakers {
        waker.wake();
    }
    assert_eq!(count(&woken), 2);
}

#[test]
fn a_removed_source_wakes_nobody() {
    for key in [9, 5000] {
        let mut reactor = Reactor::new(at(0));
        reactor.push_batch(vec![reading(key, noop_waker())]);
        assert!(!reactor.delete(key));
        let _ = reactor.begin_poll(at(0)).unwrap();
        assert!(reactor.dispatch(vec![event(key, true, true)], at(0)).wakers.is_empty());
        reactor.push_batch(vec![reading(key, noop_waker())]);
        let interests = reactor.end_poll();
        assert_eq!(interests, vec![event(key, true, false)]);
    }
}

#[test]
fn an_event_on_an_unknown_source_is_passed_over() {
    let mut reactor = Reactor::new(at(0));
    let done = reactor.dispatch(vec![event(77, true, true), event(7777, true, true)], at(0));
    assert!(done.wakers.is_empty());
    assert!(done.interests.is_empty());
}

#[test]
fn a_timer_sets_the_wait_and_fires() {
    let mut reactor = Reactor::new(at(100));
    let (woken, waker) = counter();
    reactor.push_batch(vec![Registration::Timer { deadline: at(150), waker }]);
    let wait = reactor.begin_poll(at(120)).unwrap();
    assert_eq!(wait.timeout, Some(30 * MS));
    assert!(reactor.dispatch(vec![], at(149)).wakers.is_empty());
    for waker in reactor.dispatch(vec![], at(150)).wakers {
        waker.wake();
    }
    assert_eq!(count(&woken), 1);
    let _ = reactor.end_poll();
    assert_eq!(reactor.begin_poll(at(151)).unwrap().timeout, None);
}

#[test]
fn events_come_before_timers() {
    let mut reactor = Reactor::new(at(0));
    let (_, timer) = counter();
    let (reads, reader) = counter();
    reactor.push_batch(vec![Registration::Timer { deadline: at(1), waker: timer }, reading(1, reader)]);
    let done = reactor.dispatch(vec![event(1, true, false)], at(1));
    assert_eq!(done.wakers.len(), 2);
    done.wakers[0].wake_by_ref();
    assert_eq!(count(&reads), 1);
}

#[test]
fn workers_collect_registrations() {
    let mut handle = Handle::new(Scheduler::new(vec![], 0), Reactor::new(at(0)));
    let mut context = Context::new();
    enter_worker(&mut context);
    for key in 0..15 {
        assert!(!handle.register_io(&mut context, key, noop_waker(), true, false));
    }
    assert!(handle.reactor.registrations.is_empty());
    assert!(handle.register_timer(&mut context, at(1), noop_waker()));
    assert!(context.registration_buffer.is_empty());
    assert_eq!(handle.reactor.handle_registrations().len(), 15);

    assert!(!handle.register_io(&mut context, 1, noop_waker(), false, true));
    handle.reactor.notified = false;
    assert!(handle.flush_registrations(&mut context));
    assert!(!handle.flush_registrations(&mut context));
    assert_eq!(handle.reactor.handle_registrations(), vec![event(1, true, true)]);
}

#[test]
fn other_threads_register_at_once() {
    let mut handle = Handle::new(Scheduler::new(vec![], 0), Reactor::new(at(0)));
    let mut context = Context::new();
    assert!(handle.register_io(&mut context, 1, noop_waker(), true, false));
    assert!(!handle.register_io(&mut context, 2, noop_waker(), true, false));
    assert_eq!(
        handle.reactor.handle_registrations(),
        vec![event(1, true, false), event(2, true, false)]
    );
}

#[test]
fn shutting_down_tells_everybody() {
    let mut handle = Handle::new(Scheduler::new(vec![], 3), Reactor::new(at(0)));
    assert!(handle.shutdown());
    assert!(handle.scheduler.shutdown);
    assert!(handle.reactor.shutdown);
    assert!(!handle.shutdown());
}

#[test]
fn a_worker_drives_or_parks() {
    let mut handle = Handle::new(Scheduler::new(vec![], 0), Reactor::new(at(0)));
    let mut driver = Context::new();
    let mut other = Context::new();
    enter_worker(&mut driver);
    enter_worker(&mut other);
    assert!(!handle.register_timer(&mut driver, at(9), noop_waker()));
    let (rest, notify) = handle.begin_rest(&mut driver, at(4));
    assert!(notify);
    assert!(driver.registration_buffer.is_empty());
    match rest {
        Rest::Drive(wait) => assert_eq!(wait.timeout, Some(5 * MS)),
        Rest::Park => panic!("nobody else drives"),
    }
    assert!(handle.reactor.is_polling);

    assert!(!handle.register_io(&mut other, 3, noop_waker(), true, false));
    let (rest, notify) = handle.begin_rest(&mut other, at(4));
    assert!(matches!(rest, Rest::Park));
    assert!(notify);
    assert!(other.registration_buffer.is_empty());
    assert_eq!(handle.reactor.handle_registrations(), vec![event(3, true, false)]);
    let (rest, notify) = handle.begin_rest(&mut other, at(4));
    assert!(matches!(rest, Rest::Park));
    assert!(!notify);

    let _ = handle.reactor.end_poll();
    let _ = handle.shutdown();
    assert!(matches!(handle.begin_rest(&mut driver, at(5)).0, Rest::Park));
}
