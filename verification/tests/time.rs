use futures::task::noop_waker;
use std::sync::atomic::{AtomicUsize, Ordering};
use std::sync::Arc;
use std::task::{Wake, Waker};
use taiga::executor::context::Context;
use taiga::executor::handle::Handle;
use taiga::executor::reactor::Reactor;
use taiga::executor::scheduler::Scheduler;
use taiga::poll::Poll;
use taiga::time::instant::Instant;
use taiga::time::sleep::{sleep, Progress, Sleep};
use taiga::time::wheel::TimerWheel;

const MS: u64 = 1_000_000;

fn at(ms: u64) -> Instant {
    Instant { nanos: ms * MS }
}

struct Counter(AtomicUsize);

impl Wake for Counter {
    fn wake(self: Arc<Self>) {
        self.0.fetch_add(1, Ordering::SeqCst);
    }
}

#[test]
fn every_timer_fires_in_its_millisecond() {
    for deadline in [0, 1, 2, 63, 64, 65, 127, 128, 4095, 4096, 4097, 9000, 262_143, 262_144, 262_145, 300_000] {
        let mut wheel = TimerWheel::new(at(0));
        wheel.insert(at(deadline), noop_waker());
        assert_eq!(wheel.next_expiration(), Some(at(deadline)));
        if deadline > 0 {
            assert!(wheel.tick(at(deadline - 1)).is_empty(), "{} fired early", deadline);
        }
        assert_eq!(wheel.tick(at(deadline)).len(), 1, "{} did not fire", deadline);
        assert_eq!(wheel.next_expiration(), None);
        assert!(wheel.tick(at(deadline + 100_000)).is_empty());
    }
}

#[test]
fn timers_fire_however_the_wheel_is_ticked() {
    for step in [1, 3, 50, 64, 100, 5000] {
        let mut wheel = TimerWheel::new(at(7));
        let mut pending = 0;
        for deadline in (7..20_000).step_by(37) {
            wheel.insert(at(deadline), noop_waker());
            pending += 1;
        }
        let mut now = 7;
        while now < 21_000 {
            let due = (7..20_000).step_by(37).filter(|d| *d <= now).count();
            let fired = wheel.tick(at(now)).len();
            pending -= fired;
            assert_eq!(pending, (7..20_000).step_by(37).count() - due);
            now += step;
        }
        assert_eq!(pending, 0);
    }
}

#[test]
fn no_timer_fires_before_its_deadline() {
    let mut wheel = TimerWheel::new(Instant { nanos: 0 });
    let deadline = Instant { nanos: 50 * MS + 700_000 };
    wheel.insert(deadline, noop_waker());
    assert!(wheel.tick(Instant { nanos: 50 * MS + 699_999 }).is_empty());
    assert_eq!(wheel.next_expiration(), Some(deadline));
    assert_eq!(wheel.next_wait(Instant { nanos: 50 * MS }), Some(700_000));
    assert_eq!(wheel.tick(deadline).len(), 1);
    assert_eq!(wheel.next_wait(deadline), None);
}

#[test]
fn a_timer_fires_within_its_millisecond() {
    let mut wheel = TimerWheel::new(at(0));
    wheel.insert(Instant { nanos: 2 * MS + 500_000 }, noop_waker());
    assert_eq!(wheel.tick(Instant { nanos: 2 * MS + 900_000 }).len(), 1);
    assert_eq!(wheel.next_expiration(), None);
    let mut wheel = TimerWheel::new(at(0));
    wheel.insert(Instant { nanos: 2 * MS + 500_000 }, noop_waker());
    assert!(wheel.tick(Instant { nanos: 2 * MS + 200_000 }).is_empty());
    assert_eq!(wheel.tick(at(3)).len(), 1);
}

#[test]
fn a_tick_to_an_earlier_instant_fires_nothing_ahead_of_it() {
    let mut wheel = TimerWheel::new(at(0));
    assert!(wheel.tick(at(10)).is_empty());
    wheel.insert(at(8), noop_waker());
    assert!(wheel.tick(at(5)).is_empty());
    assert_eq!(wheel.next_expiration(), Some(at(8)));
    assert_eq!(wheel.tick(at(8)).len(), 1);
    assert_eq!(wheel.next_expiration(), None);
}

/// Which of the timers fired, in order, when `tick` is called on a wheel with a timer for each of
/// `deadlines`, in nanoseconds.
fn order_of(deadlines: &[u64], ticks: &[u64]) -> Vec<usize> {
    let mut wheel = TimerWheel::new(at(0));
    let mut counters = Vec::new();
    for deadline in deadlines {
        let counter = Arc::new(Counter(AtomicUsize::new(0)));
        wheel.insert(Instant { nanos: *deadline }, Waker::from(counter.clone()));
        counters.push(counter);
    }
    let mut order = Vec::new();
    for tick in ticks {
        for waker in wheel.tick(Instant { nanos: *tick }) {
            waker.wake();
            for (i, counter) in counters.iter().enumerate() {
                if counter.0.swap(0, Ordering::SeqCst) == 1 {
                    order.push(i);
                }
            }
        }
    }
    order
}

#[test]
fn timers_of_one_millisecond_fire_in_the_order_of_their_slot() {
    let same = [70 * MS + 900, 70 * MS + 100, 70 * MS, 70 * MS + 500];
    assert_eq!(order_of(&same, &[71 * MS]), vec![0, 1, 2, 3]);
    assert_eq!(order_of(&same, &[64 * MS, 69 * MS, 71 * MS]), vec![0, 1, 2, 3]);
    // A tick in the middle of the millisecond takes out what is due by then.
    assert_eq!(order_of(&same, &[70 * MS + 200, 71 * MS]), vec![1, 2, 0, 3]);
}

#[test]
fn how_often_the_wheel_is_ticked_does_not_change_the_order() {
    let deadlines: Vec<u64> = (0..200).map(|i| (i * 7919 % 101) * 89 * MS).collect();
    let at_once = order_of(&deadlines, &[10_000 * MS]);
    assert_eq!(at_once.len(), 200);
    for step in [1, 17, 64, 1000] {
        let ticks: Vec<u64> = (0..=10_000).step_by(step).map(|ms| ms * MS).collect();
        assert_eq!(order_of(&deadlines, &ticks), at_once);
    }
}

#[test]
fn an_overdue_timer_fires_at_the_next_tick() {
    let mut wheel = TimerWheel::new(at(10));
    assert!(wheel.tick(at(500)).is_empty());
    wheel.insert(at(20), noop_waker());
    wheel.insert(at(3), noop_waker());
    assert_eq!(wheel.next_wait(at(500)), Some(0));
    assert_eq!(wheel.tick(at(500)).len(), 2);
}

#[test]
fn the_next_expiration_is_the_earliest_on_any_level() {
    let mut wheel = TimerWheel::new(at(0));
    wheel.insert(at(100), noop_waker());
    assert!(wheel.tick(at(60)).is_empty());
    wheel.insert(at(110), noop_waker());
    assert_eq!(wheel.next_expiration(), Some(at(100)));
    assert_eq!(wheel.next_wait(at(60)), Some(40 * MS));
    assert_eq!(wheel.tick(at(105)).len(), 1);
    assert_eq!(wheel.next_expiration(), Some(at(110)));
}

#[test]
fn timers_fire_in_the_order_of_their_milliseconds() {
    let order = order_of(&[70 * MS, 5 * MS, 4100 * MS, 64 * MS], &[5000 * MS]);
    assert_eq!(order, vec![1, 3, 0, 2]);
}

#[test]
fn an_instant_knows_its_distance() {
    assert_eq!(at(5).saturating_millis_since(at(2)), 3);
    assert_eq!(at(2).saturating_millis_since(at(5)), 0);
    assert_eq!(Instant { nanos: 3 * MS - 1 }.saturating_millis_since(at(1)), 1);
    assert_eq!(at(2).saturating_nanos_since(at(1)), MS);
}

fn runtime() -> (Handle, Context) {
    (Handle::new(Scheduler::new(vec![], 0), Reactor::new(at(0))), Context::new())
}

#[test]
fn a_sleep_registers_once_and_ends() {
    let (mut handle, mut context) = runtime();
    let counter = Arc::new(Counter(AtomicUsize::new(0)));
    let waker = Waker::from(counter.clone());
    let mut nap = sleep(at(10), 50 * MS);
    assert_eq!(nap, Sleep::new(at(10), 50 * MS));
    assert_eq!(nap.progress(at(10)), Progress::Untimed);
    assert_eq!(nap.poll(at(10), &waker, &mut handle, &mut context), (Poll::Pending, true));
    assert_eq!(nap.poll(at(30), &waker, &mut handle, &mut context), (Poll::Pending, false));
    assert_eq!(nap.progress(at(30)), Progress::Timed);
    assert_eq!(nap.progress(at(60)), Progress::Done);
    let wait = handle.reactor.begin_poll(at(30)).unwrap();
    assert_eq!(wait.timeout, Some(30 * MS));
    let done = handle.reactor.dispatch(vec![], at(60));
    assert_eq!(done.wakers.len(), 1);
    for waker in done.wakers {
        waker.wake();
    }
    assert_eq!(counter.0.load(Ordering::SeqCst), 1);
    assert_eq!(nap.poll(at(60), &waker, &mut handle, &mut context), (Poll::Ready(()), false));
}

#[test]
fn a_sleep_of_no_time_is_done_at_once() {
    let (mut handle, mut context) = runtime();
    let mut nap = sleep(at(10), 0);
    assert_eq!(nap.poll(at(10), &noop_waker(), &mut handle, &mut context), (Poll::Ready(()), false));
    assert!(handle.reactor.registrations.is_empty());
}
