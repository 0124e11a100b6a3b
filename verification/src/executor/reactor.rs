use crate::time::instant::Instant;
use crate::time::wheel::{takes_in_nothing, takes_in_one_more, TimerEntry, TimerWheel};
use crate::waker::clone_waker;
use crossbeam::queue::SegQueue;
use std::collections::HashMap;
use std::task::Waker;
use vstd::multiset::Multiset;
use vstd::prelude::*;

verus! {

broadcast use vstd::std_specs::hash::group_hash_axioms;

/// Keys below this have a slot in a table; the others are kept in a map.
pub const HOT_SLOTS: usize = 1024;

/// A request to the reactor.
pub enum Registration {
    /// Wake `waker` when the source `key` can be read from, or written to.
    IO { key: usize, waker: Waker, read: bool, write: bool },
    /// Wake `waker` at `deadline`.
    Timer { deadline: Instant, waker: Waker },
    /// Forget whoever waits for the source `key`.
    Delete { key: usize },
}

/// Readiness of a source: what the poller is asked to watch for, or what it reports.
#[derive(Debug, Clone, Copy, PartialEq, Eq, Structural)]
pub struct Readiness {
    pub key: usize,
    pub readable: bool,
    pub writable: bool,
}

/// Whoever waits to read from a source, and whoever waits to write to it.
pub struct Slot {
    pub reader: Option<Waker>,
    pub writer: Option<Waker>,
}

/// What registrations and events act on.
#[verifier::ext_equal]
pub struct Watch {
    /// Who waits for which source.
    pub slots: Map<usize, Slot>,
    /// The timers that have not fired.
    pub timers: Multiset<TimerEntry>,
    /// What the poller has been asked to watch for, in order.
    pub interests: Seq<Readiness>,
}

/// The slot of `key`, empty if nobody ever waited for it.
pub open spec fn slot_of(slots: Map<usize, Slot>, key: usize) -> Slot {
    if slots.contains_key(key) {
        slots[key]
    } else {
        Slot { reader: None, writer: None }
    }
}

/// The slot after `waker` has asked for it: whoever waits already keeps the place.
pub open spec fn slot_with(slot: Slot, waker: Waker, read: bool, write: bool) -> Slot {
    Slot {
        reader: if read && slot.reader is None {
            Some(waker)
        } else {
            slot.reader
        },
        writer: if write && slot.writer is None {
            Some(waker)
        } else {
            slot.writer
        },
    }
}

/// Whether somebody new waits for the slot after such a request.
pub open spec fn slot_changes(slot: Slot, read: bool, write: bool) -> bool {
    (read && slot.reader is None) || (write && slot.writer is None)
}

/// What to watch for on behalf of a slot.
pub open spec fn interest_in(key: usize, slot: Slot) -> Readiness {
    Readiness { key, readable: slot.reader is Some, writable: slot.writer is Some }
}

/// The effect of one registration.
pub open spec fn registered(watch: Watch, registration: Registration) -> Watch {
    match registration {
        Registration::IO { key, waker, read, write } => {
            let before = slot_of(watch.slots, key);
            let after = slot_with(before, waker, read, write);
            Watch {
                slots: watch.slots.insert(key, after),
                timers: watch.timers,
                interests: if slot_changes(before, read, write) {
                    watch.interests.push(interest_in(key, after))
                } else {
                    watch.interests
                },
            }
        },
        Registration::Timer { deadline, waker } => Watch {
            slots: watch.slots,
            timers: watch.timers.insert(TimerEntry { deadline, waker }),
            interests: watch.interests,
        },
        Registration::Delete { key } => Watch {
            slots: watch.slots.remove(key),
            timers: watch.timers,
            interests: watch.interests,
        },
    }
}

/// The effect of registrations, one after the other.
pub open spec fn all_registered(watch: Watch, registrations: Seq<Registration>) -> Watch
    decreases registrations.len(),
{
    if registrations.len() == 0 {
        watch
    } else {
        registered(all_registered(watch, registrations.drop_last()), registrations.last())
    }
}

/// The timers that registrations ask for, in order.
pub open spec fn timers_of(registrations: Seq<Registration>) -> Seq<TimerEntry>
    decreases registrations.len(),
{
    if registrations.len() == 0 {
        Seq::empty()
    } else {
        let before = timers_of(registrations.drop_last());
        match registrations.last() {
            Registration::Timer { deadline, waker } => before.push(TimerEntry { deadline, waker }),
            _ => before,
        }
    }
}

proof fn timers_of_join(a: Seq<Registration>, b: Seq<Registration>)
    ensures
        timers_of(a + b) == timers_of(a) + timers_of(b),
    decreases b.len(),
{
    if b.len() == 0 {
        assert(a + b =~= a);
        assert(timers_of(a) + timers_of(b) =~= timers_of(a));
    } else {
        timers_of_join(a, b.drop_last());
        assert((a + b).drop_last() =~= a + b.drop_last());
        assert(timers_of(a + b) =~= timers_of(a) + timers_of(b));
    }
}

/// The registrations of several batches, in order.
pub open spec fn unbatched(batches: Seq<Vec<Registration>>) -> Seq<Registration>
    decreases batches.len(),
{
    if batches.len() == 0 {
        Seq::empty()
    } else {
        batches[0]@ + unbatched(batches.skip(1))
    }
}

proof fn unbatched_push(batches: Seq<Vec<Registration>>, batch: Vec<Registration>)
    ensures
        unbatched(batches.push(batch)) == unbatched(batches) + batch@,
    decreases batches.len(),
{
    if batches.len() == 0 {
        reveal_with_fuel(unbatched, 2);
        assert(batches.push(batch).skip(1) =~= Seq::<Vec<Registration>>::empty());
        assert(unbatched(batches.push(batch)) =~= batch@);
        assert(unbatched(batches) + batch@ =~= batch@);
    } else {
        assert(batches.push(batch).skip(1) =~= batches.skip(1).push(batch));
        unbatched_push(batches.skip(1), batch);
        assert(unbatched(batches.push(batch)) =~= unbatched(batches) + batch@);
    }
}

proof fn all_registered_join(watch: Watch, first: Seq<Registration>, second: Seq<Registration>)
    ensures
        all_registered(watch, first + second) == all_registered(all_registered(watch, first), second),
    decreases second.len(),
{
    if second.len() == 0 {
        assert(first + second =~= first);
    } else {
        assert((first + second).drop_last() =~= first + second.drop_last());
        all_registered_join(watch, first, second.drop_last());
    }
}

/// Whom an event on a source wakes: the reader first, the writer after.
pub open spec fn woken_by(slots: Map<usize, Slot>, event: Readiness) -> Seq<Waker> {
    let slot = slot_of(slots, event.key);
    let readers = match slot.reader {
        Some(waker) if event.readable => seq![waker],
        _ => Seq::empty(),
    };
    let writers = match slot.writer {
        Some(waker) if event.writable => seq![waker],
        _ => Seq::empty(),
    };
    readers + writers
}

/// The slots after an event: whoever it wakes no longer waits.
pub open spec fn slots_after(slots: Map<usize, Slot>, event: Readiness) -> Map<usize, Slot> {
    if slots.contains_key(event.key) {
        let slot = slots[event.key];
        slots.insert(
            event.key,
            Slot {
                reader: if event.readable {
                    None
                } else {
                    slot.reader
                },
                writer: if event.writable {
                    None
                } else {
                    slot.writer
                },
            },
        )
    } else {
        slots
    }
}

/// Whom events wake, one after the other.
pub open spec fn all_woken_by(slots: Map<usize, Slot>, events: Seq<Readiness>) -> Seq<Waker>
    decreases events.len(),
{
    if events.len() == 0 {
        Seq::empty()
    } else {
        all_woken_by(slots, events.drop_last()) + woken_by(all_slots_after(slots, events.drop_last()), events.last())
    }
}

/// The slots after events, one after the other.
pub open spec fn all_slots_after(slots: Map<usize, Slot>, events: Seq<Readiness>) -> Map<usize, Slot>
    decreases events.len(),
{
    if events.len() == 0 {
        slots
    } else {
        slots_after(all_slots_after(slots, events.drop_last()), events.last())
    }
}

/// `crossbeam::queue::SegQueue`, an unbounded queue.
#[verifier::external_type_specification]
#[verifier::external_body]
#[verifier::reject_recursive_types(T)]
pub struct ExSegQueue<T>(crossbeam::queue::SegQueue<T>);

/// The batches in a queue, oldest first.
pub uninterp spec fn queue_batches(queue: SegQueue<Vec<Registration>>) -> Seq<Vec<Registration>>;

/// `crossbeam::queue::SegQueue::new` makes an empty queue.
#[verifier::external_body]
fn queue_new() -> (queue: SegQueue<Vec<Registration>>)
    ensures
        queue_batches(queue) == Seq::<Vec<Registration>>::empty(),
{
    SegQueue::new()
}

/// `crossbeam::queue::SegQueue::push` adds a batch behind all others.
#[verifier::external_body]
fn queue_push(queue: &mut SegQueue<Vec<Registration>>, batch: Vec<Registration>)
    ensures
        queue_batches(*final(queue)) == queue_batches(*old(queue)).push(batch),
{
    queue.push(batch)
}

/// `crossbeam::queue::SegQueue::pop` takes the oldest batch, if there is any.
#[verifier::external_body]
fn queue_pop(queue: &mut SegQueue<Vec<Registration>>) -> (batch: Option<Vec<Registration>>)
    ensures
        match batch {
            Some(b) => {
                &&& queue_batches(*old(queue)).len() > 0
                &&& b == queue_batches(*old(queue))[0]
                &&& queue_batches(*final(queue)) == queue_batches(*old(queue)).skip(1)
            },
            None => {
                &&& queue_batches(*old(queue)).len() == 0
                &&& queue_batches(*final(queue)) == queue_batches(*old(queue))
            },
        },
{
    queue.pop()
}

/// `crossbeam::queue::SegQueue::is_empty` says whether there is no batch.
#[verifier::external_body]
fn queue_is_empty(queue: &SegQueue<Vec<Registration>>) -> (empty: bool)
    ensures
        empty <==> queue_batches(*queue).len() == 0,
{
    queue.is_empty()
}

/// The registrations that have not been looked at, in the batches that they came in.
pub struct RegistrationQueue {
    batches: SegQueue<Vec<Registration>>,
}

impl View for RegistrationQueue {
    type V = Seq<Registration>;

    /// The registrations, oldest first.
    closed spec fn view(&self) -> Seq<Registration> {
        unbatched(queue_batches(self.batches))
    }
}

impl RegistrationQueue {
    /// No batch is empty.
    pub closed spec fn wf(&self) -> bool {
        forall|i: int| #![trigger queue_batches(self.batches)[i]]
            0 <= i < queue_batches(self.batches).len() ==> queue_batches(self.batches)[i]@.len() > 0
    }

    pub fn new() -> (queue: Self)
        ensures
            queue.wf(),
            queue@ == Seq::<Registration>::empty(),
    {
        RegistrationQueue { batches: queue_new() }
    }

    pub fn is_empty(&self) -> (empty: bool)
        requires
            self.wf(),
        ensures
            empty <==> self@.len() == 0,
    {
        proof {
            let batches = queue_batches(self.batches);
            if batches.len() > 0 {
                assert(batches[0]@.len() > 0);
            }
        }
        queue_is_empty(&self.batches)
    }

    pub fn push(&mut self, batch: Vec<Registration>)
        requires
            old(self).wf(),
            batch@.len() > 0,
        ensures
            final(self).wf(),
            final(self)@ == old(self)@ + batch@,
    {
        proof {
            unbatched_push(queue_batches(self.batches), batch);
        }
        queue_push(&mut self.batches, batch);
    }

    /// Takes the oldest batch.
    pub fn pop(&mut self) -> (batch: Option<Vec<Registration>>)
        requires
            old(self).wf(),
        ensures
            final(self).wf(),
            match batch {
                Some(b) => b@.len() > 0 && old(self)@ == b@ + final(self)@,
                None => old(self)@.len() == 0 && final(self)@ == old(self)@,
            },
    {
        let batch = queue_pop(&mut self.batches);
        assert forall|i: int| #![trigger queue_batches(self.batches)[i]]
            0 <= i < queue_batches(self.batches).len() implies queue_batches(self.batches)[i]@.len() > 0 by {
            if batch is Some {
                assert(queue_batches(self.batches)[i] == queue_batches(old(self).batches)[i + 1]);
            }
        }
        batch
    }
}

/// The slots and timers of a reactor. Whoever drives the reactor has it to themselves.
pub struct ReactorState {
    hot_slots: Vec<Option<Slot>>,
    cold_slots: HashMap<usize, Slot>,
    timer_wheel: TimerWheel,
}

impl ReactorState {
    pub closed spec fn slots(&self) -> Map<usize, Slot> {
        Map::new(
            |key: usize|
                if key < HOT_SLOTS {
                    self.hot_slots@[key as int] is Some
                } else {
                    self.cold_slots@.contains_key(key)
                },
            |key: usize|
                if key < HOT_SLOTS {
                    self.hot_slots@[key as int]->0
                } else {
                    self.cold_slots@[key]
                },
        )
    }

    pub closed spec fn wheel(&self) -> TimerWheel {
        self.timer_wheel
    }

    pub closed spec fn wf(&self) -> bool {
        &&& self.hot_slots@.len() == HOT_SLOTS
        &&& self.timer_wheel.wf()
    }

    fn new(start_time: Instant) -> (state: Self)
        ensures
            state.wf(),
            state.slots() == Map::<usize, Slot>::empty(),
            state.wheel().pending() == Multiset::<TimerEntry>::empty(),
            state.wheel().now() == 0,
            state.wheel().start() == start_time,
    {
        let mut hot_slots: Vec<Option<Slot>> = Vec::with_capacity(HOT_SLOTS);
        let mut i: usize = 0;
        while i < HOT_SLOTS
            invariant
                i <= HOT_SLOTS,
                hot_slots@.len() == i,
                forall|k: int| #![trigger hot_slots@[k]] 0 <= k < i ==> hot_slots@[k] is None,
            decreases HOT_SLOTS - i,
        {
            hot_slots.push(None);
            i += 1;
        }
        let state = ReactorState { hot_slots, cold_slots: HashMap::new(), timer_wheel: TimerWheel::new(start_time) };
        assert(state.slots() =~= Map::<usize, Slot>::empty());
        state
    }

    /// Takes the slot of `key` out.
    fn take_slot(&mut self, key: usize) -> (slot: Option<Slot>)
        requires
            old(self).wf(),
        ensures
            final(self).wf(),
            final(self).wheel() == old(self).wheel(),
            final(self).slots() == old(self).slots().remove(key),
            slot == (if old(self).slots().contains_key(key) {
                Some(old(self).slots()[key])
            } else {
                None
            }),
    {
        let slot = if key < HOT_SLOTS {
            self.hot_slots[key].take()
        } else {
            self.cold_slots.remove(&key)
        };
        assert(self.slots() =~= old(self).slots().remove(key));
        slot
    }

    /// Puts a slot in for `key`, in place of what may be there.
    fn put_slot(&mut self, key: usize, slot: Slot)
        requires
            old(self).wf(),
        ensures
            final(self).wf(),
            final(self).wheel() == old(self).wheel(),
            final(self).slots() == old(self).slots().insert(key, slot),
    {
        if key < HOT_SLOTS {
            self.hot_slots.set(key, Some(slot));
        } else {
            self.cold_slots.insert(key, slot);
        }
        assert(self.slots() =~= old(self).slots().insert(key, slot));
    }
}

/// What the driver of a reactor has to do before it waits for events.
pub struct Wait {
    /// What to have the poller watch for, in order.
    pub interests: Vec<Readiness>,
    /// How long to wait at most, in nanoseconds, for the first timer; without end if there is none.
    pub timeout: Option<u64>,
}

/// What the driver of a reactor has to do after it waited for events.
pub struct Dispatch {
    /// What to have the poller watch for, in order.
    pub interests: Vec<Readiness>,
    /// Whom to wake, in order.
    pub wakers: Vec<Waker>,
}

/// Keeps who waits for which source, and which timers run, and says whom to wake when events come.
pub struct Reactor {
    /// What has been asked of the reactor and not been looked at.
    pub registrations: RegistrationQueue,
    pub state: ReactorState,
    /// The poller has been told to return, and nobody has answered yet.
    pub notified: bool,
    /// The runtime is shutting down.
    pub shutdown: bool,
    /// Somebody is driving the reactor.
    pub is_polling: bool,
}

impl ReactorState {
    /// The slots and timers, with the poller asked to watch for `interests`.
    pub open spec fn watch(&self, interests: Seq<Readiness>) -> Watch {
        Watch { slots: self.slots(), timers: self.wheel().pending(), interests }
    }

    /// Acts on one registration, and adds to `interests` what the poller is to watch for.
    fn register(&mut self, registration: Registration, interests: &mut Vec<Readiness>)
        requires
            old(self).wf(),
        ensures
            final(self).wf(),
            final(self).watch(final(interests)@) == registered(old(self).watch(old(interests)@), registration),
            forall|first: TimerWheel, timers: Seq<TimerEntry>| #[trigger]
                first.takes_in(timers, &old(self).wheel()) ==> first.takes_in(
                    timers + timers_of(seq![registration]),
                    &final(self).wheel(),
                ),
    {
        proof {
            let one = seq![registration];
            assert(one.drop_last() =~= Seq::<Registration>::empty());
            assert(timers_of(one.drop_last()) == Seq::<TimerEntry>::empty());
            assert forall|timers: Seq<TimerEntry>| #[trigger] (timers + timers_of(one)) == match registration {
                Registration::Timer { deadline, waker } => timers.push(TimerEntry { deadline, waker }),
                _ => timers,
            } by {
                assert(timers + Seq::<TimerEntry>::empty() =~= timers);
                if let Registration::Timer { deadline, waker } = registration {
                    let entry = TimerEntry { deadline, waker };
                    assert(timers_of(one) =~= seq![entry]);
                    assert(timers + seq![entry] =~= timers.push(entry));
                }
            }
        }
        match registration {
            Registration::IO { key, waker, read, write } => {
                let mut slot = match self.take_slot(key) {
                    Some(slot) => slot,
                    None => Slot { reader: None, writer: None },
                };
                let mut changed = false;
                if read && slot.reader.is_none() {
                    slot.reader = Some(clone_waker(&waker));
                    changed = true;
                }
                if write && slot.writer.is_none() {
                    slot.writer = Some(waker);
                    changed = true;
                }
                if changed {
                    interests.push(
                        Readiness { key, readable: slot.reader.is_some(), writable: slot.writer.is_some() },
                    );
                }
                self.put_slot(key, slot);
            },
            Registration::Timer { deadline, waker } => {
                let ghost entry = TimerEntry { deadline, waker };
                self.timer_wheel.insert(deadline, waker);
                assert(self.slots() =~= old(self).slots());
                assert forall|first: TimerWheel, timers: Seq<TimerEntry>| #[trigger]
                    first.takes_in(timers, &old(self).wheel()) implies first.takes_in(
                    timers.push(entry),
                    &self.wheel(),
                ) by {
                    takes_in_one_more(first, timers, old(self).wheel(), entry, self.wheel());
                }
            },
            Registration::Delete { key } => {
                let _gone = self.take_slot(key);
            },
        }
        assert(self.watch(interests@) =~= registered(old(self).watch(old(interests)@), registration));
    }
}

impl Reactor {
    pub open spec fn wf(&self) -> bool {
        &&& self.registrations.wf()
        &&& self.state.wf()
    }

    pub fn new(now: Instant) -> (reactor: Self)
        ensures
            reactor.wf(),
            reactor.registrations@ == Seq::<Registration>::empty(),
            reactor.state.slots() == Map::<usize, Slot>::empty(),
            reactor.state.wheel().pending() == Multiset::<TimerEntry>::empty(),
            reactor.state.wheel().now() == 0,
            reactor.state.wheel().start() == now,
            !reactor.notified,
            !reactor.shutdown,
            !reactor.is_polling,
    {
        Reactor {
            registrations: RegistrationQueue::new(),
            state: ReactorState::new(now),
            notified: false,
            shutdown: false,
            is_polling: false,
        }
    }

    /// Queueing `batch` turns this reactor into `after`, and the poller has to be told if `notify`.
    pub open spec fn accepts(&self, batch: Seq<Registration>, after: Reactor, notify: bool) -> bool {
        &&& after.registrations@ == self.registrations@ + batch
        &&& after.state == self.state
        &&& after.shutdown == self.shutdown
        &&& after.is_polling == self.is_polling
        &&& after.notified <==> self.notified || batch.len() > 0
        &&& notify <==> batch.len() > 0 && !self.notified
    }

    /// Queues a batch of registrations. Says whether the poller has to be told, so that it returns
    /// and the batch is looked at.
    pub fn push_batch(&mut self, batch: Vec<Registration>) -> (notify: bool)
        requires
            old(self).wf(),
        ensures
            final(self).wf(),
            old(self).accepts(batch@, *final(self), notify),
    {
        if batch.len() == 0 {
            assert(self.registrations@ + batch@ =~= self.registrations@);
            return false;
        }
        self.registrations.push(batch);
        self.notify()
    }

    /// Says whether the poller has to be told to return: it does not if it has been told already.
    pub fn notify(&mut self) -> (notify: bool)
        ensures
            *final(self) == (Reactor { notified: true, ..*old(self) }),
            notify <==> !old(self).notified,
    {
        let first = !self.notified;
        self.notified = true;
        first
    }

    /// Queues the removal of a source.
    pub fn delete(&mut self, key: usize) -> (notify: bool)
        requires
            old(self).wf(),
        ensures
            final(self).wf(),
            old(self).accepts(seq![Registration::Delete { key }], *final(self), notify),
    {
        let mut batch: Vec<Registration> = Vec::with_capacity(1);
        batch.push(Registration::Delete { key });
        assert(batch@ =~= seq![Registration::Delete { key }]);
        self.push_batch(batch)
    }

    /// Acts on all queued registrations, in order. Returns what the poller is to watch for.
    pub fn handle_registrations(&mut self) -> (interests: Vec<Readiness>)
        requires
            old(self).wf(),
        ensures
            final(self).wf(),
            final(self).registrations@ == Seq::<Registration>::empty(),
            old(self).state.wheel().takes_in(timers_of(old(self).registrations@), &final(self).state.wheel()),
            final(self).state.watch(interests@) == all_registered(
                old(self).state.watch(Seq::empty()),
                old(self).registrations@,
            ),
            final(self).notified == old(self).notified,
            final(self).shutdown == old(self).shutdown,
            final(self).is_polling == old(self).is_polling,
    {
        let mut interests: Vec<Readiness> = Vec::new();
        let ghost start = self.state.watch(Seq::empty());
        let ghost all = self.registrations@;
        let ghost mut done = Seq::<Registration>::empty();
        proof {
            takes_in_nothing(self.state.wheel());
        }
        loop
            invariant
                self.wf(),
                old(self).state.wheel().takes_in(timers_of(done), &self.state.wheel()),
                self.notified == old(self).notified,
                self.shutdown == old(self).shutdown,
                self.is_polling == old(self).is_polling,
                all == done + self.registrations@,
                self.state.watch(interests@) == all_registered(start, done),
            ensures
                self.registrations@.len() == 0,
            decreases self.registrations@.len(),
        {
            match self.registrations.pop() {
                None => {
                    break;
                },
                Some(batch) => {
                    let ghost before = self.state.watch(interests@);
                    let ghost rest = self.registrations;
                    let ghost batch_seq = batch@;
                    assert(done + batch_seq.take(0) =~= done);
                    for registration in it: batch
                        invariant
                            it.seq() == batch_seq,
                            self.state.wf(),
                            self.registrations == rest,
                            old(self).state.wheel().takes_in(
                                timers_of(done + batch_seq.take(it.index())),
                                &self.state.wheel(),
                            ),
                            self.notified == old(self).notified,
                            self.shutdown == old(self).shutdown,
                            self.is_polling == old(self).is_polling,
                            self.state.watch(interests@) == all_registered(before, batch_seq.take(it.index())),
                    {
                        proof {
                            let next = batch_seq.take(it.index() + 1);
                            let one = seq![batch_seq[it.index()]];
                            assert(next.drop_last() =~= batch_seq.take(it.index()));
                            timers_of_join(done + batch_seq.take(it.index()), one);
                            assert(done + batch_seq.take(it.index()) + one =~= done + next);
                        }
                        self.state.register(registration, &mut interests);
                    }
                    proof {
                        assert(batch_seq.take(batch_seq.len() as int) =~= batch_seq);
                        all_registered_join(start, done, batch_seq);
                        assert(all =~= (done + batch_seq) + rest@);
                        done = done + batch_seq;
                    }
                },
            }
        }
        assert(done =~= all);
        interests
    }
}

impl ReactorState {
    /// Acts on one event, and adds to `wakers` whom it wakes.
    fn deliver(&mut self, event: Readiness, wakers: &mut Vec<Waker>)
        requires
            old(self).wf(),
        ensures
            final(self).wf(),
            final(self).wheel() == old(self).wheel(),
            final(self).slots() == slots_after(old(self).slots(), event),
            final(wakers)@ == old(wakers)@ + woken_by(old(self).slots(), event),
    {
        if let Some(mut slot) = self.take_slot(event.key) {
            if event.readable {
                if let Some(waker) = slot.reader.take() {
                    wakers.push(waker);
                }
            }
            if event.writable {
                if let Some(waker) = slot.writer.take() {
                    wakers.push(waker);
                }
            }
            self.put_slot(event.key, slot);
        }
        assert(self.slots() =~= slots_after(old(self).slots(), event));
        assert(wakers@ =~= old(wakers)@ + woken_by(old(self).slots(), event));
    }

    /// Acts on events, in order, then on the timers due by `now`. Returns whom to wake.
    fn deliver_all(&mut self, events: &Vec<Readiness>, now: Instant) -> (wakers: Vec<Waker>)
        requires
            old(self).wf(),
        ensures
            final(self).wf(),
            final(self).slots() == all_slots_after(old(self).slots(), events@),
            exists|expired: Seq<Waker>|
                #[trigger] old(self).wheel().ticks(now, final(self).wheel(), expired) && wakers@ == all_woken_by(
                    old(self).slots(),
                    events@,
                ) + expired,
    {
        let mut wakers: Vec<Waker> = Vec::new();
        let mut i: usize = 0;
        while i < events.len()
            invariant
                i <= events.len(),
                self.wf(),
                self.wheel() == old(self).wheel(),
                self.slots() == all_slots_after(old(self).slots(), events@.take(i as int)),
                wakers@ == all_woken_by(old(self).slots(), events@.take(i as int)),
            decreases events.len() - i,
        {
            proof {
                assert(events@.take(i + 1).drop_last() =~= events@.take(i as int));
            }
            self.deliver(events[i], &mut wakers);
            i += 1;
        }
        assert(events@.take(events@.len() as int) =~= events@);
        let ghost slots = self.slots();
        let ghost by_events = wakers@;
        let mut expired = self.timer_wheel.tick(now);
        let ghost expired_seq = expired@;
        assert(self.slots() =~= slots);
        wakers.append(&mut expired);
        proof {
            assert(old(self).wheel().ticks(now, self.wheel(), expired_seq) && wakers@ == by_events + expired_seq);
        }
        wakers
    }
}

impl Reactor {
    /// Starting to drive the reactor at `now` turns it into `after`, with `wait` to follow.
    pub open spec fn starts(&self, now: Instant, wait: Wait, after: Reactor) -> bool {
        &&& after.is_polling
        &&& !after.notified
        &&& after.shutdown == self.shutdown
        &&& after.registrations@ == Seq::<Registration>::empty()
        &&& self.state.wheel().takes_in(timers_of(self.registrations@), &after.state.wheel())
        &&& after.state.watch(wait.interests@) == all_registered(self.state.watch(Seq::empty()), self.registrations@)
        &&& after.state.wheel().is_wait(now, wait.timeout)
    }

    /// Starts driving the reactor: acts on what is queued, and says what to do before waiting for
    /// events, and for how long to wait. Only one may drive at a time, and nobody once the runtime
    /// shuts down; whoever may not drive gets `None`.
    pub fn begin_poll(&mut self, now: Instant) -> (wait: Option<Wait>)
        requires
            old(self).wf(),
        ensures
            final(self).wf(),
            wait is None <==> old(self).is_polling || old(self).shutdown,
            wait is None ==> *final(self) == *old(self),
            wait matches Some(w) ==> old(self).starts(now, w, *final(self)),
            wait matches Some(w) ==> (w.timeout is None <==> final(self).state.wheel().pending().len() == 0),
    {
        if self.is_polling || self.shutdown {
            return None;
        }
        self.is_polling = true;
        let interests = self.handle_registrations();
        let timeout = self.state.timer_wheel.next_wait(now);
        self.notified = false;
        Some(Wait { interests, timeout })
    }

    /// Acts on what was queued while waiting, then on the events that came, then on the timers due
    /// by `now`.
    pub fn dispatch(&mut self, events: Vec<Readiness>, now: Instant) -> (dispatch: Dispatch)
        requires
            old(self).wf(),
        ensures
            final(self).wf(),
            final(self).registrations@ == Seq::<Registration>::empty(),
            final(self).notified == old(self).notified,
            final(self).shutdown == old(self).shutdown,
            final(self).is_polling == old(self).is_polling,
            old(self).dispatches(events@, now, dispatch, *final(self)),
    {
        let interests = self.handle_registrations();
        let ghost mid = self.state.wheel();
        let ghost slots = self.state.slots();
        let wakers = self.state.deliver_all(&events, now);
        proof {
            let expired = choose|expired: Seq<Waker>|
                #[trigger] mid.ticks(now, self.state.wheel(), expired) && wakers@ == all_woken_by(slots, events@)
                    + expired;
            assert(mid.ticks(now, self.state.wheel(), expired));
        }
        Dispatch { interests, wakers }
    }

    /// Stops driving the reactor, once everybody has been woken: acts on what was queued meanwhile.
    /// Returns what the poller is to watch for.
    pub fn end_poll(&mut self) -> (interests: Vec<Readiness>)
        requires
            old(self).wf(),
        ensures
            final(self).wf(),
            final(self).registrations@ == Seq::<Registration>::empty(),
            old(self).state.wheel().takes_in(timers_of(old(self).registrations@), &final(self).state.wheel()),
            final(self).state.watch(interests@) == all_registered(
                old(self).state.watch(Seq::empty()),
                old(self).registrations@,
            ),
            final(self).notified == old(self).notified,
            final(self).shutdown == old(self).shutdown,
            !final(self).is_polling,
    {
        let interests = self.handle_registrations();
        self.is_polling = false;
        interests
    }
}

impl Reactor {
    /// Acting on the queued registrations, then on `events`, then on the timers due by `now`, turns
    /// this reactor into `after` and asks for `dispatch`.
    pub open spec fn dispatches(&self, events: Seq<Readiness>, now: Instant, dispatch: Dispatch, after: Reactor) -> bool {
        let watch = all_registered(self.state.watch(Seq::empty()), self.registrations@);
        &&& dispatch.interests@ == watch.interests
        &&& after.state.slots() == all_slots_after(watch.slots, events)
        &&& exists|wheel: TimerWheel, expired: Seq<Waker>|
            {
                &&& #[trigger] wheel.ticks(now, after.state.wheel(), expired)
                &&& self.state.wheel().takes_in(timers_of(self.registrations@), &wheel)
                &&& wheel.pending() == watch.timers
                &&& dispatch.wakers@ == all_woken_by(watch.slots, events) + expired
            }
    }
}

/// Nobody asks to forget the source `key`.
pub open spec fn keeps(registrations: Seq<Registration>, key: usize) -> bool {
    forall|i: int| #![trigger registrations[i]]
        0 <= i < registrations.len() ==> registrations[i] != (Registration::Delete { key })
}

/// Whoever waits for a source keeps waiting, whatever is registered, unless the source is removed:
/// nobody takes another's place.
pub proof fn law_waiting_is_kept(watch: Watch, registrations: Seq<Registration>, key: usize)
    requires
        keeps(registrations, key),
    ensures
        slot_of(watch.slots, key).reader is Some ==> slot_of(all_registered(watch, registrations).slots, key).reader
            == slot_of(watch.slots, key).reader,
        slot_of(watch.slots, key).writer is Some ==> slot_of(all_registered(watch, registrations).slots, key).writer
            == slot_of(watch.slots, key).writer,
    decreases registrations.len(),
{
    if registrations.len() > 0 {
        let rest = registrations.drop_last();
        assert forall|i: int| #![trigger rest[i]] 0 <= i < rest.len() implies rest[i] != (Registration::Delete {
            key,
        }) by {
            assert(rest[i] == registrations[i]);
        }
        law_waiting_is_kept(watch, rest, key);
        assert(registrations[registrations.len() - 1] != (Registration::Delete { key }));
    }
}

/// No event is lost: whoever waits to read from a source is woken by events of which one says that
/// it can be read from, and so is whoever waits to write.
pub proof fn law_waiting_is_woken(slots: Map<usize, Slot>, events: Seq<Readiness>, i: int, waker: Waker)
    requires
        0 <= i < events.len(),
    ensures
        events[i].readable && slot_of(slots, events[i].key).reader == Some(waker)
            ==> all_woken_by(slots, events).contains(waker),
        events[i].writable && slot_of(slots, events[i].key).writer == Some(waker)
            ==> all_woken_by(slots, events).contains(waker),
{
    let slot = slot_of(slots, events[i].key);
    if slot.reader == Some(waker) {
        waiting_reader(slots, events, events[i].key, waker);
    }
    if slot.writer == Some(waker) {
        waiting_writer(slots, events, events[i].key, waker);
    }
}

proof fn waiting_reader(slots: Map<usize, Slot>, events: Seq<Readiness>, key: usize, waker: Waker)
    requires
        slot_of(slots, key).reader == Some(waker),
    ensures
        if exists|i: int| 0 <= i < events.len() && #[trigger] events[i].key == key && events[i].readable {
            all_woken_by(slots, events).contains(waker)
        } else {
            slot_of(all_slots_after(slots, events), key).reader == Some(waker)
        },
    decreases events.len(),
{
    if events.len() > 0 {
        let rest = events.drop_last();
        let last = events.last();
        waiting_reader(slots, rest, key, waker);
        let woken = all_woken_by(slots, rest);
        let more = woken_by(all_slots_after(slots, rest), last);
        assert(all_woken_by(slots, events) == woken + more);
        if exists|i: int| 0 <= i < rest.len() && #[trigger] rest[i].key == key && rest[i].readable {
            let i = choose|i: int| 0 <= i < rest.len() && #[trigger] rest[i].key == key && rest[i].readable;
            assert(events[i] == rest[i]);
            let j = choose|j: int| 0 <= j < woken.len() && woken[j] == waker;
            assert((woken + more)[j] == waker);
        } else {
            assert forall|i: int| 0 <= i < rest.len() && #[trigger] events[i].key == key implies !events[i].readable by {
                assert(rest[i] == events[i]);
            }
            if last.key == key && last.readable {
                assert(events[events.len() - 1].key == key);
                assert(more[0] == waker);
                assert((woken + more)[woken.len() as int] == waker);
            }
        }
    }
}

proof fn waiting_writer(slots: Map<usize, Slot>, events: Seq<Readiness>, key: usize, waker: Waker)
    requires
        slot_of(slots, key).writer == Some(waker),
    ensures
        if exists|i: int| 0 <= i < events.len() && #[trigger] events[i].key == key && events[i].writable {
            all_woken_by(slots, events).contains(waker)
        } else {
            slot_of(all_slots_after(slots, events), key).writer == Some(waker)
        },
    decreases events.len(),
{
    if events.len() > 0 {
        let rest = events.drop_last();
        let last = events.last();
        waiting_writer(slots, rest, key, waker);
        let woken = all_woken_by(slots, rest);
        let more = woken_by(all_slots_after(slots, rest), last);
        assert(all_woken_by(slots, events) == woken + more);
        if exists|i: int| 0 <= i < rest.len() && #[trigger] rest[i].key == key && rest[i].writable {
            let i = choose|i: int| 0 <= i < rest.len() && #[trigger] rest[i].key == key && rest[i].writable;
            assert(events[i] == rest[i]);
            let j = choose|j: int| 0 <= j < woken.len() && woken[j] == waker;
            assert((woken + more)[j] == waker);
        } else {
            assert forall|i: int| 0 <= i < rest.len() && #[trigger] events[i].key == key implies !events[i].writable by {
                assert(rest[i] == events[i]);
            }
            if last.key == key && last.writable {
                assert(events[events.len() - 1].key == key);
                assert(more.last() == waker);
                assert((woken + more)[woken.len() + more.len() - 1] == waker);
            }
        }
    }
}

/// A registration is answered once: an event takes out whom it wakes, so that the same event, coming
/// again, wakes nobody.
pub proof fn law_woken_once(slots: Map<usize, Slot>, event: Readiness)
    ensures
        woken_by(slots_after(slots, event), event) == Seq::<Waker>::empty(),
{
    assert(woken_by(slots_after(slots, event), event) =~= Seq::<Waker>::empty());
}

/// A source that has been removed wakes nobody, until somebody waits for it again.
pub proof fn law_removed_is_silent(watch: Watch, key: usize, event: Readiness)
    requires
        event.key == key,
    ensures
        woken_by(registered(watch, Registration::Delete { key }).slots, event) == Seq::<Waker>::empty(),
{
    assert(woken_by(registered(watch, Registration::Delete { key }).slots, event) =~= Seq::<Waker>::empty());
}

/// The last of `interests` that is about the source `key`.
pub open spec fn last_interest(interests: Seq<Readiness>, key: usize) -> Option<Readiness>
    decreases interests.len(),
{
    if interests.len() == 0 {
        None
    } else if interests.last().key == key {
        Some(interests.last())
    } else {
        last_interest(interests.drop_last(), key)
    }
}

/// The poller watches for what somebody waits for: as long as the source is not removed, what it was
/// last told of a source is what its slot calls for, and it has been told of everybody new.
pub proof fn law_poller_is_told(watch: Watch, registrations: Seq<Registration>, key: usize)
    requires
        watch.interests.len() == 0,
        keeps(registrations, key),
    ensures
        ({
            let before = slot_of(watch.slots, key);
            let after = slot_of(all_registered(watch, registrations).slots, key);
            match last_interest(all_registered(watch, registrations).interests, key) {
                Some(interest) => interest == interest_in(key, after),
                None => after == before,
            }
        }),
    decreases registrations.len(),
{
    if registrations.len() > 0 {
        let rest = registrations.drop_last();
        assert forall|i: int| #![trigger rest[i]] 0 <= i < rest.len() implies rest[i] != (Registration::Delete {
            key,
        }) by {
            assert(rest[i] == registrations[i]);
        }
        law_poller_is_told(watch, rest, key);
        assert(registrations[registrations.len() - 1] != (Registration::Delete { key }));
        let mid = all_registered(watch, rest);
        let all = all_registered(watch, registrations);
        if all.interests != mid.interests {
            assert(all.interests.drop_last() =~= mid.interests);
        }
    }
}

/// A queued registration that got a place is answered by an event for it: whoever asked to read from a
/// source, when nobody else did, is woken when it can be read from, unless the source is removed; and
/// whoever asked to write likewise.
pub proof fn law_registration_is_answered(
    before: Reactor,
    events: Seq<Readiness>,
    now: Instant,
    dispatch: Dispatch,
    after: Reactor,
    p: int,
    i: int,
)
    requires
        before.dispatches(events, now, dispatch, after),
        0 <= p < before.registrations@.len(),
        before.registrations@[p] is IO,
        keeps(before.registrations@.skip(p + 1), before.registrations@[p]->IO_key),
        0 <= i < events.len(),
        events[i].key == before.registrations@[p]->IO_key,
    ensures
        ({
            let asked = before.registrations@[p];
            let earlier = all_registered(before.state.watch(Seq::empty()), before.registrations@.take(p));
            let slot = slot_of(earlier.slots, asked->IO_key);
            &&& asked->IO_read && slot.reader is None && events[i].readable ==> dispatch.wakers@.contains(
                asked->IO_waker,
            )
            &&& asked->IO_write && slot.writer is None && events[i].writable ==> dispatch.wakers@.contains(
                asked->IO_waker,
            )
        }),
{
    let all = before.registrations@;
    let start = before.state.watch(Seq::empty());
    let key = all[p]->IO_key;
    let waker = all[p]->IO_waker;
    let mid = all_registered(start, all.take(p + 1));
    assert(all.take(p + 1).drop_last() =~= all.take(p));
    assert(all =~= all.take(p + 1) + all.skip(p + 1));
    all_registered_join(start, all.take(p + 1), all.skip(p + 1));
    law_waiting_is_kept(mid, all.skip(p + 1), key);
    let watch = all_registered(start, all);
    law_waiting_is_woken(watch.slots, events, i, waker);
    woken_are_dispatched(before, events, now, dispatch, after, waker);
}

/// Whoever the events wake is among those that a dispatch wakes.
proof fn woken_are_dispatched(
    before: Reactor,
    events: Seq<Readiness>,
    now: Instant,
    dispatch: Dispatch,
    after: Reactor,
    waker: Waker,
)
    requires
        before.dispatches(events, now, dispatch, after),
    ensures
        ({
            let watch = all_registered(before.state.watch(Seq::empty()), before.registrations@);
            all_woken_by(watch.slots, events).contains(waker) ==> dispatch.wakers@.contains(waker)
        }),
{
    let watch = all_registered(before.state.watch(Seq::empty()), before.registrations@);
    let woken = all_woken_by(watch.slots, events);
    if woken.contains(waker) {
        let k = choose|k: int| 0 <= k < woken.len() && woken[k] == waker;
        assert(dispatch.wakers@[k] == waker);
    }
}

/// A timer is answered, whether it was queued or pending: a dispatch at its deadline, or later, wakes
/// whoever set it.
pub proof fn law_timer_is_answered(
    before: Reactor,
    events: Seq<Readiness>,
    now: Instant,
    dispatch: Dispatch,
    after: Reactor,
    entry: TimerEntry,
)
    requires
        before.dispatches(events, now, dispatch, after),
        all_registered(before.state.watch(Seq::empty()), before.registrations@).timers.contains(entry),
        entry.deadline.nanos <= now.nanos,
    ensures
        dispatch.wakers@.contains(entry.waker),
        !after.state.wheel().pending().contains(entry),
{
    let watch = all_registered(before.state.watch(Seq::empty()), before.registrations@);
    let woken = all_woken_by(watch.slots, events);
    let (wheel, expired) = choose|wheel: TimerWheel, expired: Seq<Waker>|
        {
            &&& #[trigger] wheel.ticks(now, after.state.wheel(), expired)
            &&& before.state.wheel().takes_in(timers_of(before.registrations@), &wheel)
            &&& wheel.pending() == watch.timers
            &&& dispatch.wakers@ == woken + expired
        };
    crate::time::wheel::law_timer_fires(wheel, now, after.state.wheel(), expired, entry);
    let k = choose|k: int| 0 <= k < expired.len() && expired[k] == entry.waker;
    assert(dispatch.wakers@[woken.len() + k] == entry.waker);
}

/// Timers are neither lost nor made up by registrations: those pending afterwards are those pending
/// before and those asked for.
pub proof fn law_timers_are_kept(watch: Watch, registrations: Seq<Registration>, entry: TimerEntry)
    ensures
        watch.timers.contains(entry) ==> all_registered(watch, registrations).timers.contains(entry),
        forall|p: int| #![trigger registrations[p]]
            0 <= p < registrations.len() && registrations[p] == (Registration::Timer {
                deadline: entry.deadline,
                waker: entry.waker,
            }) ==> all_registered(watch, registrations).timers.contains(entry),
        all_registered(watch, registrations).timers.contains(entry) ==> watch.timers.contains(entry) || exists|p: int|
            0 <= p < registrations.len() && #[trigger] registrations[p] == (Registration::Timer {
                deadline: entry.deadline,
                waker: entry.waker,
            }),
    decreases registrations.len(),
{
    if registrations.len() > 0 {
        let rest = registrations.drop_last();
        law_timers_are_kept(watch, rest, entry);
        let timer = Registration::Timer { deadline: entry.deadline, waker: entry.waker };
        let mid = all_registered(watch, rest);
        let all = all_registered(watch, registrations);
        assert forall|p: int| #![trigger registrations[p]]
            0 <= p < registrations.len() && registrations[p] == timer implies all.timers.contains(entry) by {
            if p < rest.len() {
                assert(rest[p] == timer);
            }
        }
        if all.timers.contains(entry) && !watch.timers.contains(entry) {
            if mid.timers.contains(entry) {
                let p = choose|p: int| 0 <= p < rest.len() && #[trigger] rest[p] == timer;
                assert(registrations[p] == timer);
            } else {
                assert(registrations[registrations.len() - 1] == timer);
            }
        }
    }
}

} // verus!
