use crate::time::instant::Instant;
use crate::time::instant::NANOS_PER_MILLI;
use crate::time::picking::{
    filter_all, filter_in_two, filter_keeps, filter_none, filter_of_push, filter_of_rest, filter_same, filter_splits,
    filter_twice,
};
use std::task::Waker;
use vstd::multiset::Multiset;
use vstd::prelude::*;

verus! {

/// Slots per level.
pub const WHEEL_SIZE: usize = 64;

/// Levels of the wheel.
pub const NUM_LEVELS: usize = 6;

/// A single entry in the timer wheel.
pub struct TimerEntry {
    pub deadline: Instant,
    pub waker: Waker,
}

/// How many ticks one slot of `level` covers.
pub open spec fn spec_level_span(level: int) -> int {
    if level == 0 {
        1
    } else if level == 1 {
        64
    } else if level == 2 {
        4_096
    } else if level == 3 {
        262_144
    } else if level == 4 {
        16_777_216
    } else {
        1_073_741_824
    }
}

fn level_span(level: usize) -> (span: u64)
    requires
        level < NUM_LEVELS,
    ensures
        span == spec_level_span(level as int),
{
    match level {
        0 => 1,
        1 => 64,
        2 => 4_096,
        3 => 262_144,
        4 => 16_777_216,
        _ => 1_073_741_824,
    }
}

/// Everything in a row of slots.
pub open spec fn slots_entries(slots: Seq<Vec<TimerEntry>>) -> Multiset<TimerEntry>
    decreases slots.len(),
{
    if slots.len() == 0 {
        Multiset::empty()
    } else {
        slots_entries(slots.drop_last()).add(slots.last()@.to_multiset())
    }
}

/// Everything in a stack of levels.
pub open spec fn levels_entries(levels: Seq<Vec<Vec<TimerEntry>>>) -> Multiset<TimerEntry>
    decreases levels.len(),
{
    if levels.len() == 0 {
        Multiset::empty()
    } else {
        levels_entries(levels.drop_last()).add(slots_entries(levels.last()@))
    }
}

/// The finest level whose slots, all together, reach `ticks` ahead; the coarsest if none does.
pub open spec fn level_for(ticks: int) -> int {
    if ticks < spec_level_span(1) {
        0
    } else if ticks < spec_level_span(2) {
        1
    } else if ticks < spec_level_span(3) {
        2
    } else if ticks < spec_level_span(4) {
        3
    } else if ticks < spec_level_span(5) {
        4
    } else {
        5
    }
}

/// The level and the slot that a wheel puts an entry into when it stands at `now`.
pub open spec fn place_in(start: Instant, now: int, entry: TimerEntry) -> (int, int) {
    let turn = later_tick(entry.deadline.spec_millis_since(start), now);
    let level = level_for(turn - now);
    (level, (turn / spec_level_span(level)) % (WHEEL_SIZE as int))
}

/// Picks out what a wheel puts into slot `s` of level `l` when it stands at `now`.
pub open spec fn goes_to(start: Instant, now: int, l: int, s: int) -> spec_fn(TimerEntry) -> bool {
    |e: TimerEntry| place_in(start, now, e) == (l, s)
}

/// Picks out that for which tick `t` is the turn, in a wheel that stands at `now`.
pub open spec fn in_turn(start: Instant, now: int, t: int) -> spec_fn(TimerEntry) -> bool {
    |e: TimerEntry| later_tick(e.deadline.spec_millis_since(start), now) == t
}

/// Picks out what is due at an instant.
pub open spec fn is_due(now: Instant) -> spec_fn(TimerEntry) -> bool {
    |e: TimerEntry| e.deadline.nanos <= now.nanos
}

/// Picks out what is still ahead at an instant.
pub open spec fn is_ahead(now: Instant) -> spec_fn(TimerEntry) -> bool {
    |e: TimerEntry| !(e.deadline.nanos <= now.nanos)
}

/// The later of two ticks.
pub open spec fn later_tick(a: int, b: int) -> int {
    if a < b {
        b
    } else {
        a
    }
}

/// Whether an entry due at tick `due` may sit in `slot` of `level` while the wheel stands at
/// `now`. Level 0 holds what is overdue, in the slot being served, and what is due within one
/// turn of that level. A higher level holds what its slot will be cascaded in time for.
pub open spec fn well_placed(level: int, slot: int, due: int, now: int) -> bool {
    let span = spec_level_span(level);
    if level == 0 {
        &&& later_tick(due, now) < now + WHEEL_SIZE
        &&& slot == later_tick(due, now) % (WHEEL_SIZE as int)
    } else {
        &&& now / span < due / span
        &&& level < NUM_LEVELS - 1 ==> due / span <= now / span + WHEEL_SIZE
        &&& slot == (due / span) % (WHEEL_SIZE as int)
    }
}

/// A hierarchical hashed wheel timer.
///
/// Timeouts are sorted into slots of coarser and coarser resolution (1ms, 64ms, 4.096s, ~262s,
/// ~4.6h, ~12 days), so that inserting one takes constant time; what sits in a coarse slot moves
/// down a level when the wheel comes round to it.
pub struct TimerWheel {
    levels: Vec<Vec<Vec<TimerEntry>>>,
    current_tick: u64,
    start_time: Instant,
}

impl TimerWheel {
    /// The timers that have been inserted and have not fired.
    pub closed spec fn pending(&self) -> Multiset<TimerEntry> {
        levels_entries(self.levels@)
    }

    /// The tick that the wheel has advanced to, in milliseconds since `start`.
    pub closed spec fn now(&self) -> int {
        self.current_tick as int
    }

    /// The instant at which the wheel stood at tick 0.
    pub closed spec fn start(&self) -> Instant {
        self.start_time
    }

    /// The tick in which the deadline of an entry falls.
    pub open spec fn due(&self, entry: TimerEntry) -> int {
        entry.deadline.spec_millis_since(self.start())
    }

    /// The tick in which the wheel comes to an entry: the one in which its deadline falls, or the
    /// current one if that has passed.
    pub open spec fn turn(&self, entry: TimerEntry) -> int {
        later_tick(self.due(entry), self.now())
    }

    /// What slot `s` of level `l` holds, in the order in which it was put there.
    pub closed spec fn slot(&self, l: int, s: int) -> Seq<TimerEntry> {
        self.levels@[l]@[s]@
    }

    /// What level `l` holds for tick `t`, in the order in which it was put there.
    pub open spec fn share(&self, l: int, t: int) -> Seq<TimerEntry> {
        self.slot(l, (t / spec_level_span(l)) % (WHEEL_SIZE as int)).filter(in_turn(self.start(), self.now(), t))
    }

    /// What the levels below `k` hold for tick `t`, the finest level first.
    pub open spec fn lane_below(&self, k: int, t: int) -> Seq<TimerEntry>
        decreases k,
    {
        if k <= 0 {
            Seq::empty()
        } else {
            self.lane_below(k - 1, t) + self.share(k - 1, t)
        }
    }

    /// Everything for which tick `t` is the turn, the finest level first and within a level in the
    /// order in which it was put there.
    pub open spec fn lane(&self, t: int) -> Seq<TimerEntry> {
        self.lane_below(NUM_LEVELS as int, t)
    }

    /// What is due at `now` of the lanes of the ticks `from` to `upto`, one lane after the other.
    pub open spec fn lanes(&self, from: int, upto: int, now: Instant) -> Seq<TimerEntry>
        decreases upto - from + 1,
    {
        if upto < from {
            Seq::empty()
        } else {
            self.lanes(from, upto - 1, now) + self.lane(upto).filter(is_due(now))
        }
    }

    /// What advancing to `now` fires, in this order.
    pub open spec fn expiring(&self, now: Instant) -> Seq<TimerEntry> {
        self.lanes(self.now(), later_tick(self.now(), now.spec_millis_since(self.start())), now)
    }

    /// The level and the slot that an entry is put into.
    pub open spec fn place_of(&self, entry: TimerEntry) -> (int, int) {
        place_in(self.start(), self.now(), entry)
    }

    spec fn shaped(&self) -> bool {
        &&& self.levels@.len() == NUM_LEVELS
        &&& forall|l: int| #![trigger self.levels@[l]] 0 <= l < NUM_LEVELS ==> self.levels@[l]@.len() == WHEEL_SIZE
        &&& self.current_tick <= u64::MAX / NANOS_PER_MILLI
    }

    spec fn placed(&self) -> bool {
        forall|l: int, s: int, i: int| #![trigger self.slot(l, s)[i]]
            0 <= l < NUM_LEVELS && 0 <= s < WHEEL_SIZE && 0 <= i < self.slot(l, s).len()
                ==> well_placed(l, s, self.due(self.slot(l, s)[i]), self.now())
    }

    /// Every entry sits where the wheel will find it in time.
    pub closed spec fn wf(&self) -> bool {
        self.shaped() && self.placed()
    }

    pub fn new(start_time: Instant) -> (wheel: Self)
        ensures
            wheel.wf(),
            wheel.pending() == Multiset::<TimerEntry>::empty(),
            forall|l: int, s: int| #![trigger wheel.slot(l, s)]
                0 <= l < NUM_LEVELS && 0 <= s < WHEEL_SIZE ==> wheel.slot(l, s) == Seq::<TimerEntry>::empty(),
            wheel.now() == 0,
            wheel.start() == start_time,
    {
        let mut levels: Vec<Vec<Vec<TimerEntry>>> = Vec::new();
        let mut level: usize = 0;
        while level < NUM_LEVELS
            invariant
                level <= NUM_LEVELS,
                levels@.len() == level,
                forall|l: int| #![trigger levels@[l]] 0 <= l < level ==> levels@[l]@.len() == WHEEL_SIZE,
                forall|l: int, s: int| #![trigger levels@[l]@[s]]
                    0 <= l < level && 0 <= s < WHEEL_SIZE ==> levels@[l]@[s]@.len() == 0,
                levels_entries(levels@) == Multiset::<TimerEntry>::empty(),
            decreases NUM_LEVELS - level,
        {
            let mut slots: Vec<Vec<TimerEntry>> = Vec::with_capacity(WHEEL_SIZE);
            let mut slot: usize = 0;
            while slot < WHEEL_SIZE
                invariant
                    slot <= WHEEL_SIZE,
                    slots@.len() == slot,
                    forall|s: int| #![trigger slots@[s]] 0 <= s < slot ==> slots@[s]@.len() == 0,
                    slots_entries(slots@) == Multiset::<TimerEntry>::empty(),
                decreases WHEEL_SIZE - slot,
            {
                let ghost before = slots@;
                slots.push(Vec::new());
                proof {
                    assert(slots@.drop_last() =~= before);
                    assert(slots@.last()@ =~= Seq::<TimerEntry>::empty());
                    empty_seq_has_no_entries();
                }
                slot += 1;
            }
            let ghost before = levels@;
            levels.push(slots);
            proof {
                assert(levels@.drop_last() =~= before);
            }
            level += 1;
        }
        TimerWheel { levels, current_tick: 0, start_time }
    }

    /// Puts an entry into the level and slot that its deadline calls for.
    fn place(&mut self, entry: TimerEntry)
        requires
            old(self).shaped(),
        ensures
            final(self).shaped(),
            final(self).current_tick == old(self).current_tick,
            final(self).start_time == old(self).start_time,
            old(self).puts(entry, final(self)),
            final(self).pending() == old(self).pending().insert(entry),
    {
        let delta_ms: u64 = entry.deadline.saturating_millis_since(self.start_time);
        let relative_tick: u64 = delta_ms.saturating_sub(self.current_tick);
        let tick: u64 = self.current_tick + relative_tick;
        let mut level: usize = 0;
        while level < NUM_LEVELS - 1 && relative_tick >= level_span(level + 1)
            invariant
                level <= NUM_LEVELS - 1,
                level > 0 ==> relative_tick >= spec_level_span(level as int),
            decreases NUM_LEVELS - level,
        {
            level += 1;
        }
        let span: u64 = level_span(level);
        let slot: usize = ((tick / span) % (WHEEL_SIZE as u64)) as usize;
        assert(old(self).place_of(entry) == (level as int, slot as int)) by {
            assert(relative_tick == self.turn(entry) - self.now());
            assert(level == level_for(relative_tick as int));
        }
        self.levels[level][slot].push(entry);
        assert(self.levels@ =~= old(self).levels@.update(level as int, self.levels@[level as int]));
        assert(self.levels@[level as int]@ =~= old(self).levels@[level as int]@.update(slot as int, self.levels@[level as int]@[slot as int]));
        proof {
            levels_entries_update(old(self).levels@, level as int, self.levels@[level as int], slot as int);
            old(self).slot(level as int, slot as int).to_multiset_ensures();
            let was = old(self).slot(level as int, slot as int);
            assert forall|e: TimerEntry| self.pending().count(e) == old(self).pending().insert(entry).count(e) by {
                assert(self.pending().add(was.to_multiset()).count(e)
                    == old(self).pending().add(was.push(entry).to_multiset()).count(e));
            }
            assert(self.pending() =~= old(self).pending().insert(entry));
        }
    }

    /// `after` holds `entry` last in the slot that it belongs into, and is otherwise this wheel.
    pub open spec fn puts(&self, entry: TimerEntry, after: &TimerWheel) -> bool {
        let (level, slot) = self.place_of(entry);
        &&& after.slot(level, slot) == self.slot(level, slot).push(entry)
        &&& forall|l: int, s: int| #![trigger after.slot(l, s)]
            0 <= l < NUM_LEVELS && 0 <= s < WHEEL_SIZE && !(l == level && s == slot) ==> after.slot(l, s) == self.slot(
                l,
                s,
            )
    }

    /// Inserting `entries`, in order, turns this wheel into `after`: each slot holds what it held, and
    /// behind that what belongs into it.
    pub open spec fn takes_in(&self, entries: Seq<TimerEntry>, after: &TimerWheel) -> bool {
        &&& after.start() == self.start()
        &&& after.now() == self.now()
        &&& after.pending() == self.pending().add(entries.to_multiset())
        &&& forall|l: int, s: int| #![trigger after.slot(l, s)]
            0 <= l < NUM_LEVELS && 0 <= s < WHEEL_SIZE ==> after.slot(l, s) == self.slot(l, s) + entries.filter(
                goes_to(self.start(), self.now(), l, s),
            )
    }

    /// Insert a waker to be triggered at the specified deadline.
    pub fn insert(&mut self, deadline: Instant, waker: Waker)
        requires
            old(self).wf(),
        ensures
            final(self).wf(),
            final(self).pending() == old(self).pending().insert(TimerEntry { deadline, waker }),
            final(self).now() == old(self).now(),
            final(self).start() == old(self).start(),
            old(self).puts(TimerEntry { deadline, waker }, final(self)),
    {
        let ghost entry = TimerEntry { deadline, waker };
        self.place(TimerEntry { deadline, waker });
        proof {
            old(self).place_fits(entry);
        }
        assert(self.placed()) by {
            assert forall|l: int, s: int, i: int| #![trigger self.slot(l, s)[i]]
                0 <= l < NUM_LEVELS && 0 <= s < WHEEL_SIZE && 0 <= i < self.slot(l, s).len()
                implies well_placed(l, s, self.due(self.slot(l, s)[i]), self.now()) by {
                if i < old(self).slot(l, s).len() {
                    assert(self.slot(l, s)[i] == old(self).slot(l, s)[i]);
                }
            }
        }
    }
}

/// Inserting nothing changes nothing.
pub proof fn takes_in_nothing(wheel: TimerWheel)
    ensures
        wheel.takes_in(Seq::empty(), &wheel),
{
    empty_seq_has_no_entries();
    assert(wheel.pending().add(Multiset::empty()) =~= wheel.pending());
    assert forall|l: int, s: int| #![trigger wheel.slot(l, s)]
        0 <= l < NUM_LEVELS && 0 <= s < WHEEL_SIZE implies wheel.slot(l, s) == wheel.slot(l, s)
        + Seq::<TimerEntry>::empty().filter(goes_to(wheel.start(), wheel.now(), l, s)) by {
        filter_none(Seq::<TimerEntry>::empty(), goes_to(wheel.start(), wheel.now(), l, s));
        assert(wheel.slot(l, s) + Seq::<TimerEntry>::empty() =~= wheel.slot(l, s));
    }
}

/// Inserting one entry more.
pub proof fn takes_in_one_more(
    first: TimerWheel,
    entries: Seq<TimerEntry>,
    mid: TimerWheel,
    entry: TimerEntry,
    after: TimerWheel,
)
    requires
        first.takes_in(entries, &mid),
        mid.puts(entry, &after),
        after.pending() == mid.pending().insert(entry),
        after.now() == mid.now(),
        after.start() == mid.start(),
    ensures
        first.takes_in(entries.push(entry), &after),
{
    mid.place_fits(entry);
    entries.to_multiset_ensures();
    assert(after.pending() =~= first.pending().add(entries.push(entry).to_multiset()));
    assert forall|l: int, s: int| #![trigger after.slot(l, s)]
        0 <= l < NUM_LEVELS && 0 <= s < WHEEL_SIZE implies after.slot(l, s) == first.slot(l, s) + entries.push(
        entry,
    ).filter(goes_to(first.start(), first.now(), l, s)) by {
        filter_of_push(entries, entry, goes_to(first.start(), first.now(), l, s));
        assert(mid.slot(l, s) == first.slot(l, s) + entries.filter(goes_to(first.start(), first.now(), l, s)));
        assert(after.slot(l, s) =~= first.slot(l, s) + entries.push(entry).filter(
            goes_to(first.start(), first.now(), l, s),
        ));
    }
}

impl TimerWheel {
    /// Where an entry is put, the wheel finds it in time.
    proof fn place_fits(&self, entry: TimerEntry)
        ensures
            0 <= self.place_of(entry).0 < NUM_LEVELS,
            0 <= self.place_of(entry).1 < WHEEL_SIZE,
            well_placed(self.place_of(entry).0, self.place_of(entry).1, self.due(entry), self.now()),
    {
        chosen_level_fits(self.place_of(entry).0, self.due(entry), self.now());
    }

    /// Exchanges what one slot holds.
    fn replace_slot(&mut self, level: usize, slot: usize, entries: Vec<TimerEntry>) -> (taken: Vec<TimerEntry>)
        requires
            old(self).shaped(),
            level < NUM_LEVELS,
            slot < WHEEL_SIZE,
        ensures
            final(self).shaped(),
            final(self).current_tick == old(self).current_tick,
            final(self).start_time == old(self).start_time,
            taken@ == old(self).slot(level as int, slot as int),
            final(self).slot(level as int, slot as int) == entries@,
            forall|l: int, s: int| #![trigger final(self).slot(l, s)]
                0 <= l < NUM_LEVELS && 0 <= s < WHEEL_SIZE && !(l == level && s == slot)
                    ==> final(self).slot(l, s) == old(self).slot(l, s),
            final(self).pending().add(taken@.to_multiset()) == old(self).pending().add(entries@.to_multiset()),
    {
        let mut taken: Vec<TimerEntry> = entries;
        std::mem::swap(&mut taken, &mut self.levels[level][slot]);
        proof {
            let l = level as int;
            let s = slot as int;
            assert(self.levels@ =~= old(self).levels@.update(l, self.levels@[l]));
            assert(self.levels@[l]@ =~= old(self).levels@[l]@.update(s, self.levels@[l]@[s]));
            levels_entries_update(old(self).levels@, l, self.levels@[l], s);
        }
        taken
    }

    /// Empties one slot.
    fn take_slot(&mut self, level: usize, slot: usize) -> (taken: Vec<TimerEntry>)
        requires
            old(self).shaped(),
            level < NUM_LEVELS,
            slot < WHEEL_SIZE,
        ensures
            final(self).shaped(),
            final(self).current_tick == old(self).current_tick,
            final(self).start_time == old(self).start_time,
            taken@ == old(self).slot(level as int, slot as int),
            final(self).slot(level as int, slot as int) == Seq::<TimerEntry>::empty(),
            forall|l: int, s: int| #![trigger final(self).slot(l, s)]
                0 <= l < NUM_LEVELS && 0 <= s < WHEEL_SIZE && !(l == level && s == slot)
                    ==> final(self).slot(l, s) == old(self).slot(l, s),
            final(self).pending().add(taken@.to_multiset()) == old(self).pending(),
    {
        let taken = self.replace_slot(level, slot, Vec::new());
        proof {
            empty_seq_has_no_entries();
            assert(old(self).pending().add(Multiset::empty()) =~= old(self).pending());
        }
        taken
    }

    /// Every level below `from` is in order, and in the others the slot that has come round may
    /// still hold what has to move down.
    spec fn arrived(&self, from: int) -> bool {
        forall|l: int, s: int, i: int| #![trigger self.slot(l, s)[i]]
            0 <= l < NUM_LEVELS && 0 <= s < WHEEL_SIZE && 0 <= i < self.slot(l, s).len()
                ==> if l < from {
                    well_placed(l, s, self.due(self.slot(l, s)[i]), self.now())
                } else {
                    arriving(l, s, self.due(self.slot(l, s)[i]), self.now())
                }
    }

    /// Moves down what the slots that have come round hold.
    #[verifier::spinoff_prover]
    fn cascade(&mut self)
        requires
            old(self).shaped(),
            old(self).arrived(1),
        ensures
            final(self).wf(),
            final(self).pending() == old(self).pending(),
            final(self).now() == old(self).now(),
            final(self).start() == old(self).start(),
            old(self).same_lanes(final(self)),
    {
        let mut level: usize = 1;
        while level < NUM_LEVELS && self.current_tick % level_span(level) == 0
            invariant
                1 <= level <= NUM_LEVELS,
                self.shaped(),
                self.arrived(level as int),
                self.pending() == old(self).pending(),
                self.now() == old(self).now(),
                self.start() == old(self).start(),
                old(self).same_lanes(self),
            decreases NUM_LEVELS - level,
        {
            let slot: usize = ((self.current_tick / level_span(level)) % (WHEEL_SIZE as u64)) as usize;
            let ghost before = *self;
            let to_cascade = self.take_slot(level, slot);
            let ghost all = to_cascade@;
            proof {
                let l = level as int;
                emptied_arrives(before, *self, l, slot as int);
                assert(all.skip(0) =~= all);
                assert forall|t: int| #![trigger before.lane_below(l + 1, t)] self.now() <= t
                    implies self.lane_below(l + 1, t) + all.skip(0).filter(in_turn(self.start(), self.now(), t))
                    == before.lane_below(l + 1, t) by {
                    lane_without_slot(before, *self, l, slot as int, t);
                }
            }
            for entry in it: to_cascade
                invariant
                    self.shaped(),
                    1 <= level < NUM_LEVELS,
                    self.now() % spec_level_span(level as int) == 0,
                    self.arrived(level + 1),
                    it.seq() == all,
                    self.pending().add(all.skip(it.index()).to_multiset()) == old(self).pending(),
                    self.now() == before.now(),
                    self.start() == before.start(),
                    before.now() == old(self).now(),
                    before.start() == old(self).start(),
                    before.arrived(level as int),
                    slot == (self.now() / spec_level_span(level as int)) % (WHEEL_SIZE as int),
                    all == before.slot(level as int, slot as int),
                    forall|l: int, s: int| #![trigger self.slot(l, s)]
                        level < l < NUM_LEVELS && 0 <= s < WHEEL_SIZE ==> self.slot(l, s) == before.slot(l, s),
                    forall|t: int| #![trigger before.lane_below(level + 1, t)]
                        self.now() <= t ==> self.lane_below(level + 1, t) + all.skip(it.index()).filter(
                            in_turn(self.start(), self.now(), t),
                        ) == before.lane_below(level + 1, t),
            {
                let ghost mid = *self;
                let ghost at = it.index();
                self.place(entry);
                proof {
                    let l = level as int;
                    let e = all[at];
                    assert(before.slot(l, slot as int)[at] == e);
                    put_arrives(mid, *self, e, l + 1);
                    mid.place_goes_down(e, l, slot as int);
                    first_entry_of(all.skip(at));
                    assert(all.skip(at).drop_first() =~= all.skip(at + 1));
                    assert(self.pending().add(all.skip(at + 1).to_multiset())
                        =~= mid.pending().add(all.skip(at).to_multiset()));
                    assert forall|t: int| #![trigger before.lane_below(l + 1, t)] self.now() <= t
                        implies self.lane_below(l + 1, t) + all.skip(at + 1).filter(
                        in_turn(self.start(), self.now(), t),
                    ) == before.lane_below(l + 1, t) by {
                        let pred = in_turn(self.start(), self.now(), t);
                        lane_with_put(mid, *self, e, l + 1, t);
                        filter_of_rest(all, at, pred);
                        assert(self.lane_below(l + 1, t) + all.skip(at + 1).filter(pred)
                            =~= mid.lane_below(l + 1, t) + all.skip(at).filter(pred));
                    }
                }
            }
            proof {
                let l = level as int;
                assert(all.skip(all.len() as int) =~= Seq::<TimerEntry>::empty());
                empty_seq_has_no_entries();
                assert(self.pending().add(Multiset::empty()) =~= self.pending());
                assert forall|t: int| #![trigger self.lane(t)] self.now() <= t implies self.lane(t) == old(self).lane(t) by {
                    assert(before.lane(t) == old(self).lane(t));
                    reveal(Seq::filter);
                    assert(self.lane_below(l + 1, t) =~= before.lane_below(l + 1, t));
                    same_above(before, *self, l + 1, NUM_LEVELS as int, t);
                }
            }
            level += 1;
        }
        assert(self.placed()) by {
            assert forall|l: int, s: int, i: int| #![trigger self.slot(l, s)[i]]
                0 <= l < NUM_LEVELS && 0 <= s < WHEEL_SIZE && 0 <= i < self.slot(l, s).len()
                implies well_placed(l, s, self.due(self.slot(l, s)[i]), self.now()) by {
                if level < NUM_LEVELS {
                    misaligned_above(level as int, l, self.now());
                }
            }
        }
    }

    /// From the current tick on, every tick has the same lane in `other`.
    spec fn same_lanes(&self, other: &TimerWheel) -> bool {
        forall|t: int| #![trigger other.lane(t)] self.now() <= t ==> other.lane(t) == self.lane(t)
    }

    /// What a slot that has come round gives up goes to a level below it, or back to the coarsest,
    /// and no level in between holds anything for the same tick.
    #[verifier::spinoff_prover]
    proof fn place_goes_down(&self, entry: TimerEntry, level: int, slot: int)
        requires
            1 <= level < NUM_LEVELS,
            self.now() % spec_level_span(level) == 0,
            self.arrived(level + 1),
            arriving(level, slot, self.due(entry), self.now()),
            slot == (self.now() / spec_level_span(level)) % (WHEEL_SIZE as int),
        ensures
            self.place_of(entry).0 <= level,
            self.now() <= self.turn(entry),
            forall|l: int| #![trigger self.share(l, self.turn(entry))]
                self.place_of(entry).0 < l <= level ==> self.share(l, self.turn(entry)) == Seq::<TimerEntry>::empty(),
    {
        let now = self.now();
        let t = self.turn(entry);
        let low = self.place_of(entry).0;
        if level < NUM_LEVELS - 1 {
            came_round_is_near(level, slot, self.due(entry), now);
        }
        assert forall|l: int| #![trigger self.share(l, t)] low < l <= level implies self.share(l, t)
            == Seq::<TimerEntry>::empty() by {
            if now % spec_level_span(l) != 0 {
                misaligned_above(l, level, now);
            }
            let s = (t / spec_level_span(l)) % (WHEEL_SIZE as int);
            let pred = in_turn(self.start(), now, t);
            assert forall|i: int| 0 <= i < self.slot(l, s).len() implies !pred(#[trigger] self.slot(l, s)[i]) by {
                let e = self.slot(l, s)[i];
                assert(well_placed(l, s, self.due(e), now));
                near_is_this_span(l, t, now);
                later_slot_is_later(l, self.due(e), now);
            }
            filter_none(self.slot(l, s), pred);
        }
    }
}

/// Emptying the slot that has come round leaves its level in order.
proof fn emptied_arrives(before: TimerWheel, after: TimerWheel, level: int, slot: int)
    requires
        1 <= level < NUM_LEVELS,
        before.arrived(level),
        after.now() == before.now(),
        after.start() == before.start(),
        before.now() % spec_level_span(level) == 0,
        slot == (before.now() / spec_level_span(level)) % (WHEEL_SIZE as int),
        after.slot(level, slot) == Seq::<TimerEntry>::empty(),
        forall|l: int, s: int| #![trigger after.slot(l, s)]
            0 <= l < NUM_LEVELS && 0 <= s < WHEEL_SIZE && !(l == level && s == slot) ==> after.slot(l, s) == before.slot(l, s),
    ensures
        after.arrived(level + 1),
{
    assert forall|l: int, s: int, i: int| #![trigger after.slot(l, s)[i]]
        0 <= l < NUM_LEVELS && 0 <= s < WHEEL_SIZE && 0 <= i < after.slot(l, s).len()
        implies if l < level + 1 {
            well_placed(l, s, after.due(after.slot(l, s)[i]), after.now())
        } else {
            arriving(l, s, after.due(after.slot(l, s)[i]), after.now())
        } by {
        assert(after.slot(l, s)[i] == before.slot(l, s)[i]);
    }
}

/// Putting an entry in leaves the levels in order.
proof fn put_arrives(before: TimerWheel, after: TimerWheel, entry: TimerEntry, from: int)
    requires
        before.arrived(from),
        before.puts(entry, &after),
        after.now() == before.now(),
        after.start() == before.start(),
        before.place_of(entry).0 < from,
    ensures
        after.arrived(from),
{
    before.place_fits(entry);
    assert forall|l: int, s: int, i: int| #![trigger after.slot(l, s)[i]]
        0 <= l < NUM_LEVELS && 0 <= s < WHEEL_SIZE && 0 <= i < after.slot(l, s).len()
        implies if l < from {
            well_placed(l, s, after.due(after.slot(l, s)[i]), after.now())
        } else {
            arriving(l, s, after.due(after.slot(l, s)[i]), after.now())
        } by {
        if i < before.slot(l, s).len() {
            assert(after.slot(l, s)[i] == before.slot(l, s)[i]);
        }
    }
}

/// Two wheels whose levels below `k` hold the same for a tick have the same lane below `k`.
proof fn same_below(a: TimerWheel, b: TimerWheel, k: int, t: int)
    requires
        forall|l: int| #![trigger b.share(l, t)] 0 <= l < k ==> b.share(l, t) == a.share(l, t),
    ensures
        b.lane_below(k, t) == a.lane_below(k, t),
    decreases k,
{
    if k > 0 {
        same_below(a, b, k - 1, t);
        assert(b.share(k - 1, t) == a.share(k - 1, t));
    }
}

/// Two wheels that have the same lane below level `k`, and hold the same from there on, have the same
/// lane.
proof fn same_above(a: TimerWheel, b: TimerWheel, k: int, upto: int, t: int)
    requires
        0 <= k <= upto <= NUM_LEVELS,
        a.now() == b.now(),
        a.start() == b.start(),
        b.lane_below(k, t) == a.lane_below(k, t),
        forall|l: int, s: int| #![trigger b.slot(l, s)]
            k <= l < NUM_LEVELS && 0 <= s < WHEEL_SIZE ==> b.slot(l, s) == a.slot(l, s),
    ensures
        b.lane_below(upto, t) == a.lane_below(upto, t),
    decreases upto,
{
    if k < upto {
        same_above(a, b, k, upto - 1, t);
        assert(b.share(upto - 1, t) == a.share(upto - 1, t));
    }
}

/// What a slot held stands last in the lanes up to its level.
#[verifier::spinoff_prover]
proof fn lane_without_slot(before: TimerWheel, after: TimerWheel, level: int, slot: int, t: int)
    requires
        1 <= level < NUM_LEVELS,
        before.arrived(level),
        after.now() == before.now(),
        after.start() == before.start(),
        before.now() % spec_level_span(level) == 0,
        before.now() <= t,
        0 <= slot < WHEEL_SIZE,
        after.slot(level, slot) == Seq::<TimerEntry>::empty(),
        forall|l: int, s: int| #![trigger after.slot(l, s)]
            0 <= l < NUM_LEVELS && 0 <= s < WHEEL_SIZE && !(l == level && s == slot) ==> after.slot(l, s) == before.slot(l, s),
    ensures
        after.lane_below(level + 1, t) + before.slot(level, slot).filter(in_turn(before.start(), before.now(), t))
            == before.lane_below(level + 1, t),
{
    let all = before.slot(level, slot);
    let pred = in_turn(before.start(), before.now(), t);
    let s = (t / spec_level_span(level)) % (WHEEL_SIZE as int);
    same_below(before, after, level, t);
    if s == slot {
        filter_none(after.slot(level, slot), pred);
        assert(after.lane_below(level + 1, t) + all.filter(pred) =~= before.lane_below(level + 1, t));
    } else {
        assert forall|i: int| 0 <= i < all.len() implies !pred(#[trigger] all[i]) by {
            assert(arriving(level, slot, before.due(before.slot(level, slot)[i]), before.now()));
            aligned_span_is_later(level, before.due(all[i]), before.now());
        }
        filter_none(all, pred);
        assert(after.share(level, t) == before.share(level, t));
        assert(after.lane_below(level + 1, t) + all.filter(pred) =~= before.lane_below(level + 1, t));
    }
}

/// An entry that is put in comes last in its lane, up to a level above which nothing is there for the
/// same tick; the other lanes stay.
#[verifier::spinoff_prover]
proof fn lane_with_put(before: TimerWheel, after: TimerWheel, entry: TimerEntry, k: int, t: int)
    requires
        before.puts(entry, &after),
        after.now() == before.now(),
        after.start() == before.start(),
        before.place_of(entry).0 < k <= NUM_LEVELS,
        forall|l: int| #![trigger before.share(l, before.turn(entry))]
            before.place_of(entry).0 < l < k ==> before.share(l, before.turn(entry)) == Seq::<TimerEntry>::empty(),
    ensures
        after.lane_below(k, t) == if t == before.turn(entry) {
            before.lane_below(k, t).push(entry)
        } else {
            before.lane_below(k, t)
        },
    decreases k,
{
    let (level, slot) = before.place_of(entry);
    before.place_fits(entry);
    if k - 1 == level {
        same_below(before, after, level, t);
        let s = (t / spec_level_span(level)) % (WHEEL_SIZE as int);
        if s == slot {
            filter_of_push(before.slot(level, slot), entry, in_turn(before.start(), before.now(), t));
        }
        if t == before.turn(entry) {
            assert(after.lane_below(k, t) =~= before.lane_below(k, t).push(entry));
        }
    } else {
        lane_with_put(before, after, entry, k - 1, t);
        assert(after.share(k - 1, t) == before.share(k - 1, t));
        if t == before.turn(entry) {
            assert(after.lane_below(k, t) =~= before.lane_below(k, t).push(entry));
        }
    }
}

/// The wakers of a run of entries, in the same order.
pub open spec fn wakers_of(entries: Seq<TimerEntry>) -> Seq<Waker> {
    entries.map_values(|e: TimerEntry| e.waker)
}

/// Hands out the wakers of what is due at `now`, and keeps the rest.
fn part_due(entries: Vec<TimerEntry>, now: Instant, expired: &mut Vec<Waker>) -> (ahead: Vec<TimerEntry>)
    ensures
        ahead@ == entries@.filter(is_ahead(now)),
        final(expired)@ == old(expired)@ + wakers_of(entries@.filter(is_due(now))),
{
    let mut ahead: Vec<TimerEntry> = Vec::new();
    let ghost all = entries@;
    let ghost was = expired@;
    proof {
        reveal(Seq::filter);
        assert(all.take(0) =~= Seq::<TimerEntry>::empty());
        assert(expired@ =~= was + wakers_of(all.take(0).filter(is_due(now))));
    }
    for entry in it: entries
        invariant
            it.seq() == all,
            ahead@ == all.take(it.index()).filter(is_ahead(now)),
            expired@ == was + wakers_of(all.take(it.index()).filter(is_due(now))),
    {
        let ghost at = it.index();
        let ghost handed_out = all.take(at).filter(is_due(now));
        proof {
            assert(all.take(at + 1) =~= all.take(at).push(all[at]));
            filter_of_push(all.take(at), all[at], is_due(now));
            filter_of_push(all.take(at), all[at], is_ahead(now));
            assert(wakers_of(handed_out.push(all[at])) =~= wakers_of(handed_out).push(all[at].waker));
        }
        if entry.deadline.nanos <= now.nanos {
            expired.push(entry.waker);
        } else {
            ahead.push(entry);
        }
    }
    assert(all.take(all.len() as int) =~= all);
    ahead
}

impl TimerWheel {
    /// `fired` lists the pending timers that are due at `now`, in the order of the milliseconds in
    /// which the wheel comes to them. What was overdue already comes first.
    pub open spec fn fires(&self, now: Instant, fired: Seq<TimerEntry>) -> bool {
        &&& fired.to_multiset() == self.pending().filter(is_due(now))
        &&& forall|i: int, j: int| #![trigger fired[i], fired[j]]
            0 <= i < j < fired.len() ==> self.turn(fired[i]) <= self.turn(fired[j])
    }

    /// Advancing to `now` leaves `after` of this wheel: what is still ahead, in the same order.
    pub open spec fn leaves(&self, now: Instant, after: TimerWheel) -> bool {
        &&& after.start() == self.start()
        &&& after.now() == later_tick(self.now(), now.spec_millis_since(self.start()))
        &&& after.pending() == self.pending().filter(is_ahead(now))
        &&& forall|t: int| #![trigger after.lane(t)]
            after.now() <= t ==> after.lane(t) == self.lane(t).filter(is_ahead(now))
    }

    /// Advancing to `now` turns this wheel into `after` and fires `expired`.
    pub open spec fn ticks(&self, now: Instant, after: TimerWheel, expired: Seq<Waker>) -> bool {
        &&& self.leaves(now, after)
        &&& self.fires(now, self.expiring(now))
        &&& expired == wakers_of(self.expiring(now))
    }

    /// What sits in a slot is pending.
    proof fn slot_entry_is_pending(&self, l: int, s: int, i: int)
        requires
            self.shaped(),
            0 <= l < NUM_LEVELS,
            0 <= s < WHEEL_SIZE,
            0 <= i < self.slot(l, s).len(),
        ensures
            self.pending().contains(self.slot(l, s)[i]),
    {
        levels_entries_has(self.levels@, l, s, i);
    }

    /// What is pending sits in a slot.
    proof fn pending_entry_has_slot(&self, entry: TimerEntry) -> (spot: (int, int, int))
        requires
            self.shaped(),
            self.pending().contains(entry),
        ensures
            0 <= spot.0 < NUM_LEVELS,
            0 <= spot.1 < WHEEL_SIZE,
            0 <= spot.2 < self.slot(spot.0, spot.1).len(),
            self.slot(spot.0, spot.1)[spot.2] == entry,
    {
        levels_entries_find(self.levels@, entry)
    }

    /// Fires what is due at `now` of what the slot of the current tick holds.
    fn expire(&mut self, now: Instant, expired: &mut Vec<Waker>)
        requires
            old(self).wf(),
        ensures
            final(self).wf(),
            final(self).now() == old(self).now(),
            final(self).start() == old(self).start(),
            final(expired)@ == old(expired)@ + wakers_of(old(self).current().filter(is_due(now))),
            final(self).current() == old(self).current().filter(is_ahead(now)),
            old(self).same_but_current(final(self)),
            final(self).pending().add(old(self).current().filter(is_due(now)).to_multiset()) == old(self).pending(),
    {
        let slot: usize = (self.current_tick % (WHEEL_SIZE as u64)) as usize;
        let entries = self.take_slot(0, slot);
        let ghost all = entries@;
        let ghost between = *self;
        let ahead = part_due(entries, now, expired);
        let ghost kept = ahead@;
        let _emptied = self.replace_slot(0, slot, ahead);
        proof {
            empty_seq_has_no_entries();
            filter_splits(all, is_due(now), is_ahead(now));
            let fired = all.filter(is_due(now));
            assert forall|e: TimerEntry| self.pending().add(fired.to_multiset()).count(e) == old(self).pending().count(e) by {
                assert(self.pending().add(Multiset::empty()).count(e) == between.pending().add(kept.to_multiset()).count(e));
                assert(between.pending().add(all.to_multiset()).count(e) == old(self).pending().count(e));
            }
            assert(self.pending().add(fired.to_multiset()) =~= old(self).pending());
        }
        assert(self.placed()) by {
            assert forall|l: int, s: int, i: int| #![trigger self.slot(l, s)[i]]
                0 <= l < NUM_LEVELS && 0 <= s < WHEEL_SIZE && 0 <= i < self.slot(l, s).len()
                implies well_placed(l, s, self.due(self.slot(l, s)[i]), self.now()) by {
                if l == 0 && s == slot {
                    let k = filter_keeps(all, is_ahead(now), i);
                    assert(old(self).slot(l, s)[k] == self.slot(l, s)[i]);
                } else {
                    assert(self.slot(l, s)[i] == old(self).slot(l, s)[i]);
                }
            }
        }
    }

    /// What the slot of the current tick holds.
    spec fn current(&self) -> Seq<TimerEntry> {
        self.slot(0, self.now() % (WHEEL_SIZE as int))
    }

    /// Every slot but that of the current tick holds the same in `other`.
    spec fn same_but_current(&self, other: &TimerWheel) -> bool {
        forall|l: int, s: int| #![trigger other.slot(l, s)]
            0 <= l < NUM_LEVELS && 0 <= s < WHEEL_SIZE && !(l == 0 && s == self.now() % (WHEEL_SIZE as int))
                ==> other.slot(l, s) == self.slot(l, s)
    }

    /// What the slot of the current tick holds is all there is for that tick.
    proof fn current_is_the_turn(&self)
        requires
            self.wf(),
        ensures
            forall|i: int| #![trigger self.current()[i]] 0 <= i < self.current().len()
                ==> self.turn(self.current()[i]) == self.now(),
            forall|e: TimerEntry| #![trigger self.pending().contains(e)]
                self.pending().contains(e) && self.turn(e) == self.now() ==> self.current().contains(e),
    {
        let slot = self.now() % (WHEEL_SIZE as int);
        assert forall|i: int| #![trigger self.current()[i]] 0 <= i < self.current().len()
            implies self.turn(self.current()[i]) == self.now() by {
            let e = self.slot(0, slot)[i];
            served_slot_is_due(slot, self.due(e), self.now());
        }
        assert forall|e: TimerEntry| #![trigger self.pending().contains(e)]
            self.pending().contains(e) && self.turn(e) == self.now() implies self.current().contains(e) by {
            let spot = self.pending_entry_has_slot(e);
            assert(well_placed(spot.0, spot.1, self.due(self.slot(spot.0, spot.1)[spot.2]), self.now()));
            if spot.0 > 0 {
                later_slot_is_later(spot.0, self.due(e), self.now());
            }
        }
    }

    /// Advance the timer wheel to the specified instant, in ticks of 1ms.
    /// Returns a list of wakers that have expired.
    #[verifier::spinoff_prover]
    pub fn tick(&mut self, now: Instant) -> (expired: Vec<Waker>)
        requires
            old(self).wf(),
        ensures
            final(self).wf(),
            old(self).ticks(now, *final(self), expired@),
    {
        let target_tick: u64 = now.saturating_millis_since(self.start_time);
        let mut expired: Vec<Waker> = Vec::new();
        self.expire(now, &mut expired);
        let ghost mut fired: Seq<TimerEntry> = old(self).current().filter(is_due(now));
        proof {
            expire_leaves_what_is_ahead(*old(self), *self, now);
            expire_lanes(*old(self), *self, now);
            let from = old(self).now();
            assert(old(self).lanes(from, from - 1, now) == Seq::<TimerEntry>::empty());
            assert(fired =~= old(self).lanes(from, from, now));
        }
        assert(expired@ =~= wakers_of(fired));
        while self.current_tick < target_tick
            invariant
                self.wf(),
                self.start() == old(self).start(),
                old(self).now() <= self.now() <= later_tick(old(self).now(), target_tick as int),
                target_tick == now.spec_millis_since(old(self).start()),
                target_tick <= u64::MAX / NANOS_PER_MILLI,
                expired@ == wakers_of(fired),
                fired == old(self).lanes(old(self).now(), self.now(), now),
                self.pending().add(fired.to_multiset()) == old(self).pending(),
                self.ahead_of(now),
                self.lane(self.now()) == old(self).lane(self.now()).filter(is_ahead(now)),
                forall|t: int| #![trigger self.lane(t)] self.now() < t ==> self.lane(t) == old(self).lane(t),
            decreases target_tick - self.current_tick,
        {
            let ghost before = *self;
            let ghost was = fired;
            proof {
                before.all_ahead_of_tick(now);
            }
            self.current_tick += 1;
            assert(self.pending() == before.pending());
            assert(self.arrived(1)) by {
                assert forall|l: int, s: int, i: int| #![trigger self.slot(l, s)[i]]
                    0 <= l < NUM_LEVELS && 0 <= s < WHEEL_SIZE && 0 <= i < self.slot(l, s).len()
                    implies if l < 1 {
                        well_placed(l, s, self.due(self.slot(l, s)[i]), self.now())
                    } else {
                        arriving(l, s, self.due(self.slot(l, s)[i]), self.now())
                    } by {
                    let e = before.slot(l, s)[i];
                    before.slot_entry_is_pending(l, s, i);
                    step_arrives(l, s, before.due(e), before.now());
                }
            }
            let ghost stepped = *self;
            self.cascade();
            let ghost reached = *self;
            self.expire(now, &mut expired);
            proof {
                expire_leaves_what_is_ahead(reached, *self, now);
                expire_lanes(reached, *self, now);
                let next = reached.current().filter(is_due(now));
                fired = was + next;
                vstd::seq_lib::lemma_multiset_commutative(was, next);
                assert(self.pending().add(fired.to_multiset()) =~= old(self).pending()) by {
                    assert forall|e: TimerEntry| self.pending().add(fired.to_multiset()).count(e)
                        == old(self).pending().count(e) by {
                        assert(self.pending().add(next.to_multiset()).count(e) == before.pending().count(e));
                        assert(before.pending().add(was.to_multiset()).count(e) == old(self).pending().count(e));
                    }
                }
                assert(wakers_of(fired) =~= wakers_of(was) + wakers_of(next));
                assert forall|t: int| #![trigger reached.lane(t)] self.now() <= t
                    implies reached.lane(t) == old(self).lane(t) by {
                    step_keeps_lane(before, stepped, t);
                    assert(before.lane(t) == old(self).lane(t));
                }
                assert(reached.lane(self.now()) == old(self).lane(self.now()));
                assert(fired =~= old(self).lanes(old(self).now(), self.now(), now));
                assert forall|t: int| #![trigger self.lane(t)] self.now() < t implies self.lane(t) == old(self).lane(t) by {
                    assert(reached.lane(t) == old(self).lane(t));
                }
            }
        }
        proof {
            lanes_in_order(*old(self), old(self).now(), self.now(), now);
            fired.to_multiset_ensures();
            assert forall|e: TimerEntry| fired.to_multiset().count(e) > 0 implies is_due(now)(e) by {
                assert(fired.contains(e));
            }
            assert forall|e: TimerEntry|
                #![trigger fired.to_multiset().count(e)]
                #![trigger self.pending().count(e)]
                fired.to_multiset().count(e) == old(self).pending().filter(is_due(now)).count(e)
                    && self.pending().count(e) == old(self).pending().filter(is_ahead(now)).count(e) by {
                assert(self.pending().add(fired.to_multiset()).count(e) == old(self).pending().count(e));
                if is_due(now)(e) && self.pending().contains(e) {
                    later_tick_is_ahead(self.start(), e.deadline, now, self.now());
                }
            }
            assert(fired.to_multiset() =~= old(self).pending().filter(is_due(now)));
            assert(self.pending() =~= old(self).pending().filter(is_ahead(now)));
            assert forall|t: int| #![trigger self.lane(t)] self.now() <= t
                implies self.lane(t) == old(self).lane(t).filter(is_ahead(now)) by {
                if self.now() < t {
                    later_lane_is_ahead(*old(self), now, t);
                }
            }
            assert(fired == old(self).expiring(now));
        }
        expired
    }

    /// Of what the wheel has come to, only what is ahead of `now` is left.
    spec fn ahead_of(&self, now: Instant) -> bool {
        forall|e: TimerEntry| #![trigger self.pending().contains(e)]
            self.pending().contains(e) && self.due(e) <= self.now() ==> is_ahead(now)(e)
    }

    /// Where the wheel has not come to `now` yet, nothing is left for the ticks it has come to.
    proof fn all_ahead_of_tick(&self, now: Instant)
        requires
            self.ahead_of(now),
            self.now() < now.spec_millis_since(self.start()),
        ensures
            forall|e: TimerEntry| #![trigger self.pending().contains(e)]
                self.pending().contains(e) ==> self.now() < self.due(e),
    {
        assert forall|e: TimerEntry| #![trigger self.pending().contains(e)] self.pending().contains(e)
            implies self.now() < self.due(e) by {
            if self.due(e) <= self.now() {
                earlier_tick_is_past(self.start(), e.deadline, now);
            }
        }
    }
}

/// What is left of the slot of the current tick is ahead.
proof fn expire_leaves_what_is_ahead(before: TimerWheel, after: TimerWheel, now: Instant)
    requires
        before.wf(),
        after.wf(),
        after.now() == before.now(),
        after.start() == before.start(),
        after.current() == before.current().filter(is_ahead(now)),
    ensures
        after.ahead_of(now),
{
    assert forall|e: TimerEntry| #![trigger after.pending().contains(e)]
        after.pending().contains(e) && after.due(e) <= after.now() implies is_ahead(now)(e) by {
        after.current_is_the_turn();
        let i = choose|i: int| 0 <= i < after.current().len() && after.current()[i] == e;
        let k = filter_keeps(before.current(), is_ahead(now), i);
    }
}

/// What the slot of the current tick holds is the lane of that tick.
proof fn current_lane(wheel: TimerWheel)
    requires
        wheel.wf(),
    ensures
        wheel.lane(wheel.now()) == wheel.current(),
{
    let now = wheel.now();
    let pred = in_turn(wheel.start(), now, now);
    assert forall|i: int| #![trigger wheel.current()[i]] 0 <= i < wheel.current().len() implies pred(wheel.current()[i]) by {
        wheel.current_is_the_turn();
        assert(wheel.turn(wheel.current()[i]) == now);
    }
    vstd::arithmetic::div_mod::lemma_div_basics(now);
    filter_all(wheel.current(), pred);
    assert(wheel.share(0, now) == wheel.current());
    assert(wheel.lane_below(0, now) == Seq::<TimerEntry>::empty());
    assert(wheel.lane_below(1, now) =~= wheel.current());
    current_lane_above(wheel, NUM_LEVELS as int);
}

/// The coarser levels hold nothing for the current tick.
proof fn current_lane_above(wheel: TimerWheel, k: int)
    requires
        wheel.wf(),
        1 <= k <= NUM_LEVELS,
    ensures
        wheel.lane_below(k, wheel.now()) == wheel.lane_below(1, wheel.now()),
    decreases k,
{
    if k > 1 {
        let now = wheel.now();
        let l = k - 1;
        let s = (now / spec_level_span(l)) % (WHEEL_SIZE as int);
        let pred = in_turn(wheel.start(), now, now);
        current_lane_above(wheel, k - 1);
        assert forall|i: int| #![trigger wheel.slot(l, s)[i]] 0 <= i < wheel.slot(l, s).len()
            implies !pred(wheel.slot(l, s)[i]) by {
            assert(well_placed(l, s, wheel.due(wheel.slot(l, s)[i]), now));
            later_slot_is_later(l, wheel.due(wheel.slot(l, s)[i]), now);
        }
        filter_none(wheel.slot(l, s), pred);
        assert(wheel.lane_below(k, now) =~= wheel.lane_below(k - 1, now));
    }
}

/// Firing what is due of the current tick touches no other lane.
#[verifier::spinoff_prover]
proof fn expire_lanes(before: TimerWheel, after: TimerWheel, now: Instant)
    requires
        before.wf(),
        after.wf(),
        after.now() == before.now(),
        after.start() == before.start(),
        after.current() == before.current().filter(is_ahead(now)),
        before.same_but_current(&after),
    ensures
        before.lane(before.now()) == before.current(),
        after.lane(before.now()) == before.current().filter(is_ahead(now)),
        forall|t: int| #![trigger after.lane(t)] before.now() < t ==> after.lane(t) == before.lane(t),
{
    current_lane(before);
    current_lane(after);
    before.current_is_the_turn();
    after.current_is_the_turn();
    assert forall|t: int| #![trigger after.lane(t)] before.now() < t implies after.lane(t) == before.lane(t) by {
        let pred = in_turn(before.start(), before.now(), t);
        assert forall|l: int| #![trigger after.share(l, t)] 0 <= l < NUM_LEVELS implies after.share(l, t)
            == before.share(l, t) by {
            let s = (t / spec_level_span(l)) % (WHEEL_SIZE as int);
            if l == 0 && s == before.now() % (WHEEL_SIZE as int) {
                assert forall|i: int| #![trigger before.current()[i]] 0 <= i < before.current().len()
                    implies !pred(before.current()[i]) by {
                    assert(before.turn(before.current()[i]) == before.now());
                }
                assert forall|i: int| #![trigger after.current()[i]] 0 <= i < after.current().len()
                    implies !pred(after.current()[i]) by {
                    assert(after.turn(after.current()[i]) == before.now());
                }
                filter_none(before.current(), pred);
                filter_none(after.current(), pred);
            } else {
                assert(after.slot(l, s) == before.slot(l, s));
            }
        }
        same_below(before, after, NUM_LEVELS as int, t);
    }
}

/// Moving on by a tick for which nothing is left leaves the lanes of the later ticks.
proof fn step_keeps_lane(before: TimerWheel, after: TimerWheel, t: int)
    requires
        before.wf(),
        after.levels == before.levels,
        after.start() == before.start(),
        after.now() == before.now() + 1,
        after.now() <= t,
        forall|e: TimerEntry| #![trigger before.pending().contains(e)]
            before.pending().contains(e) ==> before.now() < before.due(e),
    ensures
        after.lane(t) == before.lane(t),
{
    let p = in_turn(before.start(), before.now(), t);
    let q = in_turn(after.start(), after.now(), t);
    assert forall|l: int| #![trigger after.share(l, t)] 0 <= l < NUM_LEVELS implies after.share(l, t) == before.share(l, t) by {
        let s = (t / spec_level_span(l)) % (WHEEL_SIZE as int);
        let entries = before.slot(l, s);
        assert forall|i: int| #![trigger entries[i]] 0 <= i < entries.len() implies p(entries[i]) == q(entries[i]) by {
            before.slot_entry_is_pending(l, s, i);
        }
        filter_same(entries, p, q);
    }
    same_below(before, after, NUM_LEVELS as int, t);
}

/// What stands in a lane has its turn in that tick.
proof fn lane_has_turn(wheel: TimerWheel, k: int, t: int, i: int)
    requires
        0 <= i < wheel.lane_below(k, t).len(),
    ensures
        wheel.turn(wheel.lane_below(k, t)[i]) == t,
    decreases k,
{
    if k > 0 {
        let below = wheel.lane_below(k - 1, t);
        if i < below.len() {
            lane_has_turn(wheel, k - 1, t, i);
        } else {
            let s = (t / spec_level_span(k - 1)) % (WHEEL_SIZE as int);
            let found = filter_keeps(wheel.slot(k - 1, s), in_turn(wheel.start(), wheel.now(), t), i - below.len());
        }
    }
}

/// What runs of lanes list is due, in the order of its turns.
proof fn lanes_in_order(wheel: TimerWheel, from: int, upto: int, now: Instant)
    ensures
        ({
            let fired = wheel.lanes(from, upto, now);
            &&& forall|i: int| #![trigger fired[i]] 0 <= i < fired.len()
                ==> is_due(now)(fired[i]) && wheel.turn(fired[i]) <= upto
            &&& forall|i: int, j: int| #![trigger fired[i], fired[j]]
                0 <= i < j < fired.len() ==> wheel.turn(fired[i]) <= wheel.turn(fired[j])
        }),
    decreases upto - from + 1,
{
    if from <= upto {
        lanes_in_order(wheel, from, upto - 1, now);
        let fired = wheel.lanes(from, upto, now);
        let was = wheel.lanes(from, upto - 1, now);
        assert forall|i: int| #![trigger fired[i]] 0 <= i < fired.len()
            implies is_due(now)(fired[i]) && wheel.turn(fired[i]) <= upto && (was.len() <= i ==> wheel.turn(fired[i]) == upto) by {
            if was.len() <= i {
                let k = filter_keeps(wheel.lane(upto), is_due(now), i - was.len());
                lane_has_turn(wheel, NUM_LEVELS as int, upto, k);
            } else {
                assert(fired[i] == was[i]);
            }
        }
        assert forall|i: int, j: int| #![trigger fired[i], fired[j]] 0 <= i < j < fired.len()
            implies wheel.turn(fired[i]) <= wheel.turn(fired[j]) by {
            if j < was.len() {
                assert(fired[i] == was[i] && fired[j] == was[j]);
            }
        }
    }
}

/// What stands in the lane of a tick after both an instant and the current tick is ahead of the
/// instant.
proof fn later_lane_is_ahead(wheel: TimerWheel, now: Instant, t: int)
    requires
        wheel.now() < t,
        now.spec_millis_since(wheel.start()) < t,
    ensures
        wheel.lane(t).filter(is_ahead(now)) == wheel.lane(t),
        forall|i: int| #![trigger wheel.lane(t)[i]] 0 <= i < wheel.lane(t).len() ==> is_ahead(now)(wheel.lane(t)[i]),
{
    assert forall|i: int| #![trigger wheel.lane(t)[i]] 0 <= i < wheel.lane(t).len()
        implies is_ahead(now)(wheel.lane(t)[i]) by {
        lane_has_turn(wheel, NUM_LEVELS as int, t, i);
        later_tick_is_ahead(wheel.start(), wheel.lane(t)[i].deadline, now, t - 1);
    }
    filter_all(wheel.lane(t), is_ahead(now));
}

/// What falls in an earlier tick than an instant lies before it.
proof fn earlier_tick_is_past(start: Instant, deadline: Instant, now: Instant)
    requires
        deadline.spec_millis_since(start) < now.spec_millis_since(start),
    ensures
        deadline.nanos <= now.nanos,
{
    if now.nanos < deadline.nanos {
        vstd::arithmetic::div_mod::lemma_div_is_ordered(
            now.spec_nanos_since(start),
            deadline.spec_nanos_since(start),
            NANOS_PER_MILLI as int,
        );
    }
}

/// What falls in a later tick than an instant lies after it.
proof fn later_tick_is_ahead(start: Instant, deadline: Instant, now: Instant, tick: int)
    requires
        now.spec_millis_since(start) <= tick,
    ensures
        tick < deadline.spec_millis_since(start) ==> now.nanos < deadline.nanos,
{
    if deadline.nanos <= now.nanos {
        vstd::arithmetic::div_mod::lemma_div_is_ordered(
            deadline.spec_nanos_since(start),
            now.spec_nanos_since(start),
            NANOS_PER_MILLI as int,
        );
    }
}

/// `earliest` is the earliest deadline among `entries`, none if there is no entry.
pub open spec fn is_earliest(entries: Seq<TimerEntry>, earliest: Option<Instant>) -> bool {
    match earliest {
        None => entries.len() == 0,
        Some(deadline) => {
            &&& exists|i: int| 0 <= i < entries.len() && #[trigger] entries[i].deadline == deadline
            &&& forall|i: int| #![trigger entries[i]]
                0 <= i < entries.len() ==> deadline.nanos <= entries[i].deadline.nanos
        },
    }
}

/// The earliest deadline among `entries`.
fn earliest_of(entries: &Vec<TimerEntry>) -> (earliest: Option<Instant>)
    ensures
        is_earliest(entries@, earliest),
{
    if entries.len() == 0 {
        return None;
    }
    let mut best: Instant = entries[0].deadline;
    let mut i: usize = 1;
    while i < entries.len()
        invariant
            1 <= i <= entries.len(),
            exists|k: int| 0 <= k < i && #[trigger] entries@[k].deadline == best,
            forall|k: int| #![trigger entries@[k]] 0 <= k < i ==> best.nanos <= entries@[k].deadline.nanos,
        decreases entries.len() - i,
    {
        let ghost was = best;
        let candidate = entries[i].deadline;
        if candidate.nanos < best.nanos {
            best = candidate;
            assert(entries@[i as int].deadline == best);
        }
        i += 1;
    }
    Some(best)
}

/// The earlier of two deadlines, either of which may be missing.
fn earlier_of(a: Option<Instant>, b: Option<Instant>) -> (r: Option<Instant>)
    ensures
        r == (match (a, b) {
            (Some(x), Some(y)) => if y.nanos < x.nanos {
                b
            } else {
                a
            },
            (None, _) => b,
            (_, None) => a,
        }),
{
    match (a, b) {
        (Some(x), Some(y)) => {
            if y.nanos < x.nanos {
                b
            } else {
                a
            }
        },
        (None, _) => b,
        (_, None) => a,
    }
}

impl TimerWheel {
    /// `earliest` is the earliest deadline in the slots of `level` for which `seen` holds.
    spec fn is_earliest_in(&self, level: int, seen: spec_fn(int) -> bool, earliest: Option<Instant>) -> bool {
        match earliest {
            None => forall|s: int| #![trigger self.slot(level, s)]
                0 <= s < WHEEL_SIZE && seen(s) ==> self.slot(level, s).len() == 0,
            Some(deadline) => {
                &&& exists|s: int, i: int| 0 <= s < WHEEL_SIZE && seen(s) && 0 <= i < self.slot(level, s).len()
                    && #[trigger] self.slot(level, s)[i].deadline == deadline
                &&& forall|s: int, i: int| #![trigger self.slot(level, s)[i]]
                    0 <= s < WHEEL_SIZE && seen(s) && 0 <= i < self.slot(level, s).len()
                        ==> deadline.nanos <= self.slot(level, s)[i].deadline.nanos
            },
        }
    }

    /// The earliest deadline that one level holds. On every level but the last, the slots fall due
    /// in the order in which they come round, so the first that holds anything decides.
    fn level_expiration(&self, level: usize) -> (earliest: Option<Instant>)
        requires
            self.wf(),
            level < NUM_LEVELS,
        ensures
            self.is_earliest_in(level as int, |s: int| true, earliest),
    {
        let base: u64 = self.current_tick / level_span(level);
        let first: u64 = if level == 0 { 0 } else { 1 };
        let mut best: Option<Instant> = None;
        let mut i: u64 = 0;
        while i < WHEEL_SIZE as u64
            invariant
                self.wf(),
                level < NUM_LEVELS,
                base == self.now() / spec_level_span(level as int),
                base <= u64::MAX / NANOS_PER_MILLI,
                first == (if level == 0 { 0int } else { 1 }),
                i <= WHEEL_SIZE,
                level < NUM_LEVELS - 1 ==> best is None,
                self.is_earliest_in(level as int, |s: int| turn_of(s, base + first) < i, best),
            decreases WHEEL_SIZE - i,
        {
            let slot: usize = ((base + first + i) % (WHEEL_SIZE as u64)) as usize;
            let here = earliest_of(&self.levels[level][slot]);
            let ghost start = base + first;
            let ghost l = level as int;
            let ghost sl = slot as int;
            let ghost was = best;
            proof {
                turn_of_slot(start, i as int);
                assert(self.slot(l, sl) == self.levels@[l]@[sl]@);
            }
            best = earlier_of(best, here);
            assert(self.is_earliest_in(l, |s: int| turn_of(s, start) < i + 1, best)) by {
                let seen = |s: int| turn_of(s, start) < i + 1;
                assert forall|s: int| 0 <= s < WHEEL_SIZE && turn_of(s, start) < i + 1 && s != sl
                    implies #[trigger] turn_of(s, start) < i by {
                    turn_is_unique(s, sl, start);
                }
                if let Some(d) = here {
                    let k = choose|k: int| 0 <= k < self.slot(l, sl).len() && #[trigger] self.slot(l, sl)[k].deadline == d;
                    assert(seen(sl) && self.slot(l, sl)[k].deadline == d);
                }
                if let Some(d) = was {
                    let (s, k) = choose|s: int, k: int| 0 <= s < WHEEL_SIZE && turn_of(s, start) < i
                        && 0 <= k < self.slot(l, s).len() && #[trigger] self.slot(l, s)[k].deadline == d;
                    assert(seen(s) && self.slot(l, s)[k].deadline == d);
                }
            }
            if level < NUM_LEVELS - 1 && best.is_some() {
                proof {
                    let deadline = best->0;
                    assert forall|s: int, k: int| #![trigger self.slot(l, s)[k]]
                        0 <= s < WHEEL_SIZE && 0 <= k < self.slot(l, s).len()
                        implies deadline.nanos <= self.slot(l, s)[k].deadline.nanos by {
                        if turn_of(s, start) >= i + 1 {
                            let j = choose|j: int| 0 <= j < self.slot(l, sl).len()
                                && #[trigger] self.slot(l, sl)[j].deadline == deadline;
                            let e = self.slot(l, sl)[j];
                            let f = self.slot(l, s)[k];
                            assert(well_placed(l, sl, self.due(e), self.now()));
                            assert(well_placed(l, s, self.due(f), self.now()));
                            later_turn_is_later(l, sl, s, self.due(e), self.due(f), self.now());
                        }
                    }
                }
                return best;
            }
            i += 1;
        }
        assert forall|s: int| 0 <= s < WHEEL_SIZE implies #[trigger] turn_of(s, base + first) < WHEEL_SIZE by {}
        best
    }

    /// Returns the deadline of the next expiring timer, if any.
    pub fn next_expiration(&self) -> (next: Option<Instant>)
        requires
            self.wf(),
        ensures
            match next {
                None => self.pending() == Multiset::<TimerEntry>::empty(),
                Some(deadline) => {
                    &&& exists|e: TimerEntry| #[trigger] self.pending().contains(e) && e.deadline == deadline
                    &&& forall|e: TimerEntry| #[trigger] self.pending().contains(e)
                        ==> deadline.nanos <= e.deadline.nanos
                },
            },
    {
        let mut best: Option<Instant> = None;
        let mut level: usize = 0;
        while level < NUM_LEVELS
            invariant
                self.wf(),
                level <= NUM_LEVELS,
                match best {
                    None => forall|l: int, s: int| #![trigger self.slot(l, s)]
                        0 <= l < level && 0 <= s < WHEEL_SIZE ==> self.slot(l, s).len() == 0,
                    Some(deadline) => {
                        &&& exists|e: TimerEntry| #[trigger] self.pending().contains(e) && e.deadline == deadline
                        &&& forall|l: int, s: int, i: int| #![trigger self.slot(l, s)[i]]
                            0 <= l < level && 0 <= s < WHEEL_SIZE && 0 <= i < self.slot(l, s).len()
                                ==> deadline.nanos <= self.slot(l, s)[i].deadline.nanos
                    },
                },
            decreases NUM_LEVELS - level,
        {
            let here = self.level_expiration(level);
            proof {
                if let Some(d) = here {
                    let l = level as int;
                    let (s, i) = choose|s: int, i: int| 0 <= s < WHEEL_SIZE && 0 <= i < self.slot(l, s).len()
                        && #[trigger] self.slot(l, s)[i].deadline == d;
                    self.slot_entry_is_pending(l, s, i);
                }
            }
            best = earlier_of(best, here);
            level += 1;
        }
        proof {
            assert forall|e: TimerEntry| #[trigger] self.pending().contains(e)
                implies best is Some && best->0.nanos <= e.deadline.nanos by {
                let spot = self.pending_entry_has_slot(e);
                assert(self.slot(spot.0, spot.1)[spot.2] == e);
            }
            if best is None {
                assert forall|e: TimerEntry| self.pending().count(e) == 0 by {
                    assert(!self.pending().contains(e));
                }
                assert(self.pending() =~= Multiset::<TimerEntry>::empty());
            }
        }
        best
    }
}

/// How many slots after slot `start % 64` the wheel comes to `slot`.
spec fn turn_of(slot: int, start: int) -> int {
    (slot - start) % (WHEEL_SIZE as int)
}

proof fn turn_of_slot(start: int, i: int)
    requires
        0 <= i < WHEEL_SIZE,
    ensures
        turn_of((start + i) % (WHEEL_SIZE as int), start) == i,
{
}

proof fn turn_is_unique(a: int, b: int, start: int)
    requires
        0 <= a < WHEEL_SIZE,
        0 <= b < WHEEL_SIZE,
    ensures
        turn_of(a, start) == turn_of(b, start) ==> a == b,
{
}

/// On a level whose slots all lie within one turn, what comes round later is due later.
#[verifier::spinoff_prover]
proof fn later_turn_is_later(level: int, a: int, b: int, due_a: int, due_b: int, now: int)
    requires
        0 <= level < NUM_LEVELS - 1,
        0 <= now,
        well_placed(level, a, due_a, now),
        well_placed(level, b, due_b, now),
        turn_of(a, now / spec_level_span(level) + if level == 0 { 0int } else { 1 })
            < turn_of(b, now / spec_level_span(level) + if level == 0 { 0int } else { 1 }),
    ensures
        due_a < due_b,
{
    if level == 0 {
        vstd::arithmetic::div_mod::lemma_div_basics(now);
        assert(spec_level_span(level) == 1);
        turn_from(now, later_tick(due_a, now), a);
        turn_from(now, later_tick(due_b, now), b);
    } else {
        let span = spec_level_span(level);
        turn_from(now / span + 1, due_a / span, a);
        turn_from(now / span + 1, due_b / span, b);
        smaller_quotient(due_a, due_b, span);
    }
}

/// The wheel comes to the slot of `d` after as many steps as `d` lies ahead.
proof fn turn_from(n: int, d: int, slot: int)
    requires
        n <= d < n + WHEEL_SIZE,
        slot == d % (WHEEL_SIZE as int),
    ensures
        turn_of(slot, n) == d - n,
{
}

proof fn smaller_quotient(a: int, b: int, span: int)
    requires
        0 < span,
        a / span < b / span,
    ensures
        a < b,
{
    if b <= a {
        vstd::arithmetic::div_mod::lemma_div_is_ordered(b, a, span);
    }
}

impl TimerWheel {
    /// `wait` is how long after `now` the first of the timers is due, in nanoseconds; there is none
    /// if it is `None`.
    pub open spec fn is_wait(&self, now: Instant, wait: Option<u64>) -> bool {
        match wait {
            None => self.pending() == Multiset::<TimerEntry>::empty(),
            Some(nanos) => {
                &&& exists|e: TimerEntry| #[trigger] self.pending().contains(e) && nanos == e.deadline.spec_nanos_since(now)
                &&& forall|e: TimerEntry| #[trigger] self.pending().contains(e)
                    ==> nanos <= e.deadline.spec_nanos_since(now)
            },
        }
    }

    /// How long after `now` the first of the timers is due, in nanoseconds.
    pub fn next_wait(&self, now: Instant) -> (wait: Option<u64>)
        requires
            self.wf(),
        ensures
            self.is_wait(now, wait),
            wait is None <==> self.pending().len() == 0,
            wait matches Some(nanos) ==> {
                &&& exists|e: TimerEntry| #[trigger] self.pending().contains(e) && (if e.deadline.nanos <= now.nanos {
                    nanos == 0
                } else {
                    now.nanos + nanos == e.deadline.nanos
                })
                &&& forall|e: TimerEntry| #[trigger] self.pending().contains(e) ==> nanos == 0 || now.nanos + nanos
                    <= e.deadline.nanos
            },
    {
        proof {
            law_pending_is_counted(*self);
        }
        match self.next_expiration() {
            None => None,
            Some(deadline) => Some(deadline.saturating_nanos_since(now)),
        }
    }
}

/// The slots hold what is pending, and nothing else.
pub proof fn law_slots_hold_what_is_pending(wheel: TimerWheel, entry: TimerEntry)
    requires
        wheel.wf(),
    ensures
        wheel.pending().contains(entry) <==> exists|l: int, s: int|
            0 <= l < NUM_LEVELS && 0 <= s < WHEEL_SIZE && (#[trigger] wheel.slot(l, s)).contains(entry),
{
    if wheel.pending().contains(entry) {
        let spot = wheel.pending_entry_has_slot(entry);
        assert(wheel.slot(spot.0, spot.1).contains(entry));
    }
    if exists|l: int, s: int|
        0 <= l < NUM_LEVELS && 0 <= s < WHEEL_SIZE && (#[trigger] wheel.slot(l, s)).contains(entry) {
        let (l, s) = choose|l: int, s: int|
            0 <= l < NUM_LEVELS && 0 <= s < WHEEL_SIZE && (#[trigger] wheel.slot(l, s)).contains(entry);
        let i = choose|i: int| 0 <= i < wheel.slot(l, s).len() && wheel.slot(l, s)[i] == entry;
        wheel.slot_entry_is_pending(l, s, i);
    }
}

/// There is no timer exactly if none can be found.
proof fn law_pending_is_counted(wheel: TimerWheel)
    ensures
        wheel.pending().len() == 0 <==> wheel.pending() == Multiset::<TimerEntry>::empty(),
{
    vstd::multiset::lemma_multiset_empty_len(wheel.pending());
}

/// Nobody waits without end while a timer is pending, and with none pending there is no end to wait
/// for; and however long the wait, no timer's deadline lies before its end, and one lies at it, unless
/// there is nothing to wait for.
pub proof fn law_wait_ends_with_a_timer(wheel: TimerWheel, now: Instant, wait: Option<u64>, entry: TimerEntry)
    requires
        wheel.is_wait(now, wait),
        wheel.pending().contains(entry),
    ensures
        wait is Some,
        now.nanos < entry.deadline.nanos ==> now.nanos + wait->0 <= entry.deadline.nanos,
        entry.deadline.nanos <= now.nanos ==> wait == Some(0u64),
        exists|e: TimerEntry| #[trigger] wheel.pending().contains(e) && (now.nanos + wait->0 == e.deadline.nanos || (
        e.deadline.nanos <= now.nanos && wait->0 == 0)),
{
}

/// Without any timer there is nothing to wait for.
pub proof fn law_no_timer_no_wait(wheel: TimerWheel, now: Instant, wait: Option<u64>)
    requires
        wheel.is_wait(now, wait),
        wheel.pending().len() == 0,
    ensures
        wait is None,
{
    law_pending_is_counted(wheel);
}

/// Waiting until the first of the timers is due is waiting long enough, and not too long: a tick by
/// then, or later, fires a timer, and a tick before then fires none.
pub proof fn law_wait_is_exact(wheel: TimerWheel, now: Instant, nanos: u64, later: Instant)
    requires
        wheel.is_wait(now, Some(nanos)),
        now.nanos <= later.nanos,
    ensures
        wheel.pending().filter(is_due(later)).len() > 0 <==> now.nanos + nanos <= later.nanos,
{
    let due = wheel.pending().filter(is_due(later));
    let first = choose|e: TimerEntry| #[trigger] wheel.pending().contains(e) && nanos == e.deadline.spec_nanos_since(now);
    if now.nanos + nanos <= later.nanos {
        assert(due.contains(first));
        if due.len() == 0 {
            vstd::multiset::lemma_multiset_empty_len(due);
        }
    } else if due.len() > 0 {
        let e = due.choose();
        assert(due.count(e) > 0);
        assert(wheel.pending().contains(e));
    }
}

/// No timer is lost: after a tick every timer that was pending is either still pending or among
/// those that fired, and none is both.
pub proof fn law_tick_splits_pending(
    before: TimerWheel,
    now: Instant,
    after: TimerWheel,
    expired: Seq<Waker>,
    fired: Seq<TimerEntry>,
)
    requires
        before.ticks(now, after, expired),
        before.fires(now, fired),
    ensures
        after.pending().add(fired.to_multiset()) == before.pending(),
        forall|e: TimerEntry| #![trigger fired.to_multiset().count(e)]
            fired.to_multiset().count(e) == 0 || after.pending().count(e) == 0,
{
    assert(after.pending().add(fired.to_multiset()) =~= before.pending());
}

/// No timer fires early, and none late: what a tick fires has its deadline behind it, and what it
/// leaves pending has it still ahead.
pub proof fn law_tick_is_punctual(before: TimerWheel, now: Instant, after: TimerWheel, expired: Seq<Waker>)
    requires
        before.ticks(now, after, expired),
    ensures
        forall|e: TimerEntry| #[trigger] after.pending().contains(e) ==> now.nanos < e.deadline.nanos,
        forall|fired: Seq<TimerEntry>, i: int| #![trigger before.fires(now, fired), fired[i]]
            before.fires(now, fired) && 0 <= i < fired.len() ==> fired[i].deadline.nanos <= now.nanos,
{
    assert forall|fired: Seq<TimerEntry>, i: int| #![trigger before.fires(now, fired), fired[i]]
        before.fires(now, fired) && 0 <= i < fired.len() implies fired[i].deadline.nanos <= now.nanos by {
        fired.to_multiset_ensures();
        assert(fired.contains(fired[i]));
        assert(fired.to_multiset().count(fired[i]) > 0);
    }
}

/// What one instant fires of a lane stands before what a later one fires besides.
pub open spec fn fires_in_turn(lane: Seq<TimerEntry>, first: Instant, second: Instant) -> bool {
    forall|i: int, j: int| #![trigger lane[i], lane[j]]
        0 <= i < j < lane.len() && is_ahead(first)(lane[i]) && is_due(first)(lane[j]) ==> is_ahead(second)(lane[i])
}

/// Ticking twice leaves of a wheel what one tick to the later instant would, and fires the same
/// timers.
#[verifier::spinoff_prover]
pub proof fn law_ticks_compose(
    first: TimerWheel,
    t1: Instant,
    second: TimerWheel,
    woken1: Seq<Waker>,
    t2: Instant,
    third: TimerWheel,
    woken2: Seq<Waker>,
)
    requires
        first.ticks(t1, second, woken1),
        second.ticks(t2, third, woken2),
        t1.nanos <= t2.nanos,
    ensures
        first.leaves(t2, third),
        (first.expiring(t1) + second.expiring(t2)).to_multiset() == first.pending().filter(is_due(t2)),
{
    let fired1 = first.expiring(t1);
    let fired2 = second.expiring(t2);
    ticks_are_ordered(first.start(), t1, t2);
    vstd::seq_lib::lemma_multiset_commutative(fired1, fired2);
    assert(third.pending() =~= first.pending().filter(is_ahead(t2)));
    assert((fired1 + fired2).to_multiset() =~= first.pending().filter(is_due(t2)));
    assert forall|t: int| #![trigger third.lane(t)] third.now() <= t
        implies third.lane(t) == first.lane(t).filter(is_ahead(t2)) by {
        assert(second.lane(t) == first.lane(t).filter(is_ahead(t1)));
        filter_twice(first.lane(t), is_ahead(t1), is_ahead(t2), is_ahead(t2));
    }
}

/// How often the wheel is ticked changes neither what fires nor the order: where a tick between two
/// others does not part timers of one millisecond against their order, the two fire one after the
/// other what one tick to the later instant would.
#[verifier::spinoff_prover]
pub proof fn law_ticks_compose_in_order(
    first: TimerWheel,
    t1: Instant,
    second: TimerWheel,
    woken1: Seq<Waker>,
    t2: Instant,
    third: TimerWheel,
    woken2: Seq<Waker>,
)
    requires
        first.ticks(t1, second, woken1),
        second.ticks(t2, third, woken2),
        t1.nanos <= t2.nanos,
        fires_in_turn(first.lane(second.now()), t1, t2),
    ensures
        first.ticks(t2, third, woken1 + woken2),
{
    law_ticks_compose(first, t1, second, woken1, t2, third, woken2);
    ticks_are_ordered(first.start(), t1, t2);
    let from = first.now();
    let mid = second.now();
    assert(first.lanes(from, mid, t1) + second.lanes(mid, mid, t2) == first.lanes(from, mid, t2)) by {
        let lane = first.lane(mid);
        earlier_lanes_are_due(first, from, mid - 1, t1, t2);
        assert(second.lanes(mid, mid - 1, t2) == Seq::<TimerEntry>::empty());
        assert(second.lanes(mid, mid, t2) =~= lane.filter(is_ahead(t1)).filter(is_due(t2)));
        filter_in_two(lane, is_due(t1), is_ahead(t1), is_due(t2));
        assert(first.lanes(from, mid, t1) + second.lanes(mid, mid, t2) =~= first.lanes(from, mid - 1, t1) + (
        lane.filter(is_due(t1)) + lane.filter(is_ahead(t1)).filter(is_due(t2))));
    }
    assert forall|t: int| #![trigger second.lane(t)] mid < t <= third.now() implies second.lane(t) == first.lane(t) by {
        later_lane_is_ahead(first, t1, t);
    }
    lanes_follow(first, second, first.expiring(t1), from, mid, third.now(), t2);
    let fired = first.expiring(t2);
    assert(fired == first.expiring(t1) + second.expiring(t2));
    lanes_in_order(first, from, third.now(), t2);
    assert(wakers_of(fired) =~= woken1 + woken2);
}

/// Up to a tick that the earlier of two instants has passed, both fire everything.
proof fn earlier_lanes_are_due(wheel: TimerWheel, from: int, upto: int, t1: Instant, t2: Instant)
    requires
        wheel.now() <= from,
        from <= upto ==> upto < t1.spec_millis_since(wheel.start()),
        t1.nanos <= t2.nanos,
    ensures
        wheel.lanes(from, upto, t1) == wheel.lanes(from, upto, t2),
    decreases upto - from + 1,
{
    if from <= upto {
        earlier_lanes_are_due(wheel, from, upto - 1, t1, t2);
        let lane = wheel.lane(upto);
        assert forall|i: int| #![trigger lane[i]] 0 <= i < lane.len() implies is_due(t1)(lane[i]) == is_due(t2)(lane[i]) by {
            lane_has_turn(wheel, NUM_LEVELS as int, upto, i);
            earlier_tick_is_past(wheel.start(), lane[i].deadline, t1);
        }
        filter_same(lane, is_due(t1), is_due(t2));
    }
}

/// Where two wheels have the same lanes past a tick, what follows up to that tick they follow alike.
#[verifier::spinoff_prover]
proof fn lanes_follow(
    first: TimerWheel,
    second: TimerWheel,
    early: Seq<TimerEntry>,
    from: int,
    mid: int,
    upto: int,
    now: Instant,
)
    requires
        from <= mid <= upto,
        early + second.lanes(mid, mid, now) == first.lanes(from, mid, now),
        forall|t: int| #![trigger second.lane(t)] mid < t <= upto ==> second.lane(t) == first.lane(t),
    ensures
        early + second.lanes(mid, upto, now) == first.lanes(from, upto, now),
    decreases upto - mid,
{
    if mid < upto {
        lanes_follow(first, second, early, from, mid, upto - 1, now);
        let late = second.lanes(mid, upto - 1, now);
        let last = first.lane(upto).filter(is_due(now));
        assert(second.lane(upto) == first.lane(upto));
        assert(second.lanes(mid, upto, now) == late + last);
        assert(first.lanes(from, upto, now) == first.lanes(from, upto - 1, now) + last);
        assert(early + (late + last) =~= (early + late) + last);
    }
}

/// A later instant does not fall in an earlier tick.
proof fn ticks_are_ordered(start: Instant, t1: Instant, t2: Instant)
    requires
        t1.nanos <= t2.nanos,
    ensures
        0 <= t1.spec_millis_since(start) <= t2.spec_millis_since(start),
{
    vstd::arithmetic::div_mod::lemma_div_is_ordered(
        t1.spec_nanos_since(start),
        t2.spec_nanos_since(start),
        NANOS_PER_MILLI as int,
    );
}

/// Every timer fires: ticking to its deadline, or later, hands its waker out, and the timer is gone.
pub proof fn law_timer_fires(before: TimerWheel, now: Instant, after: TimerWheel, expired: Seq<Waker>, entry: TimerEntry)
    requires
        before.ticks(now, after, expired),
        before.pending().contains(entry),
        entry.deadline.nanos <= now.nanos,
    ensures
        expired.contains(entry.waker),
        !after.pending().contains(entry),
{
    let fired = before.expiring(now);
    fired.to_multiset_ensures();
    assert(fired.to_multiset().count(entry) > 0);
    assert(fired.contains(entry));
    let i = choose|i: int| 0 <= i < fired.len() && fired[i] == entry;
    assert(expired[i] == entry.waker);
}

proof fn levels_entries_has(levels: Seq<Vec<Vec<TimerEntry>>>, l: int, s: int, i: int)
    requires
        0 <= l < levels.len(),
        0 <= s < levels[l]@.len(),
        0 <= i < levels[l]@[s]@.len(),
    ensures
        levels_entries(levels).count(levels[l]@[s]@[i]) > 0,
    decreases levels.len(),
{
    if l == levels.len() - 1 {
        slots_entries_has(levels[l]@, s, i);
    } else {
        levels_entries_has(levels.drop_last(), l, s, i);
    }
}

proof fn slots_entries_has(slots: Seq<Vec<TimerEntry>>, s: int, i: int)
    requires
        0 <= s < slots.len(),
        0 <= i < slots[s]@.len(),
    ensures
        slots_entries(slots).count(slots[s]@[i]) > 0,
    decreases slots.len(),
{
    if s == slots.len() - 1 {
        slots[s]@.to_multiset_ensures();
        assert(slots[s]@.contains(slots[s]@[i]));
    } else {
        slots_entries_has(slots.drop_last(), s, i);
    }
}

proof fn levels_entries_find(levels: Seq<Vec<Vec<TimerEntry>>>, entry: TimerEntry) -> (spot: (int, int, int))
    requires
        levels_entries(levels).count(entry) > 0,
    ensures
        0 <= spot.0 < levels.len(),
        0 <= spot.1 < levels[spot.0]@.len(),
        0 <= spot.2 < levels[spot.0]@[spot.1]@.len(),
        levels[spot.0]@[spot.1]@[spot.2] == entry,
    decreases levels.len(),
{
    if slots_entries(levels.last()@).count(entry) > 0 {
        let found = slots_entries_find(levels.last()@, entry);
        (levels.len() - 1, found.0, found.1)
    } else {
        levels_entries_find(levels.drop_last(), entry)
    }
}

proof fn slots_entries_find(slots: Seq<Vec<TimerEntry>>, entry: TimerEntry) -> (spot: (int, int))
    requires
        slots_entries(slots).count(entry) > 0,
    ensures
        0 <= spot.0 < slots.len(),
        0 <= spot.1 < slots[spot.0]@.len(),
        slots[spot.0]@[spot.1] == entry,
    decreases slots.len(),
{
    if slots.last()@.to_multiset().count(entry) > 0 {
        slots.last()@.to_multiset_ensures();
        assert(slots.last()@.contains(entry));
        let i = choose|i: int| 0 <= i < slots.last()@.len() && slots.last()@[i] == entry;
        (slots.len() - 1, i)
    } else {
        slots_entries_find(slots.drop_last(), entry)
    }
}

/// The level-0 slot being served holds only what is due.
proof fn served_slot_is_due(slot: int, due: int, now: int)
    requires
        0 <= now,
        slot == now % (WHEEL_SIZE as int),
        well_placed(0, slot, due, now),
    ensures
        due <= now,
{
}

/// What belongs to a later span of a level is later.
proof fn later_slot_is_later(level: int, due: int, now: int)
    requires
        0 < level < NUM_LEVELS,
        now / spec_level_span(level) < due / spec_level_span(level),
    ensures
        now < due,
{
}

/// At the start of a span, what belongs to that span or a later one is not overdue.
proof fn aligned_span_is_later(level: int, due: int, now: int)
    requires
        0 < level < NUM_LEVELS,
        now % spec_level_span(level) == 0,
        now / spec_level_span(level) <= due / spec_level_span(level),
    ensures
        now <= due,
{
}

/// What a slot that has come round holds, but on the coarsest level, is due within its span.
proof fn came_round_is_near(level: int, slot: int, due: int, now: int)
    requires
        0 < level < NUM_LEVELS - 1,
        0 <= now,
        now % spec_level_span(level) == 0,
        arriving(level, slot, due, now),
        slot == (now / spec_level_span(level)) % (WHEEL_SIZE as int),
    ensures
        now <= due < now + spec_level_span(level),
{
    let span = spec_level_span(level);
    turn_from(now / span, due / span, slot);
    turn_from(now / span, now / span, slot);
    vstd::arithmetic::div_mod::lemma_fundamental_div_mod(due, span);
    vstd::arithmetic::div_mod::lemma_fundamental_div_mod(now, span);
}

/// At the start of a span, what is less than a span ahead belongs to it.
proof fn near_is_this_span(level: int, t: int, now: int)
    requires
        0 < level < NUM_LEVELS,
        now % spec_level_span(level) == 0,
        now <= t < now + spec_level_span(level),
    ensures
        t / spec_level_span(level) == now / spec_level_span(level),
{
    if level == 1 {
    } else if level == 2 {
    } else if level == 3 {
    } else if level == 4 {
    } else {
    }
}

/// A timer that is not due yet is where the next tick expects it.
proof fn step_arrives(level: int, slot: int, due: int, now: int)
    requires
        0 <= level < NUM_LEVELS,
        0 <= now < due,
        well_placed(level, slot, due, now),
    ensures
        arriving(level, slot, due, now + 1),
{
    if level == 0 {
    } else if level == 1 {
    } else if level == 2 {
    } else if level == 3 {
    } else if level == 4 {
    } else {
    }
}

/// As [`well_placed`], when the wheel has just stepped to `now`: a slot of a higher level that has
/// come round may still hold what is due within its span.
pub open spec fn arriving(level: int, slot: int, due: int, now: int) -> bool {
    let span = spec_level_span(level);
    if level == 0 || now % span != 0 {
        well_placed(level, slot, due, now)
    } else {
        &&& now / span <= due / span
        &&& level < NUM_LEVELS - 1 ==> due / span < now / span + WHEEL_SIZE
        &&& slot == (due / span) % (WHEEL_SIZE as int)
    }
}

/// A tick that is not at the start of a span is not at the start of a larger one.
proof fn misaligned_above(level: int, above: int, now: int)
    requires
        1 <= level < NUM_LEVELS,
        0 <= now,
        now % spec_level_span(level) != 0,
    ensures
        level <= above < NUM_LEVELS ==> now % spec_level_span(above) != 0,
    decreases above,
{
    if level < above < NUM_LEVELS {
        misaligned_above(level, above - 1, now);
        if now % spec_level_span(above) == 0 {
            let small = spec_level_span(above - 1);
            assert(spec_level_span(above) == small * 64);
            vstd::arithmetic::div_mod::lemma_mod_mod(now, small, 64);
            assert(0int % small == 0);
        }
    }
}

proof fn first_entry_of(entries: Seq<TimerEntry>)
    requires
        entries.len() > 0,
    ensures
        entries.to_multiset() == entries.drop_first().to_multiset().insert(entries[0]),
{
    entries.to_multiset_ensures();
    assert(entries.remove(0) =~= entries.drop_first());
    assert(entries.to_multiset().count(entries[0]) > 0);
    assert(entries.to_multiset() =~= entries.drop_first().to_multiset().insert(entries[0]));
}

/// The first level whose range takes in the remaining time, or the last level, is a good place.
proof fn chosen_level_fits(level: int, due: int, now: int)
    requires
        0 <= level < NUM_LEVELS,
        0 <= due,
        0 <= now,
        level > 0 ==> due >= now + spec_level_span(level),
        level < NUM_LEVELS - 1 ==> later_tick(due, now) < now + spec_level_span(level + 1),
    ensures
        well_placed(level, (later_tick(due, now) / spec_level_span(level)) % (WHEEL_SIZE as int), due, now),
{
    if level == 0 {
    } else if level == 1 {
    } else if level == 2 {
    } else if level == 3 {
    } else if level == 4 {
    } else {
    }
}

/// Replacing one slot trades what it held for what it now holds.
proof fn slots_entries_update(slots: Seq<Vec<TimerEntry>>, s: int, slot: Vec<TimerEntry>)
    requires
        0 <= s < slots.len(),
    ensures
        slots_entries(slots.update(s, slot)).add(slots[s]@.to_multiset())
            == slots_entries(slots).add(slot@.to_multiset()),
    decreases slots.len(),
{
    let after = slots.update(s, slot);
    let rest = slots.drop_last();
    let was = slots[s]@.to_multiset();
    let is = slot@.to_multiset();
    if s == slots.len() - 1 {
        assert(after.drop_last() =~= rest);
    } else {
        slots_entries_update(rest, s, slot);
        assert(after.drop_last() =~= rest.update(s, slot));
        assert forall|e: TimerEntry| slots_entries(after).add(was).count(e) == slots_entries(slots).add(is).count(e) by {
            assert(slots_entries(rest.update(s, slot)).add(was).count(e) == slots_entries(rest).add(is).count(e));
        }
    }
    assert(slots_entries(after).add(was) =~= slots_entries(slots).add(is));
}

/// Replacing one slot of one level trades what it held for what it now holds.
proof fn levels_entries_update(levels: Seq<Vec<Vec<TimerEntry>>>, l: int, level: Vec<Vec<TimerEntry>>, s: int)
    requires
        0 <= l < levels.len(),
        0 <= s < levels[l]@.len(),
        level@ == levels[l]@.update(s, level@[s]),
    ensures
        levels_entries(levels.update(l, level)).add(levels[l]@[s]@.to_multiset())
            == levels_entries(levels).add(level@[s]@.to_multiset()),
    decreases levels.len(),
{
    let after = levels.update(l, level);
    let rest = levels.drop_last();
    let was = levels[l]@[s]@.to_multiset();
    let is = level@[s]@.to_multiset();
    if l == levels.len() - 1 {
        assert(after.drop_last() =~= rest);
        slots_entries_update(levels[l]@, s, level@[s]);
        assert forall|e: TimerEntry| levels_entries(after).add(was).count(e) == levels_entries(levels).add(is).count(e) by {
            assert(slots_entries(level@).add(was).count(e) == slots_entries(levels[l]@).add(is).count(e));
        }
    } else {
        levels_entries_update(rest, l, level, s);
        assert(after.drop_last() =~= rest.update(l, level));
        assert forall|e: TimerEntry| levels_entries(after).add(was).count(e) == levels_entries(levels).add(is).count(e) by {
            assert(levels_entries(rest.update(l, level)).add(was).count(e) == levels_entries(rest).add(is).count(e));
        }
    }
    assert(levels_entries(after).add(was) =~= levels_entries(levels).add(is));
}

proof fn empty_seq_has_no_entries()
    ensures
        Seq::<TimerEntry>::empty().to_multiset() == Multiset::<TimerEntry>::empty(),
{
    Seq::<TimerEntry>::empty().to_multiset_ensures();
    assert(Seq::<TimerEntry>::empty().to_multiset().len() == 0);
    vstd::multiset::lemma_multiset_empty_len(Seq::<TimerEntry>::empty().to_multiset());
}

/// Each level is 64 times as coarse as the one before, the finest counting single milliseconds.
pub proof fn law_levels_coarsen(level: int)
    ensures
        spec_level_span(0) == 1,
        0 <= level < 5 ==> spec_level_span(level + 1) == 64 * spec_level_span(level),
{
}

/// A timer goes to the finest level whose 64 slots reach as far ahead as it is, in whole milliseconds, and
/// there to the slot of its millisecond; one that is overdue goes to the slot being served.
pub proof fn law_place_is_by_distance(start: Instant, now: int, entry: TimerEntry)
    requires
        0 <= now,
    ensures
        ({
            let (level, slot) = place_in(start, now, entry);
            let millis = if entry.deadline.nanos > start.nanos {
                (entry.deadline.nanos - start.nanos) / 1_000_000
            } else {
                0
            };
            let turn = if millis > now {
                millis
            } else {
                now
            };
            &&& level == 0 <==> millis - now < 64
            &&& level == 1 <==> 64 <= millis - now < 4_096
            &&& level == 2 <==> 4_096 <= millis - now < 262_144
            &&& level == 3 <==> 262_144 <= millis - now < 16_777_216
            &&& level == 4 <==> 16_777_216 <= millis - now < 1_073_741_824
            &&& level == 5 <==> 1_073_741_824 <= millis - now
            &&& 0 <= slot < 64
            &&& slot == (turn / spec_level_span(level)) % 64
        }),
{
    crate::time::instant::law_distance_is_exact(start, entry.deadline);
}

/// Inserting puts a timer behind all others of one slot, the one that it belongs into, and leaves every
/// other slot alone.
pub proof fn law_insert_changes_one_slot(before: TimerWheel, entry: TimerEntry, after: TimerWheel, l: int, s: int)
    requires
        before.puts(entry, &after),
        0 <= l < 6,
        0 <= s < 64,
    ensures
        after.slot(l, s) == (if place_in(before.start(), before.now(), entry) == (l, s) {
            before.slot(l, s).push(entry)
        } else {
            before.slot(l, s)
        }),
{
}

/// Taking timers in adds each of them to those pending, as often as it is given, and neither moves the
/// wheel nor loses a timer.
pub proof fn law_taking_in_adds(before: TimerWheel, entries: Seq<TimerEntry>, after: TimerWheel, entry: TimerEntry)
    requires
        before.takes_in(entries, &after),
    ensures
        after.start() == before.start(),
        after.now() == before.now(),
        after.pending().count(entry) == before.pending().count(entry) + entries.to_multiset().count(entry),
        after.pending().len() == before.pending().len() + entries.len(),
        entries.contains(entry) ==> after.pending().contains(entry),
{
    entries.to_multiset_ensures();
    assert(after.pending().len() == before.pending().len() + entries.to_multiset().len());
}

/// A tick takes the wheel to the millisecond of `now`, and never back.
pub proof fn law_tick_goes_to_now(before: TimerWheel, now: Instant, after: TimerWheel, expired: Seq<Waker>)
    requires
        before.ticks(now, after, expired),
    ensures
        after.start() == before.start(),
        after.now() >= before.now(),
        now.nanos <= before.start().nanos ==> after.now() == before.now(),
        now.nanos > before.start().nanos ==> {
            let millis = (now.nanos - before.start().nanos) / 1_000_000;
            &&& before.now() < millis ==> after.now() == millis
            &&& before.now() >= millis ==> after.now() == before.now()
        },
{
    crate::time::instant::law_distance_is_exact(before.start(), now);
}

/// A tick fires exactly the timers whose deadline has come, each as often as it is pending: as many wakers
/// come out as there are such timers, the rest stays pending, and nothing else changes. They come in the
/// order of the milliseconds of their deadlines, except that what the wheel had passed already comes first.
#[verifier::spinoff_prover]
pub proof fn law_tick_fires_what_is_due(
    before: TimerWheel,
    now: Instant,
    after: TimerWheel,
    expired: Seq<Waker>,
    entry: TimerEntry,
) -> (fired: Seq<TimerEntry>)
    requires
        before.ticks(now, after, expired),
    ensures
        expired.len() == fired.len(),
        forall|i: int| #![trigger fired[i]]
            0 <= i < fired.len() ==> expired[i] == fired[i].waker && fired[i].deadline.nanos <= now.nanos,
        entry.deadline.nanos <= now.nanos ==> {
            &&& fired.to_multiset().count(entry) == before.pending().count(entry)
            &&& after.pending().count(entry) == 0
        },
        entry.deadline.nanos > now.nanos ==> {
            &&& fired.to_multiset().count(entry) == 0
            &&& after.pending().count(entry) == before.pending().count(entry)
        },
        expired.len() + after.pending().len() == before.pending().len(),
        forall|i: int, j: int| #![trigger fired[i], fired[j]]
            0 <= i < j < fired.len() ==> {
                let start = before.start().nanos;
                ||| fired[i].deadline.nanos <= start
                ||| (fired[i].deadline.nanos - start) / 1_000_000 <= before.now()
                ||| (fired[j].deadline.nanos > start && (fired[i].deadline.nanos - start) / 1_000_000 <= (
                fired[j].deadline.nanos - start) / 1_000_000)
            },
{
    let fired = before.expiring(now);
    fired.to_multiset_ensures();
    assert forall|i: int| #![trigger fired[i]] 0 <= i < fired.len() implies expired[i] == fired[i].waker
        && fired[i].deadline.nanos <= now.nanos by {
        assert(fired.contains(fired[i]));
        assert(fired.to_multiset().count(fired[i]) > 0);
    }
    law_tick_splits_pending(before, now, after, expired, fired);
    assert(after.pending().add(fired.to_multiset()).len() == after.pending().len() + fired.to_multiset().len());
    assert(fired.to_multiset().count(entry) == before.pending().filter(is_due(now)).count(entry));
    assert(after.pending().count(entry) == before.pending().filter(is_ahead(now)).count(entry));
    assert forall|i: int, j: int| #![trigger fired[i], fired[j]] 0 <= i < j < fired.len() implies {
        let start = before.start().nanos;
        ||| fired[i].deadline.nanos <= start
        ||| (fired[i].deadline.nanos - start) / 1_000_000 <= before.now()
        ||| (fired[j].deadline.nanos > start && (fired[i].deadline.nanos - start) / 1_000_000 <= (
        fired[j].deadline.nanos - start) / 1_000_000)
    } by {
        assert(before.turn(fired[i]) <= before.turn(fired[j]));
        crate::time::instant::law_distance_is_exact(before.start(), fired[i].deadline);
        crate::time::instant::law_distance_is_exact(before.start(), fired[j].deadline);
    }
    fired
}

/// `a` stands before `b` somewhere in `all`.
pub open spec fn stands_before<A>(all: Seq<A>, a: A, b: A) -> bool {
    exists|p: int, q: int| 0 <= p < q < all.len() && #[trigger] all[p] == a && #[trigger] all[q] == b
}

proof fn before_in_longer<A>(first: Seq<A>, all: Seq<A>, last: Seq<A>, a: A, b: A)
    requires
        stands_before(all, a, b),
    ensures
        stands_before(first + all + last, a, b),
{
    let (p, q) = choose|p: int, q: int| 0 <= p < q < all.len() && #[trigger] all[p] == a && #[trigger] all[q] == b;
    let longer = first + all + last;
    assert(longer[first.len() + p] == a);
    assert(longer[first.len() + q] == b);
}

proof fn filter_has<A>(all: Seq<A>, i: int, pred: spec_fn(A) -> bool) -> (p: int)
    requires
        0 <= i < all.len(),
        pred(all[i]),
    ensures
        0 <= p < all.filter(pred).len(),
        all.filter(pred)[p] == all[i],
    decreases all.len(),
{
    let rest = all.drop_last();
    assert(all =~= rest.push(all.last()));
    filter_of_push(rest, all.last(), pred);
    if i < rest.len() {
        filter_has(rest, i, pred)
    } else {
        rest.filter(pred).len() as int
    }
}

proof fn before_in_filter<A>(all: Seq<A>, i: int, j: int, pred: spec_fn(A) -> bool)
    requires
        0 <= i < j < all.len(),
        pred(all[i]),
        pred(all[j]),
    ensures
        stands_before(all.filter(pred), all[i], all[j]),
    decreases all.len(),
{
    let rest = all.drop_last();
    let kept = rest.filter(pred);
    assert(all =~= rest.push(all.last()));
    filter_of_push(rest, all.last(), pred);
    if j < rest.len() {
        before_in_filter(rest, i, j, pred);
        let (p, q) = choose|p: int, q: int|
            0 <= p < q < kept.len() && #[trigger] kept[p] == rest[i] && #[trigger] kept[q] == rest[j];
        assert(all.filter(pred)[p] == all[i]);
        assert(all.filter(pred)[q] == all[j]);
    } else {
        let p = filter_has(rest, i, pred);
        assert(all.filter(pred)[p] == all[i]);
        assert(all.filter(pred)[kept.len() as int] == all[j]);
    }
}

proof fn before_in_lane(wheel: TimerWheel, l: int, k: int, t: int, a: TimerEntry, b: TimerEntry)
    requires
        0 <= l < k,
        stands_before(wheel.share(l, t), a, b),
    ensures
        stands_before(wheel.lane_below(k, t), a, b),
    decreases k,
{
    let none = Seq::<TimerEntry>::empty();
    let finer = wheel.lane_below(k - 1, t);
    let own = wheel.share(k - 1, t);
    if l == k - 1 {
        before_in_longer(finer, own, none, a, b);
        assert(finer + own + none =~= wheel.lane_below(k, t));
    } else {
        before_in_lane(wheel, l, k - 1, t, a, b);
        before_in_longer(none, finer, own, a, b);
        assert(none + finer + own =~= wheel.lane_below(k, t));
    }
}

proof fn before_in_lanes(wheel: TimerWheel, from: int, upto: int, t: int, now: Instant, a: TimerEntry, b: TimerEntry)
    requires
        from <= t <= upto,
        stands_before(wheel.lane(t).filter(is_due(now)), a, b),
    ensures
        stands_before(wheel.lanes(from, upto, now), a, b),
    decreases upto - from,
{
    let none = Seq::<TimerEntry>::empty();
    let earlier = wheel.lanes(from, upto - 1, now);
    let own = wheel.lane(upto).filter(is_due(now));
    if t == upto {
        before_in_longer(earlier, own, none, a, b);
        assert(earlier + own + none =~= wheel.lanes(from, upto, now));
    } else {
        before_in_lanes(wheel, from, upto - 1, t, now, a, b);
        before_in_longer(none, earlier, own, a, b);
        assert(none + earlier + own =~= wheel.lanes(from, upto, now));
    }
}

/// Timers of one slot whose deadlines fall into the same millisecond fire in the order in which they were
/// put there.
#[verifier::spinoff_prover]
pub proof fn law_first_come_first_fired(
    before: TimerWheel,
    now: Instant,
    after: TimerWheel,
    expired: Seq<Waker>,
    l: int,
    s: int,
    i: int,
    j: int,
)
    requires
        before.wf(),
        before.ticks(now, after, expired),
        0 <= l < 6,
        0 <= s < 64,
        0 <= i < j < before.slot(l, s).len(),
        before.slot(l, s)[i].deadline.nanos <= now.nanos,
        before.slot(l, s)[j].deadline.nanos <= now.nanos,
        before.turn(before.slot(l, s)[i]) == before.turn(before.slot(l, s)[j]),
    ensures
        exists|p: int, q: int|
            0 <= p < q < expired.len() && #[trigger] expired[p] == before.slot(l, s)[i].waker && #[trigger] expired[q]
                == before.slot(l, s)[j].waker,
{
    let slot = before.slot(l, s);
    let a = slot[i];
    let b = slot[j];
    let t = before.turn(a);
    assert(well_placed(l, s, before.due(slot[i]), before.now()));
    if l > 0 {
        later_slot_is_later(l, before.due(a), before.now());
    }
    assert(s == (t / spec_level_span(l)) % (WHEEL_SIZE as int));
    before_in_filter(slot, i, j, in_turn(before.start(), before.now(), t));
    before_in_lane(before, l, NUM_LEVELS as int, t, a, b);
    let lane = before.lane(t);
    let (p, q) = choose|p: int, q: int| 0 <= p < q < lane.len() && #[trigger] lane[p] == a && #[trigger] lane[q] == b;
    before_in_filter(lane, p, q, is_due(now));
    crate::time::instant::law_distance_is_exact(before.start(), a.deadline);
    crate::time::instant::law_distance_is_exact(before.start(), now);
    ticks_are_ordered(before.start(), a.deadline, now);
    let upto = later_tick(before.now(), now.spec_millis_since(before.start()));
    before_in_lanes(before, before.now(), upto, t, now, a, b);
    let fired = before.expiring(now);
    let (p, q) = choose|p: int, q: int| 0 <= p < q < fired.len() && #[trigger] fired[p] == a && #[trigger] fired[q] == b;
    assert(expired[p] == a.waker);
    assert(expired[q] == b.waker);
}

} // verus!
