use slab::Slab;
use std::task::Waker;
use vstd::prelude::*;

verus! {

/// How many sources there is room for from the start.
pub const INITIAL_SOURCES: usize = 1024;

/// What is known of a source: whether it can be read from and written to, and who waits for it.
pub struct IoSourceState {
    pub read_waker: Option<Waker>,
    pub write_waker: Option<Waker>,
    pub read_ready: bool,
    pub write_ready: bool,
}

/// The number of a source.
#[derive(Debug, Clone, Copy, PartialEq, Eq, Structural)]
pub struct Token(pub usize);

/// What somebody wants of a source.
#[derive(Debug, Clone, Copy, PartialEq, Eq, Structural)]
pub struct Interest {
    pub readable: bool,
    pub writable: bool,
}

/// What the poller says of a source.
#[derive(Debug, Clone, Copy, PartialEq, Eq, Structural)]
pub struct Event {
    pub token: Token,
    pub readable: bool,
    pub writable: bool,
}

/// No source at all.
pub open spec fn no_sources() -> Map<usize, IoSourceState> {
    Map::empty()
}

/// `slab::Slab`, a store that hands out the keys of what is put in.
#[verifier::external_type_specification]
#[verifier::external_body]
#[verifier::reject_recursive_types(T)]
pub struct ExSlab<T>(slab::Slab<T>);

/// What is in a slab, by key.
pub uninterp spec fn slab_entries(slab: Slab<IoSourceState>) -> Map<usize, IoSourceState>;

/// The keys that a slab hands out next, in order: those that were given back, and behind them the
/// first that was never in use.
pub uninterp spec fn slab_free(slab: Slab<IoSourceState>) -> Seq<usize>;

/// The keys to hand out next, once the first of `free` has been handed out. Behind the first key that
/// was never in use comes the one after it.
pub open spec fn free_after(free: Seq<usize>) -> Seq<usize> {
    if free.len() > 1 {
        free.skip(1)
    } else {
        seq![(free[0] + 1) as usize]
    }
}

/// `slab::Slab::with_capacity` makes an empty slab, whose first key is zero.
#[verifier::external_body]
fn slab_with_capacity(capacity: usize) -> (slab: Slab<IoSourceState>)
    requires
        capacity <= 65_536,
    ensures
        slab_entries(slab) == no_sources(),
        slab_free(slab) == seq![0usize],
{
    Slab::with_capacity(capacity)
}

/// `slab::Slab::insert` puts a value in under the next free key, which is not in use, and returns the
/// key. The keys behind it come next.
#[verifier::external_body]
fn slab_insert(slab: &mut Slab<IoSourceState>, value: IoSourceState) -> (key: usize)
    ensures
        key == slab_free(*old(slab))[0],
        slab_free(*final(slab)) == free_after(slab_free(*old(slab))),
        !slab_entries(*old(slab)).contains_key(key),
        slab_entries(*final(slab)) == slab_entries(*old(slab)).insert(key, value),
{
    slab.insert(value)
}

/// `slab::Slab::remove` takes a value out. Its key is the next to be handed out. It panics if the key
/// is not in use.
#[verifier::external_body]
fn slab_remove(slab: &mut Slab<IoSourceState>, key: usize) -> (value: IoSourceState)
    requires
        slab_entries(*old(slab)).contains_key(key),
    ensures
        value == slab_entries(*old(slab))[key],
        slab_entries(*final(slab)) == slab_entries(*old(slab)).remove(key),
        slab_free(*final(slab)) == seq![key] + slab_free(*old(slab)),
{
    slab.remove(key)
}

/// `slab::Slab::contains` says whether a key is in use.
#[verifier::external_body]
fn slab_contains(slab: &Slab<IoSourceState>, key: usize) -> (there: bool)
    ensures
        there <==> slab_entries(*slab).contains_key(key),
{
    slab.contains(key)
}

/// `slab::Slab::is_empty` says whether nothing is in the slab.
#[verifier::external_body]
fn slab_is_empty(slab: &Slab<IoSourceState>) -> (empty: bool)
    ensures
        empty <==> slab_entries(*slab) == no_sources(),
{
    slab.is_empty()
}

/// `slab::Slab::get_mut` gives access to the value of a key, if the key is in use. Nothing else in
/// the slab is changed.
#[verifier::external_body]
fn slab_get_mut(slab: &mut Slab<IoSourceState>, key: usize) -> (value: Option<&mut IoSourceState>)
    ensures
        slab_free(*final(slab)) == slab_free(*old(slab)),
        match value {
            Some(v) => {
                &&& slab_entries(*old(slab)).contains_key(key)
                &&& *v == slab_entries(*old(slab))[key]
                &&& slab_entries(*final(slab)) == slab_entries(*old(slab)).insert(key, *final(v))
            },
            None => {
                &&& !slab_entries(*old(slab)).contains_key(key)
                &&& slab_entries(*final(slab)) == slab_entries(*old(slab))
            },
        },
{
    slab.get_mut(key)
}

/// Who waits for which source, and which sources are ready.
pub struct Reactor {
    sources: Slab<IoSourceState>,
}

/// Whom an event wakes, the reader first.
pub open spec fn event_wakes(source: IoSourceState, event: Event) -> Seq<Waker> {
    let readers = match source.read_waker {
        Some(waker) if event.readable => seq![waker],
        _ => Seq::empty(),
    };
    let writers = match source.write_waker {
        Some(waker) if event.writable => seq![waker],
        _ => Seq::empty(),
    };
    readers + writers
}

/// A source after an event: it is ready for what the event says, and whoever waited for that no
/// longer waits.
pub open spec fn after_event(source: IoSourceState, event: Event) -> IoSourceState {
    IoSourceState {
        read_ready: source.read_ready || event.readable,
        read_waker: if event.readable {
            None
        } else {
            source.read_waker
        },
        write_ready: source.write_ready || event.writable,
        write_waker: if event.writable {
            None
        } else {
            source.write_waker
        },
    }
}

/// The sources after one event. An event on a source that is not known is passed over.
pub open spec fn sources_after(sources: Map<usize, IoSourceState>, event: Event) -> Map<usize, IoSourceState> {
    if sources.contains_key(event.token.0) {
        sources.insert(event.token.0, after_event(sources[event.token.0], event))
    } else {
        sources
    }
}

/// Whom one event wakes.
pub open spec fn woken_by(sources: Map<usize, IoSourceState>, event: Event) -> Seq<Waker> {
    if sources.contains_key(event.token.0) {
        event_wakes(sources[event.token.0], event)
    } else {
        Seq::empty()
    }
}

/// The sources after events, one after the other.
pub open spec fn all_sources_after(sources: Map<usize, IoSourceState>, events: Seq<Event>) -> Map<usize, IoSourceState>
    decreases events.len(),
{
    if events.len() == 0 {
        sources
    } else {
        sources_after(all_sources_after(sources, events.drop_last()), events.last())
    }
}

/// Whom events wake, one after the other.
pub open spec fn all_woken_by(sources: Map<usize, IoSourceState>, events: Seq<Event>) -> Seq<Waker>
    decreases events.len(),
{
    if events.len() == 0 {
        Seq::empty()
    } else {
        all_woken_by(sources, events.drop_last()) + woken_by(
            all_sources_after(sources, events.drop_last()),
            events.last(),
        )
    }
}

/// A source that nothing is known of.
pub open spec fn new_source() -> IoSourceState {
    IoSourceState { read_waker: None, write_waker: None, read_ready: false, write_ready: false }
}

/// Asking for a source on behalf of `waker`: the source after, and whether the waker is to be woken
/// at once, because the source is ready. A wish to read goes before a wish to write.
pub open spec fn asked(source: IoSourceState, interest: Interest, waker: Waker) -> (IoSourceState, bool) {
    if interest.readable {
        if source.read_ready {
            (source, true)
        } else {
            (IoSourceState { read_waker: Some(waker), ..source }, false)
        }
    } else if interest.writable {
        if source.write_ready {
            (source, true)
        } else {
            (IoSourceState { write_waker: Some(waker), ..source }, false)
        }
    } else {
        (source, false)
    }
}

/// A source that turned out not to be ready.
pub open spec fn unready(source: IoSourceState, interest: Interest) -> IoSourceState {
    if interest.readable {
        IoSourceState { read_ready: false, ..source }
    } else if interest.writable {
        IoSourceState { write_ready: false, ..source }
    } else {
        source
    }
}

impl Reactor {
    /// What is known of each source, by token.
    pub closed spec fn sources(&self) -> Map<usize, IoSourceState> {
        slab_entries(self.sources)
    }

    /// The numbers of the tokens that come next, in order: those that were given back, the last
    /// first, and behind them the first that was never given out.
    pub closed spec fn free_tokens(&self) -> Seq<usize> {
        slab_free(self.sources)
    }

    /// The token that comes next.
    pub open spec fn next_token(&self) -> Token {
        Token(self.free_tokens()[0])
    }

    pub fn new() -> (reactor: Self)
        ensures
            reactor.sources() == no_sources(),
            reactor.free_tokens() == seq![0usize],
    {
        Reactor { sources: slab_with_capacity(INITIAL_SOURCES) }
    }

    /// Whether any source is known.
    pub fn has_wakers(&self) -> (any: bool)
        ensures
            any <==> self.sources() != no_sources(),
    {
        !slab_is_empty(&self.sources)
    }

    /// Makes a new source known.
    pub fn alloc_token(&mut self) -> (token: Token)
        ensures
            token == old(self).next_token(),
            final(self).free_tokens() == free_after(old(self).free_tokens()),
            !old(self).sources().contains_key(token.0),
            final(self).sources() == old(self).sources().insert(token.0, new_source()),
            old(self).free_tokens().len() > 1 ==> old(self).free_tokens() == seq![token.0] + final(self).free_tokens(),
            old(self).free_tokens().len() == 1 && token.0 < usize::MAX ==> final(self).free_tokens() == seq![
                (token.0 + 1) as usize,
            ],
            final(self).sources()[token.0].read_waker is None,
            final(self).sources()[token.0].write_waker is None,
            !final(self).sources()[token.0].read_ready,
            !final(self).sources()[token.0].write_ready,
    {
        let key: usize = slab_insert(
            &mut self.sources,
            IoSourceState { read_waker: None, write_waker: None, read_ready: false, write_ready: false },
        );
        proof {
            let free = old(self).free_tokens();
            if free.len() > 1 {
                assert(free =~= seq![free[0]] + free.skip(1));
            }
        }
        Token(key)
    }

    /// Has `waker` woken when the source is ready. Returns it, to be woken at once, if the source is
    /// ready already. A source that is not known is passed over.
    pub fn add_waker(&mut self, token: Token, interest: Interest, waker: Waker) -> (at_once: Option<Waker>)
        ensures
            final(self).free_tokens() == old(self).free_tokens(),
            if old(self).sources().contains_key(token.0) {
                let (after, woken) = asked(old(self).sources()[token.0], interest, waker);
                &&& final(self).sources() == old(self).sources().insert(token.0, after)
                &&& at_once == (if woken {
                    Some(waker)
                } else {
                    None
                })
            } else {
                &&& final(self).sources() == old(self).sources()
                &&& at_once is None
            },
    {
        if let Some(source) = slab_get_mut(&mut self.sources, token.0) {
            if interest.readable {
                if source.read_ready {
                    return Some(waker);
                }
                source.read_waker = Some(waker);
            } else if interest.writable {
                if source.write_ready {
                    return Some(waker);
                }
                source.write_waker = Some(waker);
            }
        }
        None
    }

    /// Takes back that a source is ready, after an operation on it would have blocked.
    pub fn clear_readiness(&mut self, token: Token, interest: Interest)
        ensures
            final(self).free_tokens() == old(self).free_tokens(),
            final(self).sources() == (if old(self).sources().contains_key(token.0) {
                old(self).sources().insert(token.0, unready(old(self).sources()[token.0], interest))
            } else {
                old(self).sources()
            }),
    {
        if let Some(source) = slab_get_mut(&mut self.sources, token.0) {
            if interest.readable {
                source.read_ready = false;
            } else if interest.writable {
                source.write_ready = false;
            }
        }
    }

    /// Forgets a source. Its token is the next to be given out.
    pub fn deregister(&mut self, token: Token)
        ensures
            final(self).sources() == old(self).sources().remove(token.0),
            final(self).free_tokens() == (if old(self).sources().contains_key(token.0) {
                seq![token.0] + old(self).free_tokens()
            } else {
                old(self).free_tokens()
            }),
    {
        if slab_contains(&self.sources, token.0) {
            let _gone = slab_remove(&mut self.sources, token.0);
        }
        assert(self.sources() =~= old(self).sources().remove(token.0));
    }

    /// Acts on one event, and adds to `wakers` whom it wakes.
    fn deliver(&mut self, event: Event, wakers: &mut Vec<Waker>)
        ensures
            final(self).free_tokens() == old(self).free_tokens(),
            final(self).sources() == sources_after(old(self).sources(), event),
            final(wakers)@ == old(wakers)@ + woken_by(old(self).sources(), event),
    {
        if let Some(source) = slab_get_mut(&mut self.sources, event.token.0) {
            if event.readable {
                source.read_ready = true;
                if let Some(waker) = source.read_waker.take() {
                    wakers.push(waker);
                }
            }
            if event.writable {
                source.write_ready = true;
                if let Some(waker) = source.write_waker.take() {
                    wakers.push(waker);
                }
            }
        }
        assert(wakers@ =~= old(wakers)@ + woken_by(old(self).sources(), event));
    }

    /// Acts on the events that the poller reported. Returns whom to wake.
    pub fn dispatch(&mut self, events: &Vec<Event>) -> (wakers: Vec<Waker>)
        ensures
            final(self).free_tokens() == old(self).free_tokens(),
            final(self).sources() == all_sources_after(old(self).sources(), events@),
            wakers@ == all_woken_by(old(self).sources(), events@),
    {
        let mut wakers: Vec<Waker> = Vec::new();
        let mut i: usize = 0;
        while i < events.len()
            invariant
                i <= events.len(),
                self.free_tokens() == old(self).free_tokens(),
                self.sources() == all_sources_after(old(self).sources(), events@.take(i as int)),
                wakers@ == all_woken_by(old(self).sources(), events@.take(i as int)),
            decreases events.len() - i,
        {
            assert(events@.take(i + 1).drop_last() =~= events@.take(i as int));
            self.deliver(events[i], &mut wakers);
            i += 1;
        }
        assert(events@.take(events@.len() as int) =~= events@);
        wakers
    }
}

/// No event is lost, whichever comes first. Whoever asks for a source after the event that made it
/// ready is woken at once; whoever asked before is woken by the event.
pub proof fn law_event_and_wish_meet(source: IoSourceState, interest: Interest, waker: Waker, event: Event)
    requires
        interest.readable ==> event.readable,
        interest.writable && !interest.readable ==> event.writable,
        interest.readable || interest.writable,
    ensures
        asked(after_event(source, event), interest, waker).1,
        !asked(source, interest, waker).1 ==> event_wakes(asked(source, interest, waker).0, event).contains(waker),
{
    let (waiting, at_once) = asked(source, interest, waker);
    if !at_once {
        let woken = event_wakes(waiting, event);
        if interest.readable {
            assert(woken[0] == waker);
        } else {
            assert(woken.last() == waker);
        }
    }
}

/// Readiness lasts until it is taken back: from then on, whoever asks has to wait.
pub proof fn law_readiness_is_taken_back(source: IoSourceState, interest: Interest, waker: Waker)
    ensures
        !asked(unready(source, interest), interest, waker).1,
{
}

/// An event wakes each of those who wait at most once: the same event, coming again, wakes nobody.
pub proof fn law_woken_once(source: IoSourceState, event: Event)
    ensures
        event_wakes(after_event(source, event), event) == Seq::<Waker>::empty(),
{
    assert(event_wakes(after_event(source, event), event) =~= Seq::<Waker>::empty());
}

/// Whoever asks for a source that is ready is woken at once, and nothing changes; whoever asks for one
/// that is not waits for it, in place of who waited before. A wish to read goes before one to write, and
/// the other side of the source is left alone.
pub proof fn law_wish_waits_or_is_granted(source: IoSourceState, interest: Interest, waker: Waker)
    ensures
        ({
            let after = asked(source, interest, waker).0;
            let at_once = asked(source, interest, waker).1;
            &&& at_once <==> (interest.readable && source.read_ready) || (!interest.readable && interest.writable
                && source.write_ready)
            &&& at_once ==> after == source
            &&& after.read_ready == source.read_ready
            &&& after.write_ready == source.write_ready
            &&& after.read_waker == (if interest.readable && !source.read_ready {
                Some(waker)
            } else {
                source.read_waker
            })
            &&& after.write_waker == (if !interest.readable && interest.writable && !source.write_ready {
                Some(waker)
            } else {
                source.write_waker
            })
        }),
{
}

/// Taking back readiness takes back that of one side, to read before to write, and changes nothing else.
pub proof fn law_one_side_is_taken_back(source: IoSourceState, interest: Interest)
    ensures
        ({
            let after = unready(source, interest);
            &&& after.read_waker == source.read_waker
            &&& after.write_waker == source.write_waker
            &&& after.read_ready == (source.read_ready && !interest.readable)
            &&& after.write_ready == (source.write_ready && (interest.readable || !interest.writable))
        }),
{
}

/// An event makes its source ready for what it says, and wakes whoever waits for that, the reader before
/// the writer; they wait no longer. Nothing else changes, and an event on a source that is not known
/// does nothing.
pub proof fn law_event_wakes_who_waits(sources: Map<usize, IoSourceState>, event: Event, other: usize)
    ensures
        ({
            let key = event.token.0;
            let known = sources.contains_key(key);
            let before = sources[key];
            let after = sources_after(sources, event)[key];
            let woken = woken_by(sources, event);
            let reads = known && event.readable && before.read_waker is Some;
            let writes = known && event.writable && before.write_waker is Some;
            &&& reads && writes ==> woken == seq![before.read_waker->0, before.write_waker->0]
            &&& reads && !writes ==> woken == seq![before.read_waker->0]
            &&& !reads && writes ==> woken == seq![before.write_waker->0]
            &&& !reads && !writes ==> woken == Seq::<Waker>::empty()
            &&& !known ==> sources_after(sources, event) == sources
            &&& known ==> {
                &&& sources_after(sources, event).contains_key(key)
                &&& after.read_ready == (before.read_ready || event.readable)
                &&& after.write_ready == (before.write_ready || event.writable)
                &&& after.read_waker == (if event.readable {
                    None
                } else {
                    before.read_waker
                })
                &&& after.write_waker == (if event.writable {
                    None
                } else {
                    before.write_waker
                })
            }
            &&& other != key ==> {
                &&& sources_after(sources, event).contains_key(other) <==> sources.contains_key(other)
                &&& sources_after(sources, event)[other] == sources[other]
            }
        }),
{
    let before = sources[event.token.0];
    let woken = woken_by(sources, event);
    if sources.contains_key(event.token.0) {
        if event.readable && before.read_waker is Some {
            if event.writable && before.write_waker is Some {
                assert(woken =~= seq![before.read_waker->0, before.write_waker->0]);
            } else {
                assert(woken =~= seq![before.read_waker->0]);
            }
        } else if event.writable && before.write_waker is Some {
            assert(woken =~= seq![before.write_waker->0]);
        } else {
            assert(woken =~= Seq::<Waker>::empty());
        }
    }
}

/// Events act one after the other, in the order in which they came.
pub proof fn law_events_act_in_order(sources: Map<usize, IoSourceState>, earlier: Seq<Event>, next: Event)
    ensures
        all_woken_by(sources, Seq::empty()) == Seq::<Waker>::empty(),
        all_sources_after(sources, Seq::empty()) == sources,
        all_sources_after(sources, earlier.push(next)) == sources_after(all_sources_after(sources, earlier), next),
        all_woken_by(sources, earlier.push(next)) == all_woken_by(sources, earlier) + woken_by(
            all_sources_after(sources, earlier),
            next,
        ),
{
    assert(earlier.push(next).drop_last() =~= earlier);
}

/// No event is lost: whoever waits to read from a source is woken by events of which one says that it can
/// be read from, whoever waits to write likewise, and the source is ready for it afterwards.
pub proof fn law_waiting_is_woken(sources: Map<usize, IoSourceState>, events: Seq<Event>, i: int)
    requires
        0 <= i < events.len(),
        sources.contains_key(events[i].token.0),
    ensures
        ({
            let key = events[i].token.0;
            let after = all_sources_after(sources, events);
            &&& after.contains_key(key)
            &&& events[i].readable ==> after[key].read_ready && after[key].read_waker is None
            &&& events[i].writable ==> after[key].write_ready && after[key].write_waker is None
            &&& events[i].readable && sources[key].read_waker is Some ==> all_woken_by(sources, events).contains(
                sources[key].read_waker->0,
            )
            &&& events[i].writable && sources[key].write_waker is Some ==> all_woken_by(sources, events).contains(
                sources[key].write_waker->0,
            )
        }),
{
    waiting_until(sources, events, events[i].token.0);
    assert(events[i].token.0 == events[i].token.0);
}

/// Some event is about reading from the source `key`.
spec fn some_readable(events: Seq<Event>, key: usize) -> bool {
    exists|i: int| 0 <= i < events.len() && (#[trigger] events[i]).token.0 == key && events[i].readable
}

/// Some event is about writing to the source `key`.
spec fn some_writable(events: Seq<Event>, key: usize) -> bool {
    exists|i: int| 0 <= i < events.len() && (#[trigger] events[i]).token.0 == key && events[i].writable
}

proof fn some_of_more(events: Seq<Event>, key: usize)
    requires
        events.len() > 0,
    ensures
        some_readable(events, key) <==> some_readable(events.drop_last(), key) || (events.last().token.0 == key
            && events.last().readable),
        some_writable(events, key) <==> some_writable(events.drop_last(), key) || (events.last().token.0 == key
            && events.last().writable),
{
    let rest = events.drop_last();
    if some_readable(rest, key) {
        let i = choose|i: int| 0 <= i < rest.len() && (#[trigger] rest[i]).token.0 == key && rest[i].readable;
        assert(events[i].token.0 == key && events[i].readable);
    }
    if some_readable(events, key) {
        let i = choose|i: int| 0 <= i < events.len() && (#[trigger] events[i]).token.0 == key && events[i].readable;
        if i < rest.len() {
            assert(rest[i].token.0 == key && rest[i].readable);
        }
    }
    if some_writable(rest, key) {
        let i = choose|i: int| 0 <= i < rest.len() && (#[trigger] rest[i]).token.0 == key && rest[i].writable;
        assert(events[i].token.0 == key && events[i].writable);
    }
    if some_writable(events, key) {
        let i = choose|i: int| 0 <= i < events.len() && (#[trigger] events[i]).token.0 == key && events[i].writable;
        if i < rest.len() {
            assert(rest[i].token.0 == key && rest[i].writable);
        }
    }
    assert(events[events.len() - 1] == events.last());
}

proof fn waiting_until(sources: Map<usize, IoSourceState>, events: Seq<Event>, key: usize)
    requires
        sources.contains_key(key),
    ensures
        ({
            let after = all_sources_after(sources, events);
            let woken = all_woken_by(sources, events);
            &&& after.contains_key(key)
            &&& some_readable(events, key) ==> {
                &&& after[key].read_ready
                &&& after[key].read_waker is None
                &&& sources[key].read_waker is Some ==> woken.contains(sources[key].read_waker->0)
            }
            &&& !some_readable(events, key) ==> after[key].read_waker == sources[key].read_waker
            &&& some_writable(events, key) ==> {
                &&& after[key].write_ready
                &&& after[key].write_waker is None
                &&& sources[key].write_waker is Some ==> woken.contains(sources[key].write_waker->0)
            }
            &&& !some_writable(events, key) ==> after[key].write_waker == sources[key].write_waker
        }),
    decreases events.len(),
{
    if events.len() > 0 {
        let rest = events.drop_last();
        let last = events.last();
        waiting_until(sources, rest, key);
        some_of_more(events, key);
        let mid = all_sources_after(sources, rest);
        let woken = all_woken_by(sources, rest);
        let more = woken_by(mid, last);
        law_event_wakes_who_waits(mid, last, key);
        if sources[key].read_waker is Some {
            let waker = sources[key].read_waker->0;
            if some_readable(rest, key) {
                let j = choose|j: int| 0 <= j < woken.len() && woken[j] == waker;
                assert((woken + more)[j] == waker);
            } else if last.token.0 == key && last.readable {
                assert(more[0] == waker);
                assert((woken + more)[woken.len() as int] == waker);
            }
        }
        if sources[key].write_waker is Some {
            let waker = sources[key].write_waker->0;
            if some_writable(rest, key) {
                let j = choose|j: int| 0 <= j < woken.len() && woken[j] == waker;
                assert((woken + more)[j] == waker);
            } else if last.token.0 == key && last.writable {
                assert(more.last() == waker);
                assert((woken + more)[woken.len() + more.len() - 1] == waker);
            }
        }
    }
}

} // verus!
