//! Sockets that the token reactor watches.
use crate::net::attempt::{Attempt, Progress};
use crate::poll::Poll;
use crate::waker::clone_waker;
use crate::workstealing::reactor::{Interest, Reactor, Token};
use std::task::Waker;
use vstd::prelude::*;

verus! {

/// A connection.
#[derive(Debug, Clone, Copy, PartialEq, Eq, Structural)]
pub struct AsyncTcpStream {
    pub token: Token,
}

/// Interest in reading, or else in writing.
pub open spec fn interest_in(read: bool) -> Interest {
    Interest { readable: read, writable: !read }
}

/// Following up on an attempt gives `poll` and turns the reactor into the one after. If the operation
/// would have blocked, the source is not ready, and `waker` waits for it.
pub open spec fn follows_up<T, E>(
    token: Token,
    waker: Waker,
    read: bool,
    attempt: Attempt<T, E>,
    reactor: &Reactor,
    poll: Poll<Result<T, E>>,
    after: &Reactor,
) -> bool {
    &&& after.free_tokens() == reactor.free_tokens()
    &&& match attempt {
        Attempt::WouldBlock => {
            &&& poll is Pending
            &&& if reactor.sources().contains_key(token.0) {
                let source = crate::workstealing::reactor::unready(reactor.sources()[token.0], interest_in(read));
                after.sources() == reactor.sources().insert(
                    token.0,
                    crate::workstealing::reactor::asked(source, interest_in(read), waker).0,
                )
            } else {
                after.sources() == reactor.sources()
            }
        },
        Attempt::Done(value) => {
            &&& poll == Poll::Ready(Ok::<T, E>(value))
            &&& after.sources() == reactor.sources()
        },
        Attempt::Failed(err) => {
            &&& poll == Poll::Ready(Err::<T, E>(err))
            &&& after.sources() == reactor.sources()
        },
    }
}

pub(crate) fn poll_io<T, E>(token: Token, waker: &Waker, read: bool, attempt: Attempt<T, E>, reactor: &mut Reactor) -> (
poll: Poll<Result<T, E>>)
    ensures
        follows_up(token, *waker, read, attempt, old(reactor), poll, final(reactor)),
{
    match attempt {
        Attempt::Done(value) => Poll::Ready(Ok(value)),
        Attempt::Failed(err) => Poll::Ready(Err(err)),
        Attempt::WouldBlock => {
            let interest = Interest { readable: read, writable: !read };
            reactor.clear_readiness(token, interest);
            let _never = reactor.add_waker(token, interest, clone_waker(waker));
            proof {
                if old(reactor).sources().contains_key(token.0) {
                    let source = crate::workstealing::reactor::unready(old(reactor).sources()[token.0], interest);
                    assert(reactor.sources() =~= old(reactor).sources().insert(
                        token.0,
                        crate::workstealing::reactor::asked(source, interest, *waker).0,
                    ));
                }
            }
            Poll::Pending
        },
    }
}

impl AsyncTcpStream {
    /// Makes a connection known to the reactor.
    pub fn from_mio(reactor: &mut Reactor) -> (stream: Self)
        ensures
            stream.token == old(reactor).next_token(),
            final(reactor).free_tokens() == crate::workstealing::reactor::free_after(old(reactor).free_tokens()),
            !old(reactor).sources().contains_key(stream.token.0),
            final(reactor).sources() == old(reactor).sources().insert(
                stream.token.0,
                crate::workstealing::reactor::new_source(),
            ),
    {
        AsyncTcpStream { token: reactor.alloc_token() }
    }

    /// Follows up on an attempt to read.
    pub fn poll_read<E>(&self, waker: &Waker, attempt: Attempt<usize, E>, reactor: &mut Reactor) -> (poll: Poll<
        Result<usize, E>,
    >)
        ensures
            follows_up(self.token, *waker, true, attempt, old(reactor), poll, final(reactor)),
            poll is Pending <==> attempt is WouldBlock,
            attempt matches Attempt::Done(value) ==> poll == Poll::Ready(Ok::<usize, E>(value)),
            attempt matches Attempt::Failed(err) ==> poll == Poll::Ready(Err::<usize, E>(err)),
            attempt !is WouldBlock ==> final(reactor).sources() == old(reactor).sources(),
            final(reactor).free_tokens() == old(reactor).free_tokens(),
            final(reactor).sources().dom() == old(reactor).sources().dom(),
            attempt is WouldBlock && old(reactor).sources().contains_key(self.token.0) ==> {
                let before = old(reactor).sources()[self.token.0];
                let after = final(reactor).sources()[self.token.0];
                &&& after.read_waker == Some(*waker)
                &&& !after.read_ready
                &&& after.write_waker == before.write_waker
                &&& after.write_ready == before.write_ready
            },
            forall|other: usize| #![trigger final(reactor).sources()[other]]
                other != self.token.0 ==> final(reactor).sources()[other] == old(reactor).sources()[other],
    {
        let poll = poll_io(self.token, waker, true, attempt, reactor);
        assert(reactor.sources().dom() =~= old(reactor).sources().dom());
        poll
    }

    /// Follows up on an attempt to write.
    pub fn poll_write<E>(&self, waker: &Waker, attempt: Attempt<usize, E>, reactor: &mut Reactor) -> (poll: Poll<
        Result<usize, E>,
    >)
        ensures
            follows_up(self.token, *waker, false, attempt, old(reactor), poll, final(reactor)),
            poll is Pending <==> attempt is WouldBlock,
            attempt matches Attempt::Done(value) ==> poll == Poll::Ready(Ok::<usize, E>(value)),
            attempt matches Attempt::Failed(err) ==> poll == Poll::Ready(Err::<usize, E>(err)),
            attempt !is WouldBlock ==> final(reactor).sources() == old(reactor).sources(),
            final(reactor).free_tokens() == old(reactor).free_tokens(),
            final(reactor).sources().dom() == old(reactor).sources().dom(),
            attempt is WouldBlock && old(reactor).sources().contains_key(self.token.0) ==> {
                let before = old(reactor).sources()[self.token.0];
                let after = final(reactor).sources()[self.token.0];
                &&& after.write_waker == Some(*waker)
                &&& !after.write_ready
                &&& after.read_waker == before.read_waker
                &&& after.read_ready == before.read_ready
            },
            forall|other: usize| #![trigger final(reactor).sources()[other]]
                other != self.token.0 ==> final(reactor).sources()[other] == old(reactor).sources()[other],
    {
        let poll = poll_io(self.token, waker, false, attempt, reactor);
        assert(reactor.sources().dom() =~= old(reactor).sources().dom());
        poll
    }

    /// Follows up on how far a connection has come. One that does not stand yet does when the socket
    /// can be written to; if that is so already, the waker is returned, to be woken at once.
    pub fn poll_connect<E>(&self, waker: &Waker, progress: Progress<E>, reactor: &mut Reactor) -> (polled: (
        Poll<Result<(), E>>,
        Option<Waker>,
    ))
        ensures
            final(reactor).free_tokens() == old(reactor).free_tokens(),
            match progress {
                Progress::Failed(err) => {
                    &&& polled == (Poll::Ready(Err::<(), E>(err)), None::<Waker>)
                    &&& final(reactor).sources() == old(reactor).sources()
                },
                Progress::Connected => {
                    &&& polled == (Poll::Ready(Ok::<(), E>(())), None::<Waker>)
                    &&& final(reactor).sources() == old(reactor).sources()
                },
                Progress::NotConnected => {
                    &&& polled.0 is Pending
                    &&& if old(reactor).sources().contains_key(self.token.0) {
                        let (after, woken) = crate::workstealing::reactor::asked(
                            old(reactor).sources()[self.token.0],
                            interest_in(false),
                            *waker,
                        );
                        &&& final(reactor).sources() == old(reactor).sources().insert(self.token.0, after)
                        &&& polled.1 == (if woken {
                            Some(*waker)
                        } else {
                            None
                        })
                    } else {
                        &&& final(reactor).sources() == old(reactor).sources()
                        &&& polled.1 is None
                    }
                },
            },
            polled.0 is Pending <==> progress is NotConnected,
            progress is Connected ==> polled.0 == Poll::Ready(Ok::<(), E>(())),
            progress matches Progress::Failed(err) ==> polled.0 == Poll::Ready(Err::<(), E>(err)),
            progress !is NotConnected ==> polled.1 is None && final(reactor).sources() == old(reactor).sources(),
            progress is NotConnected && old(reactor).sources().contains_key(self.token.0) ==> {
                let before = old(reactor).sources()[self.token.0];
                let after = final(reactor).sources()[self.token.0];
                &&& before.write_ready ==> polled.1 == Some(*waker) && after == before
                &&& !before.write_ready ==> {
                    &&& polled.1 is None
                    &&& after.write_waker == Some(*waker)
                    &&& !after.write_ready
                    &&& after.read_waker == before.read_waker
                    &&& after.read_ready == before.read_ready
                }
            },
            forall|other: usize| #![trigger final(reactor).sources()[other]]
                other != self.token.0 ==> final(reactor).sources()[other] == old(reactor).sources()[other],
    {
        match progress {
            Progress::Failed(err) => (Poll::Ready(Err(err)), None),
            Progress::Connected => (Poll::Ready(Ok(())), None),
            Progress::NotConnected => {
                let at_once = reactor.add_waker(
                    self.token,
                    Interest { readable: false, writable: true },
                    clone_waker(waker),
                );
                (Poll::Pending, at_once)
            },
        }
    }
}

/// An operation is pending exactly if it would have blocked. Whatever else came of it is handed on as
/// it is, success or failure, to read or to write, and leaves everything as it was. Whoever would have
/// blocked waits for what they were about to do: the source is not ready for it, and nothing else of it,
/// or of another source, changes.
pub proof fn law_blocked_waits<T, E>(
    token: Token,
    waker: Waker,
    read: bool,
    attempt: Attempt<T, E>,
    before: Reactor,
    poll: Poll<Result<T, E>>,
    after: Reactor,
    other: usize,
)
    requires
        follows_up(token, waker, read, attempt, &before, poll, &after),
        before.sources().contains_key(token.0),
        other != token.0,
    ensures
        poll is Pending <==> attempt is WouldBlock,
        attempt matches Attempt::Done(value) ==> poll == Poll::Ready(Ok::<T, E>(value)),
        attempt matches Attempt::Failed(err) ==> poll == Poll::Ready(Err::<T, E>(err)),
        attempt !is WouldBlock ==> after.sources() == before.sources(),
        after.free_tokens() == before.free_tokens(),
        after.sources().contains_key(token.0),
        after.sources().contains_key(other) <==> before.sources().contains_key(other),
        after.sources()[other] == before.sources()[other],
        attempt is WouldBlock && read ==> {
            &&& after.sources()[token.0].read_waker == Some(waker)
            &&& !after.sources()[token.0].read_ready
            &&& after.sources()[token.0].write_waker == before.sources()[token.0].write_waker
            &&& after.sources()[token.0].write_ready == before.sources()[token.0].write_ready
        },
        attempt is WouldBlock && !read ==> {
            &&& after.sources()[token.0].write_waker == Some(waker)
            &&& !after.sources()[token.0].write_ready
            &&& after.sources()[token.0].read_waker == before.sources()[token.0].read_waker
            &&& after.sources()[token.0].read_ready == before.sources()[token.0].read_ready
        },
{
}

} // verus!
