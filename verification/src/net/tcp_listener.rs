use crate::net::attempt::Attempt;
use crate::net::tcp_stream::poll_io;
use crate::poll::Poll;
use crate::workstealing::reactor::{Reactor, Token};
use std::task::Waker;
use vstd::prelude::*;

verus! {

/// A socket that connections come in on, watched by the token reactor.
#[derive(Debug, Clone, Copy, PartialEq, Eq, Structural)]
pub struct AsyncTcpListener {
    pub token: Token,
}

impl AsyncTcpListener {
    /// Makes a socket known to the reactor.
    pub fn bind(reactor: &mut Reactor) -> (listener: Self)
        ensures
            listener.token == old(reactor).next_token(),
            final(reactor).free_tokens() == crate::workstealing::reactor::free_after(old(reactor).free_tokens()),
            !old(reactor).sources().contains_key(listener.token.0),
            final(reactor).sources() == old(reactor).sources().insert(
                listener.token.0,
                crate::workstealing::reactor::new_source(),
            ),
    {
        AsyncTcpListener { token: reactor.alloc_token() }
    }

    /// Follows up on an attempt to accept a connection.
    pub fn poll_accept<T, E>(&self, waker: &Waker, attempt: Attempt<T, E>, reactor: &mut Reactor) -> (poll: Poll<
        Result<T, E>,
    >)
        ensures
            crate::net::tcp_stream::follows_up(self.token, *waker, true, attempt, old(reactor), poll, final(reactor)),
            poll is Pending <==> attempt is WouldBlock,
            attempt matches Attempt::Done(value) ==> poll == Poll::Ready(Ok::<T, E>(value)),
            attempt matches Attempt::Failed(err) ==> poll == Poll::Ready(Err::<T, E>(err)),
            attempt !is WouldBlock ==> final(reactor).sources() == old(reactor).sources(),
            final(reactor).free_tokens() == old(reactor).free_tokens(),
            final(reactor).sources().dom() == old(reactor).sources().dom(),
            attempt is WouldBlock && old(reactor).sources().contains_key(self.token.0) ==> {
                let before = old(reactor).sources()[self.token.0];
                let after = final(reactor).sources()[self.token.0];
                &&& after.read_waker == Some(*waker)
                &&& !after.read_ready
                &&& after.write_waker == before.write_waker
                &&& after.write_ready == before.write_ready
            },
            forall|other: usize| #![trigger final(reactor).sources()[other]]
                other != self.token.0 ==> final(reactor).sources()[other] == old(reactor).sources()[other],
    {
        let poll = poll_io(self.token, waker, true, attempt, reactor);
        assert(reactor.sources().dom() =~= old(reactor).sources().dom());
        poll
    }
}

} // verus!
