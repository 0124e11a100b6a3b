//! Sockets that the polling reactor watches, known to it by their descriptors.
use crate::executor::context::Context;
use crate::executor::handle::Handle;
use crate::executor::reactor::Registration;
use crate::net::attempt::{Attempt, Progress};
use crate::poll::Poll;
use crate::waker::clone_waker;
use std::task::Waker;
use vstd::prelude::*;

verus! {

/// A socket that connections come in on.
#[derive(Debug, Clone, Copy, PartialEq, Eq, Structural)]
pub struct AsyncTcpListener {
    pub key: usize,
}

/// A connection.
#[derive(Debug, Clone, Copy, PartialEq, Eq, Structural)]
pub struct AsyncTcpStream {
    pub key: usize,
}

/// Following up on an attempt gives `polled` and turns runtime and context into those after. An
/// operation that would have blocked is to be tried again when the source is ready for it; any other
/// outcome is final.
pub open spec fn follows_up<T, E>(
    key: usize,
    waker: Waker,
    read: bool,
    attempt: Attempt<T, E>,
    handle: &Handle,
    context: &Context,
    polled: (Poll<Result<T, E>>, bool),
    handle_after: &Handle,
    context_after: &Context,
) -> bool {
    match attempt {
        Attempt::WouldBlock => {
            &&& polled.0 is Pending
            &&& handle.registers(
                context,
                Registration::IO { key, waker, read, write: !read },
                handle_after,
                context_after,
                polled.1,
            )
        },
        Attempt::Done(value) => {
            &&& polled == (Poll::Ready(Ok::<T, E>(value)), false)
            &&& *handle_after == *handle
            &&& *context_after == *context
        },
        Attempt::Failed(err) => {
            &&& polled == (Poll::Ready(Err::<T, E>(err)), false)
            &&& *handle_after == *handle
            &&& *context_after == *context
        },
    }
}

fn poll_io<T, E>(
    key: usize,
    waker: &Waker,
    read: bool,
    attempt: Attempt<T, E>,
    handle: &mut Handle,
    context: &mut Context,
) -> (polled: (Poll<Result<T, E>>, bool))
    requires
        old(handle).wf(),
        old(context).wf(),
    ensures
        final(handle).wf(),
        final(context).wf(),
        follows_up(
            key,
            *waker,
            read,
            attempt,
            old(handle),
            old(context),
            polled,
            final(handle),
            final(context),
        ),
{
    match attempt {
        Attempt::Done(value) => (Poll::Ready(Ok(value)), false),
        Attempt::Failed(err) => (Poll::Ready(Err(err)), false),
        Attempt::WouldBlock => {
            let notify = handle.register_io(context, key, clone_waker(waker), read, !read);
            (Poll::Pending, notify)
        },
    }
}

impl AsyncTcpListener {
    /// Follows up on an attempt to accept a connection. Says too whether the poller has to be told.
    pub fn poll_accept<T, E>(
        &self,
        waker: &Waker,
        attempt: Attempt<T, E>,
        handle: &mut Handle,
        context: &mut Context,
    ) -> (polled: (Poll<Result<T, E>>, bool))
        requires
            old(handle).wf(),
            old(context).wf(),
        ensures
            final(handle).wf(),
            final(context).wf(),
            follows_up(
                self.key,
                *waker,
                true,
                attempt,
                old(handle),
                old(context),
                polled,
                final(handle),
                final(context),
            ),
            polled.0 is Pending <==> attempt is WouldBlock,
            attempt matches Attempt::Done(value) ==> polled == (Poll::Ready(Ok::<T, E>(value)), false),
            attempt matches Attempt::Failed(err) ==> polled == (Poll::Ready(Err::<T, E>(err)), false),
            attempt !is WouldBlock ==> *final(handle) == *old(handle) && *final(context) == *old(context),
            attempt is WouldBlock ==> old(handle).registers(
                old(context),
                Registration::IO { key: self.key, waker: *waker, read: true, write: false },
                final(handle),
                final(context),
                polled.1,
            ),
    {
        poll_io(self.key, waker, true, attempt, handle, context)
    }
}

impl AsyncTcpStream {
    /// Follows up on an attempt to read, which gives the number of bytes read. Says too whether the
    /// poller has to be told.
    pub fn poll_read<E>(&self, waker: &Waker, attempt: Attempt<usize, E>, handle: &mut Handle, context: &mut Context) -> (
    polled: (Poll<Result<usize, E>>, bool))
        requires
            old(handle).wf(),
            old(context).wf(),
        ensures
            final(handle).wf(),
            final(context).wf(),
            follows_up(
                self.key,
                *waker,
                true,
                attempt,
                old(handle),
                old(context),
                polled,
                final(handle),
                final(context),
            ),
            polled.0 is Pending <==> attempt is WouldBlock,
            attempt matches Attempt::Done(value) ==> polled == (Poll::Ready(Ok::<usize, E>(value)), false),
            attempt matches Attempt::Failed(err) ==> polled == (Poll::Ready(Err::<usize, E>(err)), false),
            attempt !is WouldBlock ==> *final(handle) == *old(handle) && *final(context) == *old(context),
            attempt is WouldBlock ==> old(handle).registers(
                old(context),
                Registration::IO { key: self.key, waker: *waker, read: true, write: false },
                final(handle),
                final(context),
                polled.1,
            ),
    {
        poll_io(self.key, waker, true, attempt, handle, context)
    }

    /// Follows up on an attempt to write, which gives the number of bytes written. Says too whether
    /// the poller has to be told.
    pub fn poll_write<E>(&self, waker: &Waker, attempt: Attempt<usize, E>, handle: &mut Handle, context: &mut Context) -> (
    polled: (Poll<Result<usize, E>>, bool))
        requires
            old(handle).wf(),
            old(context).wf(),
        ensures
            final(handle).wf(),
            final(context).wf(),
            follows_up(
                self.key,
                *waker,
                false,
                attempt,
                old(handle),
                old(context),
                polled,
                final(handle),
                final(context),
            ),
            polled.0 is Pending <==> attempt is WouldBlock,
            attempt matches Attempt::Done(value) ==> polled == (Poll::Ready(Ok::<usize, E>(value)), false),
            attempt matches Attempt::Failed(err) ==> polled == (Poll::Ready(Err::<usize, E>(err)), false),
            attempt !is WouldBlock ==> *final(handle) == *old(handle) && *final(context) == *old(context),
            attempt is WouldBlock ==> old(handle).registers(
                old(context),
                Registration::IO { key: self.key, waker: *waker, read: false, write: true },
                final(handle),
                final(context),
                polled.1,
            ),
    {
        poll_io(self.key, waker, false, attempt, handle, context)
    }

    /// Follows up on how far a connection has come: one that does not stand yet does when the socket
    /// can be written to. Says too whether the poller has to be told.
    pub fn poll_connect<E>(&self, waker: &Waker, progress: Progress<E>, handle: &mut Handle, context: &mut Context) -> (
    polled: (Poll<Result<(), E>>, bool))
        requires
            old(handle).wf(),
            old(context).wf(),
        ensures
            final(handle).wf(),
            final(context).wf(),
            follows_up(
                self.key,
                *waker,
                false,
                match progress {
                    Progress::Failed(err) => Attempt::Failed(err),
                    Progress::Connected => Attempt::Done(()),
                    Progress::NotConnected => Attempt::WouldBlock,
                },
                old(handle),
                old(context),
                polled,
                final(handle),
                final(context),
            ),
            polled.0 is Pending <==> progress is NotConnected,
            progress is Connected ==> polled == (Poll::Ready(Ok::<(), E>(())), false),
            progress matches Progress::Failed(err) ==> polled == (Poll::Ready(Err::<(), E>(err)), false),
            progress !is NotConnected ==> *final(handle) == *old(handle) && *final(context) == *old(context),
            progress is NotConnected ==> old(handle).registers(
                old(context),
                Registration::IO { key: self.key, waker: *waker, read: false, write: true },
                final(handle),
                final(context),
                polled.1,
            ),
    {
        let attempt = match progress {
            Progress::Failed(err) => Attempt::Failed(err),
            Progress::Connected => Attempt::Done(()),
            Progress::NotConnected => Attempt::WouldBlock,
        };
        poll_io(self.key, waker, false, attempt, handle, context)
    }
}

/// An operation is pending exactly if it would have blocked. Whatever else came of it is handed on as
/// it is, success or failure, to read or to write, and nothing is registered for it.
pub proof fn law_outcome_is_handed_on<T, E>(
    key: usize,
    waker: Waker,
    read: bool,
    attempt: Attempt<T, E>,
    handle: Handle,
    context: Context,
    polled: (Poll<Result<T, E>>, bool),
    handle_after: Handle,
    context_after: Context,
)
    requires
        follows_up(key, waker, read, attempt, &handle, &context, polled, &handle_after, &context_after),
    ensures
        polled.0 is Pending <==> attempt is WouldBlock,
        attempt matches Attempt::Done(value) ==> polled.0 == Poll::Ready(Ok::<T, E>(value)),
        attempt matches Attempt::Failed(err) ==> polled.0 == Poll::Ready(Err::<T, E>(err)),
        attempt !is WouldBlock ==> handle_after == handle && context_after == context && !polled.1,
{
}

/// Whoever would have blocked is registered, once, for what they were about to do, and for nothing
/// else.
pub proof fn law_blocked_is_registered<T, E>(
    key: usize,
    waker: Waker,
    read: bool,
    handle: Handle,
    context: Context,
    polled: (Poll<Result<T, E>>, bool),
    handle_after: Handle,
    context_after: Context,
)
    requires
        follows_up(
            key,
            waker,
            read,
            Attempt::WouldBlock,
            &handle,
            &context,
            polled,
            &handle_after,
            &context_after,
        ),
    ensures
        polled.0 is Pending,
        ({
            let before = handle.reactor.registrations@ + context.registration_buffer@;
            let after = handle_after.reactor.registrations@ + context_after.registration_buffer@;
            let asked = Registration::IO { key, waker, read, write: !read };
            if context.is_worker {
                after == before.push(asked)
            } else {
                handle_after.reactor.registrations@ == handle.reactor.registrations@.push(asked)
            }
        }),
        handle_after.scheduler == handle.scheduler,
{
    let asked = Registration::IO { key, waker, read, write: !read };
    let before = handle.reactor.registrations@ + context.registration_buffer@;
    let after = handle_after.reactor.registrations@ + context_after.registration_buffer@;
    if context.is_worker {
        assert(after =~= before.push(asked));
    } else {
        assert(handle_after.reactor.registrations@ =~= handle.reactor.registrations@.push(asked));
    }
}

} // verus!
