use futures::task::noop_waker;
use taiga::executor::context::Context;
use taiga::executor::handle::Handle;
use taiga::executor::reactor::{Reactor, Readiness};
use taiga::executor::scheduler::Scheduler;
use taiga::net::attempt::{
    connection_of, Attempt, ConnectError, ConnectStep, Connecting, Connection, Progress, WriteAll, WriteStep,
};
use taiga::net::server::Server;
use taiga::net::{tcp, tcp_listener, tcp_stream};
use taiga::poll::Poll;
use taiga::time::instant::Instant;
use taiga::workstealing::reactor::{Event, Reactor as TokenReactor};

fn runtime() -> (Handle, Context) {
    let reactor = Reactor::new(Instant { nanos: 0 });
    (Handle::new(Scheduler::new(vec![], 0), reactor), Context::new())
}

#[test]
fn what_would_block_is_registered() {
    let (mut handle, mut context) = runtime();
    let waker = noop_waker();
    let stream = tcp::AsyncTcpStream { key: 4 };
    let listener = tcp::AsyncTcpListener { key: 5 };
    let blocked: Attempt<usize, u8> = Attempt::WouldBlock;
    assert_eq!(stream.poll_read(&waker, blocked, &mut handle, &mut context), (Poll::Pending, true));
    let blocked: Attempt<usize, u8> = Attempt::WouldBlock;
    assert_eq!(stream.poll_write(&waker, blocked, &mut handle, &mut context), (Poll::Pending, false));
    let blocked: Attempt<&str, u8> = Attempt::WouldBlock;
    assert_eq!(listener.poll_accept(&waker, blocked, &mut handle, &mut context), (Poll::Pending, false));
    let under_way: Progress<u8> = Progress::NotConnected;
    let other = tcp::AsyncTcpStream { key: 6 };
    assert_eq!(other.poll_connect(&waker, under_way, &mut handle, &mut context), (Poll::Pending, false));
    let ready = |key, readable, writable| Readiness { key, readable, writable };
    assert_eq!(
        handle.reactor.handle_registrations(),
        vec![ready(4, true, false), ready(4, true, true), ready(5, true, false), ready(6, false, true)]
    );
}

#[test]
fn what_is_done_is_done() {
    let (mut handle, mut context) = runtime();
    let waker = noop_waker();
    let stream = tcp::AsyncTcpStream { key: 4 };
    let done: Attempt<usize, u8> = Attempt::Done(11);
    assert_eq!(stream.poll_read(&waker, done, &mut handle, &mut context), (Poll::Ready(Ok(11)), false));
    let failed: Attempt<usize, u8> = Attempt::Failed(3);
    assert_eq!(stream.poll_write(&waker, failed, &mut handle, &mut context), (Poll::Ready(Err(3)), false));
    let up: Progress<u8> = Progress::Connected;
    assert_eq!(stream.poll_connect(&waker, up, &mut handle, &mut context), (Poll::Ready(Ok(())), false));
    let down: Progress<u8> = Progress::Failed(9);
    assert_eq!(stream.poll_connect(&waker, down, &mut handle, &mut context), (Poll::Ready(Err(9)), false));
    assert!(handle.reactor.registrations.is_empty());
}

#[test]
fn token_sockets_wait_for_their_events() {
    let mut reactor = TokenReactor::new();
    let waker = noop_waker();
    let listener = tcp_listener::AsyncTcpListener::bind(&mut reactor);
    let stream = tcp_stream::AsyncTcpStream::from_mio(&mut reactor);
    assert_ne!(listener.token, stream.token);

    let blocked: Attempt<usize, u8> = Attempt::WouldBlock;
    assert_eq!(stream.poll_read(&waker, blocked, &mut reactor), Poll::Pending);
    let blocked: Attempt<u8, u8> = Attempt::WouldBlock;
    assert_eq!(listener.poll_accept(&waker, blocked, &mut reactor), Poll::Pending);
    let events = vec![
        Event { token: stream.token, readable: true, writable: true },
        Event { token: listener.token, readable: true, writable: false },
    ];
    assert_eq!(reactor.dispatch(&events).len(), 2);

    // The stream is known to be ready; finding that it is not, takes that back.
    let blocked: Attempt<usize, u8> = Attempt::WouldBlock;
    assert_eq!(stream.poll_write(&waker, blocked, &mut reactor), Poll::Pending);
    assert_eq!(reactor.dispatch(&events).len(), 1);
    let done: Attempt<usize, u8> = Attempt::Done(2);
    assert_eq!(stream.poll_write(&waker, done, &mut reactor), Poll::Ready(Ok(2)));
}

#[test]
fn a_token_connection_that_is_writable_wakes_at_once() {
    let mut reactor = TokenReactor::new();
    let waker = noop_waker();
    let stream = tcp_stream::AsyncTcpStream::from_mio(&mut reactor);
    let (poll, at_once) = stream.poll_connect::<u8>(&waker, Progress::NotConnected, &mut reactor);
    assert_eq!(poll, Poll::Pending);
    assert!(at_once.is_none());
    let wakers = reactor.dispatch(&vec![Event { token: stream.token, readable: false, writable: true }]);
    assert_eq!(wakers.len(), 1);
    let (poll, at_once) = stream.poll_connect::<u8>(&waker, Progress::NotConnected, &mut reactor);
    assert_eq!(poll, Poll::Pending);
    assert!(at_once.is_some());
    let (poll, at_once) = stream.poll_connect::<u8>(&waker, Progress::Failed(8), &mut reactor);
    assert_eq!(poll, Poll::Ready(Err(8)));
    assert!(at_once.is_none());
}

#[test]
fn the_first_address_that_answers_is_taken() {
    let mut connecting: Connecting<&str> = Connecting::new(3);
    assert_eq!(connecting.next(), Some(0));
    assert!(matches!(connecting.attempted(Connection::Failed("refused")), ConnectStep::Next));
    assert_eq!(connecting.next(), Some(1));
    assert!(matches!(connecting.attempted(Connection::Failed("unreachable")), ConnectStep::Next));
    assert!(matches!(connecting.attempted(Connection::InProgress), ConnectStep::Wait));
    assert!(matches!(connecting.attempted(Connection::Up), ConnectStep::Connected));
    assert!(matches!(connecting.attempted(Connection::Failed("gone")), ConnectStep::Next));
    assert_eq!(connecting.next(), None);
    assert!(matches!(connecting.into_error(), ConnectError::Last("gone")));
    let nowhere: Connecting<&str> = Connecting::new(0);
    assert_eq!(nowhere.next(), None);
    assert!(matches!(nowhere.into_error(), ConnectError::Unresolved));
}

#[test]
fn a_connection_under_way_is_told_from_a_failure() {
    assert!(matches!(connection_of::<u8>(Ok(()), false, None, 115), Connection::Up));
    assert!(matches!(connection_of::<u8>(Err(1), true, None, 115), Connection::InProgress));
    assert!(matches!(connection_of::<u8>(Err(1), false, Some(115), 115), Connection::InProgress));
    assert!(matches!(connection_of::<u8>(Err(1), false, Some(111), 115), Connection::Failed(1)));
    assert!(matches!(connection_of::<u8>(Err(1), false, None, 115), Connection::Failed(1)));
}

#[test]
fn a_buffer_is_written_to_its_end() {
    let mut all = WriteAll::new(10);
    assert_eq!(all.next(), Some(0));
    assert_eq!(all.wrote(4), WriteStep::Again);
    assert_eq!(all.next(), Some(4));
    assert_eq!(all.wrote(6), WriteStep::Finished);
    assert_eq!(all.next(), None);
    assert_eq!(WriteAll::new(0).next(), None);
    let mut stuck = WriteAll::new(3);
    assert_eq!(stuck.wrote(0), WriteStep::WriteZero);
}

#[test]
fn a_server_has_its_socket() {
    let server = Server::new(tcp::AsyncTcpListener { key: 7 });
    assert_eq!(server.tcp.key, 7);
}
