use vstd::prelude::*;

verus! {

/// What came of an operation on a source that does not block.
pub enum Attempt<T, E> {
    /// It was done.
    Done(T),
    /// It would have blocked.
    WouldBlock,
    /// It failed.
    Failed(E),
}

/// What came of an attempt to connect.
pub enum Connection<E> {
    /// The connection stands.
    Up,
    /// The connection is under way.
    InProgress,
    /// The attempt failed.
    Failed(E),
}

/// How far a connection that is under way has come: the error that the socket holds, if any, and
/// whether the other side is known.
pub enum Progress<E> {
    /// The socket holds an error, or could not be asked for one.
    Failed(E),
    /// There is no error, and the other side is known.
    Connected,
    /// There is no error, and the other side is not known yet.
    NotConnected,
}

/// Tells a connection that is under way from an attempt that failed, by the error: `would_block`
/// says that the operation would have blocked, `os_error` is the system's number for the error, and
/// `in_progress` the number by which the system says that a connection is under way.
pub fn connection_of<E>(outcome: Result<(), E>, would_block: bool, os_error: Option<i32>, in_progress: i32) -> (
connection: Connection<E>)
    ensures
        connection == (match outcome {
            Ok(_) => Connection::Up,
            Err(err) => if would_block || os_error == Some(in_progress) {
                Connection::InProgress
            } else {
                Connection::Failed(err)
            },
        }),
{
    match outcome {
        Ok(_) => Connection::Up,
        Err(err) => {
            let under_way = match os_error {
                Some(number) => number == in_progress,
                None => false,
            };
            if would_block || under_way {
                Connection::InProgress
            } else {
                Connection::Failed(err)
            }
        },
    }
}

/// A connection to the first of several addresses that can be connected to.
pub struct Connecting<E> {
    /// How many addresses there are.
    pub total: usize,
    /// How many of them have been tried in vain.
    pub tried: usize,
    /// What the last attempt failed with.
    pub last_err: Option<E>,
}

/// How to go on connecting.
pub enum ConnectStep {
    /// The connection stands.
    Connected,
    /// Wait until the connection stands.
    Wait,
    /// Try the next address.
    Next,
}

/// Why no address could be connected to.
pub enum ConnectError<E> {
    /// The last attempt failed with this.
    Last(E),
    /// There was no address.
    Unresolved,
}

impl<E> Connecting<E> {
    /// Something was tried in vain exactly if there is something that it failed with.
    pub open spec fn wf(&self) -> bool {
        &&& self.tried <= self.total
        &&& self.last_err is Some <==> self.tried > 0
    }

    pub fn new(total: usize) -> (connecting: Self)
        ensures
            connecting.wf(),
            connecting == (Connecting::<E> { total, tried: 0, last_err: None }),
    {
        Connecting { total, tried: 0, last_err: None }
    }

    /// The address to try next, if any is left.
    pub fn next(&self) -> (address: Option<usize>)
        requires
            self.wf(),
        ensures
            address == (if self.tried < self.total {
                Some(self.tried)
            } else {
                None
            }),
    {
        if self.tried < self.total {
            Some(self.tried)
        } else {
            None
        }
    }

    /// Takes note of what came of trying the next address.
    pub fn attempted(&mut self, connection: Connection<E>) -> (step: ConnectStep)
        requires
            old(self).wf(),
            old(self).tried < old(self).total,
        ensures
            final(self).wf(),
            match connection {
                Connection::Up => step is Connected && *final(self) == *old(self),
                Connection::InProgress => step is Wait && *final(self) == *old(self),
                Connection::Failed(err) => {
                    &&& step is Next
                    &&& *final(self) == (Connecting {
                        total: old(self).total,
                        tried: (old(self).tried + 1) as usize,
                        last_err: Some(err),
                    })
                },
            },
    {
        match connection {
            Connection::Up => ConnectStep::Connected,
            Connection::InProgress => ConnectStep::Wait,
            Connection::Failed(err) => {
                self.tried = self.tried + 1;
                self.last_err = Some(err);
                ConnectStep::Next
            },
        }
    }

    /// Why no address could be connected to, when all have been tried.
    pub fn into_error(self) -> (error: ConnectError<E>)
        ensures
            error == (match self.last_err {
                Some(err) => ConnectError::Last(err),
                None => ConnectError::Unresolved,
            }),
    {
        match self.last_err {
            Some(err) => ConnectError::Last(err),
            None => ConnectError::Unresolved,
        }
    }
}

/// Writing a whole buffer, a part at a time.
#[derive(Debug, Clone, Copy, PartialEq, Eq, Structural)]
pub struct WriteAll {
    pub len: usize,
    pub written: usize,
}

/// How to go on writing.
#[derive(Debug, Clone, Copy, PartialEq, Eq, Structural)]
pub enum WriteStep {
    /// Write what is left.
    Again,
    /// Everything has been written.
    Finished,
    /// Nothing can be written any more, although something is left.
    WriteZero,
}

impl WriteAll {
    pub open spec fn wf(&self) -> bool {
        self.written <= self.len
    }

    pub fn new(len: usize) -> (all: Self)
        ensures
            all.wf(),
            all == (WriteAll { len, written: 0 }),
    {
        WriteAll { len, written: 0 }
    }

    /// Where to go on writing, if anything is left.
    pub fn next(&self) -> (from: Option<usize>)
        requires
            self.wf(),
        ensures
            from == (if self.written < self.len {
                Some(self.written)
            } else {
                None
            }),
    {
        if self.written < self.len {
            Some(self.written)
        } else {
            None
        }
    }

    /// Takes note that `n` more bytes were written, of what was left.
    pub fn wrote(&mut self, n: usize) -> (step: WriteStep)
        requires
            old(self).written < old(self).len,
            n <= old(self).len - old(self).written,
        ensures
            final(self).wf(),
            *final(self) == (WriteAll { len: old(self).len, written: (old(self).written + n) as usize }),
            step == (if n == 0 {
                WriteStep::WriteZero
            } else if final(self).written == final(self).len {
                WriteStep::Finished
            } else {
                WriteStep::Again
            }),
    {
        self.written = self.written + n;
        if n == 0 {
            WriteStep::WriteZero
        } else if self.written == self.len {
            WriteStep::Finished
        } else {
            WriteStep::Again
        }
    }
}

} // verus!
