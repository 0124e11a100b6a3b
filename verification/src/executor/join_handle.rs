use crate::poll::Poll;
use crate::waker::clone_waker;
use std::task::Waker;
use vstd::prelude::*;

verus! {

/// How far a task's result has come.
#[derive(Debug, Clone, Copy, PartialEq, Eq, Structural)]
pub enum JoinState {
    /// The task has not produced a result.
    Running,
    /// The result is there to be taken.
    Ready,
    /// The result has been taken.
    Joined,
}

/// Where a task leaves its result, and where its handle takes it from.
pub struct JoinCell<R> {
    pub state: JoinState,
    pub result: Option<R>,
    /// Whoever awaits the result.
    pub waker: Option<Waker>,
}

impl<R> JoinCell<R> {
    /// There is a result exactly when one is to be taken.
    pub open spec fn wf(&self) -> bool {
        self.result is Some <==> self.state is Ready
    }

    pub fn new() -> (cell: Self)
        ensures
            cell.wf(),
            cell == (JoinCell::<R> { state: JoinState::Running, result: None, waker: None }),
    {
        JoinCell { state: JoinState::Running, result: None, waker: None }
    }

    /// Polling this cell for `waker` gives `poll` and turns it into `after`.
    pub open spec fn polls(&self, waker: Waker, poll: Poll<R>, after: JoinCell<R>) -> bool {
        match poll {
            Poll::Ready(result) => {
                &&& self.state is Ready
                &&& self.result == Some(result)
                &&& after == (JoinCell::<R> { state: JoinState::Joined, result: None, waker: self.waker })
            },
            Poll::Pending => {
                &&& self.state is Running
                &&& after == (JoinCell { waker: Some(waker), ..*self })
            },
        }
    }

    /// This cell with `result` left in it.
    pub open spec fn completed(&self, result: R) -> JoinCell<R> {
        JoinCell { state: JoinState::Ready, result: Some(result), waker: None }
    }

    /// Leaves the result of a task that is done, or the panic that ended it. Returns whoever awaits
    /// it, to be woken.
    pub fn complete(&mut self, result: R) -> (waker: Option<Waker>)
        ensures
            final(self).wf(),
            *final(self) == old(self).completed(result),
            waker == old(self).waker,
    {
        self.result = Some(result);
        self.state = JoinState::Ready;
        self.waker.take()
    }

    /// Takes the result, or has `waker` woken when there is one. A result can be taken only once.
    pub fn poll(&mut self, waker: &Waker) -> (poll: Poll<R>)
        requires
            old(self).wf(),
            old(self).state !is Joined,
        ensures
            final(self).wf(),
            old(self).polls(*waker, poll, *final(self)),
    {
        match self.result.take() {
            Some(result) => {
                self.state = JoinState::Joined;
                Poll::Ready(result)
            },
            None => {
                self.waker = Some(clone_waker(waker));
                Poll::Pending
            },
        }
    }
}

/// Whoever awaits a task gets what the task left, and after that there is nothing to get.
pub proof fn law_result_is_delivered<R>(cell: JoinCell<R>, result: R, waker: Waker, poll: Poll<R>, after: JoinCell<R>)
    requires
        cell.completed(result).polls(waker, poll, after),
    ensures
        poll == Poll::Ready(result),
        after.state is Joined,
        after.result is None,
{
}

/// No wakeup is lost: whoever polled last before the task was done is woken when it is.
pub proof fn law_awaiting_is_woken<R>(cell: JoinCell<R>, waker: Waker, after: JoinCell<R>)
    requires
        cell.polls(waker, Poll::Pending, after),
    ensures
        after.waker == Some(waker),
        after.state is Running,
{
}

/// A handle gets a result exactly if the task has left one, and it gets that one; otherwise it waits,
/// and nothing but its waker changes.
pub proof fn law_handle_waits_for_the_result<R>(cell: JoinCell<R>, waker: Waker, poll: Poll<R>, after: JoinCell<R>)
    requires
        cell.wf(),
        cell.state !is Joined,
        cell.polls(waker, poll, after),
    ensures
        poll is Ready <==> cell.result is Some,
        poll matches Poll::Ready(result) ==> cell.result == Some(result) && after.result is None && after.state is Joined,
        poll is Pending ==> {
            &&& after.waker == Some(waker)
            &&& after.result is None
            &&& after.state == cell.state
        },
{
}

/// Leaving a result makes it ready to be taken, whatever was there before, and leaves nobody to be woken
/// for it.
pub proof fn law_result_is_left<R>(cell: JoinCell<R>, result: R)
    ensures
        cell.completed(result).result == Some(result),
        cell.completed(result).state is Ready,
        cell.completed(result).waker is None,
        forall|other: JoinCell<R>| #[trigger] other.wf() ==> (other.result is Some <==> other.state is Ready),
{
}

} // verus!
