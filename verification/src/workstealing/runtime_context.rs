use vstd::prelude::*;

verus! {

/// Which scheduler a thread is running on.
#[derive(Debug, Clone, Copy, PartialEq, Eq)]
pub struct Context {
    pub scheduler: Option<u64>,
}

/// What a thread was running on before it entered a scheduler.
#[derive(Debug, Clone, Copy, PartialEq, Eq)]
pub struct Entered {
    pub prev: Option<u64>,
}

impl Context {
    /// Entering `scheduler` turns this context into `after`.
    pub open spec fn enters(&self, scheduler: u64, entered: Entered, after: Context) -> bool {
        &&& after.scheduler == Some(scheduler)
        &&& entered.prev == self.scheduler
    }

    /// Leaving turns this context into `after`.
    pub open spec fn leaves(&self, entered: Entered, after: Context) -> bool {
        after.scheduler == entered.prev
    }

    pub fn new() -> (context: Self)
        ensures
            context.scheduler is None,
    {
        Context { scheduler: None }
    }

    /// Enters a scheduler. Leaving it restores what was there before.
    pub fn enter(&mut self, scheduler: u64) -> (entered: Entered)
        ensures
            old(self).enters(scheduler, entered, *final(self)),
    {
        let prev = self.scheduler;
        self.scheduler = Some(scheduler);
        Entered { prev }
    }

    /// Leaves a scheduler.
    pub fn leave(&mut self, entered: Entered)
        ensures
            old(self).leaves(entered, *final(self)),
    {
        self.scheduler = entered.prev;
    }

    pub fn current(&self) -> (scheduler: Option<u64>)
        ensures
            scheduler == self.scheduler,
    {
        self.scheduler
    }
}

/// Schedulers can be entered within one another: leaving one restores the context to what it was when
/// that one was entered, whatever was entered and left in between.
pub proof fn law_leaving_restores(
    before: Context,
    scheduler: u64,
    entered: Entered,
    inside: Context,
    later: Context,
    after: Context,
)
    requires
        before.enters(scheduler, entered, inside),
        later.leaves(entered, after),
    ensures
        inside.scheduler == Some(scheduler),
        after == before,
{
}

} // verus!
