use vstd::prelude::*;
use vstd::string::*;

verus! {

/// The task whose result was awaited panicked, or was given up.
#[derive(Debug, Clone, Copy, PartialEq, Eq, Structural)]
pub struct JoinError {}

impl JoinError {
    /// What to tell of the error.
    pub fn message(&self) -> (text: String)
        ensures
            text@ == "JoinError: task panicked or was cancelled"@,
    {
        String::from_str("JoinError: task panicked or was cancelled")
    }
}

} // verus!
