use vstd::prelude::*;

verus! {

/// How far a future has come.
#[derive(Debug, PartialEq, Eq)]
pub enum Poll<T> {
    Ready(T),
    Pending,
}

} // verus!
