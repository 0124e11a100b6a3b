use std::task::Waker;
use vstd::prelude::*;

verus! {

/// `std::task::Waker`, carried through the library as an opaque value: who it wakes, and how, is
/// known to whoever made it.
#[verifier::external_type_specification]
#[verifier::external_body]
pub struct ExWaker(std::task::Waker);

/// `std::task::Waker::clone` makes another handle to the same task; the two are interchangeable.
#[verifier::external_body]
pub(crate) fn clone_waker(waker: &Waker) -> (copy: Waker)
    ensures
        copy == *waker,
{
    waker.clone()
}

} // verus!
