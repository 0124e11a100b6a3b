use vstd::prelude::*;

verus! {

/// `num_cpus::get` counts the processors that the process may use. That depends on the machine; it
/// is never zero.
#[verifier::external_body]
pub(crate) fn cpu_count() -> (count: usize)
    ensures
        count >= 1,
{
    num_cpus::get()
}

} // verus!
