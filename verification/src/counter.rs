//! Counters that start over at zero when they have run through.
use vstd::prelude::*;

verus! {

/// One more than `count`, or zero if there is no such number.
pub open spec fn one_more(count: usize) -> usize {
    if count == usize::MAX {
        0
    } else {
        (count + 1) as usize
    }
}

/// One less than `count`, or the largest number if there is no such number.
pub open spec fn one_less(count: usize) -> usize {
    if count == 0 {
        usize::MAX
    } else {
        (count - 1) as usize
    }
}

pub fn incremented(count: usize) -> (next: usize)
    ensures
        next == one_more(count),
{
    count.wrapping_add(1)
}

pub fn decremented(count: usize) -> (next: usize)
    ensures
        next == one_less(count),
{
    count.wrapping_sub(1)
}

/// Counting up and down again changes nothing.
pub proof fn law_counting_is_undone(count: usize)
    ensures
        one_less(one_more(count)) == count,
        one_more(one_less(count)) == count,
{
}

/// Counting up gives the next number, and counting down the one before, wherever there is one; the
/// ends of the range follow one another.
pub proof fn law_counting_is_by_one(count: usize)
    ensures
        count < usize::MAX ==> one_more(count) - count == 1,
        count > 0 ==> count - one_less(count) == 1,
        one_more(usize::MAX) == 0,
        one_less(0) == usize::MAX,
{
}

} // verus!
