//! Minimum and maximum for values that are only partially ordered.
use core::cmp::Ordering;
use vstd::std_specs::cmp::PartialOrdSpec;
use vstd::prelude::*;

verus! {

/// Return the smaller of the two numbers. If the numbers can't be ordered,
/// try to return the number that can be ordered with itself.
pub fn pmin<T: PartialOrd>(a: T, b: T) -> (least: T)
    ensures
        T::obeys_partial_cmp_spec() ==> least == (if a.partial_cmp_spec(&b) == Some(
            Ordering::Less,
        ) {
            a
        } else if b.partial_cmp_spec(&b) is Some {
            b
        } else {
            a
        }),
{
    if a < b {
        a
    } else if b.partial_cmp(&b).is_some() {
        b
    } else {
        a
    }
}

/// Return the larger of the two numbers. If the numbers can't be ordered,
/// try to return the number that can be ordered with itself.
pub fn pmax<T: PartialOrd>(a: T, b: T) -> (greatest: T)
    ensures
        T::obeys_partial_cmp_spec() ==> greatest == (if a.partial_cmp_spec(&b) == Some(
            Ordering::Greater,
        ) {
            a
        } else if b.partial_cmp_spec(&b) is Some {
            b
        } else {
            a
        }),
{
    if a > b {
        a
    } else if b.partial_cmp(&b).is_some() {
        b
    } else {
        a
    }
}

} // verus!
