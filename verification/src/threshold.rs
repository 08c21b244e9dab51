//! The order of samples, by which a feature is held against a threshold.

use vstd::prelude::*;
use vstd::std_specs::cmp::PartialOrdSpec;
use core::cmp::Ordering;

verus! {

/// The operator `<` of `T` computes what `partial_cmp_spec` says.
pub open spec fn comparable<T: PartialOrd>() -> bool {
    T::obeys_partial_cmp_spec()
}

/// `x` is less than `t` in the order of `T`. A value that the order does not
/// place, such as one that is not a number, is below nothing.
pub open spec fn below<T: PartialOrd>(x: T, t: T) -> bool {
    x.partial_cmp_spec(&t) == Some(Ordering::Less)
}

/// Whether `x < t`.
pub fn is_below<T: PartialOrd>(x: &T, t: &T) -> (r: bool)
    ensures
        comparable::<T>() ==> r == below(*x, *t),
{
    *x < *t
}

} // verus!
