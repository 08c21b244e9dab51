//! The numeric type of a signal.

use vstd::prelude::*;
use vstd::std_specs::ops::{AddSpec, MulSpec, SubSpec};
use core::ops::{Add, Mul, Sub};

verus! {

/// A sample of a signal: a copyable number with a default value, closed under
/// `+`, `-` and `*`. Every type with these operations is a sample type.
pub trait Sample: Copy + Default + Add<Output = Self> + Sub<Output = Self> + Mul<Output = Self> {}

impl<T> Sample for T where
    T: Copy + Default + Add<Output = T> + Sub<Output = T> + Mul<Output = T>,
{}

/// The operators of `T` compute what `add_spec`, `sub_spec` and `mul_spec` say.
/// The contracts of the filters describe results by these three functions, so
/// they give the value of a result for the sample types of which this is
/// true, as it is of the integer types.
pub open spec fn exact_arithmetic<T: Sample>() -> bool {
    &&& T::obeys_add_spec()
    &&& T::obeys_sub_spec()
    &&& T::obeys_mul_spec()
}

/// The operators of `T` may be applied to any two operands: none of them
/// overflows or fails in another way.
pub open spec fn total_arithmetic<T: Sample>() -> bool {
    &&& forall|x: T, y: T| #[trigger] x.add_req(y)
    &&& forall|x: T, y: T| #[trigger] x.sub_req(y)
    &&& forall|x: T, y: T| #[trigger] x.mul_req(y)
}

/// `v` is a value that `T::default()` may return.
pub open spec fn is_default<T: Sample>(v: T) -> bool {
    call_ensures(T::default, (), v)
}

/// The product `c * x` may be computed, and so may its sum with `acc`.
pub open spec fn can_add_term<T: Sample>(acc: T, c: T, x: T) -> bool {
    &&& c.mul_req(x)
    &&& acc.add_req(c.mul_spec(x))
}

/// `acc + c * x`.
pub open spec fn add_term<T: Sample>(acc: T, c: T, x: T) -> T {
    acc.add_spec(c.mul_spec(x))
}

/// The product `c * y` may be computed, and may be taken from `acc`.
pub open spec fn can_sub_term<T: Sample>(acc: T, c: T, y: T) -> bool {
    &&& c.mul_req(y)
    &&& acc.sub_req(c.mul_spec(y))
}

/// `acc - c * y`.
pub open spec fn sub_term<T: Sample>(acc: T, c: T, y: T) -> T {
    acc.sub_spec(c.mul_spec(y))
}

/// Sums may be regrouped: adding to `zero` changes nothing, and a term may be
/// added before or after another is taken away, wherever both orders can be
/// computed. This holds of integers; with rounding it holds only up to the
/// last bits.
pub open spec fn sums_reassociate<T: Sample>(zero: T) -> bool {
    &&& forall|u: T| #[trigger] zero.add_req(u) ==> zero.add_spec(u) == u
    &&& forall|u: T, v: T, w: T|
        u.add_req(w) && #[trigger] u.add_spec(w).sub_req(v) && u.sub_req(v)
            && #[trigger] u.sub_spec(v).add_req(w) ==> u.add_spec(w).sub_spec(v) == u.sub_spec(
            v,
        ).add_spec(w)
}

/// The arithmetic of `i32` is exact where it does not overflow, and its sums
/// may be regrouped.
pub proof fn lemma_i32_arithmetic()
    ensures
        exact_arithmetic::<i32>(),
        sums_reassociate::<i32>(0i32),
        forall|v: i32| is_default(v) ==> v == 0,
{
}

/// The arithmetic of `i64` is exact where it does not overflow, and its sums
/// may be regrouped.
pub proof fn lemma_i64_arithmetic()
    ensures
        exact_arithmetic::<i64>(),
        sums_reassociate::<i64>(0i64),
        forall|v: i64| is_default(v) ==> v == 0,
{
}

} // verus!
