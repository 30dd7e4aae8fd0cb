//! The all-in-one component capability: what a value must offer to sit
//! inside a vector or matrix.  Every scalar of the library offers it.

use crate::linear::scalar::Scalar;
use crate::linear::scalar::Two;
use vstd::prelude::*;

verus! {

/// The component interface: identities, square root, absolute value and
/// pairwise comparison, all speaking the scalar layer's language.
pub trait MathComponent<T>: Sized {
    fn sqrt(&self) -> T;

    fn zero() -> T;

    fn one() -> T;

    fn two() -> T;

    fn splat(val: T) -> T;

    fn abs(&self) -> T;

    fn minimum(&self, other: T) -> T;

    fn maximum(&self, other: T) -> T;
}

impl<T: Scalar> MathComponent<T> for T {
    fn sqrt(&self) -> (r: T)
        ensures
            r == T::sqrt_spec(*self),
    {
        T::sqrt(*self)
    }

    fn zero() -> (r: T)
        ensures
            r == T::zero_spec(),
    {
        T::zero()
    }

    fn one() -> (r: T)
        ensures
            r == T::one_spec(),
    {
        T::one()
    }

    fn two() -> (r: T)
        ensures
            r == T::two_value(),
    {
        <T as Two>::two()
    }

    fn splat(val: T) -> (r: T)
        ensures
            r == val,
    {
        val
    }

    fn abs(&self) -> (r: T)
        ensures
            T::abs_ok(*self) ==> r == T::abs_spec(*self),
            !T::abs_ok(*self) ==> r == *self,
    {
        if T::abs_ok_check(*self) {
            T::abs(*self)
        } else {
            *self
        }
    }

    fn minimum(&self, other: T) -> (r: T)
        ensures
            r == T::min_spec(*self, other),
    {
        T::min_val(*self, other)
    }

    fn maximum(&self, other: T) -> (r: T)
        ensures
            r == T::max_spec(*self, other),
    {
        T::max_val(*self, other)
    }
}

} // verus!
