//! The fused multiply-add capability.  On the integer scalars it is the
//! plain product followed by the sum.

use crate::linear::scalar::Scalar;
use vstd::prelude::*;

verus! {

/// `self * a + b` in one call.
pub trait MulAdd: Sized {
    fn mul_add(self, a: Self, b: Self) -> Self;
}

/// `self = self * a + b` in place.
pub trait MullAddAssign: Sized {
    fn mull_add_assign(&mut self, a: Self, b: Self);
}

impl<T: Scalar> MulAdd for T {
    fn mul_add(self, a: T, b: T) -> (r: T)
        ensures
            r == T::add_spec(T::mul_spec(self, a), b),
    {
        T::add(T::mul(self, a), b)
    }
}

impl<T: Scalar> MullAddAssign for T {
    fn mull_add_assign(&mut self, a: T, b: T)
        ensures
            *final (self) == T::add_spec(T::mul_spec(*old(self), a), b),
    {
        *self = T::add(T::mul(*self, a), b);
    }
}

} // verus!
