//! Componentwise comparison, offered as a capability of every scalar.

use crate::linear::scalar::Scalar;
use vstd::prelude::*;

verus! {

/// The pairwise minimum and maximum.
pub trait Cmp: Sized {
    fn minimum(&self, rhs: Self) -> Self;

    fn maximum(&self, rhs: Self) -> Self;
}

impl<T: Scalar> Cmp for T {
    fn minimum(&self, rhs: T) -> (r: T)
        ensures
            r == T::min_spec(*self, rhs),
    {
        T::min_val(*self, rhs)
    }

    fn maximum(&self, rhs: T) -> (r: T)
        ensures
            r == T::max_spec(*self, rhs),
    {
        T::max_val(*self, rhs)
    }
}

} // verus!
