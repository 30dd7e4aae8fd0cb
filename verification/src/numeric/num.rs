//! The basic numeric capability markers: a type qualifies as a number
//! when it carries the closed ring operations of the scalar layer.

use crate::linear::scalar::Scalar;
use vstd::prelude::*;

verus! {

/// A number: it has the closed operations and the identities.
pub trait Num: Scalar {

}

/// The closed arithmetic operator set.
pub trait NumOps: Scalar {

}

/// The in-place arithmetic operator set.
pub trait NumAssignOps: Scalar {

}

/// A number with the in-place operators as well.
pub trait NumAssign: Num + NumAssignOps {

}

/// A number whose operators also take references.
pub trait NumRef: Num {

}

/// A reference type whose operators land back in the base number.
pub trait RefNum: Num {

}

impl<T: Scalar> Num for T {

}

impl<T: Scalar> NumOps for T {

}

impl<T: Scalar> NumAssignOps for T {

}

impl<T: Scalar> NumAssign for T {

}

impl<T: Scalar> NumRef for T {

}

impl<T: Scalar> RefNum for T {

}

} // verus!
