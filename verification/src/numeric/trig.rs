//! The trigonometric capability.
//!
//! No fixed-width integer can carry it, so this crate ships no
//! implementation; the trait states what any scalar offering sine and
//! cosine must provide, and the rotor's angle constructor is verified
//! against exactly that.

use crate::linear::scalar::Scalar;
use vstd::prelude::*;

verus! {

/// A scalar with sine and cosine.
pub trait Trig: Scalar {
    /// What `sin_cos` returns in its first position.
    spec fn sin_spec(a: Self) -> Self;

    /// What `sin_cos` returns in its second position.
    spec fn cos_spec(a: Self) -> Self;

    /// The sine and the cosine of `a`, in that order.
    fn sin_cos(a: Self) -> (r: (Self, Self))
        ensures
            r.0 == Self::sin_spec(a),
            r.1 == Self::cos_spec(a),
    ;

    /// The sine of `a`.
    fn sin(a: Self) -> (r: Self)
        ensures
            r == Self::sin_spec(a),
    ;

    /// The cosine of `a`.
    fn cos(a: Self) -> (r: Self)
        ensures
            r == Self::cos_spec(a),
    ;

    /// At angle zero the sine is zero and the cosine is one.
    proof fn lemma_sin_cos_zero()
        ensures
            Self::sin_spec(Self::zero_spec()) == Self::zero_spec(),
            Self::cos_spec(Self::zero_spec()) == Self::one_spec(),
    ;
}

} // verus!
