//! The floating-point capability.
//!
//! No scalar of this crate carries it; the trait records the interface a
//! floating-point scalar would have to offer.

use crate::numeric::num::Num;
use vstd::prelude::*;

verus! {

/// A floating-point number: classification, rounding and the analytic
/// operations.
pub trait Float: Num {
    fn is_finite(self) -> bool;

    fn is_infinite(self) -> bool;

    fn is_nan(self) -> bool;

    fn is_normal(self) -> bool;

    fn is_sign_positive(self) -> bool;

    fn is_sing_negative(self) -> bool;

    fn recip(self) -> Self;

    fn floor(self) -> Self;

    fn ceil(self) -> Self;

    fn round(self) -> Self;

    fn trunc(self) -> Self;

    fn fract(self) -> Self;

    fn copysign(self, sign: Self) -> Self;

    fn mul_add(self, a: Self, b: Self) -> Self;

    fn div_euclid(self, rhs: Self) -> Self;

    fn rem_euclid(self, rhs: Self) -> Self;

    fn powi(self, n: i32) -> Self;

    fn powf(self, n: Self) -> Self;

    fn float_sqrt(self) -> Self;

    fn exp(self) -> Self;

    fn exp2(self) -> Self;

    fn ln(self) -> Self;

    fn log(self, base: Self) -> Self;

    fn log2(self) -> Self;

    fn log10(self) -> Self;

    fn cbrt(self) -> Self;

    fn hypot(self, rhs: Self) -> Self;

    fn exp_m1(self) -> Self;

    fn ln_1p(self) -> Self;
}

} // verus!
