//! The scalar capability layer.
//!
//! `Scalar` is the bound that every matrix, vector, bivector and rotor
//! operation of this library is generic over.  It packages the ring
//! operations of a fixed-width machine integer together with the laws
//! those operations obey, so that code written against the trait can be
//! verified once and holds for every implementing type.
//!
//! All closed operations wrap around on overflow, two's-complement style;
//! each implementation's `*_spec` function states this exactly through
//! [`crate::arith::crop_int`].

use crate::arith::crop_int;
use crate::arith::is_isqrt;
use crate::arith::isqrt_u64;
use crate::arith::lemma_crop_add_assoc;
use crate::arith::lemma_crop_add_inner;
use crate::arith::lemma_crop_identity;
use crate::arith::lemma_crop_mul_assoc;
use crate::arith::lemma_crop_mul_distrib;
use crate::arith::lemma_crop_range;
use crate::arith::lemma_crop_rep;
use crate::arith::lemma_isqrt_unique;
use crate::arith::lemma_trunc_div_rem_in_range;
use crate::arith::trunc_div_int;
use crate::arith::trunc_rem_int;
use vstd::prelude::*;

verus! {

/// A scalar that the linear-algebra types can be built over: a commutative
/// ring of fixed width, with order, absolute value and integer square root.
pub trait Scalar: Sized + Copy + Two {
    /// The additive identity.
    spec fn zero_spec() -> Self;

    /// The multiplicative identity.
    spec fn one_spec() -> Self;

    /// What `add` returns.
    spec fn add_spec(a: Self, b: Self) -> Self;

    /// What `sub` returns.
    spec fn sub_spec(a: Self, b: Self) -> Self;

    /// What `mul` returns.
    spec fn mul_spec(a: Self, b: Self) -> Self;

    /// The divisions that the machine can carry out: everything except a
    /// zero divisor and the lone two's-complement overflow case.
    spec fn div_ok(a: Self, b: Self) -> bool;

    /// What `div` returns: the quotient rounded toward zero.
    spec fn div_spec(a: Self, b: Self) -> Self;

    /// What `rem` returns: the remainder with the dividend's sign.
    spec fn rem_spec(a: Self, b: Self) -> Self;

    /// Where the absolute value is representable.
    spec fn abs_ok(a: Self) -> bool;

    /// What `abs` returns.
    spec fn abs_spec(a: Self) -> Self;

    /// The smaller of two values.
    spec fn min_spec(a: Self, b: Self) -> Self;

    /// The larger of two values.
    spec fn max_spec(a: Self, b: Self) -> Self;

    /// What `sqrt` returns: the integer square root, zero below zero.
    spec fn sqrt_spec(a: Self) -> Self;

    fn zero() -> (r: Self)
        ensures
            r == Self::zero_spec(),
    ;

    fn one() -> (r: Self)
        ensures
            r == Self::one_spec(),
    ;

    fn add(a: Self, b: Self) -> (r: Self)
        ensures
            r == Self::add_spec(a, b),
    ;

    fn sub(a: Self, b: Self) -> (r: Self)
        ensures
            r == Self::sub_spec(a, b),
    ;

    fn mul(a: Self, b: Self) -> (r: Self)
        ensures
            r == Self::mul_spec(a, b),
    ;

    fn div(a: Self, b: Self) -> (r: Self)
        requires
            Self::div_ok(a, b),
        ensures
            r == Self::div_spec(a, b),
    ;

    fn rem(a: Self, b: Self) -> (r: Self)
        requires
            Self::div_ok(a, b),
        ensures
            r == Self::rem_spec(a, b),
    ;

    fn abs(a: Self) -> (r: Self)
        requires
            Self::abs_ok(a),
        ensures
            r == Self::abs_spec(a),
    ;

    fn abs_ok_check(a: Self) -> (r: bool)
        ensures
            r == Self::abs_ok(a),
    ;

    fn min_val(a: Self, b: Self) -> (r: Self)
        ensures
            r == Self::min_spec(a, b),
    ;

    fn max_val(a: Self, b: Self) -> (r: Self)
        ensures
            r == Self::max_spec(a, b),
    ;

    fn sqrt(a: Self) -> (r: Self)
        ensures
            r == Self::sqrt_spec(a),
    ;

    fn eq_val(a: Self, b: Self) -> (r: bool)
        ensures
            r == (a == b),
    ;

    /// Addition is commutative.
    proof fn lemma_add_comm(a: Self, b: Self)
        ensures
            Self::add_spec(a, b) == Self::add_spec(b, a),
    ;

    /// Addition is associative.
    proof fn lemma_add_assoc(a: Self, b: Self, c: Self)
        ensures
            Self::add_spec(Self::add_spec(a, b), c) == Self::add_spec(a, Self::add_spec(b, c)),
    ;

    /// Zero is the additive identity.
    proof fn lemma_add_zero(a: Self)
        ensures
            Self::add_spec(a, Self::zero_spec()) == a,
    ;

    /// Multiplication is commutative.
    proof fn lemma_mul_comm(a: Self, b: Self)
        ensures
            Self::mul_spec(a, b) == Self::mul_spec(b, a),
    ;

    /// Multiplication is associative.
    proof fn lemma_mul_assoc(a: Self, b: Self, c: Self)
        ensures
            Self::mul_spec(Self::mul_spec(a, b), c) == Self::mul_spec(a, Self::mul_spec(b, c)),
    ;

    /// One is the multiplicative identity.
    proof fn lemma_mul_one(a: Self)
        ensures
            Self::mul_spec(a, Self::one_spec()) == a,
    ;

    /// Multiplication by zero gives zero.
    proof fn lemma_mul_zero(a: Self)
        ensures
            Self::mul_spec(a, Self::zero_spec()) == Self::zero_spec(),
    ;

    /// Multiplication distributes over addition.
    proof fn lemma_mul_distrib(a: Self, b: Self, c: Self)
        ensures
            Self::mul_spec(a, Self::add_spec(b, c)) == Self::add_spec(
                Self::mul_spec(a, b),
                Self::mul_spec(a, c),
            ),
    ;

    /// Two is one plus one.
    proof fn lemma_two()
        ensures
            Self::two_value() == Self::add_spec(Self::one_spec(), Self::one_spec()),
    ;

    /// Zero divided by anything admissible is zero.
    proof fn lemma_zero_div(b: Self)
        requires
            Self::div_ok(Self::zero_spec(), b),
        ensures
            Self::div_spec(Self::zero_spec(), b) == Self::zero_spec(),
    ;

    /// Division by one is always admissible and changes nothing.
    proof fn lemma_div_one(a: Self)
        ensures
            Self::div_ok(a, Self::one_spec()),
            Self::div_spec(a, Self::one_spec()) == a,
    ;

    /// The square root of one is one.
    proof fn lemma_sqrt_one()
        ensures
            Self::sqrt_spec(Self::one_spec()) == Self::one_spec(),
    ;
}

/// A scalar with an additive inverse.
pub trait SignedScalar: Scalar {
    /// What `neg` returns.
    spec fn neg_spec(a: Self) -> Self;

    fn neg(a: Self) -> (r: Self)
        ensures
            r == Self::neg_spec(a),
    ;

    /// Negation gives the additive inverse.
    proof fn lemma_add_neg(a: Self)
        ensures
            Self::add_spec(a, Self::neg_spec(a)) == Self::zero_spec(),
    ;

    /// Subtraction is addition of the negation.
    proof fn lemma_sub_neg(a: Self, b: Self)
        ensures
            Self::sub_spec(a, b) == Self::add_spec(a, Self::neg_spec(b)),
    ;
}

/// A type with a distinguished value two.
pub trait Two: Sized {
    spec fn two_value() -> Self;

    fn two() -> (r: Self)
        ensures
            r == Self::two_value(),
    ;

    fn is_two(&self) -> (r: bool)
        ensures
            r == (*self == Self::two_value()),
    ;

    fn set_two(&mut self)
        ensures
            *final(self) == Self::two_value(),
    ;
}

impl Scalar for i32 {
    open spec fn zero_spec() -> i32 {
        0
    }

    open spec fn one_spec() -> i32 {
        1
    }

    open spec fn add_spec(a: i32, b: i32) -> i32 {
        crop_int(a + b, -0x80000000, 0x100000000) as i32
    }

    open spec fn sub_spec(a: i32, b: i32) -> i32 {
        crop_int(a - b, -0x80000000, 0x100000000) as i32
    }

    open spec fn mul_spec(a: i32, b: i32) -> i32 {
        crop_int(a * b, -0x80000000, 0x100000000) as i32
    }

    open spec fn div_ok(a: i32, b: i32) -> bool {
        b != 0 && !(a == i32::MIN && b == -1)
    }

    open spec fn div_spec(a: i32, b: i32) -> i32 {
        trunc_div_int(a as int, b as int) as i32
    }

    open spec fn rem_spec(a: i32, b: i32) -> i32 {
        trunc_rem_int(a as int, b as int) as i32
    }

    open spec fn abs_ok(a: i32) -> bool {
        a != i32::MIN
    }

    open spec fn abs_spec(a: i32) -> i32 {
        if a < 0 {
            (-(a as int)) as i32
        } else {
            a
        }
    }

    open spec fn min_spec(a: i32, b: i32) -> i32 {
        if a <= b {
            a
        } else {
            b
        }
    }

    open spec fn max_spec(a: i32, b: i32) -> i32 {
        if a >= b {
            a
        } else {
            b
        }
    }

    open spec fn sqrt_spec(a: i32) -> i32 {
        if a <= 0 {
            0
        } else {
            (choose|r: int| is_isqrt(a as int, r)) as i32
        }
    }

    fn zero() -> i32 {
        0
    }

    fn one() -> i32 {
        1
    }

    fn add(a: i32, b: i32) -> (r: i32)
        ensures
            r == <i32 as Scalar>::add_spec(a, b),
    {
        let r = a.wrapping_add(b);
        proof {
            let lo: int = -0x80000000;
            let m: int = 0x100000000;
            let s = a as int + b as int;
            if r as int == s - m {
                assert(r as int - s == (-1) * m);
            } else if r as int == s + m {
                assert(r as int - s == 1 * m);
            } else {
                assert(r as int - s == 0 * m);
            }
            lemma_crop_rep(r as int, s, lo, m);
        }
        r
    }

    fn sub(a: i32, b: i32) -> (r: i32)
        ensures
            r == <i32 as Scalar>::sub_spec(a, b),
    {
        let r = a.wrapping_sub(b);
        proof {
            let lo: int = -0x80000000;
            let m: int = 0x100000000;
            let s = a as int - b as int;
            if r as int == s - m {
                assert(r as int - s == (-1) * m);
            } else if r as int == s + m {
                assert(r as int - s == 1 * m);
            } else {
                assert(r as int - s == 0 * m);
            }
            lemma_crop_rep(r as int, s, lo, m);
        }
        r
    }

    fn mul(a: i32, b: i32) -> (r: i32)
        ensures
            r == <i32 as Scalar>::mul_spec(a, b),
    {
        let r = a.wrapping_mul(b);
        proof {
            let lo: int = -0x80000000;
            let m: int = 0x100000000;
            let p = a as int * b as int;
            lemma_crop_range(p, lo, m);
        }
        r
    }

    fn div(a: i32, b: i32) -> (r: i32)
        ensures
            r == <i32 as Scalar>::div_spec(a, b),
    {
        proof {
            lemma_trunc_div_rem_in_range(a as int, b as int, -0x80000000, 0x7fffffff);
        }
        match a.checked_div(b) {
            Some(v) => v,
            None => {
                proof {
                    assert(false);
                }
                0
            },
        }
    }

    fn rem(a: i32, b: i32) -> (r: i32)
        ensures
            r == <i32 as Scalar>::rem_spec(a, b),
    {
        proof {
            lemma_trunc_div_rem_in_range(a as int, b as int, -0x80000000, 0x7fffffff);
        }
        match a.checked_rem(b) {
            Some(v) => v,
            None => {
                proof {
                    assert(false);
                }
                0
            },
        }
    }

    fn abs(a: i32) -> (r: i32)
        ensures
            r == <i32 as Scalar>::abs_spec(a),
    {
        if a < 0 {
            0 - a
        } else {
            a
        }
    }

    fn abs_ok_check(a: i32) -> (r: bool)
        ensures
            r == <i32 as Scalar>::abs_ok(a),
    {
        a != i32::MIN
    }

    fn min_val(a: i32, b: i32) -> (r: i32)
        ensures
            r == <i32 as Scalar>::min_spec(a, b),
    {
        if a <= b {
            a
        } else {
            b
        }
    }

    fn max_val(a: i32, b: i32) -> (r: i32)
        ensures
            r == <i32 as Scalar>::max_spec(a, b),
    {
        if a >= b {
            a
        } else {
            b
        }
    }

    fn sqrt(a: i32) -> (r: i32)
        ensures
            r == <i32 as Scalar>::sqrt_spec(a),
    {
        if a <= 0 {
            0
        } else {
            let u = isqrt_u64(a as u64);
            proof {
                assert(u as int <= a as int) by (nonlinear_arith)
                    requires
                        u >= 0,
                        (u as int) * (u as int) <= a as int,
                ;
                assert(is_isqrt(a as int, u as int));
                let rr = choose|r: int| is_isqrt(a as int, r);
                lemma_isqrt_unique(a as int, rr, u as int);
            }
            u as i32
        }
    }

    fn eq_val(a: i32, b: i32) -> (r: bool)
        ensures
            r == (a == b),
    {
        a == b
    }

    proof fn lemma_add_comm(a: i32, b: i32) {
    }

    proof fn lemma_add_assoc(a: i32, b: i32, c: i32) {
        let lo: int = -0x80000000;
        let m: int = 0x100000000;
        lemma_crop_range(a + b, lo, m);
        lemma_crop_range(b + c, lo, m);
        lemma_crop_add_assoc(a as int, b as int, c as int, lo, m);
    }

    proof fn lemma_add_zero(a: i32) {
        lemma_crop_identity(a as int, -0x80000000, 0x100000000);
    }

    proof fn lemma_mul_comm(a: i32, b: i32) {
        assert(a as int * b as int == b as int * a as int) by (nonlinear_arith);
    }

    proof fn lemma_mul_assoc(a: i32, b: i32, c: i32) {
        let lo: int = -0x80000000;
        let m: int = 0x100000000;
        lemma_crop_range(a * b, lo, m);
        lemma_crop_range(b * c, lo, m);
        lemma_crop_mul_assoc(a as int, b as int, c as int, lo, m);
    }

    proof fn lemma_mul_one(a: i32) {
        lemma_crop_identity(a as int, -0x80000000, 0x100000000);
    }

    proof fn lemma_mul_zero(a: i32) {
        lemma_crop_identity(0, -0x80000000, 0x100000000);
    }

    proof fn lemma_mul_distrib(a: i32, b: i32, c: i32) {
        let lo: int = -0x80000000;
        let m: int = 0x100000000;
        lemma_crop_range(b + c, lo, m);
        lemma_crop_range(a * b, lo, m);
        lemma_crop_range(a * c, lo, m);
        lemma_crop_mul_distrib(a as int, b as int, c as int, lo, m);
    }

    proof fn lemma_two() {
        lemma_crop_identity(2, -0x80000000, 0x100000000);
    }

    proof fn lemma_zero_div(b: i32) {
        if b > 0 {
            assert(0int / (b as int) == 0) by (nonlinear_arith)
                requires
                    b >= 1,
            ;
        } else {
            assert(0int / (-(b as int)) == 0) by (nonlinear_arith)
                requires
                    b <= -1,
            ;
        }
    }

    proof fn lemma_div_one(a: i32) {
        assert((a as int) / 1int == a && (-(a as int)) / 1int == -(a as int)) by (nonlinear_arith);
    }

    proof fn lemma_sqrt_one() {
        assert(is_isqrt(1, 1));
        let rr = choose|r: int| is_isqrt(1, r);
        lemma_isqrt_unique(1, rr, 1);
    }
}

impl SignedScalar for i32 {
    open spec fn neg_spec(a: i32) -> i32 {
        crop_int(-(a as int), -0x80000000, 0x100000000) as i32
    }

    fn neg(a: i32) -> (r: i32)
        ensures
            r == <i32 as SignedScalar>::neg_spec(a),
    {
        let r = (0 as i32).wrapping_sub(a);
        proof {
            let lo: int = -0x80000000;
            let m: int = 0x100000000;
            let s = -(a as int);
            if r as int == s - m {
                assert(r as int - s == (-1) * m);
            } else if r as int == s + m {
                assert(r as int - s == 1 * m);
            } else {
                assert(r as int - s == 0 * m);
            }
            lemma_crop_rep(r as int, s, lo, m);
        }
        r
    }

    proof fn lemma_add_neg(a: i32) {
        let lo: int = -0x80000000;
        let m: int = 0x100000000;
        lemma_crop_range(-(a as int), lo, m);
        lemma_crop_add_inner(-(a as int), a as int, lo, m);
        assert(a as int + crop_int(-(a as int), lo, m) == crop_int(-(a as int), lo, m) + (
        a as int));
        lemma_crop_identity(0, lo, m);
    }

    proof fn lemma_sub_neg(a: i32, b: i32) {
        let lo: int = -0x80000000;
        let m: int = 0x100000000;
        lemma_crop_range(-(b as int), lo, m);
        lemma_crop_add_inner(-(b as int), a as int, lo, m);
        assert(a as int + crop_int(-(b as int), lo, m) == crop_int(-(b as int), lo, m) + (
        a as int));
    }
}

impl Scalar for u32 {
    open spec fn zero_spec() -> u32 {
        0
    }

    open spec fn one_spec() -> u32 {
        1
    }

    open spec fn add_spec(a: u32, b: u32) -> u32 {
        crop_int(a + b, 0, 0x100000000) as u32
    }

    open spec fn sub_spec(a: u32, b: u32) -> u32 {
        crop_int(a - b, 0, 0x100000000) as u32
    }

    open spec fn mul_spec(a: u32, b: u32) -> u32 {
        crop_int(a * b, 0, 0x100000000) as u32
    }

    open spec fn div_ok(a: u32, b: u32) -> bool {
        b != 0
    }

    open spec fn div_spec(a: u32, b: u32) -> u32 {
        a / b
    }

    open spec fn rem_spec(a: u32, b: u32) -> u32 {
        a % b
    }

    open spec fn abs_ok(a: u32) -> bool {
        true
    }

    open spec fn abs_spec(a: u32) -> u32 {
        a
    }

    open spec fn min_spec(a: u32, b: u32) -> u32 {
        if a <= b {
            a
        } else {
            b
        }
    }

    open spec fn max_spec(a: u32, b: u32) -> u32 {
        if a >= b {
            a
        } else {
            b
        }
    }

    open spec fn sqrt_spec(a: u32) -> u32 {
        (choose|r: int| is_isqrt(a as int, r)) as u32
    }

    fn zero() -> u32 {
        0
    }

    fn one() -> u32 {
        1
    }

    fn add(a: u32, b: u32) -> (r: u32)
        ensures
            r == <u32 as Scalar>::add_spec(a, b),
    {
        let r = a.wrapping_add(b);
        proof {
            let m: int = 0x100000000;
            let s = a as int + b as int;
            if r as int == s - m {
                assert(r as int - s == (-1) * m);
            } else {
                assert(r as int - s == 0 * m);
            }
            lemma_crop_rep(r as int, s, 0, m);
        }
        r
    }

    fn sub(a: u32, b: u32) -> (r: u32)
        ensures
            r == <u32 as Scalar>::sub_spec(a, b),
    {
        let r = a.wrapping_sub(b);
        proof {
            let m: int = 0x100000000;
            let s = a as int - b as int;
            if r as int == s + m {
                assert(r as int - s == 1 * m);
            } else {
                assert(r as int - s == 0 * m);
            }
            lemma_crop_rep(r as int, s, 0, m);
        }
        r
    }

    fn mul(a: u32, b: u32) -> (r: u32)
        ensures
            r == <u32 as Scalar>::mul_spec(a, b),
    {
        let r = a.wrapping_mul(b);
        proof {
            let m: int = 0x100000000;
            let p = a as int * b as int;
            assert(r as int == (((a as nat) * (b as nat)) % (0x100000000 as nat)) as int);
            assert(r as int == p % m);
            lemma_crop_range(p, 0, m);
        }
        r
    }

    fn div(a: u32, b: u32) -> (r: u32)
        ensures
            r == <u32 as Scalar>::div_spec(a, b),
    {
        a / b
    }

    fn rem(a: u32, b: u32) -> (r: u32)
        ensures
            r == <u32 as Scalar>::rem_spec(a, b),
    {
        a % b
    }

    fn abs(a: u32) -> (r: u32)
        ensures
            r == <u32 as Scalar>::abs_spec(a),
    {
        a
    }

    fn abs_ok_check(a: u32) -> (r: bool)
        ensures
            r == <u32 as Scalar>::abs_ok(a),
    {
        true
    }

    fn min_val(a: u32, b: u32) -> (r: u32)
        ensures
            r == <u32 as Scalar>::min_spec(a, b),
    {
        if a <= b {
            a
        } else {
            b
        }
    }

    fn max_val(a: u32, b: u32) -> (r: u32)
        ensures
            r == <u32 as Scalar>::max_spec(a, b),
    {
        if a >= b {
            a
        } else {
            b
        }
    }

    fn sqrt(a: u32) -> (r: u32)
        ensures
            r == <u32 as Scalar>::sqrt_spec(a),
    {
        let u = isqrt_u64(a as u64);
        proof {
            assert(u as int <= a as int) by (nonlinear_arith)
                requires
                    u >= 0,
                    (u as int) * (u as int) <= a as int,
            ;
            assert(is_isqrt(a as int, u as int));
            let rr = choose|r: int| is_isqrt(a as int, r);
            lemma_isqrt_unique(a as int, rr, u as int);
        }
        u as u32
    }

    fn eq_val(a: u32, b: u32) -> (r: bool)
        ensures
            r == (a == b),
    {
        a == b
    }

    proof fn lemma_add_comm(a: u32, b: u32) {
    }

    proof fn lemma_add_assoc(a: u32, b: u32, c: u32) {
        let m: int = 0x100000000;
        lemma_crop_range(a + b, 0, m);
        lemma_crop_range(b + c, 0, m);
        lemma_crop_add_assoc(a as int, b as int, c as int, 0, m);
    }

    proof fn lemma_add_zero(a: u32) {
        lemma_crop_identity(a as int, 0, 0x100000000);
    }

    proof fn lemma_mul_comm(a: u32, b: u32) {
        assert(a as int * b as int == b as int * a as int) by (nonlinear_arith);
    }

    proof fn lemma_mul_assoc(a: u32, b: u32, c: u32) {
        let m: int = 0x100000000;
        lemma_crop_range(a * b, 0, m);
        lemma_crop_range(b * c, 0, m);
        lemma_crop_mul_assoc(a as int, b as int, c as int, 0, m);
    }

    proof fn lemma_mul_one(a: u32) {
        lemma_crop_identity(a as int, 0, 0x100000000);
    }

    proof fn lemma_mul_zero(a: u32) {
        lemma_crop_identity(0, 0, 0x100000000);
    }

    proof fn lemma_mul_distrib(a: u32, b: u32, c: u32) {
        let m: int = 0x100000000;
        lemma_crop_range(b + c, 0, m);
        lemma_crop_range(a * b, 0, m);
        lemma_crop_range(a * c, 0, m);
        lemma_crop_mul_distrib(a as int, b as int, c as int, 0, m);
    }

    proof fn lemma_two() {
        lemma_crop_identity(2, 0, 0x100000000);
    }

    proof fn lemma_zero_div(b: u32) {
    }

    proof fn lemma_div_one(a: u32) {
        assert((a as int) / 1int == a) by (nonlinear_arith);
    }

    proof fn lemma_sqrt_one() {
        assert(is_isqrt(1, 1));
        let rr = choose|r: int| is_isqrt(1, r);
        lemma_isqrt_unique(1, rr, 1);
    }
}

impl Scalar for i8 {
    open spec fn zero_spec() -> i8 {
        0
    }

    open spec fn one_spec() -> i8 {
        1
    }

    open spec fn add_spec(a: i8, b: i8) -> i8 {
        crop_int(a + b, -0x80, 0x100) as i8
    }

    open spec fn sub_spec(a: i8, b: i8) -> i8 {
        crop_int(a - b, -0x80, 0x100) as i8
    }

    open spec fn mul_spec(a: i8, b: i8) -> i8 {
        crop_int(a * b, -0x80, 0x100) as i8
    }

    open spec fn div_ok(a: i8, b: i8) -> bool {
        b != 0 && !(a == i8::MIN && b == -1)
    }

    open spec fn div_spec(a: i8, b: i8) -> i8 {
        trunc_div_int(a as int, b as int) as i8
    }

    open spec fn rem_spec(a: i8, b: i8) -> i8 {
        trunc_rem_int(a as int, b as int) as i8
    }

    open spec fn abs_ok(a: i8) -> bool {
        a != i8::MIN
    }

    open spec fn abs_spec(a: i8) -> i8 {
        if a < 0 {
            (-(a as int)) as i8
        } else {
            a
        }
    }

    open spec fn min_spec(a: i8, b: i8) -> i8 {
        if a <= b {
            a
        } else {
            b
        }
    }

    open spec fn max_spec(a: i8, b: i8) -> i8 {
        if a >= b {
            a
        } else {
            b
        }
    }

    open spec fn sqrt_spec(a: i8) -> i8 {
        if a <= 0 {
            0
        } else {
            (choose|r: int| is_isqrt(a as int, r)) as i8
        }
    }

    fn zero() -> i8 {
        0
    }

    fn one() -> i8 {
        1
    }

    fn add(a: i8, b: i8) -> (r: i8)
        ensures
            r == <i8 as Scalar>::add_spec(a, b),
    {
        let r = a.wrapping_add(b);
        proof {
            let lo: int = -0x80;
            let m: int = 0x100;
            let s = a as int + b as int;
            if r as int == s - m {
                assert(r as int - s == (-1) * m);
            } else if r as int == s + m {
                assert(r as int - s == 1 * m);
            } else {
                assert(r as int - s == 0 * m);
            }
            lemma_crop_rep(r as int, s, lo, m);
        }
        r
    }

    fn sub(a: i8, b: i8) -> (r: i8)
        ensures
            r == <i8 as Scalar>::sub_spec(a, b),
    {
        let r = a.wrapping_sub(b);
        proof {
            let lo: int = -0x80;
            let m: int = 0x100;
            let s = a as int - b as int;
            if r as int == s - m {
                assert(r as int - s == (-1) * m);
            } else if r as int == s + m {
                assert(r as int - s == 1 * m);
            } else {
                assert(r as int - s == 0 * m);
            }
            lemma_crop_rep(r as int, s, lo, m);
        }
        r
    }

    fn mul(a: i8, b: i8) -> (r: i8)
        ensures
            r == <i8 as Scalar>::mul_spec(a, b),
    {
        let r = a.wrapping_mul(b);
        proof {
            let lo: int = -0x80;
            let m: int = 0x100;
            let p = a as int * b as int;
            lemma_crop_range(p, lo, m);
        }
        r
    }

    fn div(a: i8, b: i8) -> (r: i8)
        ensures
            r == <i8 as Scalar>::div_spec(a, b),
    {
        proof {
            lemma_trunc_div_rem_in_range(a as int, b as int, -0x80, 0x7f);
        }
        match a.checked_div(b) {
            Some(v) => v,
            None => {
                proof {
                    assert(false);
                }
                0
            },
        }
    }

    fn rem(a: i8, b: i8) -> (r: i8)
        ensures
            r == <i8 as Scalar>::rem_spec(a, b),
    {
        proof {
            lemma_trunc_div_rem_in_range(a as int, b as int, -0x80, 0x7f);
        }
        match a.checked_rem(b) {
            Some(v) => v,
            None => {
                proof {
                    assert(false);
                }
                0
            },
        }
    }

    fn abs(a: i8) -> (r: i8)
        ensures
            r == <i8 as Scalar>::abs_spec(a),
    {
        if a < 0 {
            0 - a
        } else {
            a
        }
    }

    fn abs_ok_check(a: i8) -> (r: bool)
        ensures
            r == <i8 as Scalar>::abs_ok(a),
    {
        a != i8::MIN
    }

    fn min_val(a: i8, b: i8) -> (r: i8)
        ensures
            r == <i8 as Scalar>::min_spec(a, b),
    {
        if a <= b {
            a
        } else {
            b
        }
    }

    fn max_val(a: i8, b: i8) -> (r: i8)
        ensures
            r == <i8 as Scalar>::max_spec(a, b),
    {
        if a >= b {
            a
        } else {
            b
        }
    }

    fn sqrt(a: i8) -> (r: i8)
        ensures
            r == <i8 as Scalar>::sqrt_spec(a),
    {
        if a <= 0 {
            0
        } else {
            let u = isqrt_u64(a as u64);
            proof {
                assert(u as int <= a as int) by (nonlinear_arith)
                    requires
                        u >= 0,
                        (u as int) * (u as int) <= a as int,
                ;
                assert(is_isqrt(a as int, u as int));
                let rr = choose|r: int| is_isqrt(a as int, r);
                lemma_isqrt_unique(a as int, rr, u as int);
            }
            u as i8
        }
    }

    fn eq_val(a: i8, b: i8) -> (r: bool)
        ensures
            r == (a == b),
    {
        a == b
    }

    proof fn lemma_add_comm(a: i8, b: i8) {
    }

    proof fn lemma_add_assoc(a: i8, b: i8, c: i8) {
        let lo: int = -0x80;
        let m: int = 0x100;
        lemma_crop_range(a + b, lo, m);
        lemma_crop_range(b + c, lo, m);
        lemma_crop_add_assoc(a as int, b as int, c as int, lo, m);
    }

    proof fn lemma_add_zero(a: i8) {
        lemma_crop_identity(a as int, -0x80, 0x100);
    }

    proof fn lemma_mul_comm(a: i8, b: i8) {
        assert(a as int * b as int == b as int * a as int) by (nonlinear_arith);
    }

    proof fn lemma_mul_assoc(a: i8, b: i8, c: i8) {
        let lo: int = -0x80;
        let m: int = 0x100;
        lemma_crop_range(a * b, lo, m);
        lemma_crop_range(b * c, lo, m);
        lemma_crop_mul_assoc(a as int, b as int, c as int, lo, m);
    }

    proof fn lemma_mul_one(a: i8) {
        lemma_crop_identity(a as int, -0x80, 0x100);
    }

    proof fn lemma_mul_zero(a: i8) {
        lemma_crop_identity(0, -0x80, 0x100);
    }

    proof fn lemma_mul_distrib(a: i8, b: i8, c: i8) {
        let lo: int = -0x80;
        let m: int = 0x100;
        lemma_crop_range(b + c, lo, m);
        lemma_crop_range(a * b, lo, m);
        lemma_crop_range(a * c, lo, m);
        lemma_crop_mul_distrib(a as int, b as int, c as int, lo, m);
    }

    proof fn lemma_two() {
        lemma_crop_identity(2, -0x80, 0x100);
    }

    proof fn lemma_zero_div(b: i8) {
        if b > 0 {
            assert(0int / (b as int) == 0) by (nonlinear_arith)
                requires
                    b >= 1,
            ;
        } else {
            assert(0int / (-(b as int)) == 0) by (nonlinear_arith)
                requires
                    b <= -1,
            ;
        }
    }

    proof fn lemma_div_one(a: i8) {
        assert((a as int) / 1int == a && (-(a as int)) / 1int == -(a as int)) by (nonlinear_arith);
    }

    proof fn lemma_sqrt_one() {
        assert(is_isqrt(1, 1));
        let rr = choose|r: int| is_isqrt(1, r);
        lemma_isqrt_unique(1, rr, 1);
    }
}

impl SignedScalar for i8 {
    open spec fn neg_spec(a: i8) -> i8 {
        crop_int(-(a as int), -0x80, 0x100) as i8
    }

    fn neg(a: i8) -> (r: i8)
        ensures
            r == <i8 as SignedScalar>::neg_spec(a),
    {
        let r = (0 as i8).wrapping_sub(a);
        proof {
            let lo: int = -0x80;
            let m: int = 0x100;
            let s = -(a as int);
            if r as int == s - m {
                assert(r as int - s == (-1) * m);
            } else if r as int == s + m {
                assert(r as int - s == 1 * m);
            } else {
                assert(r as int - s == 0 * m);
            }
            lemma_crop_rep(r as int, s, lo, m);
        }
        r
    }

    proof fn lemma_add_neg(a: i8) {
        let lo: int = -0x80;
        let m: int = 0x100;
        lemma_crop_range(-(a as int), lo, m);
        lemma_crop_add_inner(-(a as int), a as int, lo, m);
        assert(a as int + crop_int(-(a as int), lo, m) == crop_int(-(a as int), lo, m) + (
        a as int));
        lemma_crop_identity(0, lo, m);
    }

    proof fn lemma_sub_neg(a: i8, b: i8) {
        let lo: int = -0x80;
        let m: int = 0x100;
        lemma_crop_range(-(b as int), lo, m);
        lemma_crop_add_inner(-(b as int), a as int, lo, m);
        assert(a as int + crop_int(-(b as int), lo, m) == crop_int(-(b as int), lo, m) + (
        a as int));
    }
}

impl Scalar for i16 {
    open spec fn zero_spec() -> i16 {
        0
    }

    open spec fn one_spec() -> i16 {
        1
    }

    open spec fn add_spec(a: i16, b: i16) -> i16 {
        crop_int(a + b, -0x8000, 0x10000) as i16
    }

    open spec fn sub_spec(a: i16, b: i16) -> i16 {
        crop_int(a - b, -0x8000, 0x10000) as i16
    }

    open spec fn mul_spec(a: i16, b: i16) -> i16 {
        crop_int(a * b, -0x8000, 0x10000) as i16
    }

    open spec fn div_ok(a: i16, b: i16) -> bool {
        b != 0 && !(a == i16::MIN && b == -1)
    }

    open spec fn div_spec(a: i16, b: i16) -> i16 {
        trunc_div_int(a as int, b as int) as i16
    }

    open spec fn rem_spec(a: i16, b: i16) -> i16 {
        trunc_rem_int(a as int, b as int) as i16
    }

    open spec fn abs_ok(a: i16) -> bool {
        a != i16::MIN
    }

    open spec fn abs_spec(a: i16) -> i16 {
        if a < 0 {
            (-(a as int)) as i16
        } else {
            a
        }
    }

    open spec fn min_spec(a: i16, b: i16) -> i16 {
        if a <= b {
            a
        } else {
            b
        }
    }

    open spec fn max_spec(a: i16, b: i16) -> i16 {
        if a >= b {
            a
        } else {
            b
        }
    }

    open spec fn sqrt_spec(a: i16) -> i16 {
        if a <= 0 {
            0
        } else {
            (choose|r: int| is_isqrt(a as int, r)) as i16
        }
    }

    fn zero() -> i16 {
        0
    }

    fn one() -> i16 {
        1
    }

    fn add(a: i16, b: i16) -> (r: i16)
        ensures
            r == <i16 as Scalar>::add_spec(a, b),
    {
        let r = a.wrapping_add(b);
        proof {
            let lo: int = -0x8000;
            let m: int = 0x10000;
            let s = a as int + b as int;
            if r as int == s - m {
                assert(r as int - s == (-1) * m);
            } else if r as int == s + m {
                assert(r as int - s == 1 * m);
            } else {
                assert(r as int - s == 0 * m);
            }
            lemma_crop_rep(r as int, s, lo, m);
        }
        r
    }

    fn sub(a: i16, b: i16) -> (r: i16)
        ensures
            r == <i16 as Scalar>::sub_spec(a, b),
    {
        let r = a.wrapping_sub(b);
        proof {
            let lo: int = -0x8000;
            let m: int = 0x10000;
            let s = a as int - b as int;
            if r as int == s - m {
                assert(r as int - s == (-1) * m);
            } else if r as int == s + m {
                assert(r as int - s == 1 * m);
            } else {
                assert(r as int - s == 0 * m);
            }
            lemma_crop_rep(r as int, s, lo, m);
        }
        r
    }

    fn mul(a: i16, b: i16) -> (r: i16)
        ensures
            r == <i16 as Scalar>::mul_spec(a, b),
    {
        let r = a.wrapping_mul(b);
        proof {
            let lo: int = -0x8000;
            let m: int = 0x10000;
            let p = a as int * b as int;
            lemma_crop_range(p, lo, m);
        }
        r
    }

    fn div(a: i16, b: i16) -> (r: i16)
        ensures
            r == <i16 as Scalar>::div_spec(a, b),
    {
        proof {
            lemma_trunc_div_rem_in_range(a as int, b as int, -0x8000, 0x7fff);
        }
        match a.checked_div(b) {
            Some(v) => v,
            None => {
                proof {
                    assert(false);
                }
                0
            },
        }
    }

    fn rem(a: i16, b: i16) -> (r: i16)
        ensures
            r == <i16 as Scalar>::rem_spec(a, b),
    {
        proof {
            lemma_trunc_div_rem_in_range(a as int, b as int, -0x8000, 0x7fff);
        }
        match a.checked_rem(b) {
            Some(v) => v,
            None => {
                proof {
                    assert(false);
                }
                0
            },
        }
    }

    fn abs(a: i16) -> (r: i16)
        ensures
            r == <i16 as Scalar>::abs_spec(a),
    {
        if a < 0 {
            0 - a
        } else {
            a
        }
    }

    fn abs_ok_check(a: i16) -> (r: bool)
        ensures
            r == <i16 as Scalar>::abs_ok(a),
    {
        a != i16::MIN
    }

    fn min_val(a: i16, b: i16) -> (r: i16)
        ensures
            r == <i16 as Scalar>::min_spec(a, b),
    {
        if a <= b {
            a
        } else {
            b
        }
    }

    fn max_val(a: i16, b: i16) -> (r: i16)
        ensures
            r == <i16 as Scalar>::max_spec(a, b),
    {
        if a >= b {
            a
        } else {
            b
        }
    }

    fn sqrt(a: i16) -> (r: i16)
        ensures
            r == <i16 as Scalar>::sqrt_spec(a),
    {
        if a <= 0 {
            0
        } else {
            let u = isqrt_u64(a as u64);
            proof {
                assert(u as int <= a as int) by (nonlinear_arith)
                    requires
                        u >= 0,
                        (u as int) * (u as int) <= a as int,
                ;
                assert(is_isqrt(a as int, u as int));
                let rr = choose|r: int| is_isqrt(a as int, r);
                lemma_isqrt_unique(a as int, rr, u as int);
            }
            u as i16
        }
    }

    fn eq_val(a: i16, b: i16) -> (r: bool)
        ensures
            r == (a == b),
    {
        a == b
    }

    proof fn lemma_add_comm(a: i16, b: i16) {
    }

    proof fn lemma_add_assoc(a: i16, b: i16, c: i16) {
        let lo: int = -0x8000;
        let m: int = 0x10000;
        lemma_crop_range(a + b, lo, m);
        lemma_crop_range(b + c, lo, m);
        lemma_crop_add_assoc(a as int, b as int, c as int, lo, m);
    }

    proof fn lemma_add_zero(a: i16) {
        lemma_crop_identity(a as int, -0x8000, 0x10000);
    }

    proof fn lemma_mul_comm(a: i16, b: i16) {
        assert(a as int * b as int == b as int * a as int) by (nonlinear_arith);
    }

    proof fn lemma_mul_assoc(a: i16, b: i16, c: i16) {
        let lo: int = -0x8000;
        let m: int = 0x10000;
        lemma_crop_range(a * b, lo, m);
        lemma_crop_range(b * c, lo, m);
        lemma_crop_mul_assoc(a as int, b as int, c as int, lo, m);
    }

    proof fn lemma_mul_one(a: i16) {
        lemma_crop_identity(a as int, -0x8000, 0x10000);
    }

    proof fn lemma_mul_zero(a: i16) {
        lemma_crop_identity(0, -0x8000, 0x10000);
    }

    proof fn lemma_mul_distrib(a: i16, b: i16, c: i16) {
        let lo: int = -0x8000;
        let m: int = 0x10000;
        lemma_crop_range(b + c, lo, m);
        lemma_crop_range(a * b, lo, m);
        lemma_crop_range(a * c, lo, m);
        lemma_crop_mul_distrib(a as int, b as int, c as int, lo, m);
    }

    proof fn lemma_two() {
        lemma_crop_identity(2, -0x8000, 0x10000);
    }

    proof fn lemma_zero_div(b: i16) {
        if b > 0 {
            assert(0int / (b as int) == 0) by (nonlinear_arith)
                requires
                    b >= 1,
            ;
        } else {
            assert(0int / (-(b as int)) == 0) by (nonlinear_arith)
                requires
                    b <= -1,
            ;
        }
    }

    proof fn lemma_div_one(a: i16) {
        assert((a as int) / 1int == a && (-(a as int)) / 1int == -(a as int)) by (nonlinear_arith);
    }

    proof fn lemma_sqrt_one() {
        assert(is_isqrt(1, 1));
        let rr = choose|r: int| is_isqrt(1, r);
        lemma_isqrt_unique(1, rr, 1);
    }
}

impl SignedScalar for i16 {
    open spec fn neg_spec(a: i16) -> i16 {
        crop_int(-(a as int), -0x8000, 0x10000) as i16
    }

    fn neg(a: i16) -> (r: i16)
        ensures
            r == <i16 as SignedScalar>::neg_spec(a),
    {
        let r = (0 as i16).wrapping_sub(a);
        proof {
            let lo: int = -0x8000;
            let m: int = 0x10000;
            let s = -(a as int);
            if r as int == s - m {
                assert(r as int - s == (-1) * m);
            } else if r as int == s + m {
                assert(r as int - s == 1 * m);
            } else {
                assert(r as int - s == 0 * m);
            }
            lemma_crop_rep(r as int, s, lo, m);
        }
        r
    }

    proof fn lemma_add_neg(a: i16) {
        let lo: int = -0x8000;
        let m: int = 0x10000;
        lemma_crop_range(-(a as int), lo, m);
        lemma_crop_add_inner(-(a as int), a as int, lo, m);
        assert(a as int + crop_int(-(a as int), lo, m) == crop_int(-(a as int), lo, m) + (
        a as int));
        lemma_crop_identity(0, lo, m);
    }

    proof fn lemma_sub_neg(a: i16, b: i16) {
        let lo: int = -0x8000;
        let m: int = 0x10000;
        lemma_crop_range(-(b as int), lo, m);
        lemma_crop_add_inner(-(b as int), a as int, lo, m);
        assert(a as int + crop_int(-(b as int), lo, m) == crop_int(-(b as int), lo, m) + (
        a as int));
    }
}

impl Scalar for i64 {
    open spec fn zero_spec() -> i64 {
        0
    }

    open spec fn one_spec() -> i64 {
        1
    }

    open spec fn add_spec(a: i64, b: i64) -> i64 {
        crop_int(a + b, -0x8000000000000000, 0x10000000000000000) as i64
    }

    open spec fn sub_spec(a: i64, b: i64) -> i64 {
        crop_int(a - b, -0x8000000000000000, 0x10000000000000000) as i64
    }

    open spec fn mul_spec(a: i64, b: i64) -> i64 {
        crop_int(a * b, -0x8000000000000000, 0x10000000000000000) as i64
    }

    open spec fn div_ok(a: i64, b: i64) -> bool {
        b != 0 && !(a == i64::MIN && b == -1)
    }

    open spec fn div_spec(a: i64, b: i64) -> i64 {
        trunc_div_int(a as int, b as int) as i64
    }

    open spec fn rem_spec(a: i64, b: i64) -> i64 {
        trunc_rem_int(a as int, b as int) as i64
    }

    open spec fn abs_ok(a: i64) -> bool {
        a != i64::MIN
    }

    open spec fn abs_spec(a: i64) -> i64 {
        if a < 0 {
            (-(a as int)) as i64
        } else {
            a
        }
    }

    open spec fn min_spec(a: i64, b: i64) -> i64 {
        if a <= b {
            a
        } else {
            b
        }
    }

    open spec fn max_spec(a: i64, b: i64) -> i64 {
        if a >= b {
            a
        } else {
            b
        }
    }

    open spec fn sqrt_spec(a: i64) -> i64 {
        if a <= 0 {
            0
        } else {
            (choose|r: int| is_isqrt(a as int, r)) as i64
        }
    }

    fn zero() -> i64 {
        0
    }

    fn one() -> i64 {
        1
    }

    fn add(a: i64, b: i64) -> (r: i64)
        ensures
            r == <i64 as Scalar>::add_spec(a, b),
    {
        let r = a.wrapping_add(b);
        proof {
            let lo: int = -0x8000000000000000;
            let m: int = 0x10000000000000000;
            let s = a as int + b as int;
            if r as int == s - m {
                assert(r as int - s == (-1) * m);
            } else if r as int == s + m {
                assert(r as int - s == 1 * m);
            } else {
                assert(r as int - s == 0 * m);
            }
            lemma_crop_rep(r as int, s, lo, m);
        }
        r
    }

    fn sub(a: i64, b: i64) -> (r: i64)
        ensures
            r == <i64 as Scalar>::sub_spec(a, b),
    {
        let r = a.wrapping_sub(b);
        proof {
            let lo: int = -0x8000000000000000;
            let m: int = 0x10000000000000000;
            let s = a as int - b as int;
            if r as int == s - m {
                assert(r as int - s == (-1) * m);
            } else if r as int == s + m {
                assert(r as int - s == 1 * m);
            } else {
                assert(r as int - s == 0 * m);
            }
            lemma_crop_rep(r as int, s, lo, m);
        }
        r
    }

    fn mul(a: i64, b: i64) -> (r: i64)
        ensures
            r == <i64 as Scalar>::mul_spec(a, b),
    {
        let r = a.wrapping_mul(b);
        proof {
            let lo: int = -0x8000000000000000;
            let m: int = 0x10000000000000000;
            let p = a as int * b as int;
            lemma_crop_range(p, lo, m);
        }
        r
    }

    fn div(a: i64, b: i64) -> (r: i64)
        ensures
            r == <i64 as Scalar>::div_spec(a, b),
    {
        proof {
            lemma_trunc_div_rem_in_range(a as int, b as int, -0x8000000000000000, 0x7fffffffffffffff);
        }
        match a.checked_div(b) {
            Some(v) => v,
            None => {
                proof {
                    assert(false);
                }
                0
            },
        }
    }

    fn rem(a: i64, b: i64) -> (r: i64)
        ensures
            r == <i64 as Scalar>::rem_spec(a, b),
    {
        proof {
            lemma_trunc_div_rem_in_range(a as int, b as int, -0x8000000000000000, 0x7fffffffffffffff);
        }
        match a.checked_rem(b) {
            Some(v) => v,
            None => {
                proof {
                    assert(false);
                }
                0
            },
        }
    }

    fn abs(a: i64) -> (r: i64)
        ensures
            r == <i64 as Scalar>::abs_spec(a),
    {
        if a < 0 {
            0 - a
        } else {
            a
        }
    }

    fn abs_ok_check(a: i64) -> (r: bool)
        ensures
            r == <i64 as Scalar>::abs_ok(a),
    {
        a != i64::MIN
    }

    fn min_val(a: i64, b: i64) -> (r: i64)
        ensures
            r == <i64 as Scalar>::min_spec(a, b),
    {
        if a <= b {
            a
        } else {
            b
        }
    }

    fn max_val(a: i64, b: i64) -> (r: i64)
        ensures
            r == <i64 as Scalar>::max_spec(a, b),
    {
        if a >= b {
            a
        } else {
            b
        }
    }

    fn sqrt(a: i64) -> (r: i64)
        ensures
            r == <i64 as Scalar>::sqrt_spec(a),
    {
        if a <= 0 {
            0
        } else {
            let u = isqrt_u64(a as u64);
            proof {
                assert(u as int <= a as int) by (nonlinear_arith)
                    requires
                        u >= 0,
                        (u as int) * (u as int) <= a as int,
                ;
                assert(is_isqrt(a as int, u as int));
                let rr = choose|r: int| is_isqrt(a as int, r);
                lemma_isqrt_unique(a as int, rr, u as int);
            }
            u as i64
        }
    }

    fn eq_val(a: i64, b: i64) -> (r: bool)
        ensures
            r == (a == b),
    {
        a == b
    }

    proof fn lemma_add_comm(a: i64, b: i64) {
    }

    proof fn lemma_add_assoc(a: i64, b: i64, c: i64) {
        let lo: int = -0x8000000000000000;
        let m: int = 0x10000000000000000;
        lemma_crop_range(a + b, lo, m);
        lemma_crop_range(b + c, lo, m);
        lemma_crop_add_assoc(a as int, b as int, c as int, lo, m);
    }

    proof fn lemma_add_zero(a: i64) {
        lemma_crop_identity(a as int, -0x8000000000000000, 0x10000000000000000);
    }

    proof fn lemma_mul_comm(a: i64, b: i64) {
        assert(a as int * b as int == b as int * a as int) by (nonlinear_arith);
    }

    proof fn lemma_mul_assoc(a: i64, b: i64, c: i64) {
        let lo: int = -0x8000000000000000;
        let m: int = 0x10000000000000000;
        lemma_crop_range(a * b, lo, m);
        lemma_crop_range(b * c, lo, m);
        lemma_crop_mul_assoc(a as int, b as int, c as int, lo, m);
    }

    proof fn lemma_mul_one(a: i64) {
        lemma_crop_identity(a as int, -0x8000000000000000, 0x10000000000000000);
    }

    proof fn lemma_mul_zero(a: i64) {
        lemma_crop_identity(0, -0x8000000000000000, 0x10000000000000000);
    }

    proof fn lemma_mul_distrib(a: i64, b: i64, c: i64) {
        let lo: int = -0x8000000000000000;
        let m: int = 0x10000000000000000;
        lemma_crop_range(b + c, lo, m);
        lemma_crop_range(a * b, lo, m);
        lemma_crop_range(a * c, lo, m);
        lemma_crop_mul_distrib(a as int, b as int, c as int, lo, m);
    }

    proof fn lemma_two() {
        lemma_crop_identity(2, -0x8000000000000000, 0x10000000000000000);
    }

    proof fn lemma_zero_div(b: i64) {
        if b > 0 {
            assert(0int / (b as int) == 0) by (nonlinear_arith)
                requires
                    b >= 1,
            ;
        } else {
            assert(0int / (-(b as int)) == 0) by (nonlinear_arith)
                requires
                    b <= -1,
            ;
        }
    }

    proof fn lemma_div_one(a: i64) {
        assert((a as int) / 1int == a && (-(a as int)) / 1int == -(a as int)) by (nonlinear_arith);
    }

    proof fn lemma_sqrt_one() {
        assert(is_isqrt(1, 1));
        let rr = choose|r: int| is_isqrt(1, r);
        lemma_isqrt_unique(1, rr, 1);
    }
}

impl SignedScalar for i64 {
    open spec fn neg_spec(a: i64) -> i64 {
        crop_int(-(a as int), -0x8000000000000000, 0x10000000000000000) as i64
    }

    fn neg(a: i64) -> (r: i64)
        ensures
            r == <i64 as SignedScalar>::neg_spec(a),
    {
        let r = (0 as i64).wrapping_sub(a);
        proof {
            let lo: int = -0x8000000000000000;
            let m: int = 0x10000000000000000;
            let s = -(a as int);
            if r as int == s - m {
                assert(r as int - s == (-1) * m);
            } else if r as int == s + m {
                assert(r as int - s == 1 * m);
            } else {
                assert(r as int - s == 0 * m);
            }
            lemma_crop_rep(r as int, s, lo, m);
        }
        r
    }

    proof fn lemma_add_neg(a: i64) {
        let lo: int = -0x8000000000000000;
        let m: int = 0x10000000000000000;
        lemma_crop_range(-(a as int), lo, m);
        lemma_crop_add_inner(-(a as int), a as int, lo, m);
        assert(a as int + crop_int(-(a as int), lo, m) == crop_int(-(a as int), lo, m) + (
        a as int));
        lemma_crop_identity(0, lo, m);
    }

    proof fn lemma_sub_neg(a: i64, b: i64) {
        let lo: int = -0x8000000000000000;
        let m: int = 0x10000000000000000;
        lemma_crop_range(-(b as int), lo, m);
        lemma_crop_add_inner(-(b as int), a as int, lo, m);
        assert(a as int + crop_int(-(b as int), lo, m) == crop_int(-(b as int), lo, m) + (
        a as int));
    }
}

impl Scalar for u8 {
    open spec fn zero_spec() -> u8 {
        0
    }

    open spec fn one_spec() -> u8 {
        1
    }

    open spec fn add_spec(a: u8, b: u8) -> u8 {
        crop_int(a + b, 0, 0x100) as u8
    }

    open spec fn sub_spec(a: u8, b: u8) -> u8 {
        crop_int(a - b, 0, 0x100) as u8
    }

    open spec fn mul_spec(a: u8, b: u8) -> u8 {
        crop_int(a * b, 0, 0x100) as u8
    }

    open spec fn div_ok(a: u8, b: u8) -> bool {
        b != 0
    }

    open spec fn div_spec(a: u8, b: u8) -> u8 {
        a / b
    }

    open spec fn rem_spec(a: u8, b: u8) -> u8 {
        a % b
    }

    open spec fn abs_ok(a: u8) -> bool {
        true
    }

    open spec fn abs_spec(a: u8) -> u8 {
        a
    }

    open spec fn min_spec(a: u8, b: u8) -> u8 {
        if a <= b {
            a
        } else {
            b
        }
    }

    open spec fn max_spec(a: u8, b: u8) -> u8 {
        if a >= b {
            a
        } else {
            b
        }
    }

    open spec fn sqrt_spec(a: u8) -> u8 {
        (choose|r: int| is_isqrt(a as int, r)) as u8
    }

    fn zero() -> u8 {
        0
    }

    fn one() -> u8 {
        1
    }

    fn add(a: u8, b: u8) -> (r: u8)
        ensures
            r == <u8 as Scalar>::add_spec(a, b),
    {
        let r = a.wrapping_add(b);
        proof {
            let m: int = 0x100;
            let s = a as int + b as int;
            if r as int == s - m {
                assert(r as int - s == (-1) * m);
            } else {
                assert(r as int - s == 0 * m);
            }
            lemma_crop_rep(r as int, s, 0, m);
        }
        r
    }

    fn sub(a: u8, b: u8) -> (r: u8)
        ensures
            r == <u8 as Scalar>::sub_spec(a, b),
    {
        let r = a.wrapping_sub(b);
        proof {
            let m: int = 0x100;
            let s = a as int - b as int;
            if r as int == s + m {
                assert(r as int - s == 1 * m);
            } else {
                assert(r as int - s == 0 * m);
            }
            lemma_crop_rep(r as int, s, 0, m);
        }
        r
    }

    fn mul(a: u8, b: u8) -> (r: u8)
        ensures
            r == <u8 as Scalar>::mul_spec(a, b),
    {
        let r = a.wrapping_mul(b);
        proof {
            let m: int = 0x100;
            let p = a as int * b as int;
            assert(r as int == (((a as nat) * (b as nat)) % (0x100 as nat)) as int);
            assert(r as int == p % m);
            lemma_crop_range(p, 0, m);
        }
        r
    }

    fn div(a: u8, b: u8) -> (r: u8)
        ensures
            r == <u8 as Scalar>::div_spec(a, b),
    {
        a / b
    }

    fn rem(a: u8, b: u8) -> (r: u8)
        ensures
            r == <u8 as Scalar>::rem_spec(a, b),
    {
        a % b
    }

    fn abs(a: u8) -> (r: u8)
        ensures
            r == <u8 as Scalar>::abs_spec(a),
    {
        a
    }

    fn abs_ok_check(a: u8) -> (r: bool)
        ensures
            r == <u8 as Scalar>::abs_ok(a),
    {
        true
    }

    fn min_val(a: u8, b: u8) -> (r: u8)
        ensures
            r == <u8 as Scalar>::min_spec(a, b),
    {
        if a <= b {
            a
        } else {
            b
        }
    }

    fn max_val(a: u8, b: u8) -> (r: u8)
        ensures
            r == <u8 as Scalar>::max_spec(a, b),
    {
        if a >= b {
            a
        } else {
            b
        }
    }

    fn sqrt(a: u8) -> (r: u8)
        ensures
            r == <u8 as Scalar>::sqrt_spec(a),
    {
        let u = isqrt_u64(a as u64);
        proof {
            assert(u as int <= a as int) by (nonlinear_arith)
                requires
                    u >= 0,
                    (u as int) * (u as int) <= a as int,
            ;
            assert(is_isqrt(a as int, u as int));
            let rr = choose|r: int| is_isqrt(a as int, r);
            lemma_isqrt_unique(a as int, rr, u as int);
        }
        u as u8
    }

    fn eq_val(a: u8, b: u8) -> (r: bool)
        ensures
            r == (a == b),
    {
        a == b
    }

    proof fn lemma_add_comm(a: u8, b: u8) {
    }

    proof fn lemma_add_assoc(a: u8, b: u8, c: u8) {
        let m: int = 0x100;
        lemma_crop_range(a + b, 0, m);
        lemma_crop_range(b + c, 0, m);
        lemma_crop_add_assoc(a as int, b as int, c as int, 0, m);
    }

    proof fn lemma_add_zero(a: u8) {
        lemma_crop_identity(a as int, 0, 0x100);
    }

    proof fn lemma_mul_comm(a: u8, b: u8) {
        assert(a as int * b as int == b as int * a as int) by (nonlinear_arith);
    }

    proof fn lemma_mul_assoc(a: u8, b: u8, c: u8) {
        let m: int = 0x100;
        lemma_crop_range(a * b, 0, m);
        lemma_crop_range(b * c, 0, m);
        lemma_crop_mul_assoc(a as int, b as int, c as int, 0, m);
    }

    proof fn lemma_mul_one(a: u8) {
        lemma_crop_identity(a as int, 0, 0x100);
    }

    proof fn lemma_mul_zero(a: u8) {
        lemma_crop_identity(0, 0, 0x100);
    }

    proof fn lemma_mul_distrib(a: u8, b: u8, c: u8) {
        let m: int = 0x100;
        lemma_crop_range(b + c, 0, m);
        lemma_crop_range(a * b, 0, m);
        lemma_crop_range(a * c, 0, m);
        lemma_crop_mul_distrib(a as int, b as int, c as int, 0, m);
    }

    proof fn lemma_two() {
        lemma_crop_identity(2, 0, 0x100);
    }

    proof fn lemma_zero_div(b: u8) {
    }

    proof fn lemma_div_one(a: u8) {
        assert((a as int) / 1int == a) by (nonlinear_arith);
    }

    proof fn lemma_sqrt_one() {
        assert(is_isqrt(1, 1));
        let rr = choose|r: int| is_isqrt(1, r);
        lemma_isqrt_unique(1, rr, 1);
    }
}

impl Scalar for u16 {
    open spec fn zero_spec() -> u16 {
        0
    }

    open spec fn one_spec() -> u16 {
        1
    }

    open spec fn add_spec(a: u16, b: u16) -> u16 {
        crop_int(a + b, 0, 0x10000) as u16
    }

    open spec fn sub_spec(a: u16, b: u16) -> u16 {
        crop_int(a - b, 0, 0x10000) as u16
    }

    open spec fn mul_spec(a: u16, b: u16) -> u16 {
        crop_int(a * b, 0, 0x10000) as u16
    }

    open spec fn div_ok(a: u16, b: u16) -> bool {
        b != 0
    }

    open spec fn div_spec(a: u16, b: u16) -> u16 {
        a / b
    }

    open spec fn rem_spec(a: u16, b: u16) -> u16 {
        a % b
    }

    open spec fn abs_ok(a: u16) -> bool {
        true
    }

    open spec fn abs_spec(a: u16) -> u16 {
        a
    }

    open spec fn min_spec(a: u16, b: u16) -> u16 {
        if a <= b {
            a
        } else {
            b
        }
    }

    open spec fn max_spec(a: u16, b: u16) -> u16 {
        if a >= b {
            a
        } else {
            b
        }
    }

    open spec fn sqrt_spec(a: u16) -> u16 {
        (choose|r: int| is_isqrt(a as int, r)) as u16
    }

    fn zero() -> u16 {
        0
    }

    fn one() -> u16 {
        1
    }

    fn add(a: u16, b: u16) -> (r: u16)
        ensures
            r == <u16 as Scalar>::add_spec(a, b),
    {
        let r = a.wrapping_add(b);
        proof {
            let m: int = 0x10000;
            let s = a as int + b as int;
            if r as int == s - m {
                assert(r as int - s == (-1) * m);
            } else {
                assert(r as int - s == 0 * m);
            }
            lemma_crop_rep(r as int, s, 0, m);
        }
        r
    }

    fn sub(a: u16, b: u16) -> (r: u16)
        ensures
            r == <u16 as Scalar>::sub_spec(a, b),
    {
        let r = a.wrapping_sub(b);
        proof {
            let m: int = 0x10000;
            let s = a as int - b as int;
            if r as int == s + m {
                assert(r as int - s == 1 * m);
            } else {
                assert(r as int - s == 0 * m);
            }
            lemma_crop_rep(r as int, s, 0, m);
        }
        r
    }

    fn mul(a: u16, b: u16) -> (r: u16)
        ensures
            r == <u16 as Scalar>::mul_spec(a, b),
    {
        let r = a.wrapping_mul(b);
        proof {
            let m: int = 0x10000;
            let p = a as int * b as int;
            assert(r as int == (((a as nat) * (b as nat)) % (0x10000 as nat)) as int);
            assert(r as int == p % m);
            lemma_crop_range(p, 0, m);
        }
        r
    }

    fn div(a: u16, b: u16) -> (r: u16)
        ensures
            r == <u16 as Scalar>::div_spec(a, b),
    {
        a / b
    }

    fn rem(a: u16, b: u16) -> (r: u16)
        ensures
            r == <u16 as Scalar>::rem_spec(a, b),
    {
        a % b
    }

    fn abs(a: u16) -> (r: u16)
        ensures
            r == <u16 as Scalar>::abs_spec(a),
    {
        a
    }

    fn abs_ok_check(a: u16) -> (r: bool)
        ensures
            r == <u16 as Scalar>::abs_ok(a),
    {
        true
    }

    fn min_val(a: u16, b: u16) -> (r: u16)
        ensures
            r == <u16 as Scalar>::min_spec(a, b),
    {
        if a <= b {
            a
        } else {
            b
        }
    }

    fn max_val(a: u16, b: u16) -> (r: u16)
        ensures
            r == <u16 as Scalar>::max_spec(a, b),
    {
        if a >= b {
            a
        } else {
            b
        }
    }

    fn sqrt(a: u16) -> (r: u16)
        ensures
            r == <u16 as Scalar>::sqrt_spec(a),
    {
        let u = isqrt_u64(a as u64);
        proof {
            assert(u as int <= a as int) by (nonlinear_arith)
                requires
                    u >= 0,
                    (u as int) * (u as int) <= a as int,
            ;
            assert(is_isqrt(a as int, u as int));
            let rr = choose|r: int| is_isqrt(a as int, r);
            lemma_isqrt_unique(a as int, rr, u as int);
        }
        u as u16
    }

    fn eq_val(a: u16, b: u16) -> (r: bool)
        ensures
            r == (a == b),
    {
        a == b
    }

    proof fn lemma_add_comm(a: u16, b: u16) {
    }

    proof fn lemma_add_assoc(a: u16, b: u16, c: u16) {
        let m: int = 0x10000;
        lemma_crop_range(a + b, 0, m);
        lemma_crop_range(b + c, 0, m);
        lemma_crop_add_assoc(a as int, b as int, c as int, 0, m);
    }

    proof fn lemma_add_zero(a: u16) {
        lemma_crop_identity(a as int, 0, 0x10000);
    }

    proof fn lemma_mul_comm(a: u16, b: u16) {
        assert(a as int * b as int == b as int * a as int) by (nonlinear_arith);
    }

    proof fn lemma_mul_assoc(a: u16, b: u16, c: u16) {
        let m: int = 0x10000;
        lemma_crop_range(a * b, 0, m);
        lemma_crop_range(b * c, 0, m);
        lemma_crop_mul_assoc(a as int, b as int, c as int, 0, m);
    }

    proof fn lemma_mul_one(a: u16) {
        lemma_crop_identity(a as int, 0, 0x10000);
    }

    proof fn lemma_mul_zero(a: u16) {
        lemma_crop_identity(0, 0, 0x10000);
    }

    proof fn lemma_mul_distrib(a: u16, b: u16, c: u16) {
        let m: int = 0x10000;
        lemma_crop_range(b + c, 0, m);
        lemma_crop_range(a * b, 0, m);
        lemma_crop_range(a * c, 0, m);
        lemma_crop_mul_distrib(a as int, b as int, c as int, 0, m);
    }

    proof fn lemma_two() {
        lemma_crop_identity(2, 0, 0x10000);
    }

    proof fn lemma_zero_div(b: u16) {
    }

    proof fn lemma_div_one(a: u16) {
        assert((a as int) / 1int == a) by (nonlinear_arith);
    }

    proof fn lemma_sqrt_one() {
        assert(is_isqrt(1, 1));
        let rr = choose|r: int| is_isqrt(1, r);
        lemma_isqrt_unique(1, rr, 1);
    }
}

impl Scalar for u64 {
    open spec fn zero_spec() -> u64 {
        0
    }

    open spec fn one_spec() -> u64 {
        1
    }

    open spec fn add_spec(a: u64, b: u64) -> u64 {
        crop_int(a + b, 0, 0x10000000000000000) as u64
    }

    open spec fn sub_spec(a: u64, b: u64) -> u64 {
        crop_int(a - b, 0, 0x10000000000000000) as u64
    }

    open spec fn mul_spec(a: u64, b: u64) -> u64 {
        crop_int(a * b, 0, 0x10000000000000000) as u64
    }

    open spec fn div_ok(a: u64, b: u64) -> bool {
        b != 0
    }

    open spec fn div_spec(a: u64, b: u64) -> u64 {
        a / b
    }

    open spec fn rem_spec(a: u64, b: u64) -> u64 {
        a % b
    }

    open spec fn abs_ok(a: u64) -> bool {
        true
    }

    open spec fn abs_spec(a: u64) -> u64 {
        a
    }

    open spec fn min_spec(a: u64, b: u64) -> u64 {
        if a <= b {
            a
        } else {
            b
        }
    }

    open spec fn max_spec(a: u64, b: u64) -> u64 {
        if a >= b {
            a
        } else {
            b
        }
    }

    open spec fn sqrt_spec(a: u64) -> u64 {
        (choose|r: int| is_isqrt(a as int, r)) as u64
    }

    fn zero() -> u64 {
        0
    }

    fn one() -> u64 {
        1
    }

    fn add(a: u64, b: u64) -> (r: u64)
        ensures
            r == <u64 as Scalar>::add_spec(a, b),
    {
        let r = a.wrapping_add(b);
        proof {
            let m: int = 0x10000000000000000;
            let s = a as int + b as int;
            if r as int == s - m {
                assert(r as int - s == (-1) * m);
            } else {
                assert(r as int - s == 0 * m);
            }
            lemma_crop_rep(r as int, s, 0, m);
        }
        r
    }

    fn sub(a: u64, b: u64) -> (r: u64)
        ensures
            r == <u64 as Scalar>::sub_spec(a, b),
    {
        let r = a.wrapping_sub(b);
        proof {
            let m: int = 0x10000000000000000;
            let s = a as int - b as int;
            if r as int == s + m {
                assert(r as int - s == 1 * m);
            } else {
                assert(r as int - s == 0 * m);
            }
            lemma_crop_rep(r as int, s, 0, m);
        }
        r
    }

    fn mul(a: u64, b: u64) -> (r: u64)
        ensures
            r == <u64 as Scalar>::mul_spec(a, b),
    {
        let r = a.wrapping_mul(b);
        proof {
            let m: int = 0x10000000000000000;
            let p = a as int * b as int;
            assert(r as int == (((a as nat) * (b as nat)) % (0x10000000000000000 as nat)) as int);
            assert(r as int == p % m);
            lemma_crop_range(p, 0, m);
        }
        r
    }

    fn div(a: u64, b: u64) -> (r: u64)
        ensures
            r == <u64 as Scalar>::div_spec(a, b),
    {
        a / b
    }

    fn rem(a: u64, b: u64) -> (r: u64)
        ensures
            r == <u64 as Scalar>::rem_spec(a, b),
    {
        a % b
    }

    fn abs(a: u64) -> (r: u64)
        ensures
            r == <u64 as Scalar>::abs_spec(a),
    {
        a
    }

    fn abs_ok_check(a: u64) -> (r: bool)
        ensures
            r == <u64 as Scalar>::abs_ok(a),
    {
        true
    }

    fn min_val(a: u64, b: u64) -> (r: u64)
        ensures
            r == <u64 as Scalar>::min_spec(a, b),
    {
        if a <= b {
            a
        } else {
            b
        }
    }

    fn max_val(a: u64, b: u64) -> (r: u64)
        ensures
            r == <u64 as Scalar>::max_spec(a, b),
    {
        if a >= b {
            a
        } else {
            b
        }
    }

    fn sqrt(a: u64) -> (r: u64)
        ensures
            r == <u64 as Scalar>::sqrt_spec(a),
    {
        let u = isqrt_u64(a as u64);
        proof {
            assert(u as int <= a as int) by (nonlinear_arith)
                requires
                    u >= 0,
                    (u as int) * (u as int) <= a as int,
            ;
            assert(is_isqrt(a as int, u as int));
            let rr = choose|r: int| is_isqrt(a as int, r);
            lemma_isqrt_unique(a as int, rr, u as int);
        }
        u as u64
    }

    fn eq_val(a: u64, b: u64) -> (r: bool)
        ensures
            r == (a == b),
    {
        a == b
    }

    proof fn lemma_add_comm(a: u64, b: u64) {
    }

    proof fn lemma_add_assoc(a: u64, b: u64, c: u64) {
        let m: int = 0x10000000000000000;
        lemma_crop_range(a + b, 0, m);
        lemma_crop_range(b + c, 0, m);
        lemma_crop_add_assoc(a as int, b as int, c as int, 0, m);
    }

    proof fn lemma_add_zero(a: u64) {
        lemma_crop_identity(a as int, 0, 0x10000000000000000);
    }

    proof fn lemma_mul_comm(a: u64, b: u64) {
        assert(a as int * b as int == b as int * a as int) by (nonlinear_arith);
    }

    proof fn lemma_mul_assoc(a: u64, b: u64, c: u64) {
        let m: int = 0x10000000000000000;
        lemma_crop_range(a * b, 0, m);
        lemma_crop_range(b * c, 0, m);
        lemma_crop_mul_assoc(a as int, b as int, c as int, 0, m);
    }

    proof fn lemma_mul_one(a: u64) {
        lemma_crop_identity(a as int, 0, 0x10000000000000000);
    }

    proof fn lemma_mul_zero(a: u64) {
        lemma_crop_identity(0, 0, 0x10000000000000000);
    }

    proof fn lemma_mul_distrib(a: u64, b: u64, c: u64) {
        let m: int = 0x10000000000000000;
        lemma_crop_range(b + c, 0, m);
        lemma_crop_range(a * b, 0, m);
        lemma_crop_range(a * c, 0, m);
        lemma_crop_mul_distrib(a as int, b as int, c as int, 0, m);
    }

    proof fn lemma_two() {
        lemma_crop_identity(2, 0, 0x10000000000000000);
    }

    proof fn lemma_zero_div(b: u64) {
    }

    proof fn lemma_div_one(a: u64) {
        assert((a as int) / 1int == a) by (nonlinear_arith);
    }

    proof fn lemma_sqrt_one() {
        assert(is_isqrt(1, 1));
        let rr = choose|r: int| is_isqrt(1, r);
        lemma_isqrt_unique(1, rr, 1);
    }
}

impl Two for i8 {
    open spec fn two_value() -> i8 {
        2
    }

    fn two() -> (r: i8)
        ensures
            r == <i8 as Two>::two_value(),
    {
        2
    }

    fn is_two(&self) -> (r: bool)
        ensures
            r == (*self == <i8 as Two>::two_value()),
    {
        *self == 2
    }

    fn set_two(&mut self)
        ensures
            *final(self) == <i8 as Two>::two_value(),
    {
        *self = 2;
    }
}

impl Two for i16 {
    open spec fn two_value() -> i16 {
        2
    }

    fn two() -> (r: i16)
        ensures
            r == <i16 as Two>::two_value(),
    {
        2
    }

    fn is_two(&self) -> (r: bool)
        ensures
            r == (*self == <i16 as Two>::two_value()),
    {
        *self == 2
    }

    fn set_two(&mut self)
        ensures
            *final(self) == <i16 as Two>::two_value(),
    {
        *self = 2;
    }
}

impl Two for i32 {
    open spec fn two_value() -> i32 {
        2
    }

    fn two() -> (r: i32)
        ensures
            r == <i32 as Two>::two_value(),
    {
        2
    }

    fn is_two(&self) -> (r: bool)
        ensures
            r == (*self == <i32 as Two>::two_value()),
    {
        *self == 2
    }

    fn set_two(&mut self)
        ensures
            *final(self) == <i32 as Two>::two_value(),
    {
        *self = 2;
    }
}

impl Two for i64 {
    open spec fn two_value() -> i64 {
        2
    }

    fn two() -> (r: i64)
        ensures
            r == <i64 as Two>::two_value(),
    {
        2
    }

    fn is_two(&self) -> (r: bool)
        ensures
            r == (*self == <i64 as Two>::two_value()),
    {
        *self == 2
    }

    fn set_two(&mut self)
        ensures
            *final(self) == <i64 as Two>::two_value(),
    {
        *self = 2;
    }
}

impl Two for u8 {
    open spec fn two_value() -> u8 {
        2
    }

    fn two() -> (r: u8)
        ensures
            r == <u8 as Two>::two_value(),
    {
        2
    }

    fn is_two(&self) -> (r: bool)
        ensures
            r == (*self == <u8 as Two>::two_value()),
    {
        *self == 2
    }

    fn set_two(&mut self)
        ensures
            *final(self) == <u8 as Two>::two_value(),
    {
        *self = 2;
    }
}

impl Two for u16 {
    open spec fn two_value() -> u16 {
        2
    }

    fn two() -> (r: u16)
        ensures
            r == <u16 as Two>::two_value(),
    {
        2
    }

    fn is_two(&self) -> (r: bool)
        ensures
            r == (*self == <u16 as Two>::two_value()),
    {
        *self == 2
    }

    fn set_two(&mut self)
        ensures
            *final(self) == <u16 as Two>::two_value(),
    {
        *self = 2;
    }
}

impl Two for u32 {
    open spec fn two_value() -> u32 {
        2
    }

    fn two() -> (r: u32)
        ensures
            r == <u32 as Two>::two_value(),
    {
        2
    }

    fn is_two(&self) -> (r: bool)
        ensures
            r == (*self == <u32 as Two>::two_value()),
    {
        *self == 2
    }

    fn set_two(&mut self)
        ensures
            *final(self) == <u32 as Two>::two_value(),
    {
        *self = 2;
    }
}

impl Two for u64 {
    open spec fn two_value() -> u64 {
        2
    }

    fn two() -> (r: u64)
        ensures
            r == <u64 as Two>::two_value(),
    {
        2
    }

    fn is_two(&self) -> (r: bool)
        ensures
            r == (*self == <u64 as Two>::two_value()),
    {
        *self == 2
    }

    fn set_two(&mut self)
        ensures
            *final(self) == <u64 as Two>::two_value(),
    {
        *self = 2;
    }
}

} // verus!
