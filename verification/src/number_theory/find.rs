//! Greatest common divisor and least common multiple.

use crate::number_theory::euclid::gcd_int;
use crate::number_theory::euclid::lemma_eea_bezout;
use vstd::arithmetic::div_mod::lemma_fundamental_div_mod;
use vstd::prelude::*;

verus! {

/// The terminal divisor of the Euclidean descent is at least one.
pub proof fn lemma_gcd_pos(a: int, b: int)
    requires
        1 <= a,
    ensures
        1 <= gcd_int(a, b),
    decreases (if a >= 1 { a } else { 0 }),
{
    if b % a != 0 {
        lemma_gcd_pos(b % a, a);
    }
}

/// The greatest common divisor, by the Euclidean descent.
pub fn gcd(a: i64, b: i64) -> (r: i64)
    requires
        1 <= a,
        0 <= b,
    ensures
        r == gcd_int(a as int, b as int),
        r >= 1,
{
    let mut x = a;
    let mut y = b;
    while y % x != 0
        invariant
            1 <= x,
            0 <= y,
            gcd_int(a as int, b as int) == gcd_int(x as int, y as int),
        decreases x,
    {
        let x_tmp = x;
        x = y % x;
        y = x_tmp;
    }
    proof {
        lemma_gcd_pos(a as int, b as int);
    }
    x
}

/// The least common multiple: the product divided by the greatest
/// common divisor.
pub fn lcm(a: i64, b: i64) -> (r: i64)
    requires
        1 <= a,
        1 <= b,
        a * b <= i64::MAX,
    ensures
        r == a * b / gcd_int(a as int, b as int),
{
    proof {
        lemma_gcd_pos(a as int, b as int);
        assert(1 <= a * b) by (nonlinear_arith)
            requires
                a >= 1 && b >= 1,
        ;
    }
    let g = gcd(a, b);
    let p = a * b;
    p / g
}

} // verus!
