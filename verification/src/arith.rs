//! Modular-arithmetic groundwork for the fixed-width scalar types.
//!
//! Every scalar operation of this library wraps around on overflow, in
//! two's-complement fashion.  This module gives that wrap-around a single
//! mathematical account: a value is reduced into a window `[lo, lo + m)`
//! of width `m` while keeping its residue class modulo `m`.  The lemmas
//! here are what the per-type ring laws are proved from.

use vstd::prelude::*;

verus! {

/// Two integers are congruent modulo `m`: they differ by a multiple of `m`.
pub open spec fn congruent(x: int, y: int, m: int) -> bool {
    exists|k: int| x - y == #[trigger] (k * m)
}

/// Reduce `x` into the window `[lo, lo + m)` while keeping its residue
/// class modulo `m`.  With `lo == 0` this is the unsigned wrap; with
/// `lo == -(m / 2)` it is the two's-complement wrap.
pub open spec fn crop_int(x: int, lo: int, m: int) -> int {
    if x % m >= lo + m {
        x % m - m
    } else {
        x % m
    }
}

pub proof fn lemma_congruent_refl(x: int, m: int)
    ensures
        congruent(x, x, m),
{
    assert(x - x == 0 * m) by (nonlinear_arith);
}

pub proof fn lemma_congruent_sym(x: int, y: int, m: int)
    requires
        congruent(x, y, m),
    ensures
        congruent(y, x, m),
{
    let k = choose|k: int| x - y == #[trigger] (k * m);
    assert(y - x == (-k) * m) by (nonlinear_arith)
        requires
            x - y == k * m,
    ;
}

pub proof fn lemma_congruent_trans(x: int, y: int, z: int, m: int)
    requires
        congruent(x, y, m),
        congruent(y, z, m),
    ensures
        congruent(x, z, m),
{
    let k1 = choose|k: int| x - y == #[trigger] (k * m);
    let k2 = choose|k: int| y - z == #[trigger] (k * m);
    assert(x - z == (k1 + k2) * m) by (nonlinear_arith)
        requires
            x - y == k1 * m,
            y - z == k2 * m,
    ;
}

pub proof fn lemma_congruent_add(x1: int, y1: int, x2: int, y2: int, m: int)
    requires
        congruent(x1, y1, m),
        congruent(x2, y2, m),
    ensures
        congruent(x1 + x2, y1 + y2, m),
{
    let k1 = choose|k: int| x1 - y1 == #[trigger] (k * m);
    let k2 = choose|k: int| x2 - y2 == #[trigger] (k * m);
    assert((x1 + x2) - (y1 + y2) == (k1 + k2) * m) by (nonlinear_arith)
        requires
            x1 - y1 == k1 * m,
            x2 - y2 == k2 * m,
    ;
}

pub proof fn lemma_congruent_mul(x1: int, y1: int, x2: int, y2: int, m: int)
    requires
        congruent(x1, y1, m),
        congruent(x2, y2, m),
    ensures
        congruent(x1 * x2, y1 * y2, m),
{
    let k1 = choose|k: int| x1 - y1 == #[trigger] (k * m);
    let k2 = choose|k: int| x2 - y2 == #[trigger] (k * m);
    assert(x1 * x2 - y1 * y2 == (x1 * k2 + k1 * y2) * m) by (nonlinear_arith)
        requires
            x1 - y1 == k1 * m,
            x2 - y2 == k2 * m,
    ;
}

/// Within one window of width `m` each residue class has a single member.
pub proof fn lemma_congruent_unique(x: int, y: int, lo: int, m: int)
    requires
        m >= 1,
        lo <= x < lo + m,
        lo <= y < lo + m,
        congruent(x, y, m),
    ensures
        x == y,
{
    let k = choose|k: int| x - y == #[trigger] (k * m);
    assert(k == 0) by (nonlinear_arith)
        requires
            x - y == k * m,
            m >= 1,
            -m < x - y < m,
    ;
}

pub proof fn lemma_congruent_mod(x: int, m: int)
    requires
        m >= 1,
    ensures
        congruent(x % m, x, m),
{
    assert(x == m * (x / m) + x % m) by {
        vstd::arithmetic::div_mod::lemma_fundamental_div_mod(x, m);
    }
    assert(x % m - x == (-(x / m)) * m) by (nonlinear_arith)
        requires
            x == m * (x / m) + x % m,
    ;
}

pub proof fn lemma_crop_congruent(x: int, lo: int, m: int)
    requires
        m >= 1,
    ensures
        congruent(crop_int(x, lo, m), x, m),
{
    lemma_congruent_mod(x, m);
    if x % m >= lo + m {
        assert((x % m - m) - (x % m) == (-1) * m);
        lemma_congruent_trans(crop_int(x, lo, m), x % m, x, m);
    }
}

pub proof fn lemma_crop_range(x: int, lo: int, m: int)
    requires
        m >= 1,
        lo <= 0 < lo + m,
    ensures
        lo <= crop_int(x, lo, m) < lo + m,
{
}

/// A value already inside the window is left as it is.
pub proof fn lemma_crop_identity(x: int, lo: int, m: int)
    requires
        m >= 1,
        lo <= 0 < lo + m,
        lo <= x < lo + m,
    ensures
        crop_int(x, lo, m) == x,
{
    lemma_crop_congruent(x, lo, m);
    lemma_crop_range(x, lo, m);
    lemma_congruent_unique(crop_int(x, lo, m), x, lo, m);
}

/// Cropping one addend first does not change the cropped sum.
pub proof fn lemma_crop_add_inner(a: int, b: int, lo: int, m: int)
    ensures
        m >= 1 && lo <= 0 < lo + m ==> crop_int(crop_int(a, lo, m) + b, lo, m) == crop_int(
            a + b,
            lo,
            m,
        ),
{
    if m >= 1 && lo <= 0 < lo + m {
        lemma_crop_congruent(a, lo, m);
        lemma_congruent_refl(b, m);
        lemma_congruent_add(crop_int(a, lo, m), a, b, b, m);
        lemma_crop_congruent(crop_int(a, lo, m) + b, lo, m);
        lemma_crop_congruent(a + b, lo, m);
        lemma_congruent_trans(
            crop_int(crop_int(a, lo, m) + b, lo, m),
            crop_int(a, lo, m) + b,
            a + b,
            m,
        );
        lemma_congruent_sym(crop_int(a + b, lo, m), a + b, m);
        lemma_congruent_trans(
            crop_int(crop_int(a, lo, m) + b, lo, m),
            a + b,
            crop_int(a + b, lo, m),
            m,
        );
        lemma_crop_range(crop_int(a, lo, m) + b, lo, m);
        lemma_crop_range(a + b, lo, m);
        lemma_congruent_unique(
            crop_int(crop_int(a, lo, m) + b, lo, m),
            crop_int(a + b, lo, m),
            lo,
            m,
        );
    }
}

/// Cropping one factor first does not change the cropped product.
pub proof fn lemma_crop_mul_inner(a: int, b: int, lo: int, m: int)
    ensures
        m >= 1 && lo <= 0 < lo + m ==> crop_int(crop_int(a, lo, m) * b, lo, m) == crop_int(
            a * b,
            lo,
            m,
        ),
{
    if m >= 1 && lo <= 0 < lo + m {
        lemma_crop_congruent(a, lo, m);
        lemma_congruent_refl(b, m);
        lemma_congruent_mul(crop_int(a, lo, m), a, b, b, m);
        lemma_crop_congruent(crop_int(a, lo, m) * b, lo, m);
        lemma_crop_congruent(a * b, lo, m);
        lemma_congruent_trans(
            crop_int(crop_int(a, lo, m) * b, lo, m),
            crop_int(a, lo, m) * b,
            a * b,
            m,
        );
        lemma_congruent_sym(crop_int(a * b, lo, m), a * b, m);
        lemma_congruent_trans(
            crop_int(crop_int(a, lo, m) * b, lo, m),
            a * b,
            crop_int(a * b, lo, m),
            m,
        );
        lemma_crop_range(crop_int(a, lo, m) * b, lo, m);
        lemma_crop_range(a * b, lo, m);
        lemma_congruent_unique(
            crop_int(crop_int(a, lo, m) * b, lo, m),
            crop_int(a * b, lo, m),
            lo,
            m,
        );
    }
}


/// Truncating division as the machine performs it: the quotient is rounded
/// toward zero.
pub open spec fn trunc_div_int(x: int, d: int) -> int {
    if x >= 0 && d > 0 {
        x / d
    } else if x <= 0 && d < 0 {
        (-x) / (-d)
    } else if x < 0 {
        -((-x) / d)
    } else {
        -(x / (-d))
    }
}

/// Truncating remainder: it carries the sign of the dividend.
pub open spec fn trunc_rem_int(x: int, d: int) -> int {
    if x >= 0 && d > 0 {
        x % d
    } else if x < 0 && d < 0 {
        -((-x) % (-d))
    } else if x < 0 {
        -((-x) % d)
    } else {
        x % (-d)
    }
}

/// `r` is the integer square root of `x`.
pub open spec fn is_isqrt(x: int, r: int) -> bool {
    r >= 0 && r * r <= x < (r + 1) * (r + 1)
}

pub proof fn lemma_isqrt_unique(x: int, r1: int, r2: int)
    requires
        is_isqrt(x, r1),
        is_isqrt(x, r2),
    ensures
        r1 == r2,
{
    assert(r1 == r2) by (nonlinear_arith)
        requires
            r1 >= 0 && r1 * r1 <= x < (r1 + 1) * (r1 + 1),
            r2 >= 0 && r2 * r2 <= x < (r2 + 1) * (r2 + 1),
    ;
}

/// The integer square root of a 64-bit value, found by bisection.
pub fn isqrt_u64(x: u64) -> (r: u64)
    ensures
        is_isqrt(x as int, r as int),
{
    let mut lo: u64 = 0;
    let mut hi: u64 = 4294967296;
    assert(x < hi * hi) by (nonlinear_arith)
        requires
            hi == 4294967296,
            x <= u64::MAX,
    ;
    while lo + 1 < hi
        invariant
            lo < hi <= 4294967296,
            lo * lo <= x,
            x < hi * hi,
        decreases hi - lo,
    {
        let mid = lo + (hi - lo) / 2;
        assert(lo < mid < hi);
        assert(mid * mid <= u64::MAX) by (nonlinear_arith)
            requires
                mid <= 4294967295u64,
        ;
        if mid * mid <= x {
            lo = mid;
        } else {
            hi = mid;
        }
    }
    assert((lo + 1) * (lo + 1) > x);
    lo
}

/// The single representative of `x`'s residue class inside the window.
pub proof fn lemma_crop_rep(v: int, x: int, lo: int, m: int)
    requires
        m >= 1,
        lo <= 0 < lo + m,
        lo <= v < lo + m,
        congruent(v, x, m),
    ensures
        v == crop_int(x, lo, m),
{
    lemma_crop_congruent(x, lo, m);
    lemma_crop_range(x, lo, m);
    lemma_congruent_sym(crop_int(x, lo, m), x, m);
    lemma_congruent_trans(v, x, crop_int(x, lo, m), m);
    lemma_congruent_unique(v, crop_int(x, lo, m), lo, m);
}

/// Wrapped addition is associative.
pub proof fn lemma_crop_add_assoc(a: int, b: int, c: int, lo: int, m: int)
    requires
        m >= 1,
        lo <= 0 < lo + m,
    ensures
        crop_int(crop_int(a + b, lo, m) + c, lo, m) == crop_int(a + crop_int(b + c, lo, m), lo, m),
{
    lemma_crop_add_inner(a + b, c, lo, m);
    lemma_crop_add_inner(b + c, a, lo, m);
    assert(a + crop_int(b + c, lo, m) == crop_int(b + c, lo, m) + a);
    assert(crop_int((a + b) + c, lo, m) == crop_int((b + c) + a, lo, m));
}

/// Wrapped multiplication is associative.
pub proof fn lemma_crop_mul_assoc(a: int, b: int, c: int, lo: int, m: int)
    requires
        m >= 1,
        lo <= 0 < lo + m,
    ensures
        crop_int(crop_int(a * b, lo, m) * c, lo, m) == crop_int(a * crop_int(b * c, lo, m), lo, m),
{
    lemma_crop_mul_inner(a * b, c, lo, m);
    lemma_crop_mul_inner(b * c, a, lo, m);
    assert(a * crop_int(b * c, lo, m) == crop_int(b * c, lo, m) * a) by (nonlinear_arith);
    assert((a * b) * c == (b * c) * a) by (nonlinear_arith);
}

/// Wrapped multiplication distributes over wrapped addition.
pub proof fn lemma_crop_mul_distrib(a: int, b: int, c: int, lo: int, m: int)
    requires
        m >= 1,
        lo <= 0 < lo + m,
    ensures
        crop_int(a * crop_int(b + c, lo, m), lo, m) == crop_int(
            crop_int(a * b, lo, m) + crop_int(a * c, lo, m),
            lo,
            m,
        ),
{
    lemma_crop_mul_inner(b + c, a, lo, m);
    assert(a * crop_int(b + c, lo, m) == crop_int(b + c, lo, m) * a) by (nonlinear_arith);
    assert((b + c) * a == a * b + a * c) by (nonlinear_arith);
    lemma_crop_add_inner(a * b, crop_int(a * c, lo, m), lo, m);
    lemma_crop_add_inner(a * c, a * b, lo, m);
    assert(a * b + crop_int(a * c, lo, m) == crop_int(a * c, lo, m) + a * b);
    assert(crop_int(a * b + a * c, lo, m) == crop_int(a * c + a * b, lo, m));
}

/// The machine quotient and remainder stay inside the type's window.
pub proof fn lemma_trunc_div_rem_in_range(x: int, d: int, lo: int, hi: int)
    requires
        lo == -hi - 1,
        hi >= 1,
        lo <= x <= hi,
        d != 0,
        !(x == lo && d == -1),
        lo <= d <= hi + 1,
    ensures
        lo <= trunc_div_int(x, d) <= hi,
        lo <= trunc_rem_int(x, d) <= hi,
        x >= 0 ==> trunc_rem_int(x, d) >= 0,
        x <= 0 ==> trunc_rem_int(x, d) <= 0,
{
    if x >= 0 && d > 0 {
        assert(0 <= x / d <= x) by (nonlinear_arith)
            requires
                x >= 0 && d >= 1,
        ;
        assert(0 <= x % d < d);
    } else if x < 0 && d < 0 {
        assert(0 <= (-x) / (-d) <= -x) by (nonlinear_arith)
            requires
                x < 0 && d <= -1,
        ;
        if d == -1 {
            assert(x != lo);
            assert((-x) / 1 == -x) by (nonlinear_arith);
        } else {
            assert((-x) / (-d) <= (-x) / 2 <= hi) by (nonlinear_arith)
                requires
                    -d >= 2,
                    0 < -x <= hi + 1,
            ;
        }
        assert(0 <= (-x) % (-d) < -d);
    } else if x < 0 {
        assert(0 <= (-x) / d <= -x) by (nonlinear_arith)
            requires
                x < 0 && d >= 1,
        ;
        assert(0 <= (-x) % d < d);
    } else if x > 0 && d < 0 {
        assert(0 <= x / (-d) <= x) by (nonlinear_arith)
            requires
                x > 0 && d <= -1,
        ;
        assert(0 <= x % (-d) < -d);
    } else {
        assert(x == 0 && d < 0);
        assert(0int / (-d) == 0 && 0int % (-d) == 0) by (nonlinear_arith)
            requires
                d <= -1,
        ;
    }
}

} // verus!
