//! The extended Euclidean algorithm.
//!
//! The specification follows the algorithm itself: `eea_ks` is the
//! sequence of quotients the descent produces, `eea_st` folds them back
//! up into the Bezout pair, and `lemma_eea_bezout` proves that the pair
//! really witnesses the greatest common divisor.

use crate::linear::dynamic::DMatrix;
use vstd::arithmetic::div_mod::lemma_fundamental_div_mod;
use vstd::prelude::*;

verus! {

/// The measure the Euclidean descent shrinks: the first component of
/// the pair, once it is positive.
pub open spec fn eea_measure(a: int) -> int {
    if a >= 1 {
        a
    } else {
        0
    }
}

/// The quotients produced by the descent from the pair `(a, b)`.
pub open spec fn eea_ks(a: int, b: int) -> Seq<int>
    decreases eea_measure(a),
{
    if a >= 1 && b % a != 0 {
        seq![b / a] + eea_ks(b % a, a)
    } else {
        Seq::empty()
    }
}

/// The pairs the descent walks through, the starting pair included.
pub open spec fn eea_pairs(a: int, b: int) -> Seq<(int, int)>
    decreases eea_measure(a),
{
    if a >= 1 && b % a != 0 {
        seq![(a, b)] + eea_pairs(b % a, a)
    } else {
        seq![(a, b)]
    }
}

/// The divisor the descent ends on: the greatest common divisor.
pub open spec fn gcd_int(a: int, b: int) -> int
    decreases eea_measure(a),
{
    if a >= 1 && b % a != 0 {
        gcd_int(b % a, a)
    } else {
        a
    }
}

/// Fold the quotients back up into the Bezout pair `(s, t)`.
pub open spec fn eea_st(ks: Seq<int>) -> (int, int)
    decreases ks.len(),
{
    if ks.len() == 0 {
        (1int, 0int)
    } else {
        let st = eea_st(ks.subrange(1, ks.len() as int));
        (st.1 - ks[0] * st.0, st.0)
    }
}

/// Every value the back-substitution forms, products included, stays
/// inside `[lo, hi]`.
pub open spec fn eea_st_in_range(ks: Seq<int>, lo: int, hi: int) -> bool
    decreases ks.len(),
{
    if ks.len() == 0 {
        true
    } else {
        let rest = ks.subrange(1, ks.len() as int);
        let st = eea_st(rest);
        eea_st_in_range(rest, lo, hi) && lo <= ks[0] * st.0 <= hi && lo <= -(ks[0] * st.0) <= hi
            && lo <= st.1 - ks[0] * st.0 <= hi
    }
}

/// The Bezout identity: the folded pair combines the inputs into their
/// greatest common divisor.
pub proof fn lemma_eea_bezout(a: int, b: int)
    requires
        1 <= a,
    ensures
        eea_st(eea_ks(a, b)).0 * a + eea_st(eea_ks(a, b)).1 * b == gcd_int(a, b),
    decreases eea_measure(a),
{
    if b % a != 0 {
        let a2 = b % a;
        let k = b / a;
        lemma_eea_bezout(a2, a);
        let ks = eea_ks(a, b);
        let rest = eea_ks(a2, a);
        assert(ks.subrange(1, ks.len() as int) =~= rest);
        let st = eea_st(rest);
        lemma_fundamental_div_mod(b, a);
        assert((st.1 - k * st.0) * a + st.0 * b == st.0 * a2 + st.1 * a) by (nonlinear_arith)
            requires
                b == a * k + a2,
        ;
    } else {
        assert(1 * a + 0 * b == a) by (nonlinear_arith);
    }
}

/// The Bezout pair for `a` and `b`.  The inputs must satisfy
/// `1 <= a < b`, and every value of the back-substitution must fit in
/// the machine type; within those bounds, the returned pair `(s, t)`
/// satisfies `s * a + t * b == gcd(a, b)`.
pub fn eea(a: i64, b: i64) -> (r: (i64, i64))
    requires
        1 <= a < b,
        eea_st_in_range(eea_ks(a as int, b as int), i64::MIN as int, i64::MAX as int),
    ensures
        r.0 == eea_st(eea_ks(a as int, b as int)).0,
        r.1 == eea_st(eea_ks(a as int, b as int)).1,
        r.0 * a + r.1 * b == gcd_int(a as int, b as int),
{
    let ghost a0 = a as int;
    let ghost b0 = b as int;
    let mut x = a;
    let mut y = b;
    let mut ks: Vec<i64> = Vec::new();
    let ghost mut ksm: Seq<int> = Seq::empty();
    while y % x != 0
        invariant
            1 <= x < y,
            ks@.len() == ksm.len(),
            forall|i: int| 0 <= i < ksm.len() ==> ks@[i] as int == ksm[i],
            eea_ks(a0, b0) == ksm + eea_ks(x as int, y as int),
            gcd_int(a0, b0) == gcd_int(x as int, y as int),
        decreases x,
    {
        let k = y / x;
        proof {
            lemma_fundamental_div_mod(y as int, x as int);
            assert(eea_ks(x as int, y as int) == seq![y as int / x as int] + eea_ks(
                y as int % x as int,
                x as int,
            ));
            assert((ksm + eea_ks(x as int, y as int)) =~= (ksm.push(y as int / x as int)
                + eea_ks(y as int % x as int, x as int)));
        }
        ks.push(k);
        proof {
            ksm = ksm.push(k as int);
        }
        let x_tmp = x;
        x = y - x * k;
        y = x_tmp;
    }
    proof {
        assert(eea_ks(x as int, y as int) =~= Seq::<int>::empty());
        assert(eea_ks(a0, b0) =~= ksm);
        assert(gcd_int(a0, b0) == x as int);
    }
    let ghost ks_full = ksm;
    let mut s: i64 = 1;
    let mut t: i64 = 0;
    while ks.len() > 0
        invariant
            ks@.len() <= ks_full.len(),
            forall|i: int| 0 <= i < ks@.len() ==> ks@[i] as int == ks_full[i],
            eea_st_in_range(ks_full.subrange(ks@.len() as int, ks_full.len() as int), i64::MIN as int, i64::MAX as int),
            eea_st_in_range(eea_ks(a0, b0), i64::MIN as int, i64::MAX as int),
            eea_ks(a0, b0) == ks_full,
            s as int == eea_st(ks_full.subrange(ks@.len() as int, ks_full.len() as int)).0,
            t as int == eea_st(ks_full.subrange(ks@.len() as int, ks_full.len() as int)).1,
        decreases ks@.len(),
    {
        let ghost j = ks@.len() as int;
        let k = ks.pop().unwrap();
        proof {
            let suffix = ks_full.subrange(j - 1, ks_full.len() as int);
            let rest = ks_full.subrange(j, ks_full.len() as int);
            assert(suffix.subrange(1, suffix.len() as int) =~= rest);
            assert(suffix[0] == ks_full[j - 1]);
            assert(eea_st_in_range(suffix, i64::MIN as int, i64::MAX as int)) by {
                lemma_eea_range_suffix(ks_full, j - 1, i64::MIN as int, i64::MAX as int);
            }
            let st = eea_st(rest);
            assert(i64::MIN as int <= suffix[0] * st.0 <= i64::MAX as int);
            assert(i64::MIN as int <= -(suffix[0] * st.0) <= i64::MAX as int);
            assert(i64::MIN as int <= st.1 - suffix[0] * st.0 <= i64::MAX as int);
            assert(k as int == ks_full[j - 1]);
            assert(s as int == st.0 && t as int == st.1);
            assert(eea_st(suffix) == (st.1 - suffix[0] * st.0, st.0));
        }
        let s_temp = s;
        let prod = k * s;
        s = -prod + t;
        t = s_temp;
    }
    proof {
        assert(ks_full.subrange(0, ks_full.len() as int) =~= ks_full);
        lemma_eea_bezout(a0, b0);
    }
    (s, t)
}

/// A suffix of an in-range quotient run is itself in range.
pub proof fn lemma_eea_range_suffix(ks: Seq<int>, j: int, lo: int, hi: int)
    requires
        0 <= j <= ks.len(),
        eea_st_in_range(ks, lo, hi),
    ensures
        eea_st_in_range(ks.subrange(j, ks.len() as int), lo, hi),
    decreases j,
{
    if j > 0 {
        lemma_eea_range_suffix(ks, j - 1, lo, hi);
        let prev = ks.subrange(j - 1, ks.len() as int);
        assert(prev.subrange(1, prev.len() as int) =~= ks.subrange(j, ks.len() as int));
    } else {
        assert(ks.subrange(0, ks.len() as int) =~= ks);
    }
}

/// The Bezout pair together with every intermediate step: the pairs the
/// descent walks, the quotients, and the back-substitution states from
/// the full pair `(s, t)` down to the seed `(1, 0)`.
pub fn eea_with_steps(a: i64, b: i64) -> (r: (Vec<(i64, i64)>, Vec<i64>, Vec<(i64, i64)>))
    requires
        1 <= a < b,
        eea_st_in_range(eea_ks(a as int, b as int), i64::MIN as int, i64::MAX as int),
    ensures
        r.0@.len() == eea_pairs(a as int, b as int).len(),
        forall|i: int|
            0 <= i < r.0@.len() ==> ((#[trigger] r.0@[i]).0 as int, r.0@[i].1 as int)
                == eea_pairs(a as int, b as int)[i],
        r.1@.len() == eea_ks(a as int, b as int).len(),
        forall|i: int| 0 <= i < r.1@.len() ==> #[trigger] r.1@[i] as int == eea_ks(a as int, b as int)[i],
        r.2@.len() == eea_ks(a as int, b as int).len() + 1,
        forall|i: int|
            0 <= i < r.2@.len() ==> ((#[trigger] r.2@[i]).0 as int, r.2@[i].1 as int) == eea_st(
                eea_ks(a as int, b as int).subrange(i, eea_ks(a as int, b as int).len() as int),
            ),
{
    let ghost a0 = a as int;
    let ghost b0 = b as int;
    let mut x = a;
    let mut y = b;
    let mut ks: Vec<i64> = Vec::new();
    let mut abs: Vec<(i64, i64)> = Vec::new();
    abs.push((a, b));
    let ghost mut ksm: Seq<int> = Seq::empty();
    while y % x != 0
        invariant
            1 <= x < y,
            ks@.len() == ksm.len(),
            forall|i: int| 0 <= i < ksm.len() ==> #[trigger] ks@[i] as int == ksm[i],
            eea_ks(a0, b0) == ksm + eea_ks(x as int, y as int),
            gcd_int(a0, b0) == gcd_int(x as int, y as int),
            abs@.len() == ksm.len() + 1,
            abs@.len() >= 1,
            (abs@.last().0 as int, abs@.last().1 as int) == (x as int, y as int),
            eea_pairs(a0, b0) == Seq::new(
                (abs@.len() - 1) as nat,
                |i: int| ((abs@[i].0 as int, abs@[i].1 as int)),
            ) + eea_pairs(x as int, y as int),
        decreases x,
    {
        let k = y / x;
        proof {
            lemma_fundamental_div_mod(y as int, x as int);
            assert(eea_ks(x as int, y as int) == seq![y as int / x as int] + eea_ks(
                y as int % x as int,
                x as int,
            ));
            assert((ksm + eea_ks(x as int, y as int)) =~= (ksm.push(y as int / x as int)
                + eea_ks(y as int % x as int, x as int)));
            assert(eea_pairs(x as int, y as int) == seq![(x as int, y as int)] + eea_pairs(
                y as int % x as int,
                x as int,
            ));
        }
        ks.push(k);
        proof {
            ksm = ksm.push(k as int);
        }
        let x_tmp = x;
        x = y - x * k;
        y = x_tmp;
        abs.push((x, y));
        proof {
            assert((Seq::new((abs@.len() - 1) as nat, |i: int| ((abs@[i].0 as int, abs@[i].1 as int)))
                + eea_pairs(x as int, y as int)) =~= eea_pairs(a0, b0));
        }
    }
    proof {
        assert(eea_ks(x as int, y as int) =~= Seq::<int>::empty());
        assert(eea_ks(a0, b0) =~= ksm);
        assert(eea_pairs(x as int, y as int) =~= seq![(x as int, y as int)]);
        assert(eea_pairs(a0, b0) =~= Seq::new(
            abs@.len(),
            |i: int| ((abs@[i].0 as int, abs@[i].1 as int)),
        ));
    }
    let ghost ks_full = ksm;
    let mut s: i64 = 1;
    let mut t: i64 = 0;
    let mut sts: Vec<(i64, i64)> = Vec::new();
    sts.push((s, t));
    let mut ks_clone: Vec<i64> = Vec::new();
    for i in 0..ks.len()
        invariant
            ks@.len() == ks_full.len(),
            forall|p: int| 0 <= p < ks_full.len() ==> #[trigger] ks@[p] as int == ks_full[p],
            ks_clone@.len() == i,
            forall|p: int| 0 <= p < i ==> #[trigger] ks_clone@[p] == ks@[p],
    {
        ks_clone.push(ks[i]);
    }
    while ks_clone.len() > 0
        invariant
            ks_clone@.len() <= ks_full.len(),
            forall|i: int| 0 <= i < ks_clone@.len() ==> #[trigger] ks_clone@[i] as int == ks_full[i],
            eea_st_in_range(eea_ks(a0, b0), i64::MIN as int, i64::MAX as int),
            eea_ks(a0, b0) == ks_full,
            s as int == eea_st(
                ks_full.subrange(ks_clone@.len() as int, ks_full.len() as int),
            ).0,
            t as int == eea_st(
                ks_full.subrange(ks_clone@.len() as int, ks_full.len() as int),
            ).1,
            sts@.len() == ks_full.len() - ks_clone@.len() + 1,
            forall|i: int|
                0 <= i < sts@.len() ==> ((#[trigger] sts@[i]).0 as int, sts@[i].1 as int)
                    == eea_st(
                    ks_full.subrange(ks_full.len() - i, ks_full.len() as int),
                ),
        decreases ks_clone@.len(),
    {
        let ghost j = ks_clone@.len() as int;
        let k = ks_clone.pop().unwrap();
        proof {
            let suffix = ks_full.subrange(j - 1, ks_full.len() as int);
            let rest = ks_full.subrange(j, ks_full.len() as int);
            assert(suffix.subrange(1, suffix.len() as int) =~= rest);
            assert(suffix[0] == ks_full[j - 1]);
            assert(eea_st_in_range(suffix, i64::MIN as int, i64::MAX as int)) by {
                lemma_eea_range_suffix(ks_full, j - 1, i64::MIN as int, i64::MAX as int);
            }
            let st = eea_st(rest);
            assert(i64::MIN as int <= suffix[0] * st.0 <= i64::MAX as int);
            assert(i64::MIN as int <= -(suffix[0] * st.0) <= i64::MAX as int);
            assert(i64::MIN as int <= st.1 - suffix[0] * st.0 <= i64::MAX as int);
            assert(k as int == ks_full[j - 1]);
            assert(s as int == st.0 && t as int == st.1);
            assert(eea_st(suffix) == (st.1 - suffix[0] * st.0, st.0));
        }
        let s_temp = s;
        let prod = k * s;
        s = -prod + t;
        t = s_temp;
        sts.push((s, t));
    }
    proof {
        assert(ks_full.subrange(0, ks_full.len() as int) =~= ks_full);
    }
    let mut sts_rev: Vec<(i64, i64)> = Vec::new();
    let ghost sts_orig = sts@;
    while sts.len() > 0
        invariant
            sts@ == sts_orig.subrange(0, sts@.len() as int),
            sts_rev@.len() == sts_orig.len() - sts@.len(),
            forall|i: int|
                0 <= i < sts_rev@.len() ==> #[trigger] sts_rev@[i] == sts_orig[sts_orig.len() - 1
                    - i],
        decreases sts@.len(),
    {
        proof {
            assert(sts@.last() == sts_orig[sts@.len() - 1]);
        }
        let p = sts.pop().unwrap();
        proof {
            assert(sts@ =~= sts_orig.subrange(0, sts@.len() as int));
        }
        sts_rev.push(p);
    }
    proof {
        assert forall|i: int| 0 <= i < sts_rev@.len() implies ((#[trigger] sts_rev@[i]).0 as int, sts_rev@[i].1 as int)
            == eea_st(eea_ks(a0, b0).subrange(i, eea_ks(a0, b0).len() as int)) by {
            assert(sts_rev@[i] == sts_orig[sts_orig.len() - 1 - i]);
        }
    }
    (abs, ks, sts_rev)
}

/// The steps of the algorithm laid out as the five columns of a dynamic
/// matrix: the descending pairs, the quotients closed with a final `-1`,
/// and the two back-substitution tracks.
pub fn eea_as_dmat(a: i64, b: i64) -> (r: DMatrix<i64>)
    requires
        1 <= a < b,
        eea_st_in_range(eea_ks(a as int, b as int), i64::MIN as int, i64::MAX as int),
    ensures
        r.size.1 == 5,
        r.data@.len() == 5,
        r.data@[0]@.len() == eea_pairs(a as int, b as int).len(),
        forall|i: int|
            0 <= i < r.data@[0]@.len() ==> #[trigger] r.data@[0]@[i] as int == eea_pairs(
                a as int,
                b as int,
            )[i].0,
        forall|i: int|
            0 <= i < r.data@[1]@.len() ==> #[trigger] r.data@[1]@[i] as int == eea_pairs(
                a as int,
                b as int,
            )[i].1,
        r.data@[2]@.len() == eea_ks(a as int, b as int).len() + 1,
        forall|i: int|
            0 <= i < r.data@[2]@.len() - 1 ==> #[trigger] r.data@[2]@[i] as int == eea_ks(
                a as int,
                b as int,
            )[i],
        r.data@[2]@.last() == -1,
        forall|i: int|
            0 <= i < r.data@[3]@.len() ==> #[trigger] r.data@[3]@[i] as int == eea_st(
                eea_ks(a as int, b as int).subrange(i, eea_ks(a as int, b as int).len() as int),
            ).0,
        forall|i: int|
            0 <= i < r.data@[4]@.len() ==> #[trigger] r.data@[4]@[i] as int == eea_st(
                eea_ks(a as int, b as int).subrange(i, eea_ks(a as int, b as int).len() as int),
            ).1,
{
    let (abs, mut ks, sts) = eea_with_steps(a, b);
    ks.push(-1);
    let mut a_vec: Vec<i64> = Vec::new();
    let mut b_vec: Vec<i64> = Vec::new();
    for i in 0..abs.len()
        invariant
            a_vec@.len() == i,
            b_vec@.len() == i,
            forall|j: int| 0 <= j < i ==> #[trigger] a_vec@[j] == abs@[j].0,
            forall|j: int| 0 <= j < i ==> #[trigger] b_vec@[j] == abs@[j].1,
    {
        a_vec.push(abs[i].0);
        b_vec.push(abs[i].1);
    }
    let mut s_vec: Vec<i64> = Vec::new();
    let mut t_vec: Vec<i64> = Vec::new();
    for i in 0..sts.len()
        invariant
            s_vec@.len() == i,
            t_vec@.len() == i,
            forall|j: int| 0 <= j < i ==> #[trigger] s_vec@[j] == sts@[j].0,
            forall|j: int| 0 <= j < i ==> #[trigger] t_vec@[j] == sts@[j].1,
    {
        s_vec.push(sts[i].0);
        t_vec.push(sts[i].1);
    }
    let mut data: Vec<Vec<i64>> = Vec::new();
    data.push(a_vec);
    data.push(b_vec);
    data.push(ks);
    data.push(s_vec);
    data.push(t_vec);
    DMatrix::new(data)
}

} // verus!
