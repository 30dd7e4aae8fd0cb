//! The extended Euclidean algorithm under its long names.

use crate::linear::dynamic::DMatrix;
use crate::number_theory::euclid::eea;
use crate::number_theory::euclid::eea_as_dmat;
use crate::number_theory::euclid::eea_ks;
use crate::number_theory::euclid::eea_pairs;
use crate::number_theory::euclid::eea_st;
use crate::number_theory::euclid::eea_st_in_range;
use crate::number_theory::euclid::eea_with_steps;
use crate::number_theory::euclid::gcd_int;
use vstd::prelude::*;

verus! {

/// The Bezout pair `(s, t)` with `s * a + t * b == gcd(a, b)`.
pub fn extended_euclidean_algorithm(a: i64, b: i64) -> (r: (i64, i64))
    requires
        1 <= a < b,
        eea_st_in_range(eea_ks(a as int, b as int), i64::MIN as int, i64::MAX as int),
    ensures
        r.0 == eea_st(eea_ks(a as int, b as int)).0,
        r.1 == eea_st(eea_ks(a as int, b as int)).1,
        r.0 * a + r.1 * b == gcd_int(a as int, b as int),
{
    eea(a, b)
}

/// The Bezout pair together with every step of the descent and of the
/// back-substitution.
pub fn extended_euclidean_algorithm_with_steps(a: i64, b: i64) -> (r: (
    Vec<(i64, i64)>,
    Vec<i64>,
    Vec<(i64, i64)>,
))
    requires
        1 <= a < b,
        eea_st_in_range(eea_ks(a as int, b as int), i64::MIN as int, i64::MAX as int),
    ensures
        r.0@.len() == eea_pairs(a as int, b as int).len(),
        forall|i: int|
            0 <= i < r.0@.len() ==> ((#[trigger] r.0@[i]).0 as int, r.0@[i].1 as int)
                == eea_pairs(a as int, b as int)[i],
        r.1@.len() == eea_ks(a as int, b as int).len(),
        forall|i: int|
            0 <= i < r.1@.len() ==> #[trigger] r.1@[i] as int == eea_ks(a as int, b as int)[i],
        r.2@.len() == eea_ks(a as int, b as int).len() + 1,
        forall|i: int|
            0 <= i < r.2@.len() ==> ((#[trigger] r.2@[i]).0 as int, r.2@[i].1 as int) == eea_st(
                eea_ks(a as int, b as int).subrange(i, eea_ks(a as int, b as int).len() as int),
            ),
{
    eea_with_steps(a, b)
}

/// The steps of the algorithm as the five columns of a dynamic matrix.
pub fn extended_euclidean_as_dmatrix(a: i64, b: i64) -> (r: DMatrix<i64>)
    requires
        1 <= a < b,
        eea_st_in_range(eea_ks(a as int, b as int), i64::MIN as int, i64::MAX as int),
    ensures
        r.size.1 == 5,
        r.data@.len() == 5,
        r.data@[0]@.len() == eea_pairs(a as int, b as int).len(),
        forall|i: int|
            0 <= i < r.data@[0]@.len() ==> #[trigger] r.data@[0]@[i] as int == eea_pairs(
                a as int,
                b as int,
            )[i].0,
        forall|i: int|
            0 <= i < r.data@[1]@.len() ==> #[trigger] r.data@[1]@[i] as int == eea_pairs(
                a as int,
                b as int,
            )[i].1,
        r.data@[2]@.len() == eea_ks(a as int, b as int).len() + 1,
        forall|i: int|
            0 <= i < r.data@[2]@.len() - 1 ==> #[trigger] r.data@[2]@[i] as int == eea_ks(
                a as int,
                b as int,
            )[i],
        r.data@[2]@.last() == -1,
        forall|i: int|
            0 <= i < r.data@[3]@.len() ==> #[trigger] r.data@[3]@[i] as int == eea_st(
                eea_ks(a as int, b as int).subrange(i, eea_ks(a as int, b as int).len() as int),
            ).0,
        forall|i: int|
            0 <= i < r.data@[4]@.len() ==> #[trigger] r.data@[4]@[i] as int == eea_st(
                eea_ks(a as int, b as int).subrange(i, eea_ks(a as int, b as int).len() as int),
            ).1,
{
    eea_as_dmat(a, b)
}

} // verus!
