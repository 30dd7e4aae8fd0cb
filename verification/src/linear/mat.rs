//! Fixed-size matrices.
//!
//! A `Matrix<T, M, N>` has `M` rows and `N` columns and is stored
//! column-major: `data[n]` is column `n`, holding `M` entries.  The two
//! dimensions are part of the type, so a product can only be formed
//! between conformable matrices; a mismatch is a type error, never a
//! run-time one.

use crate::linear::scalar::Scalar;
use crate::linear::scalar::SignedScalar;
use crate::linear::vec::Vector;
use vstd::prelude::*;

verus! {

/// A matrix with as many rows as columns.
pub type SquareMatrix<T, const N: usize> = Matrix<T, N, N>;

#[derive(Debug, Copy, Clone, PartialEq)]
pub struct Matrix<T, const M: usize, const N: usize> {
    pub data: [[T; M]; N],
}

impl<T, const M: usize, const N: usize> Matrix<T, M, N> {
    /// The entry in row `m` of column `n`.
    pub open spec fn ent(self, m: int, n: int) -> T {
        self.data@[n]@[m]
    }

    pub fn new(data: [[T; M]; N]) -> (r: Self)
        ensures
            r.data == data,
    {
        Self { data }
    }

    /// How many entries the matrix holds.
    pub fn len(&self) -> (r: usize)
        requires
            M * N <= usize::MAX,
        ensures
            r == M * N,
    {
        M * N
    }

    /// The dimensions, rows first.
    pub fn size(&self) -> (r: (usize, usize))
        ensures
            r.0 == M,
            r.1 == N,
    {
        (M, N)
    }
}

/// The running sum of the first `k` products `a[m, i] * b[i, p]`: the
/// contraction that fills entry `(m, p)` of a matrix product.
pub open spec fn prod_prefix<T: Scalar, const M: usize, const N: usize, const P: usize>(
    a: Matrix<T, M, N>,
    b: Matrix<T, N, P>,
    m: int,
    p: int,
    k: int,
) -> T
    decreases k,
{
    if k <= 0 {
        T::zero_spec()
    } else {
        T::add_spec(prod_prefix(a, b, m, p, k - 1), T::mul_spec(a.ent(m, k - 1), b.ent(k - 1, p)))
    }
}

/// Entry `(m, p)` of the matrix product `a * b`.
pub open spec fn prod_entry<T: Scalar, const M: usize, const N: usize, const P: usize>(
    a: Matrix<T, M, N>,
    b: Matrix<T, N, P>,
    m: int,
    p: int,
) -> T {
    prod_prefix(a, b, m, p, N as int)
}

/// The running sum of the first `k` products `a[m, i] * v[i]`.
pub open spec fn mat_vec_prefix<T: Scalar, const M: usize, const N: usize>(
    a: Matrix<T, M, N>,
    v: Vector<T, N>,
    m: int,
    k: int,
) -> T
    decreases k,
{
    if k <= 0 {
        T::zero_spec()
    } else {
        T::add_spec(mat_vec_prefix(a, v, m, k - 1), T::mul_spec(a.ent(m, k - 1), v.data@[k - 1]))
    }
}

/// Entry `m` of the matrix-vector product `a * v`.
pub open spec fn mat_vec_entry<T: Scalar, const M: usize, const N: usize>(
    a: Matrix<T, M, N>,
    v: Vector<T, N>,
    m: int,
) -> T {
    mat_vec_prefix(a, v, m, N as int)
}

impl<T: Copy, const M: usize, const N: usize> Matrix<T, M, N> {
    /// Every entry set to `value`.
    pub fn broadcast(value: T) -> (r: Self)
        ensures
            forall|m: int, n: int| 0 <= m < M && 0 <= n < N ==> r.ent(m, n) == value,
    {
        let col = [value; M];
        Self { data: [col; N] }
    }

    /// The entry in row `m` of column `n`.
    pub fn get(&self, m: usize, n: usize) -> (r: T)
        requires
            m < M,
            n < N,
        ensures
            r == self.ent(m as int, n as int),
    {
        self.data[n][m]
    }

    /// Replace the entry in row `m` of column `n`.
    pub fn put(&mut self, m: usize, n: usize, value: T)
        requires
            m < M,
            n < N,
        ensures
            final (self).ent(m as int, n as int) == value,
            forall|i: int, j: int|
                0 <= i < M && 0 <= j < N && !(i == m && j == n) ==> final (self).ent(i, j) == old(
                    self,
                ).ent(i, j),
    {
        let mut col = self.data[n];
        col[m] = value;
        self.data[n] = col;
    }

    /// The columns of the matrix, each as a plain array.
    pub fn to_vectors(&self) -> (r: [[T; M]; N])
        ensures
            r == self.data,
    {
        self.data
    }
}

impl<T: Scalar, const M: usize, const N: usize> Matrix<T, M, N> {
    /// The matrix with every entry zero.
    pub fn zero() -> (r: Self)
        ensures
            forall|m: int, n: int| 0 <= m < M && 0 <= n < N ==> r.ent(m, n) == T::zero_spec(),
    {
        Self::broadcast(T::zero())
    }

    /// Entrywise sum.
    pub fn add(self, rhs: Self) -> (r: Self)
        ensures
            forall|m: int, n: int|
                0 <= m < M && 0 <= n < N ==> r.ent(m, n) == T::add_spec(
                    self.ent(m, n),
                    rhs.ent(m, n),
                ),
    {
        let mut data = self.data;
        for n in 0..N
            invariant
                forall|i: int, j: int|
                    0 <= i < M && 0 <= j < n ==> data@[j]@[i] == T::add_spec(
                        self.ent(i, j),
                        rhs.ent(i, j),
                    ),
                forall|j: int| n <= j < N ==> data@[j] == self.data@[j],
        {
            let mut col = data[n];
            for m in 0..M
                invariant
                    n < N,
                    forall|i: int|
                        0 <= i < m ==> col@[i] == T::add_spec(self.ent(i, n as int), rhs.ent(i, n as int)),
                    forall|i: int| m <= i < M ==> col@[i] == self.ent(i, n as int),
            {
                col[m] = T::add(self.data[n][m], rhs.data[n][m]);
            }
            data[n] = col;
        }
        Self { data }
    }

    /// Add `rhs` into the matrix.
    pub fn add_assign(&mut self, rhs: Self)
        ensures
            forall|m: int, n: int|
                0 <= m < M && 0 <= n < N ==> final (self).ent(m, n) == T::add_spec(
                    old(self).ent(m, n),
                    rhs.ent(m, n),
                ),
    {
        let other = *self;
        let sum = other.add(rhs);
        *self = sum;
    }

    /// Entrywise difference.
    pub fn sub(self, rhs: Self) -> (r: Self)
        ensures
            forall|m: int, n: int|
                0 <= m < M && 0 <= n < N ==> r.ent(m, n) == T::sub_spec(
                    self.ent(m, n),
                    rhs.ent(m, n),
                ),
    {
        let mut data = self.data;
        for n in 0..N
            invariant
                forall|i: int, j: int|
                    0 <= i < M && 0 <= j < n ==> data@[j]@[i] == T::sub_spec(
                        self.ent(i, j),
                        rhs.ent(i, j),
                    ),
                forall|j: int| n <= j < N ==> data@[j] == self.data@[j],
        {
            let mut col = data[n];
            for m in 0..M
                invariant
                    n < N,
                    forall|i: int|
                        0 <= i < m ==> col@[i] == T::sub_spec(self.ent(i, n as int), rhs.ent(i, n as int)),
                    forall|i: int| m <= i < M ==> col@[i] == self.ent(i, n as int),
            {
                col[m] = T::sub(self.data[n][m], rhs.data[n][m]);
            }
            data[n] = col;
        }
        Self { data }
    }

    /// Subtract `rhs` from the matrix.
    pub fn sub_assign(&mut self, rhs: Self)
        ensures
            forall|m: int, n: int|
                0 <= m < M && 0 <= n < N ==> final (self).ent(m, n) == T::sub_spec(
                    old(self).ent(m, n),
                    rhs.ent(m, n),
                ),
    {
        let other = *self;
        let diff = other.sub(rhs);
        *self = diff;
    }

    /// The matrix product: entry `(m, p)` is the contraction of row `m`
    /// of `self` with column `p` of `rhs`.
    pub fn mul<const P: usize>(self, rhs: Matrix<T, N, P>) -> (r: Matrix<T, M, P>)
        ensures
            forall|m: int, p: int|
                0 <= m < M && 0 <= p < P ==> r.ent(m, p) == prod_entry(self, rhs, m, p),
    {
        let zcol = [T::zero(); M];
        let mut data = [zcol; P];
        for p in 0..P
            invariant
                forall|i: int, j: int|
                    0 <= i < M && 0 <= j < p ==> data@[j]@[i] == prod_entry(self, rhs, i, j),
        {
            let mut col = [T::zero(); M];
            for m in 0..M
                invariant
                    p < P,
                    forall|i: int| 0 <= i < m ==> col@[i] == prod_entry(self, rhs, i, p as int),
            {
                let mut acc = T::zero();
                for n in 0..N
                    invariant
                        p < P,
                        m < M,
                        acc == prod_prefix(self, rhs, m as int, p as int, n as int),
                {
                    acc = T::add(acc, T::mul(self.data[n][m], rhs.data[p][n]));
                }
                col[m] = acc;
            }
            data[p] = col;
        }
        let r = Matrix::<T, M, P> { data };
        proof {
            assert forall|m: int, p: int| 0 <= m < M && 0 <= p < P implies r.ent(m, p)
                == prod_entry(self, rhs, m, p) by {
                assert(r.data@[p]@[m] == prod_entry(self, rhs, m, p));
            }
        }
        r
    }

    /// The matrix applied to a column vector.
    pub fn mul_vec(self, rhs: Vector<T, N>) -> (r: Vector<T, M>)
        ensures
            forall|m: int| 0 <= m < M ==> r.data@[m] == mat_vec_entry(self, rhs, m),
    {
        let mut data = [T::zero(); M];
        for m in 0..M
            invariant
                forall|i: int| 0 <= i < m ==> data@[i] == mat_vec_entry(self, rhs, i),
        {
            let mut acc = T::zero();
            for n in 0..N
                invariant
                    m < M,
                    acc == mat_vec_prefix(self, rhs, m as int, n as int),
            {
                acc = T::add(acc, T::mul(self.data[n][m], rhs.data[n]));
            }
            data[m] = acc;
        }
        Vector::<T, M> { data }
    }

    /// Scale every entry by `rhs`.
    pub fn mul_scalar(self, rhs: T) -> (r: Self)
        ensures
            forall|m: int, n: int|
                0 <= m < M && 0 <= n < N ==> r.ent(m, n) == T::mul_spec(self.ent(m, n), rhs),
    {
        let mut data = self.data;
        for n in 0..N
            invariant
                forall|i: int, j: int|
                    0 <= i < M && 0 <= j < n ==> data@[j]@[i] == T::mul_spec(self.ent(i, j), rhs),
                forall|j: int| n <= j < N ==> data@[j] == self.data@[j],
        {
            let mut col = data[n];
            for m in 0..M
                invariant
                    n < N,
                    forall|i: int| 0 <= i < m ==> col@[i] == T::mul_spec(self.ent(i, n as int), rhs),
                    forall|i: int| m <= i < M ==> col@[i] == self.ent(i, n as int),
            {
                col[m] = T::mul(self.data[n][m], rhs);
            }
            data[n] = col;
        }
        Self { data }
    }

    /// Scale the matrix in place.
    pub fn mul_assign_scalar(&mut self, rhs: T)
        ensures
            forall|m: int, n: int|
                0 <= m < M && 0 <= n < N ==> final (self).ent(m, n) == T::mul_spec(
                    old(self).ent(m, n),
                    rhs,
                ),
    {
        let other = *self;
        *self = other.mul_scalar(rhs);
    }

    /// Divide every entry by `rhs`.
    pub fn div_scalar(self, rhs: T) -> (r: Self)
        requires
            forall|m: int, n: int| 0 <= m < M && 0 <= n < N ==> T::div_ok(self.ent(m, n), rhs),
        ensures
            forall|m: int, n: int|
                0 <= m < M && 0 <= n < N ==> r.ent(m, n) == T::div_spec(self.ent(m, n), rhs),
    {
        let mut data = self.data;
        for n in 0..N
            invariant
                forall|i: int, j: int|
                    0 <= i < M && 0 <= j < N ==> T::div_ok(self.ent(i, j), rhs),
                forall|i: int, j: int|
                    0 <= i < M && 0 <= j < n ==> data@[j]@[i] == T::div_spec(self.ent(i, j), rhs),
                forall|j: int| n <= j < N ==> data@[j] == self.data@[j],
        {
            let mut col = data[n];
            for m in 0..M
                invariant
                    n < N,
                    forall|i: int, j: int|
                        0 <= i < M && 0 <= j < N ==> T::div_ok(self.ent(i, j), rhs),
                    forall|i: int| 0 <= i < m ==> col@[i] == T::div_spec(self.ent(i, n as int), rhs),
                    forall|i: int| m <= i < M ==> col@[i] == self.ent(i, n as int),
            {
                col[m] = T::div(col[m], rhs);
            }
            data[n] = col;
        }
        Self { data }
    }

    /// Divide the matrix by `rhs` in place.
    pub fn div_assign_scalar(&mut self, rhs: T)
        requires
            forall|m: int, n: int|
                0 <= m < M && 0 <= n < N ==> T::div_ok(old(self).ent(m, n), rhs),
        ensures
            forall|m: int, n: int|
                0 <= m < M && 0 <= n < N ==> final (self).ent(m, n) == T::div_spec(
                    old(self).ent(m, n),
                    rhs,
                ),
    {
        let other = *self;
        *self = other.div_scalar(rhs);
    }

    /// The remainder of every entry by `rhs`.
    pub fn rem_scalar(self, rhs: T) -> (r: Self)
        requires
            forall|m: int, n: int| 0 <= m < M && 0 <= n < N ==> T::div_ok(self.ent(m, n), rhs),
        ensures
            forall|m: int, n: int|
                0 <= m < M && 0 <= n < N ==> r.ent(m, n) == T::rem_spec(self.ent(m, n), rhs),
    {
        let mut data = self.data;
        for n in 0..N
            invariant
                forall|i: int, j: int|
                    0 <= i < M && 0 <= j < N ==> T::div_ok(self.ent(i, j), rhs),
                forall|i: int, j: int|
                    0 <= i < M && 0 <= j < n ==> data@[j]@[i] == T::rem_spec(self.ent(i, j), rhs),
                forall|j: int| n <= j < N ==> data@[j] == self.data@[j],
        {
            let mut col = data[n];
            for m in 0..M
                invariant
                    n < N,
                    forall|i: int, j: int|
                        0 <= i < M && 0 <= j < N ==> T::div_ok(self.ent(i, j), rhs),
                    forall|i: int| 0 <= i < m ==> col@[i] == T::rem_spec(self.ent(i, n as int), rhs),
                    forall|i: int| m <= i < M ==> col@[i] == self.ent(i, n as int),
            {
                col[m] = T::rem(col[m], rhs);
            }
            data[n] = col;
        }
        Self { data }
    }

    /// The remainder of the matrix by `rhs`, in place.
    pub fn rem_assign_scalar(&mut self, rhs: T)
        requires
            forall|m: int, n: int|
                0 <= m < M && 0 <= n < N ==> T::div_ok(old(self).ent(m, n), rhs),
        ensures
            forall|m: int, n: int|
                0 <= m < M && 0 <= n < N ==> final (self).ent(m, n) == T::rem_spec(
                    old(self).ent(m, n),
                    rhs,
                ),
    {
        let other = *self;
        *self = other.rem_scalar(rhs);
    }

    /// Replace every entry by its absolute value.
    pub fn abs(&mut self)
        requires
            forall|m: int, n: int| 0 <= m < M && 0 <= n < N ==> T::abs_ok(old(self).ent(m, n)),
        ensures
            forall|m: int, n: int|
                0 <= m < M && 0 <= n < N ==> final (self).ent(m, n) == T::abs_spec(
                    old(self).ent(m, n),
                ),
    {
        let old_self = *self;
        let mut data = self.data;
        for n in 0..N
            invariant
                forall|i: int, j: int|
                    0 <= i < M && 0 <= j < N ==> T::abs_ok(old_self.ent(i, j)),
                forall|i: int, j: int|
                    0 <= i < M && 0 <= j < n ==> data@[j]@[i] == T::abs_spec(old_self.ent(i, j)),
                forall|j: int| n <= j < N ==> data@[j] == old_self.data@[j],
        {
            let mut col = data[n];
            for m in 0..M
                invariant
                    n < N,
                    forall|i: int, j: int|
                        0 <= i < M && 0 <= j < N ==> T::abs_ok(old_self.ent(i, j)),
                    forall|i: int| 0 <= i < m ==> col@[i] == T::abs_spec(old_self.ent(i, n as int)),
                    forall|i: int| m <= i < M ==> col@[i] == old_self.ent(i, n as int),
            {
                col[m] = T::abs(col[m]);
            }
            data[n] = col;
        }
        self.data = data;
    }

    /// A copy with every entry replaced by its absolute value.
    pub fn abs_copy(&self) -> (r: Self)
        requires
            forall|m: int, n: int| 0 <= m < M && 0 <= n < N ==> T::abs_ok(self.ent(m, n)),
        ensures
            forall|m: int, n: int|
                0 <= m < M && 0 <= n < N ==> r.ent(m, n) == T::abs_spec(self.ent(m, n)),
    {
        let mut mat = *self;
        mat.abs();
        mat
    }

    /// Clamp each entry from below by `min` and from above by `max`.
    pub fn clamp(&mut self, min: Self, max: Self)
        ensures
            forall|m: int, n: int|
                0 <= m < M && 0 <= n < N ==> final (self).ent(m, n) == T::min_spec(
                    T::max_spec(old(self).ent(m, n), min.ent(m, n)),
                    max.ent(m, n),
                ),
    {
        let old_self = *self;
        let mut data = self.data;
        for n in 0..N
            invariant
                forall|i: int, j: int|
                    0 <= i < M && 0 <= j < n ==> data@[j]@[i] == T::min_spec(
                        T::max_spec(old_self.ent(i, j), min.ent(i, j)),
                        max.ent(i, j),
                    ),
                forall|j: int| n <= j < N ==> data@[j] == old_self.data@[j],
        {
            let mut col = data[n];
            for m in 0..M
                invariant
                    n < N,
                    forall|i: int|
                        0 <= i < m ==> col@[i] == T::min_spec(
                            T::max_spec(old_self.ent(i, n as int), min.ent(i, n as int)),
                            max.ent(i, n as int),
                        ),
                    forall|i: int| m <= i < M ==> col@[i] == old_self.ent(i, n as int),
            {
                col[m] = T::min_val(T::max_val(col[m], min.data[n][m]), max.data[n][m]);
            }
            data[n] = col;
        }
        self.data = data;
    }

    /// The entrywise larger of the two matrices.
    pub fn max_by_component(&self, other: &Self) -> (r: Self)
        ensures
            forall|m: int, n: int|
                0 <= m < M && 0 <= n < N ==> r.ent(m, n) == T::max_spec(
                    self.ent(m, n),
                    other.ent(m, n),
                ),
    {
        let mut data = self.data;
        for n in 0..N
            invariant
                forall|i: int, j: int|
                    0 <= i < M && 0 <= j < n ==> data@[j]@[i] == T::max_spec(
                        self.ent(i, j),
                        other.ent(i, j),
                    ),
                forall|j: int| n <= j < N ==> data@[j] == self.data@[j],
        {
            let mut col = data[n];
            for m in 0..M
                invariant
                    n < N,
                    forall|i: int|
                        0 <= i < m ==> col@[i] == T::max_spec(self.ent(i, n as int), other.ent(i, n as int)),
                    forall|i: int| m <= i < M ==> col@[i] == self.ent(i, n as int),
            {
                col[m] = T::max_val(col[m], other.data[n][m]);
            }
            data[n] = col;
        }
        Self { data }
    }

    /// The entrywise smaller of the two matrices.
    pub fn min_by_component(&self, other: &Self) -> (r: Self)
        ensures
            forall|m: int, n: int|
                0 <= m < M && 0 <= n < N ==> r.ent(m, n) == T::min_spec(
                    self.ent(m, n),
                    other.ent(m, n),
                ),
    {
        let mut data = self.data;
        for n in 0..N
            invariant
                forall|i: int, j: int|
                    0 <= i < M && 0 <= j < n ==> data@[j]@[i] == T::min_spec(
                        self.ent(i, j),
                        other.ent(i, j),
                    ),
                forall|j: int| n <= j < N ==> data@[j] == self.data@[j],
        {
            let mut col = data[n];
            for m in 0..M
                invariant
                    n < N,
                    forall|i: int|
                        0 <= i < m ==> col@[i] == T::min_spec(self.ent(i, n as int), other.ent(i, n as int)),
                    forall|i: int| m <= i < M ==> col@[i] == self.ent(i, n as int),
            {
                col[m] = T::min_val(col[m], other.data[n][m]);
            }
            data[n] = col;
        }
        Self { data }
    }

    /// Apply `f` to every entry, returning the image matrix.
    pub fn map<F: Fn(T) -> T>(&self, f: F) -> (r: Self)
        requires
            forall|m: int, n: int| 0 <= m < M && 0 <= n < N ==> f.requires((self.ent(m, n),)),
        ensures
            forall|m: int, n: int|
                0 <= m < M && 0 <= n < N ==> f.ensures((self.ent(m, n),), r.ent(m, n)),
    {
        let mut data = self.data;
        for n in 0..N
            invariant
                forall|i: int, j: int|
                    0 <= i < M && 0 <= j < N ==> f.requires((self.ent(i, j),)),
                forall|i: int, j: int|
                    0 <= i < M && 0 <= j < n ==> f.ensures((self.ent(i, j),), data@[j]@[i]),
                forall|j: int| n <= j < N ==> data@[j] == self.data@[j],
        {
            let mut col = data[n];
            for m in 0..M
                invariant
                    n < N,
                    forall|i: int, j: int|
                        0 <= i < M && 0 <= j < N ==> f.requires((self.ent(i, j),)),
                    forall|i: int| 0 <= i < m ==> f.ensures((self.ent(i, n as int),), col@[i]),
                    forall|i: int| m <= i < M ==> col@[i] == self.ent(i, n as int),
            {
                col[m] = f(col[m]);
            }
            data[n] = col;
        }
        Self { data }
    }

    /// Apply `f` to every entry in place.
    pub fn apply<F: Fn(T) -> T>(&mut self, f: F)
        requires
            forall|m: int, n: int| 0 <= m < M && 0 <= n < N ==> f.requires((old(self).ent(m, n),)),
        ensures
            forall|m: int, n: int|
                0 <= m < M && 0 <= n < N ==> f.ensures(
                    (old(self).ent(m, n),),
                    final (self).ent(m, n),
                ),
    {
        let other = *self;
        *self = other.map(f);
    }
}

impl<T: SignedScalar, const M: usize, const N: usize> Matrix<T, M, N> {
    /// Negate every entry.
    pub fn neg(self) -> (r: Self)
        ensures
            forall|m: int, n: int|
                0 <= m < M && 0 <= n < N ==> r.ent(m, n) == T::neg_spec(self.ent(m, n)),
    {
        let mut data = self.data;
        for n in 0..N
            invariant
                forall|i: int, j: int|
                    0 <= i < M && 0 <= j < n ==> data@[j]@[i] == T::neg_spec(self.ent(i, j)),
                forall|j: int| n <= j < N ==> data@[j] == self.data@[j],
        {
            let mut col = data[n];
            for m in 0..M
                invariant
                    n < N,
                    forall|i: int| 0 <= i < m ==> col@[i] == T::neg_spec(self.ent(i, n as int)),
                    forall|i: int| m <= i < M ==> col@[i] == self.ent(i, n as int),
            {
                col[m] = T::neg(col[m]);
            }
            data[n] = col;
        }
        Self { data }
    }
}

impl<T, const M: usize, const N: usize> From<[[T; M]; N]> for Matrix<T, M, N> {
    fn from(rhs: [[T; M]; N]) -> (r: Self) {
        Self { data: rhs }
    }
}

impl<T, const M: usize, const N: usize> vstd::std_specs::convert::FromSpecImpl<[[T; M]; N]> for Matrix<T, M, N> {
    open spec fn obeys_from_spec() -> bool {
        true
    }

    open spec fn from_spec(rhs: [[T; M]; N]) -> Self {
        Matrix { data: rhs }
    }
}

impl<T, const M: usize> From<Vector<T, M>> for Matrix<T, M, 1> {
    fn from(rhs: Vector<T, M>) -> (r: Self) {
        Self { data: [rhs.data] }
    }
}

impl<T, const M: usize> vstd::std_specs::convert::FromSpecImpl<Vector<T, M>> for Matrix<T, M, 1> {
    open spec fn obeys_from_spec() -> bool {
        true
    }

    open spec fn from_spec(rhs: Vector<T, M>) -> Self {
        Matrix { data: [rhs.data] }
    }
}

impl<T: Copy, const N: usize> From<Matrix<T, N, 1>> for Vector<T, N> {
    fn from(rhs: Matrix<T, N, 1>) -> (r: Self) {
        Self { data: rhs.data[0] }
    }
}

impl<T: Copy, const N: usize> vstd::std_specs::convert::FromSpecImpl<Matrix<T, N, 1>> for Vector<T, N> {
    open spec fn obeys_from_spec() -> bool {
        true
    }

    open spec fn from_spec(rhs: Matrix<T, N, 1>) -> Self {
        Vector { data: rhs.data@[0] }
    }
}

/// Matrices that agree entry for entry are the same matrix.
pub proof fn lemma_matrix_entrywise_eq<T, const M: usize, const N: usize>(
    m1: Matrix<T, M, N>,
    m2: Matrix<T, M, N>,
)
    requires
        forall|i: int, j: int| 0 <= i < M && 0 <= j < N ==> m1.ent(i, j) == m2.ent(i, j),
    ensures
        m1 == m2,
{
    broadcast use vstd::array::group_array_axioms;

    assert forall|j: int| 0 <= j < N implies m1.data@[j] == m2.data@[j] by {
        assert forall|i: int| 0 <= i < M implies m1.data@[j]@[i] == m2.data@[j]@[i] by {
            assert(m1.ent(i, j) == m2.ent(i, j));
        }
        assert(m1.data@[j] =~= m2.data@[j]);
    }
    assert(m1.data =~= m2.data);
}

impl<T: Scalar, const N: usize> Matrix<T, N, N> {
    /// The identity matrix: one on the diagonal, zero elsewhere.
    pub fn new_identity() -> (r: Self)
        ensures
            forall|i: int| 0 <= i < N ==> r.ent(i, i) == T::one_spec(),
            forall|m: int, n: int|
                0 <= m < N && 0 <= n < N && m != n ==> r.ent(m, n) == T::zero_spec(),
    {
        let zcol = [T::zero(); N];
        let mut data = [zcol; N];
        for n in 0..N
            invariant
                forall|j: int| 0 <= j < n ==> data@[j]@[j] == T::one_spec(),
                forall|i: int, j: int|
                    0 <= i < N && 0 <= j < n && i != j ==> data@[j]@[i] == T::zero_spec(),
                forall|i: int, j: int| 0 <= i < N && n <= j < N ==> data@[j]@[i] == T::zero_spec(),
        {
            let mut col = data[n];
            col[n] = T::one();
            data[n] = col;
        }
        Self { data }
    }
}

} // verus!
