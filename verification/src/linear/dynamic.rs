//! Heap-backed vectors and matrices whose sizes are run-time values.
//!
//! Unlike `Vector` and `Matrix`, the dimensions here are ordinary data,
//! so conformability is a precondition rather than a type-level fact.
//! `DMatrix` keeps its entries column-major: `data[n]` is column `n`.

use crate::linear::scalar::Scalar;
use crate::linear::vec::dot_prefix;
use crate::linear::vec::dot_seq;
use vstd::prelude::*;

verus! {

#[derive(Debug, Clone)]
pub struct DVector<T> {
    pub data: Vec<T>,
    pub len: usize,
}

impl<T> DVector<T> {
    /// The stored length agrees with the data.
    pub open spec fn wf(&self) -> bool {
        self.len == self.data.len()
    }

    pub fn new(data: Vec<T>) -> (r: Self)
        ensures
            r.data == data,
            r.len == data.len(),
            r.wf(),
    {
        let len = data.len();
        Self { data, len }
    }
}

impl<T: Scalar> DVector<T> {
    /// A vector of `size` zeros.
    pub fn default_with_size(size: usize) -> (r: Self)
        ensures
            r.len == size,
            r.wf(),
            forall|i: int| 0 <= i < size ==> r.data@[i] == T::zero_spec(),
    {
        let mut data: Vec<T> = Vec::new();
        for i in 0..size
            invariant
                data.len() == i,
                forall|j: int| 0 <= j < i ==> data@[j] == T::zero_spec(),
        {
            data.push(T::zero());
        }
        DVector { data, len: size }
    }

    /// The sum of componentwise products; the lengths must agree.
    pub fn dot(&self, other: Self) -> (r: T)
        requires
            self.wf(),
            other.wf(),
            self.len == other.len,
        ensures
            r == dot_seq(self.data@, other.data@),
    {
        let mut sum = T::zero();
        for i in 0..self.len
            invariant
                self.wf(),
                other.wf(),
                self.len == other.len,
                sum == dot_prefix(self.data@, other.data@, i as int),
        {
            sum = T::add(sum, T::mul(self.data[i], other.data[i]));
        }
        sum
    }

    /// Componentwise sum; the lengths must agree.
    pub fn add(self, rhs: Self) -> (r: Self)
        requires
            self.wf(),
            rhs.wf(),
            self.len == rhs.len,
        ensures
            r.wf(),
            r.len == self.len,
            forall|i: int|
                0 <= i < self.len ==> r.data@[i] == T::add_spec(self.data@[i], rhs.data@[i]),
    {
        let mut data: Vec<T> = Vec::new();
        for i in 0..self.len
            invariant
                self.wf(),
                rhs.wf(),
                self.len == rhs.len,
                data.len() == i,
                forall|j: int|
                    0 <= j < i ==> data@[j] == T::add_spec(self.data@[j], rhs.data@[j]),
        {
            data.push(T::add(self.data[i], rhs.data[i]));
        }
        let len = self.len;
        Self { data, len }
    }

    /// Add `rhs` into the vector.
    pub fn add_assign(&mut self, rhs: Self)
        requires
            old(self).wf(),
            rhs.wf(),
            old(self).len == rhs.len,
        ensures
            final (self).wf(),
            final (self).len == old(self).len,
            forall|i: int|
                0 <= i < old(self).len ==> final (self).data@[i] == T::add_spec(
                    old(self).data@[i],
                    rhs.data@[i],
                ),
    {
        let n = self.len;
        for i in 0..n
            invariant
                self.wf(),
                rhs.wf(),
                self.len == n,
                n == rhs.len,
                forall|j: int|
                    0 <= j < i ==> self.data@[j] == T::add_spec(old(self).data@[j], rhs.data@[j]),
                forall|j: int| i <= j < n ==> self.data@[j] == old(self).data@[j],
        {
            let v = T::add(self.data[i], rhs.data[i]);
            self.data.set(i, v);
        }
    }

    /// Componentwise difference; the lengths must agree.
    pub fn sub(self, rhs: Self) -> (r: Self)
        requires
            self.wf(),
            rhs.wf(),
            self.len == rhs.len,
        ensures
            r.wf(),
            r.len == self.len,
            forall|i: int|
                0 <= i < self.len ==> r.data@[i] == T::sub_spec(self.data@[i], rhs.data@[i]),
    {
        let mut data: Vec<T> = Vec::new();
        for i in 0..self.len
            invariant
                self.wf(),
                rhs.wf(),
                self.len == rhs.len,
                data.len() == i,
                forall|j: int|
                    0 <= j < i ==> data@[j] == T::sub_spec(self.data@[j], rhs.data@[j]),
        {
            data.push(T::sub(self.data[i], rhs.data[i]));
        }
        let len = self.len;
        Self { data, len }
    }

    /// Subtract `rhs` from the vector.
    pub fn sub_assign(&mut self, rhs: Self)
        requires
            old(self).wf(),
            rhs.wf(),
            old(self).len == rhs.len,
        ensures
            final (self).wf(),
            final (self).len == old(self).len,
            forall|i: int|
                0 <= i < old(self).len ==> final (self).data@[i] == T::sub_spec(
                    old(self).data@[i],
                    rhs.data@[i],
                ),
    {
        let n = self.len;
        for i in 0..n
            invariant
                self.wf(),
                rhs.wf(),
                self.len == n,
                n == rhs.len,
                forall|j: int|
                    0 <= j < i ==> self.data@[j] == T::sub_spec(old(self).data@[j], rhs.data@[j]),
                forall|j: int| i <= j < n ==> self.data@[j] == old(self).data@[j],
        {
            let v = T::sub(self.data[i], rhs.data[i]);
            self.data.set(i, v);
        }
    }
}

#[derive(Debug)]
pub struct DMatrix<T> {
    pub data: Vec<Vec<T>>,
    pub size: (usize, usize),
}

/// The columns of a run of heap-backed columns, each as a sequence.
pub open spec fn cols_of<T>(data: Seq<Vec<T>>) -> Seq<Seq<T>> {
    Seq::new(data.len(), |i: int| data[i]@)
}

/// The running contraction filling entry `(m, p)` of a product of
/// dynamic matrices.
pub open spec fn dprod_prefix<T: Scalar>(a: Seq<Seq<T>>, b: Seq<Seq<T>>, m: int, p: int, k: int) -> T
    decreases k,
{
    if k <= 0 {
        T::zero_spec()
    } else {
        T::add_spec(dprod_prefix(a, b, m, p, k - 1), T::mul_spec(a[k - 1][m], b[p][k - 1]))
    }
}

impl<T> DMatrix<T> {
    /// The stored size agrees with the data: `size.1` columns, each of
    /// `size.0` rows.
    pub open spec fn wf(&self) -> bool {
        self.size.1 == self.data.len() && forall|i: int|
            0 <= i < self.data.len() ==> (#[trigger] self.data@[i]).len() == self.size.0
    }

    /// The columns of the matrix, as sequences.
    pub open spec fn cols(&self) -> Seq<Seq<T>> {
        cols_of(self.data@)
    }

    /// Wrap columns; the recorded row count is the first column's
    /// length, or zero when there are no columns.
    pub fn new(data: Vec<Vec<T>>) -> (r: Self)
        ensures
            r.data == data,
            r.size.1 == data.len(),
            data.len() == 0 ==> r.size.0 == 0,
            data.len() > 0 ==> r.size.0 == data@[0].len(),
    {
        let mut size: (usize, usize) = (0, 0);
        size.1 = data.len();
        if data.len() != 0 {
            size.0 = data[0].len();
        }
        Self { data, size }
    }
}

impl<T: Scalar> DMatrix<T> {
    /// A matrix of zeros with `size.0` rows and `size.1` columns.
    pub fn default_with_size(size: (usize, usize)) -> (r: Self)
        ensures
            r.wf(),
            r.size == size,
            forall|m: int, n: int|
                0 <= m < size.0 && 0 <= n < size.1 ==> r.cols()[n][m] == T::zero_spec(),
    {
        let mut data: Vec<Vec<T>> = Vec::new();
        for n in 0..size.1
            invariant
                data.len() == n,
                forall|j: int| 0 <= j < n ==> (#[trigger] data@[j]).len() == size.0,
                forall|m: int, j: int|
                    0 <= m < size.0 && 0 <= j < n ==> #[trigger] data@[j]@[m]
                        == T::zero_spec(),
        {
            let mut col: Vec<T> = Vec::new();
            for m in 0..size.0
                invariant
                    col.len() == m,
                    forall|i: int| 0 <= i < m ==> col@[i] == T::zero_spec(),
            {
                col.push(T::zero());
            }
            data.push(col);
        }
        Self { data, size }
    }

    /// Entrywise sum; the sizes must agree.
    pub fn add(self, rhs: Self) -> (r: Self)
        requires
            self.wf(),
            rhs.wf(),
            self.size == rhs.size,
        ensures
            r.wf(),
            r.size == self.size,
            forall|m: int, n: int|
                0 <= m < self.size.0 && 0 <= n < self.size.1 ==> r.cols()[n][m] == T::add_spec(
                    self.cols()[n][m],
                    rhs.cols()[n][m],
                ),
    {
        let mut data: Vec<Vec<T>> = Vec::new();
        for n in 0..self.size.1
            invariant
                self.wf(),
                rhs.wf(),
                self.size == rhs.size,
                data.len() == n,
                forall|j: int| 0 <= j < n ==> (#[trigger] data@[j]).len() == self.size.0,
                forall|m: int, j: int|
                    0 <= m < self.size.0 && 0 <= j < n ==> #[trigger] data@[j]@[m]
                        == T::add_spec(self.cols()[j][m], rhs.cols()[j][m]),
        {
            let mut col: Vec<T> = Vec::new();
            for m in 0..self.size.0
                invariant
                    n < self.size.1,
                    self.wf(),
                    rhs.wf(),
                    self.size == rhs.size,
                    col.len() == m,
                    forall|i: int|
                        0 <= i < m ==> col@[i] == T::add_spec(
                            self.cols()[n as int][i],
                            rhs.cols()[n as int][i],
                        ),
            {
                col.push(T::add(self.data[n][m], rhs.data[n][m]));
            }
            data.push(col);
        }
        let size = self.size;
        Self { data, size }
    }

    /// Entrywise difference; the sizes must agree.
    pub fn sub(self, rhs: Self) -> (r: Self)
        requires
            self.wf(),
            rhs.wf(),
            self.size == rhs.size,
        ensures
            r.wf(),
            r.size == self.size,
            forall|m: int, n: int|
                0 <= m < self.size.0 && 0 <= n < self.size.1 ==> r.cols()[n][m] == T::sub_spec(
                    self.cols()[n][m],
                    rhs.cols()[n][m],
                ),
    {
        let mut data: Vec<Vec<T>> = Vec::new();
        for n in 0..self.size.1
            invariant
                self.wf(),
                rhs.wf(),
                self.size == rhs.size,
                data.len() == n,
                forall|j: int| 0 <= j < n ==> (#[trigger] data@[j]).len() == self.size.0,
                forall|m: int, j: int|
                    0 <= m < self.size.0 && 0 <= j < n ==> #[trigger] data@[j]@[m]
                        == T::sub_spec(self.cols()[j][m], rhs.cols()[j][m]),
        {
            let mut col: Vec<T> = Vec::new();
            for m in 0..self.size.0
                invariant
                    n < self.size.1,
                    self.wf(),
                    rhs.wf(),
                    self.size == rhs.size,
                    col.len() == m,
                    forall|i: int|
                        0 <= i < m ==> col@[i] == T::sub_spec(
                            self.cols()[n as int][i],
                            rhs.cols()[n as int][i],
                        ),
            {
                col.push(T::sub(self.data[n][m], rhs.data[n][m]));
            }
            data.push(col);
        }
        let size = self.size;
        Self { data, size }
    }

    /// Add `rhs` into the matrix.
    pub fn add_assign(&mut self, rhs: Self)
        requires
            old(self).wf(),
            rhs.wf(),
            old(self).size == rhs.size,
        ensures
            final (self).wf(),
            final (self).size == old(self).size,
            forall|m: int, n: int|
                0 <= m < old(self).size.0 && 0 <= n < old(self).size.1 ==> final (
                self).cols()[n][m] == T::add_spec(old(self).cols()[n][m], rhs.cols()[n][m]),
    {
        let ncols = self.size.1;
        let nrows = self.size.0;
        for n in 0..ncols
            invariant
                self.wf(),
                rhs.wf(),
                self.size == old(self).size,
                rhs.size == old(self).size,
                ncols == self.size.1,
                nrows == self.size.0,
                forall|m: int, j: int|
                    0 <= m < nrows && 0 <= j < n ==> #[trigger] self.data@[j]@[m]
                        == T::add_spec(old(self).cols()[j][m], rhs.cols()[j][m]),
                forall|j: int| n <= j < ncols ==> (#[trigger] self.data@[j])@ == old(
                self).cols()[j],
        {
            let mut col = self.data.remove(n);
            proof {
                assert(col@ == old(self).cols()[n as int]);
            }
            for m in 0..nrows
                invariant
                    n < ncols,
                    rhs.wf(),
                    rhs.size.0 == nrows,
                    rhs.size.1 == ncols,
                    col.len() == nrows,
                    forall|i: int|
                        0 <= i < m ==> col@[i] == T::add_spec(
                            old(self).cols()[n as int][i],
                            rhs.cols()[n as int][i],
                        ),
                    forall|i: int| m <= i < nrows ==> col@[i] == old(self).cols()[n as int][i],
            {
                let v = T::add(col[m], rhs.data[n][m]);
                col.set(m, v);
            }
            self.data.insert(n, col);
        }
    }

    /// Subtract `rhs` from the matrix.
    pub fn sub_assign(&mut self, rhs: Self)
        requires
            old(self).wf(),
            rhs.wf(),
            old(self).size == rhs.size,
        ensures
            final (self).wf(),
            final (self).size == old(self).size,
            forall|m: int, n: int|
                0 <= m < old(self).size.0 && 0 <= n < old(self).size.1 ==> final (
                self).cols()[n][m] == T::sub_spec(old(self).cols()[n][m], rhs.cols()[n][m]),
    {
        let ncols = self.size.1;
        let nrows = self.size.0;
        for n in 0..ncols
            invariant
                self.wf(),
                rhs.wf(),
                self.size == old(self).size,
                rhs.size == old(self).size,
                ncols == self.size.1,
                nrows == self.size.0,
                forall|m: int, j: int|
                    0 <= m < nrows && 0 <= j < n ==> #[trigger] self.data@[j]@[m]
                        == T::sub_spec(old(self).cols()[j][m], rhs.cols()[j][m]),
                forall|j: int| n <= j < ncols ==> (#[trigger] self.data@[j])@ == old(
                self).cols()[j],
        {
            let mut col = self.data.remove(n);
            proof {
                assert(col@ == old(self).cols()[n as int]);
            }
            for m in 0..nrows
                invariant
                    n < ncols,
                    rhs.wf(),
                    rhs.size.0 == nrows,
                    rhs.size.1 == ncols,
                    col.len() == nrows,
                    forall|i: int|
                        0 <= i < m ==> col@[i] == T::sub_spec(
                            old(self).cols()[n as int][i],
                            rhs.cols()[n as int][i],
                        ),
                    forall|i: int| m <= i < nrows ==> col@[i] == old(self).cols()[n as int][i],
            {
                let v = T::sub(col[m], rhs.data[n][m]);
                col.set(m, v);
            }
            self.data.insert(n, col);
        }
    }

    /// The matrix product.  The receiver's recorded row count must match
    /// the argument's column count, and the receiver's column count the
    /// argument's row count; the result is square with `size.0` rows.
    pub fn mul(self, rhs: Self) -> (r: Self)
        requires
            self.wf(),
            rhs.wf(),
            self.size.0 == rhs.size.1,
            self.size.1 == rhs.size.0,
        ensures
            r.wf(),
            r.size.0 == rhs.size.1,
            r.size.1 == self.size.0,
            forall|m: int, p: int|
                0 <= m < self.size.0 && 0 <= p < rhs.size.1 ==> r.cols()[p][m] == dprod_prefix(
                    self.cols(),
                    rhs.cols(),
                    m,
                    p,
                    self.size.1 as int,
                ),
    {
        let rows = self.size.0;
        let cols = rhs.size.1;
        let inner = self.size.1;
        let mut data: Vec<Vec<T>> = Vec::new();
        for p in 0..cols
            invariant
                self.wf(),
                rhs.wf(),
                rows == self.size.0,
                cols == rhs.size.1,
                inner == self.size.1,
                self.size.0 == rhs.size.1,
                self.size.1 == rhs.size.0,
                data.len() == p,
                forall|j: int| 0 <= j < p ==> (#[trigger] data@[j]).len() == rows,
                forall|m: int, j: int|
                    0 <= m < rows && 0 <= j < p ==> #[trigger] data@[j]@[m] == dprod_prefix(
                        self.cols(),
                        rhs.cols(),
                        m,
                        j,
                        inner as int,
                    ),
        {
            let mut col: Vec<T> = Vec::new();
            for m in 0..rows
                invariant
                    p < cols,
                    self.wf(),
                    rhs.wf(),
                    rows == self.size.0,
                    cols == rhs.size.1,
                    inner == self.size.1,
                    self.size.0 == rhs.size.1,
                    self.size.1 == rhs.size.0,
                    col.len() == m,
                    forall|i: int|
                        0 <= i < m ==> col@[i] == dprod_prefix(
                            self.cols(),
                            rhs.cols(),
                            i,
                            p as int,
                            inner as int,
                        ),
            {
                let mut acc = T::zero();
                for n in 0..inner
                    invariant
                        p < cols,
                        m < rows,
                        self.wf(),
                        rhs.wf(),
                        rows == self.size.0,
                        cols == rhs.size.1,
                        inner == self.size.1,
                        self.size.0 == rhs.size.1,
                        self.size.1 == rhs.size.0,
                        acc == dprod_prefix(self.cols(), rhs.cols(), m as int, p as int, n as int),
                {
                    acc = T::add(acc, T::mul(self.data[n][m], rhs.data[p][n]));
                }
                col.push(acc);
            }
            data.push(col);
        }
        Self { data, size: (cols, rows) }
    }
}

} // verus!
