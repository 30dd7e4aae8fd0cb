//! Fixed-size column vectors.
//!
//! A `Vector<T, N>` is a flat run of `N` scalars.  Its dimension is part
//! of the type, so two vectors can only meet in an operation when their
//! dimensions agree; there is nothing left to check at run time.

use crate::linear::scalar::Scalar;
use crate::linear::scalar::SignedScalar;
use crate::linear::scalar::Two;
use vstd::prelude::*;

verus! {

/// A point is a vector used as a position.
pub type Point<T, const N: usize> = Vector<T, N>;

#[derive(Debug, Copy, Clone, PartialEq)]
pub struct Vector<T, const N: usize> {
    pub data: [T; N],
}

/// The running sum of the first `n` products `a[i] * b[i]`, in the order
/// the dot product accumulates them.
pub open spec fn dot_prefix<T: Scalar>(a: Seq<T>, b: Seq<T>, n: int) -> T
    decreases n,
{
    if n <= 0 {
        T::zero_spec()
    } else {
        T::add_spec(dot_prefix(a, b, n - 1), T::mul_spec(a[n - 1], b[n - 1]))
    }
}

/// The dot product of two equally long runs of scalars.
pub open spec fn dot_seq<T: Scalar>(a: Seq<T>, b: Seq<T>) -> T {
    dot_prefix(a, b, a.len() as int)
}

impl<T, const N: usize> View for Vector<T, N> {
    type V = Seq<T>;

    open spec fn view(&self) -> Seq<T> {
        self.data@
    }
}

impl<T, const N: usize> Vector<T, N> {
    pub fn new(data: [T; N]) -> (r: Self)
        ensures
            r.data == data,
    {
        Self { data }
    }

    pub fn len(&self) -> (r: usize)
        ensures
            r == N,
    {
        N
    }

    pub fn as_array(&self) -> (r: &[T; N])
        ensures
            r@ == self.data@,
    {
        &self.data
    }

    pub fn as_array_mut(&mut self) -> (r: &mut [T; N])
        ensures
            r@ == old(self).data@,
            final (self).data@ == final (r)@,
    {
        &mut self.data
    }
}

/// Vectors that agree component for component are the same vector.
pub proof fn lemma_vector_entrywise_eq<T, const N: usize>(v1: Vector<T, N>, v2: Vector<T, N>)
    requires
        forall|i: int| 0 <= i < N ==> v1.data@[i] == v2.data@[i],
    ensures
        v1 == v2,
{
    assert(v1.data =~= v2.data);
}

impl<T: Copy, const N: usize> Vector<T, N> {
    /// Every component set to `value`.
    pub fn broadcast(value: T) -> (r: Self)
        ensures
            forall|i: int| 0 <= i < N ==> r.data@[i] == value,
    {
        Self { data: [value; N] }
    }
}

impl<T: Scalar, const N: usize> Vector<T, N> {
    /// The axis vector: one at position `n`, zero elsewhere.
    pub fn unit(n: usize) -> (r: Self)
        requires
            n < N,
        ensures
            r.data@[n as int] == T::one_spec(),
            forall|i: int| 0 <= i < N && i != n ==> r.data@[i] == T::zero_spec(),
    {
        let mut data = [T::zero(); N];
        data[n] = T::one();
        Self { data }
    }

    /// All components zero.
    pub fn zero() -> (r: Self)
        ensures
            forall|i: int| 0 <= i < N ==> r.data@[i] == T::zero_spec(),
    {
        Self::broadcast(T::zero())
    }

    /// All components one.
    pub fn one() -> (r: Self)
        ensures
            forall|i: int| 0 <= i < N ==> r.data@[i] == T::one_spec(),
    {
        Self::broadcast(T::one())
    }

    /// The sum of componentwise products.
    pub fn dot(&self, other: Self) -> (r: T)
        ensures
            r == dot_seq(self@, other@),
    {
        let mut sum = T::zero();
        for i in 0..N
            invariant
                sum == dot_prefix(self@, other@, i as int),
        {
            sum = T::add(sum, T::mul(self.data[i], other.data[i]));
        }
        sum
    }

    /// The dot product of the vector with itself.
    pub fn magnitude_squared(&self) -> (r: T)
        ensures
            r == dot_seq(self@, self@),
    {
        let mut sum = T::zero();
        for i in 0..N
            invariant
                sum == dot_prefix(self@, self@, i as int),
        {
            sum = T::add(sum, T::mul(self.data[i], self.data[i]));
        }
        sum
    }

    /// The integer square root of the squared magnitude.
    pub fn magnitude(&self) -> (r: T)
        ensures
            r == T::sqrt_spec(dot_seq(self@, self@)),
    {
        let m = self.magnitude_squared();
        T::sqrt(m)
    }

    /// Divide every component by the magnitude.
    pub fn normalize(&mut self)
        requires
            forall|i: int|
                0 <= i < N ==> T::div_ok(
                    old(self).data@[i],
                    T::sqrt_spec(dot_seq(old(self)@, old(self)@)),
                ),
        ensures
            forall|i: int|
                0 <= i < N ==> final (self).data@[i] == T::div_spec(
                    old(self).data@[i],
                    T::sqrt_spec(dot_seq(old(self)@, old(self)@)),
                ),
    {
        let m = self.magnitude();
        for i in 0..N
            invariant
                forall|j: int| 0 <= j < N ==> T::div_ok(old(self).data@[j], m),
                m == T::sqrt_spec(dot_seq(old(self)@, old(self)@)),
                forall|j: int| i <= j < N ==> self.data@[j] == old(self).data@[j],
                forall|j: int| 0 <= j < i ==> self.data@[j] == T::div_spec(old(self).data@[j], m),
        {
            self.data[i] = T::div(self.data[i], m);
        }
    }

    /// A normalized copy, the vector itself left alone.
    pub fn normalized(&self) -> (r: Self)
        requires
            forall|i: int|
                0 <= i < N ==> T::div_ok(self.data@[i], T::sqrt_spec(dot_seq(self@, self@))),
        ensures
            forall|i: int|
                0 <= i < N ==> r.data@[i] == T::div_spec(
                    self.data@[i],
                    T::sqrt_spec(dot_seq(self@, self@)),
                ),
    {
        let mut vec = *self;
        vec.normalize();
        vec
    }

    /// Reverse the order of the components.
    pub fn reverse(&mut self)
        ensures
            forall|i: int| 0 <= i < N ==> final (self).data@[i] == old(self).data@[N - 1 - i],
    {
        let half = N / 2;
        for i in 0..half
            invariant
                half == N / 2,
                forall|j: int| 0 <= j < i ==> self.data@[j] == old(self).data@[N - 1 - j],
                forall|j: int| 0 <= j < i ==> self.data@[N - 1 - j] == old(self).data@[j],
                forall|j: int| i <= j < N - i ==> self.data@[j] == old(self).data@[j],
        {
            let tmp = self.data[i];
            self.data[i] = self.data[N - 1 - i];
            self.data[N - 1 - i] = tmp;
        }
    }

    /// A reversed copy.
    pub fn reversed(&self) -> (r: Self)
        ensures
            forall|i: int| 0 <= i < N ==> r.data@[i] == self.data@[N - 1 - i],
    {
        let mut vec = *self;
        vec.reverse();
        vec
    }

    /// Componentwise sum.
    pub fn add(self, rhs: Self) -> (r: Self)
        ensures
            forall|i: int| 0 <= i < N ==> r.data@[i] == T::add_spec(self.data@[i], rhs.data@[i]),
    {
        let mut data = self.data;
        for i in 0..N
            invariant
                forall|j: int| 0 <= j < i ==> data@[j] == T::add_spec(self.data@[j], rhs.data@[j]),
                forall|j: int| i <= j < N ==> data@[j] == self.data@[j],
        {
            data[i] = T::add(self.data[i], rhs.data[i]);
        }
        Self { data }
    }

    /// Add `rhs` into the vector.
    pub fn add_assign(&mut self, rhs: Self)
        ensures
            forall|i: int|
                0 <= i < N ==> final (self).data@[i] == T::add_spec(
                    old(self).data@[i],
                    rhs.data@[i],
                ),
    {
        for i in 0..N
            invariant
                forall|j: int|
                    0 <= j < i ==> self.data@[j] == T::add_spec(old(self).data@[j], rhs.data@[j]),
                forall|j: int| i <= j < N ==> self.data@[j] == old(self).data@[j],
        {
            self.data[i] = T::add(self.data[i], rhs.data[i]);
        }
    }

    /// Componentwise difference.
    pub fn sub(self, rhs: Self) -> (r: Self)
        ensures
            forall|i: int| 0 <= i < N ==> r.data@[i] == T::sub_spec(self.data@[i], rhs.data@[i]),
    {
        let mut data = self.data;
        for i in 0..N
            invariant
                forall|j: int| 0 <= j < i ==> data@[j] == T::sub_spec(self.data@[j], rhs.data@[j]),
                forall|j: int| i <= j < N ==> data@[j] == self.data@[j],
        {
            data[i] = T::sub(self.data[i], rhs.data[i]);
        }
        Self { data }
    }

    /// Subtract `rhs` from the vector.
    pub fn sub_assign(&mut self, rhs: Self)
        ensures
            forall|i: int|
                0 <= i < N ==> final (self).data@[i] == T::sub_spec(
                    old(self).data@[i],
                    rhs.data@[i],
                ),
    {
        for i in 0..N
            invariant
                forall|j: int|
                    0 <= j < i ==> self.data@[j] == T::sub_spec(old(self).data@[j], rhs.data@[j]),
                forall|j: int| i <= j < N ==> self.data@[j] == old(self).data@[j],
        {
            self.data[i] = T::sub(self.data[i], rhs.data[i]);
        }
    }

    /// Componentwise product.
    pub fn mul(self, rhs: Self) -> (r: Self)
        ensures
            forall|i: int| 0 <= i < N ==> r.data@[i] == T::mul_spec(self.data@[i], rhs.data@[i]),
    {
        let mut data = self.data;
        for i in 0..N
            invariant
                forall|j: int| 0 <= j < i ==> data@[j] == T::mul_spec(self.data@[j], rhs.data@[j]),
                forall|j: int| i <= j < N ==> data@[j] == self.data@[j],
        {
            data[i] = T::mul(self.data[i], rhs.data[i]);
        }
        Self { data }
    }

    /// Multiply `rhs` into the vector, component by component.
    pub fn mul_assign(&mut self, rhs: Self)
        ensures
            forall|i: int|
                0 <= i < N ==> final (self).data@[i] == T::mul_spec(
                    old(self).data@[i],
                    rhs.data@[i],
                ),
    {
        for i in 0..N
            invariant
                forall|j: int|
                    0 <= j < i ==> self.data@[j] == T::mul_spec(old(self).data@[j], rhs.data@[j]),
                forall|j: int| i <= j < N ==> self.data@[j] == old(self).data@[j],
        {
            self.data[i] = T::mul(self.data[i], rhs.data[i]);
        }
    }

    /// Componentwise quotient.
    pub fn div(self, rhs: Self) -> (r: Self)
        requires
            forall|i: int| 0 <= i < N ==> T::div_ok(self.data@[i], rhs.data@[i]),
        ensures
            forall|i: int| 0 <= i < N ==> r.data@[i] == T::div_spec(self.data@[i], rhs.data@[i]),
    {
        let mut data = self.data;
        for i in 0..N
            invariant
                forall|j: int| 0 <= j < N ==> T::div_ok(self.data@[j], rhs.data@[j]),
                forall|j: int| 0 <= j < i ==> data@[j] == T::div_spec(self.data@[j], rhs.data@[j]),
                forall|j: int| i <= j < N ==> data@[j] == self.data@[j],
        {
            data[i] = T::div(self.data[i], rhs.data[i]);
        }
        Self { data }
    }

    /// Divide the vector by `rhs`, component by component.
    pub fn div_assign(&mut self, rhs: Self)
        requires
            forall|i: int| 0 <= i < N ==> T::div_ok(old(self).data@[i], rhs.data@[i]),
        ensures
            forall|i: int|
                0 <= i < N ==> final (self).data@[i] == T::div_spec(
                    old(self).data@[i],
                    rhs.data@[i],
                ),
    {
        for i in 0..N
            invariant
                forall|j: int| 0 <= j < N ==> T::div_ok(old(self).data@[j], rhs.data@[j]),
                forall|j: int|
                    0 <= j < i ==> self.data@[j] == T::div_spec(old(self).data@[j], rhs.data@[j]),
                forall|j: int| i <= j < N ==> self.data@[j] == old(self).data@[j],
        {
            self.data[i] = T::div(self.data[i], rhs.data[i]);
        }
    }

    /// Scale every component by `rhs`.
    pub fn mul_scalar(self, rhs: T) -> (r: Self)
        ensures
            forall|i: int| 0 <= i < N ==> r.data@[i] == T::mul_spec(self.data@[i], rhs),
    {
        let mut data = self.data;
        for i in 0..N
            invariant
                forall|j: int| 0 <= j < i ==> data@[j] == T::mul_spec(self.data@[j], rhs),
                forall|j: int| i <= j < N ==> data@[j] == self.data@[j],
        {
            data[i] = T::mul(self.data[i], rhs);
        }
        Self { data }
    }

    /// Scale the vector by `rhs` in place.
    pub fn mul_assign_scalar(&mut self, rhs: T)
        ensures
            forall|i: int|
                0 <= i < N ==> final (self).data@[i] == T::mul_spec(old(self).data@[i], rhs),
    {
        for i in 0..N
            invariant
                forall|j: int| 0 <= j < i ==> self.data@[j] == T::mul_spec(old(self).data@[j], rhs),
                forall|j: int| i <= j < N ==> self.data@[j] == old(self).data@[j],
        {
            self.data[i] = T::mul(self.data[i], rhs);
        }
    }

    /// Divide every component by `rhs`.
    pub fn div_scalar(self, rhs: T) -> (r: Self)
        requires
            forall|i: int| 0 <= i < N ==> T::div_ok(self.data@[i], rhs),
        ensures
            forall|i: int| 0 <= i < N ==> r.data@[i] == T::div_spec(self.data@[i], rhs),
    {
        let mut data = self.data;
        for i in 0..N
            invariant
                forall|j: int| 0 <= j < N ==> T::div_ok(self.data@[j], rhs),
                forall|j: int| 0 <= j < i ==> data@[j] == T::div_spec(self.data@[j], rhs),
                forall|j: int| i <= j < N ==> data@[j] == self.data@[j],
        {
            data[i] = T::div(self.data[i], rhs);
        }
        Self { data }
    }

    /// Divide the vector by `rhs` in place.
    pub fn div_assign_scalar(&mut self, rhs: T)
        requires
            forall|i: int| 0 <= i < N ==> T::div_ok(old(self).data@[i], rhs),
        ensures
            forall|i: int|
                0 <= i < N ==> final (self).data@[i] == T::div_spec(old(self).data@[i], rhs),
    {
        for i in 0..N
            invariant
                forall|j: int| 0 <= j < N ==> T::div_ok(old(self).data@[j], rhs),
                forall|j: int| 0 <= j < i ==> self.data@[j] == T::div_spec(old(self).data@[j], rhs),
                forall|j: int| i <= j < N ==> self.data@[j] == old(self).data@[j],
        {
            self.data[i] = T::div(self.data[i], rhs);
        }
    }

    /// Replace every component by its absolute value.
    pub fn abs(&mut self)
        requires
            forall|i: int| 0 <= i < N ==> T::abs_ok(old(self).data@[i]),
        ensures
            forall|i: int|
                0 <= i < N ==> final (self).data@[i] == T::abs_spec(old(self).data@[i]),
    {
        for i in 0..N
            invariant
                forall|j: int| 0 <= j < N ==> T::abs_ok(old(self).data@[j]),
                forall|j: int| 0 <= j < i ==> self.data@[j] == T::abs_spec(old(self).data@[j]),
                forall|j: int| i <= j < N ==> self.data@[j] == old(self).data@[j],
        {
            self.data[i] = T::abs(self.data[i]);
        }
    }

    /// A copy with every component replaced by its absolute value.
    pub fn abs_copy(&self) -> (r: Self)
        requires
            forall|i: int| 0 <= i < N ==> T::abs_ok(self.data@[i]),
        ensures
            forall|i: int| 0 <= i < N ==> r.data@[i] == T::abs_spec(self.data@[i]),
    {
        let mut vec = *self;
        vec.abs();
        vec
    }

    /// Reflect the vector in the plane with the given normal:
    /// it becomes `v - normal * 2 * dot(v, normal)`.
    pub fn reflect(&mut self, normal: Self)
        ensures
            forall|i: int|
                0 <= i < N ==> final (self).data@[i] == T::sub_spec(
                    old(self).data@[i],
                    T::mul_spec(
                        T::mul_spec(normal.data@[i], T::two_value()),
                        dot_seq(old(self)@, normal@),
                    ),
                ),
    {
        let d = self.dot(normal);
        let scaled = normal.mul_scalar(T::two()).mul_scalar(d);
        self.sub_assign(scaled);
    }

    /// Clamp each component from below by `min` and from above by `max`.
    pub fn clamp(&mut self, min: Self, max: Self)
        ensures
            forall|i: int|
                0 <= i < N ==> final (self).data@[i] == T::min_spec(
                    T::max_spec(old(self).data@[i], min.data@[i]),
                    max.data@[i],
                ),
    {
        for i in 0..N
            invariant
                forall|j: int|
                    0 <= j < i ==> self.data@[j] == T::min_spec(
                        T::max_spec(old(self).data@[j], min.data@[j]),
                        max.data@[j],
                    ),
                forall|j: int| i <= j < N ==> self.data@[j] == old(self).data@[j],
        {
            self.data[i] = T::min_val(T::max_val(self.data[i], min.data[i]), max.data[i]);
        }
    }

    /// A clamped copy.
    pub fn clamped(&self, min: Self, max: Self) -> (r: Self)
        ensures
            forall|i: int|
                0 <= i < N ==> r.data@[i] == T::min_spec(
                    T::max_spec(self.data@[i], min.data@[i]),
                    max.data@[i],
                ),
    {
        let mut vec = *self;
        vec.clamp(min, max);
        vec
    }

    /// Apply `f` to every component, returning the image vector.
    pub fn map<F: Fn(T) -> T>(&self, f: F) -> (r: Self)
        requires
            forall|i: int| 0 <= i < N ==> f.requires((self.data@[i],)),
        ensures
            forall|i: int| 0 <= i < N ==> f.ensures((self.data@[i],), r.data@[i]),
    {
        let mut data = self.data;
        for i in 0..N
            invariant
                forall|j: int| 0 <= j < N ==> f.requires((self.data@[j],)),
                forall|j: int| 0 <= j < i ==> f.ensures((self.data@[j],), data@[j]),
                forall|j: int| i <= j < N ==> data@[j] == self.data@[j],
        {
            data[i] = f(self.data[i]);
        }
        Self { data }
    }

    /// Apply `f` to every component in place.
    pub fn apply<F: Fn(T) -> T>(&mut self, f: F)
        requires
            forall|i: int| 0 <= i < N ==> f.requires((old(self).data@[i],)),
        ensures
            forall|i: int| 0 <= i < N ==> f.ensures((old(self).data@[i],), final (self).data@[i]),
    {
        for i in 0..N
            invariant
                forall|j: int| 0 <= j < N ==> f.requires((old(self).data@[j],)),
                forall|j: int| 0 <= j < i ==> f.ensures((old(self).data@[j],), self.data@[j]),
                forall|j: int| i <= j < N ==> self.data@[j] == old(self).data@[j],
        {
            self.data[i] = f(self.data[i]);
        }
    }

    /// The componentwise larger of the two vectors.
    pub fn max_by_component(&self, other: &Self) -> (r: Self)
        ensures
            forall|i: int| 0 <= i < N ==> r.data@[i] == T::max_spec(self.data@[i], other.data@[i]),
    {
        let mut data = self.data;
        for i in 0..N
            invariant
                forall|j: int|
                    0 <= j < i ==> data@[j] == T::max_spec(self.data@[j], other.data@[j]),
                forall|j: int| i <= j < N ==> data@[j] == self.data@[j],
        {
            data[i] = T::max_val(self.data[i], other.data[i]);
        }
        Self { data }
    }

    /// The componentwise smaller of the two vectors.
    pub fn min_by_component(&self, other: &Self) -> (r: Self)
        ensures
            forall|i: int| 0 <= i < N ==> r.data@[i] == T::min_spec(self.data@[i], other.data@[i]),
    {
        let mut data = self.data;
        for i in 0..N
            invariant
                forall|j: int|
                    0 <= j < i ==> data@[j] == T::min_spec(self.data@[j], other.data@[j]),
                forall|j: int| i <= j < N ==> data@[j] == self.data@[j],
        {
            data[i] = T::min_val(self.data[i], other.data[i]);
        }
        Self { data }
    }
}

impl<T, const N: usize> From<[T; N]> for Vector<T, N> {
    fn from(arr: [T; N]) -> (r: Self) {
        Self { data: arr }
    }
}

impl<T, const N: usize> vstd::std_specs::convert::FromSpecImpl<[T; N]> for Vector<T, N> {
    open spec fn obeys_from_spec() -> bool {
        true
    }

    open spec fn from_spec(arr: [T; N]) -> Self {
        Vector { data: arr }
    }
}

impl<T> From<(T, T)> for Vector<T, 2> {
    fn from(rhs: (T, T)) -> (r: Self) {
        Self { data: [rhs.0, rhs.1] }
    }
}

impl<T> vstd::std_specs::convert::FromSpecImpl<(T, T)> for Vector<T, 2> {
    open spec fn obeys_from_spec() -> bool {
        true
    }

    open spec fn from_spec(rhs: (T, T)) -> Self {
        Vector { data: [rhs.0, rhs.1] }
    }
}

impl<T> From<(T, T, T)> for Vector<T, 3> {
    fn from(rhs: (T, T, T)) -> (r: Self) {
        Self { data: [rhs.0, rhs.1, rhs.2] }
    }
}

impl<T> vstd::std_specs::convert::FromSpecImpl<(T, T, T)> for Vector<T, 3> {
    open spec fn obeys_from_spec() -> bool {
        true
    }

    open spec fn from_spec(rhs: (T, T, T)) -> Self {
        Vector { data: [rhs.0, rhs.1, rhs.2] }
    }
}

impl<T> From<(T, T, T, T)> for Vector<T, 4> {
    fn from(rhs: (T, T, T, T)) -> (r: Self) {
        Self { data: [rhs.0, rhs.1, rhs.2, rhs.3] }
    }
}

impl<T> vstd::std_specs::convert::FromSpecImpl<(T, T, T, T)> for Vector<T, 4> {
    open spec fn obeys_from_spec() -> bool {
        true
    }

    open spec fn from_spec(rhs: (T, T, T, T)) -> Self {
        Vector { data: [rhs.0, rhs.1, rhs.2, rhs.3] }
    }
}

impl<T: Scalar, const N: usize> Vector<T, N> {
    /// Carry a vector of one dimension into another: shared positions are
    /// copied, any remaining positions are filled with zero.
    pub fn from_other<const M: usize>(rhs: Vector<T, M>) -> (r: Self)
        ensures
            forall|i: int| 0 <= i < N && i < M ==> r.data@[i] == rhs.data@[i],
            forall|i: int| 0 <= i < N && i >= M ==> r.data@[i] == T::zero_spec(),
    {
        let mut data = [T::zero(); N];
        let bound = if N <= M {
            N
        } else {
            M
        };
        for i in 0..bound
            invariant
                bound <= N,
                bound <= M,
                forall|j: int| 0 <= j < i ==> data@[j] == rhs.data@[j],
                forall|j: int| i <= j < N ==> data@[j] == T::zero_spec(),
        {
            data[i] = rhs.data[i];
        }
        Self { data }
    }
}

} // verus!
