//! Unrolled operations for the small fixed dimensions: the same
//! componentwise arithmetic as the generic loops, written out term by
//! term.

use crate::linear::scalar::Scalar;
use crate::linear::vec::Vector;
use vstd::prelude::*;

verus! {

impl<T: Scalar> Vector<T, 2> {
    /// The componentwise sum, unrolled.
    pub fn add_fast(&self, rhs: Self) -> (r: Self)
        ensures
            forall|i: int| 0 <= i < 2 ==> r.data@[i] == T::add_spec(self.data@[i], rhs.data@[i]),
    {
        Self { data: [T::add(self.data[0], rhs.data[0]), T::add(self.data[1], rhs.data[1])] }
    }

    /// The componentwise difference, unrolled.
    pub fn sub_fast(&self, rhs: Self) -> (r: Self)
        ensures
            forall|i: int| 0 <= i < 2 ==> r.data@[i] == T::sub_spec(self.data@[i], rhs.data@[i]),
    {
        Self { data: [T::sub(self.data[0], rhs.data[0]), T::sub(self.data[1], rhs.data[1])] }
    }

    /// The scaling by `rhs`, unrolled.
    pub fn mul_fast(&self, rhs: T) -> (r: Self)
        ensures
            forall|i: int| 0 <= i < 2 ==> r.data@[i] == T::mul_spec(self.data@[i], rhs),
    {
        Self { data: [T::mul(self.data[0], rhs), T::mul(self.data[1], rhs)] }
    }

    /// The division by `rhs`, unrolled.
    pub fn div_fast(&self, rhs: T) -> (r: Self)
        requires
            forall|i: int| 0 <= i < 2 ==> T::div_ok(self.data@[i], rhs),
        ensures
            forall|i: int| 0 <= i < 2 ==> r.data@[i] == T::div_spec(self.data@[i], rhs),
    {
        Self { data: [T::div(self.data[0], rhs), T::div(self.data[1], rhs)] }
    }

    /// The unrolled dot product of this dimension.
    pub fn dot_fast(&self, rhs: Self) -> (r: T)
        ensures
            r == T::add_spec(
                T::mul_spec(self.data@[0], rhs.data@[0]),
                T::mul_spec(self.data@[1], rhs.data@[1]),
            ),
    {
        T::add(T::mul(self.data[0], rhs.data[0]), T::mul(self.data[1], rhs.data[1]))
    }
}

impl<T: Scalar> Vector<T, 3> {
    /// The componentwise sum, unrolled.
    pub fn add_fast(&self, rhs: Self) -> (r: Self)
        ensures
            forall|i: int| 0 <= i < 3 ==> r.data@[i] == T::add_spec(self.data@[i], rhs.data@[i]),
    {
        Self { data: [T::add(self.data[0], rhs.data[0]), T::add(self.data[1], rhs.data[1]), T::add(self.data[2], rhs.data[2])] }
    }

    /// The componentwise difference, unrolled.
    pub fn sub_fast(&self, rhs: Self) -> (r: Self)
        ensures
            forall|i: int| 0 <= i < 3 ==> r.data@[i] == T::sub_spec(self.data@[i], rhs.data@[i]),
    {
        Self { data: [T::sub(self.data[0], rhs.data[0]), T::sub(self.data[1], rhs.data[1]), T::sub(self.data[2], rhs.data[2])] }
    }

    /// The scaling by `rhs`, unrolled.
    pub fn mul_fast(&self, rhs: T) -> (r: Self)
        ensures
            forall|i: int| 0 <= i < 3 ==> r.data@[i] == T::mul_spec(self.data@[i], rhs),
    {
        Self { data: [T::mul(self.data[0], rhs), T::mul(self.data[1], rhs), T::mul(self.data[2], rhs)] }
    }

    /// The division by `rhs`, unrolled.
    pub fn div_fast(&self, rhs: T) -> (r: Self)
        requires
            forall|i: int| 0 <= i < 3 ==> T::div_ok(self.data@[i], rhs),
        ensures
            forall|i: int| 0 <= i < 3 ==> r.data@[i] == T::div_spec(self.data@[i], rhs),
    {
        Self { data: [T::div(self.data[0], rhs), T::div(self.data[1], rhs), T::div(self.data[2], rhs)] }
    }

    /// The unrolled dot product of this dimension.
    pub fn dot_fast(&self, other: Self) -> (r: T)
        ensures
            r == T::add_spec(
                T::add_spec(
                    T::mul_spec(self.data@[0], other.data@[0]),
                    T::mul_spec(self.data@[1], other.data@[1]),
                ),
                T::mul_spec(self.data@[2], other.data@[2]),
            ),
    {
        T::add(
            T::add(
                T::mul(self.data[0], other.data[0]),
                T::mul(self.data[1], other.data[1]),
            ),
            T::mul(self.data[2], other.data[2]),
        )
    }
}

impl<T: Scalar> Vector<T, 4> {
    /// The componentwise sum, unrolled.
    pub fn add_fast(&self, rhs: Self) -> (r: Self)
        ensures
            forall|i: int| 0 <= i < 4 ==> r.data@[i] == T::add_spec(self.data@[i], rhs.data@[i]),
    {
        Self { data: [T::add(self.data[0], rhs.data[0]), T::add(self.data[1], rhs.data[1]), T::add(self.data[2], rhs.data[2]), T::add(self.data[3], rhs.data[3])] }
    }

    /// The componentwise difference, unrolled.
    pub fn sub_fast(&self, rhs: Self) -> (r: Self)
        ensures
            forall|i: int| 0 <= i < 4 ==> r.data@[i] == T::sub_spec(self.data@[i], rhs.data@[i]),
    {
        Self { data: [T::sub(self.data[0], rhs.data[0]), T::sub(self.data[1], rhs.data[1]), T::sub(self.data[2], rhs.data[2]), T::sub(self.data[3], rhs.data[3])] }
    }

    /// The scaling by `rhs`, unrolled.
    pub fn mul_fast(&self, rhs: T) -> (r: Self)
        ensures
            forall|i: int| 0 <= i < 4 ==> r.data@[i] == T::mul_spec(self.data@[i], rhs),
    {
        Self { data: [T::mul(self.data[0], rhs), T::mul(self.data[1], rhs), T::mul(self.data[2], rhs), T::mul(self.data[3], rhs)] }
    }

    /// The division by `rhs`, unrolled.
    pub fn div_fast(&self, rhs: T) -> (r: Self)
        requires
            forall|i: int| 0 <= i < 4 ==> T::div_ok(self.data@[i], rhs),
        ensures
            forall|i: int| 0 <= i < 4 ==> r.data@[i] == T::div_spec(self.data@[i], rhs),
    {
        Self { data: [T::div(self.data[0], rhs), T::div(self.data[1], rhs), T::div(self.data[2], rhs), T::div(self.data[3], rhs)] }
    }
}

impl<T: Scalar> Vector<T, 5> {
    /// The componentwise sum, unrolled.
    pub fn add_fast(&self, rhs: Self) -> (r: Self)
        ensures
            forall|i: int| 0 <= i < 5 ==> r.data@[i] == T::add_spec(self.data@[i], rhs.data@[i]),
    {
        Self { data: [T::add(self.data[0], rhs.data[0]), T::add(self.data[1], rhs.data[1]), T::add(self.data[2], rhs.data[2]), T::add(self.data[3], rhs.data[3]), T::add(self.data[4], rhs.data[4])] }
    }

    /// The componentwise difference, unrolled.
    pub fn sub_fast(&self, rhs: Self) -> (r: Self)
        ensures
            forall|i: int| 0 <= i < 5 ==> r.data@[i] == T::sub_spec(self.data@[i], rhs.data@[i]),
    {
        Self { data: [T::sub(self.data[0], rhs.data[0]), T::sub(self.data[1], rhs.data[1]), T::sub(self.data[2], rhs.data[2]), T::sub(self.data[3], rhs.data[3]), T::sub(self.data[4], rhs.data[4])] }
    }

    /// The scaling by `rhs`, unrolled.
    pub fn mul_fast(&self, rhs: T) -> (r: Self)
        ensures
            forall|i: int| 0 <= i < 5 ==> r.data@[i] == T::mul_spec(self.data@[i], rhs),
    {
        Self { data: [T::mul(self.data[0], rhs), T::mul(self.data[1], rhs), T::mul(self.data[2], rhs), T::mul(self.data[3], rhs), T::mul(self.data[4], rhs)] }
    }

    /// The division by `rhs`, unrolled.
    pub fn div_fast(&self, rhs: T) -> (r: Self)
        requires
            forall|i: int| 0 <= i < 5 ==> T::div_ok(self.data@[i], rhs),
        ensures
            forall|i: int| 0 <= i < 5 ==> r.data@[i] == T::div_spec(self.data@[i], rhs),
    {
        Self { data: [T::div(self.data[0], rhs), T::div(self.data[1], rhs), T::div(self.data[2], rhs), T::div(self.data[3], rhs), T::div(self.data[4], rhs)] }
    }
}

impl<T: Scalar> Vector<T, 6> {
    /// The componentwise sum, unrolled.
    pub fn add_fast(&self, rhs: Self) -> (r: Self)
        ensures
            forall|i: int| 0 <= i < 6 ==> r.data@[i] == T::add_spec(self.data@[i], rhs.data@[i]),
    {
        Self { data: [T::add(self.data[0], rhs.data[0]), T::add(self.data[1], rhs.data[1]), T::add(self.data[2], rhs.data[2]), T::add(self.data[3], rhs.data[3]), T::add(self.data[4], rhs.data[4]), T::add(self.data[5], rhs.data[5])] }
    }

    /// The componentwise difference, unrolled.
    pub fn sub_fast(&self, rhs: Self) -> (r: Self)
        ensures
            forall|i: int| 0 <= i < 6 ==> r.data@[i] == T::sub_spec(self.data@[i], rhs.data@[i]),
    {
        Self { data: [T::sub(self.data[0], rhs.data[0]), T::sub(self.data[1], rhs.data[1]), T::sub(self.data[2], rhs.data[2]), T::sub(self.data[3], rhs.data[3]), T::sub(self.data[4], rhs.data[4]), T::sub(self.data[5], rhs.data[5])] }
    }

    /// The scaling by `rhs`, unrolled.
    pub fn mul_fast(&self, rhs: T) -> (r: Self)
        ensures
            forall|i: int| 0 <= i < 6 ==> r.data@[i] == T::mul_spec(self.data@[i], rhs),
    {
        Self { data: [T::mul(self.data[0], rhs), T::mul(self.data[1], rhs), T::mul(self.data[2], rhs), T::mul(self.data[3], rhs), T::mul(self.data[4], rhs), T::mul(self.data[5], rhs)] }
    }

    /// The division by `rhs`, unrolled.
    pub fn div_fast(&self, rhs: T) -> (r: Self)
        requires
            forall|i: int| 0 <= i < 6 ==> T::div_ok(self.data@[i], rhs),
        ensures
            forall|i: int| 0 <= i < 6 ==> r.data@[i] == T::div_spec(self.data@[i], rhs),
    {
        Self { data: [T::div(self.data[0], rhs), T::div(self.data[1], rhs), T::div(self.data[2], rhs), T::div(self.data[3], rhs), T::div(self.data[4], rhs), T::div(self.data[5], rhs)] }
    }
}

impl<T: Scalar> Vector<T, 7> {
    /// The componentwise sum, unrolled.
    pub fn add_fast(&self, rhs: Self) -> (r: Self)
        ensures
            forall|i: int| 0 <= i < 7 ==> r.data@[i] == T::add_spec(self.data@[i], rhs.data@[i]),
    {
        Self { data: [T::add(self.data[0], rhs.data[0]), T::add(self.data[1], rhs.data[1]), T::add(self.data[2], rhs.data[2]), T::add(self.data[3], rhs.data[3]), T::add(self.data[4], rhs.data[4]), T::add(self.data[5], rhs.data[5]), T::add(self.data[6], rhs.data[6])] }
    }

    /// The componentwise difference, unrolled.
    pub fn sub_fast(&self, rhs: Self) -> (r: Self)
        ensures
            forall|i: int| 0 <= i < 7 ==> r.data@[i] == T::sub_spec(self.data@[i], rhs.data@[i]),
    {
        Self { data: [T::sub(self.data[0], rhs.data[0]), T::sub(self.data[1], rhs.data[1]), T::sub(self.data[2], rhs.data[2]), T::sub(self.data[3], rhs.data[3]), T::sub(self.data[4], rhs.data[4]), T::sub(self.data[5], rhs.data[5]), T::sub(self.data[6], rhs.data[6])] }
    }

    /// The scaling by `rhs`, unrolled.
    pub fn mul_fast(&self, rhs: T) -> (r: Self)
        ensures
            forall|i: int| 0 <= i < 7 ==> r.data@[i] == T::mul_spec(self.data@[i], rhs),
    {
        Self { data: [T::mul(self.data[0], rhs), T::mul(self.data[1], rhs), T::mul(self.data[2], rhs), T::mul(self.data[3], rhs), T::mul(self.data[4], rhs), T::mul(self.data[5], rhs), T::mul(self.data[6], rhs)] }
    }

    /// The division by `rhs`, unrolled.
    pub fn div_fast(&self, rhs: T) -> (r: Self)
        requires
            forall|i: int| 0 <= i < 7 ==> T::div_ok(self.data@[i], rhs),
        ensures
            forall|i: int| 0 <= i < 7 ==> r.data@[i] == T::div_spec(self.data@[i], rhs),
    {
        Self { data: [T::div(self.data[0], rhs), T::div(self.data[1], rhs), T::div(self.data[2], rhs), T::div(self.data[3], rhs), T::div(self.data[4], rhs), T::div(self.data[5], rhs), T::div(self.data[6], rhs)] }
    }
}

impl<T: Scalar> Vector<T, 8> {
    /// The componentwise sum, unrolled.
    pub fn add_fast(&self, rhs: Self) -> (r: Self)
        ensures
            forall|i: int| 0 <= i < 8 ==> r.data@[i] == T::add_spec(self.data@[i], rhs.data@[i]),
    {
        Self { data: [T::add(self.data[0], rhs.data[0]), T::add(self.data[1], rhs.data[1]), T::add(self.data[2], rhs.data[2]), T::add(self.data[3], rhs.data[3]), T::add(self.data[4], rhs.data[4]), T::add(self.data[5], rhs.data[5]), T::add(self.data[6], rhs.data[6]), T::add(self.data[7], rhs.data[7])] }
    }

    /// The componentwise difference, unrolled.
    pub fn sub_fast(&self, rhs: Self) -> (r: Self)
        ensures
            forall|i: int| 0 <= i < 8 ==> r.data@[i] == T::sub_spec(self.data@[i], rhs.data@[i]),
    {
        Self { data: [T::sub(self.data[0], rhs.data[0]), T::sub(self.data[1], rhs.data[1]), T::sub(self.data[2], rhs.data[2]), T::sub(self.data[3], rhs.data[3]), T::sub(self.data[4], rhs.data[4]), T::sub(self.data[5], rhs.data[5]), T::sub(self.data[6], rhs.data[6]), T::sub(self.data[7], rhs.data[7])] }
    }

    /// The scaling by `rhs`, unrolled.
    pub fn mul_fast(&self, rhs: T) -> (r: Self)
        ensures
            forall|i: int| 0 <= i < 8 ==> r.data@[i] == T::mul_spec(self.data@[i], rhs),
    {
        Self { data: [T::mul(self.data[0], rhs), T::mul(self.data[1], rhs), T::mul(self.data[2], rhs), T::mul(self.data[3], rhs), T::mul(self.data[4], rhs), T::mul(self.data[5], rhs), T::mul(self.data[6], rhs), T::mul(self.data[7], rhs)] }
    }

    /// The division by `rhs`, unrolled.
    pub fn div_fast(&self, rhs: T) -> (r: Self)
        requires
            forall|i: int| 0 <= i < 8 ==> T::div_ok(self.data@[i], rhs),
        ensures
            forall|i: int| 0 <= i < 8 ==> r.data@[i] == T::div_spec(self.data@[i], rhs),
    {
        Self { data: [T::div(self.data[0], rhs), T::div(self.data[1], rhs), T::div(self.data[2], rhs), T::div(self.data[3], rhs), T::div(self.data[4], rhs), T::div(self.data[5], rhs), T::div(self.data[6], rhs), T::div(self.data[7], rhs)] }
    }
}

} // verus!
