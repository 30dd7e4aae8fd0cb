//! The 2D bivector.
//!
//! In two dimensions a bivector has a single independent component, the
//! coefficient of the basis plane `e_xy`.  `Bivector2<T>` stores exactly
//! that scalar.

use crate::linear::scalar::Scalar;
use crate::linear::scalar::SignedScalar;
use crate::linear::vec::Vector;
use vstd::prelude::*;

verus! {

/// The lone component of the wedge product of two 2D vectors: the
/// oriented area `a[0] * b[1] - b[0] * a[1]`.
pub open spec fn wedge_spec<T: Scalar>(a: Vector<T, 2>, b: Vector<T, 2>) -> T {
    T::sub_spec(T::mul_spec(a.data@[0], b.data@[1]), T::mul_spec(b.data@[0], a.data@[1]))
}

#[derive(Debug, Copy, Clone, PartialEq)]
pub struct Bivector2<T> {
    pub data: T,
}

impl<T> Bivector2<T> {
    pub fn new(data: T) -> (r: Self)
        ensures
            r.data == data,
    {
        Self { data }
    }
}

impl<T: Scalar> Bivector2<T> {
    /// The bivector inner product: in 2D it is the product of the two
    /// lone components.
    pub fn dot(self, rhs: Self) -> (r: T)
        ensures
            r == T::mul_spec(self.data, rhs.data),
    {
        T::mul(self.data, rhs.data)
    }

    /// The squared magnitude.
    pub fn magnitude_squared(&self) -> (r: T)
        ensures
            r == T::mul_spec(self.data, self.data),
    {
        T::mul(self.data, self.data)
    }

    /// The integer square root of the squared magnitude.
    pub fn magnitude(&self) -> (r: T)
        ensures
            r == T::sqrt_spec(T::mul_spec(self.data, self.data)),
    {
        let m = self.magnitude_squared();
        T::sqrt(m)
    }

    /// Divide the component by the magnitude.
    pub fn normalize(&mut self)
        requires
            T::div_ok(
                old(self).data,
                T::sqrt_spec(T::mul_spec(old(self).data, old(self).data)),
            ),
        ensures
            final (self).data == T::div_spec(
                old(self).data,
                T::sqrt_spec(T::mul_spec(old(self).data, old(self).data)),
            ),
    {
        let m = self.magnitude();
        self.data = T::div(self.data, m);
    }

    /// A normalized copy.
    pub fn normalized(&self) -> (r: Self)
        requires
            T::div_ok(self.data, T::sqrt_spec(T::mul_spec(self.data, self.data))),
        ensures
            r.data == T::div_spec(
                self.data,
                T::sqrt_spec(T::mul_spec(self.data, self.data)),
            ),
    {
        let mut bivec = *self;
        bivec.normalize();
        bivec
    }

    pub fn add(self, rhs: Self) -> (r: Self)
        ensures
            r.data == T::add_spec(self.data, rhs.data),
    {
        Self { data: T::add(self.data, rhs.data) }
    }

    pub fn add_assign(&mut self, rhs: Self)
        ensures
            final (self).data == T::add_spec(old(self).data, rhs.data),
    {
        self.data = T::add(self.data, rhs.data);
    }

    pub fn sub(self, rhs: Self) -> (r: Self)
        ensures
            r.data == T::sub_spec(self.data, rhs.data),
    {
        Self { data: T::sub(self.data, rhs.data) }
    }

    pub fn sub_assign(&mut self, rhs: Self)
        ensures
            final (self).data == T::sub_spec(old(self).data, rhs.data),
    {
        self.data = T::sub(self.data, rhs.data);
    }

    pub fn mul(self, rhs: Self) -> (r: Self)
        ensures
            r.data == T::mul_spec(self.data, rhs.data),
    {
        Self { data: T::mul(self.data, rhs.data) }
    }

    pub fn mul_scalar(self, rhs: T) -> (r: Self)
        ensures
            r.data == T::mul_spec(self.data, rhs),
    {
        Self { data: T::mul(self.data, rhs) }
    }

    pub fn mul_assign(&mut self, rhs: Self)
        ensures
            final (self).data == T::mul_spec(old(self).data, rhs.data),
    {
        self.data = T::mul(self.data, rhs.data);
    }

    pub fn mul_assign_scalar(&mut self, rhs: T)
        ensures
            final (self).data == T::mul_spec(old(self).data, rhs),
    {
        self.data = T::mul(self.data, rhs);
    }

    pub fn div(self, rhs: Self) -> (r: Self)
        requires
            T::div_ok(self.data, rhs.data),
        ensures
            r.data == T::div_spec(self.data, rhs.data),
    {
        Self { data: T::div(self.data, rhs.data) }
    }

    pub fn div_scalar(self, rhs: T) -> (r: Self)
        requires
            T::div_ok(self.data, rhs),
        ensures
            r.data == T::div_spec(self.data, rhs),
    {
        Self { data: T::div(self.data, rhs) }
    }

    pub fn div_assign(&mut self, rhs: Self)
        requires
            T::div_ok(old(self).data, rhs.data),
        ensures
            final (self).data == T::div_spec(old(self).data, rhs.data),
    {
        self.data = T::div(self.data, rhs.data);
    }

    pub fn div_assign_scalar(&mut self, rhs: T)
        requires
            T::div_ok(old(self).data, rhs),
        ensures
            final (self).data == T::div_spec(old(self).data, rhs),
    {
        self.data = T::div(self.data, rhs);
    }

    /// The zero bivector.
    pub fn zero() -> (r: Self)
        ensures
            r.data == T::zero_spec(),
    {
        Self { data: T::zero() }
    }

    /// The unit bivector.
    pub fn one() -> (r: Self)
        ensures
            r.data == T::one_spec(),
    {
        Self { data: T::one() }
    }

    pub fn is_zero(&self) -> (r: bool)
        ensures
            r == (self.data == T::zero_spec()),
    {
        T::eq_val(self.data, T::zero())
    }

    pub fn is_one(&self) -> (r: bool)
        ensures
            r == (self.data == T::one_spec()),
    {
        T::eq_val(self.data, T::one())
    }
}

impl<T: Scalar> Vector<T, 2> {
    /// The wedge product, the oriented area spanned by two 2D vectors.
    pub fn wedge(&self, other: Self) -> (r: Bivector2<T>)
        ensures
            r.data == wedge_spec(*self, other),
    {
        Bivector2 {
            data: T::sub(
                T::mul(self.data[0], other.data[1]),
                T::mul(other.data[0], self.data[1]),
            ),
        }
    }
}

impl<T: SignedScalar> Bivector2<T> {
    pub fn neg(self) -> (r: Self)
        ensures
            r.data == T::neg_spec(self.data),
    {
        Self { data: T::neg(self.data) }
    }
}

} // verus!
