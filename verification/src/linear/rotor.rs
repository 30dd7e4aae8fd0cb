//! The 2D rotor: a scalar part paired with a bivector part, the
//! geometric-algebra stand-in for a rotation.

use crate::linear::bivec::Bivector2;
use crate::linear::mat::Matrix;
use crate::linear::scalar::Scalar;
use crate::linear::scalar::SignedScalar;
use crate::linear::scalar::Two;
use crate::linear::vec::Vector;
use crate::numeric::trig::Trig;
use vstd::prelude::*;

verus! {

#[derive(Debug, Copy, Clone, PartialEq)]
pub struct Rotor2<S> {
    pub scalar: S,
    pub bivector: Bivector2<S>,
}

/// The value `a.scalar^2 + a.bivector^2` that rotor composition scales by.
pub open spec fn rotor_norm_spec<S: Scalar>(a: Rotor2<S>) -> S {
    S::add_spec(
        S::mul_spec(a.scalar, a.scalar),
        S::mul_spec(a.bivector.data, a.bivector.data),
    )
}

/// The scalar part after rotating `b` by `a`.
pub open spec fn rotate_by_scalar_spec<S: Scalar>(b: Rotor2<S>, a: Rotor2<S>) -> S {
    S::add_spec(
        S::mul_spec(
            S::mul_spec(S::sub_spec(a.scalar, b.scalar), a.bivector.data),
            b.bivector.data,
        ),
        S::mul_spec(b.scalar, rotor_norm_spec(a)),
    )
}

/// The bivector part after rotating `b` by `a`.
pub open spec fn rotate_by_bivector_spec<S: Scalar>(b: Rotor2<S>, a: Rotor2<S>) -> S {
    S::mul_spec(b.bivector.data, rotor_norm_spec(a))
}

/// The intermediate first rotation of `(x, y)` under rotor `r`.
pub open spec fn rotate_vec_fx_spec<S: Scalar>(r: Rotor2<S>, x: S, y: S) -> S {
    S::add_spec(S::mul_spec(r.scalar, x), S::mul_spec(r.bivector.data, y))
}

/// The intermediate second component of the first rotation.
pub open spec fn rotate_vec_fy_spec<S: Scalar>(r: Rotor2<S>, x: S, y: S) -> S {
    S::sub_spec(S::mul_spec(r.scalar, y), S::mul_spec(r.bivector.data, x))
}

/// The first component of a vector rotated by `r`.
pub open spec fn rotate_vec_x_spec<S: Scalar>(r: Rotor2<S>, x: S, y: S) -> S {
    S::add_spec(
        S::mul_spec(r.scalar, rotate_vec_fx_spec(r, x, y)),
        S::mul_spec(r.bivector.data, rotate_vec_fy_spec(r, x, y)),
    )
}

/// The second component of a vector rotated by `r`.
pub open spec fn rotate_vec_y_spec<S: Scalar>(r: Rotor2<S>, x: S, y: S) -> S {
    S::sub_spec(
        S::mul_spec(r.scalar, rotate_vec_fy_spec(r, x, y)),
        S::mul_spec(r.bivector.data, rotate_vec_fx_spec(r, x, y)),
    )
}

impl<S> Rotor2<S> {
    pub fn new(scalar: S, bivector: Bivector2<S>) -> (r: Self)
        ensures
            r.scalar == scalar,
            r.bivector == bivector,
    {
        Self { scalar, bivector }
    }
}

impl<S: Scalar> Rotor2<S> {
    /// The rotor that rotates by nothing.
    pub fn identity() -> (r: Self)
        ensures
            r.scalar == S::one_spec(),
            r.bivector.data == S::zero_spec(),
    {
        Self { scalar: S::one(), bivector: Bivector2::zero() }
    }

    /// The rotor inner product.
    pub fn dot(&self, rhs: Self) -> (r: S)
        ensures
            r == S::add_spec(
                S::mul_spec(self.scalar, rhs.scalar),
                S::mul_spec(self.bivector.data, rhs.bivector.data),
            ),
    {
        S::add(S::mul(self.scalar, rhs.scalar), self.bivector.dot(rhs.bivector))
    }

    /// Compose with `other`: the stored rotor is rotated by it.
    pub fn rotate_by(&mut self, other: Self)
        ensures
            final (self).scalar == rotate_by_scalar_spec(*old(self), other),
            final (self).bivector.data == rotate_by_bivector_spec(*old(self), other),
    {
        let b = *self;
        let a = other;
        let sa2_plus_baxy2 = S::add(
            S::mul(a.scalar, a.scalar),
            S::mul(a.bivector.data, a.bivector.data),
        );
        self.scalar = S::add(
            S::mul(S::mul(S::sub(a.scalar, b.scalar), a.bivector.data), b.bivector.data),
            S::mul(b.scalar, sa2_plus_baxy2),
        );
        self.bivector.data = S::mul(b.bivector.data, sa2_plus_baxy2);
    }

    /// The composed rotor, by value.
    pub fn rotated_by(self, other: Self) -> (r: Self)
        ensures
            r.scalar == rotate_by_scalar_spec(self, other),
            r.bivector.data == rotate_by_bivector_spec(self, other),
    {
        let mut rot = self;
        rot.rotate_by(other);
        rot
    }
}

impl<S: SignedScalar> Rotor2<S> {
    /// Flip the bivector part: the inverse rotation for a unit rotor.
    pub fn reverse(&mut self)
        ensures
            final (self).scalar == old(self).scalar,
            final (self).bivector.data == S::neg_spec(old(self).bivector.data),
    {
        self.bivector = self.bivector.neg();
    }

    /// A reversed copy.
    pub fn reversed(&self) -> (r: Self)
        ensures
            r.scalar == self.scalar,
            r.bivector.data == S::neg_spec(self.bivector.data),
    {
        let mut s = *self;
        s.reverse();
        s
    }

    /// Rotate a 2D vector in place by applying the two half rotations.
    pub fn rotate_vec(self, vec: &mut Vector<S, 2>)
        ensures
            final (vec).data@[0] == rotate_vec_x_spec(self, old(vec).data@[0], old(vec).data@[1]),
            final (vec).data@[1] == rotate_vec_y_spec(self, old(vec).data@[0], old(vec).data@[1]),
    {
        let fx = S::add(S::mul(self.scalar, vec.data[0]), S::mul(self.bivector.data, vec.data[1]));
        let fy = S::sub(S::mul(self.scalar, vec.data[1]), S::mul(self.bivector.data, vec.data[0]));
        vec.data[0] = S::add(S::mul(self.scalar, fx), S::mul(self.bivector.data, fy));
        vec.data[1] = S::sub(S::mul(self.scalar, fy), S::mul(self.bivector.data, fx));
    }

    /// The rotation as a 2-by-2 matrix, by the double-angle formulas.
    pub fn into_matrix(self) -> (r: Matrix<S, 2, 2>)
        ensures
            r.ent(0, 0) == S::sub_spec(
                S::mul_spec(self.scalar, self.scalar),
                S::mul_spec(self.bivector.data, self.bivector.data),
            ),
            r.ent(1, 1) == S::sub_spec(
                S::mul_spec(self.scalar, self.scalar),
                S::mul_spec(self.bivector.data, self.bivector.data),
            ),
            r.ent(1, 0) == S::neg_spec(
                S::mul_spec(S::mul_spec(S::two_value(), self.scalar), self.bivector.data),
            ),
            r.ent(0, 1) == S::mul_spec(
                S::mul_spec(S::two_value(), self.scalar),
                self.bivector.data,
            ),
    {
        let s2_minus_bxy2 = S::sub(
            S::mul(self.scalar, self.scalar),
            S::mul(self.bivector.data, self.bivector.data),
        );
        let two_s_bxy = S::mul(S::mul(S::two(), self.scalar), self.bivector.data);
        Matrix::new([[s2_minus_bxy2, S::neg(two_s_bxy)], [two_s_bxy, s2_minus_bxy2]])
    }
}

impl<S: Trig + SignedScalar> Rotor2<S> {
    /// Build the rotor for `angle` from the half angle: the scalar part is
    /// its cosine, the bivector part the negated sine.
    pub fn from_angle(angle: S) -> (r: Self)
        requires
            S::div_ok(angle, S::two_value()),
        ensures
            r.scalar == S::cos_spec(S::div_spec(angle, S::two_value())),
            r.bivector.data == S::neg_spec(S::sin_spec(S::div_spec(angle, S::two_value()))),
    {
        let half_angle = S::div(angle, S::two());
        let (sin, cos) = S::sin_cos(half_angle);
        Self { scalar: cos, bivector: Bivector2::new(S::neg(sin)) }
    }
}

} // verus!
