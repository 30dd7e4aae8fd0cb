use lineal::linear::bivec::Bivector2;
use lineal::linear::rotor::Rotor2;
use lineal::linear::vec::Vector;

#[test]
fn bivector_dot_is_the_product() {
    assert_eq!(Bivector2::new(5i64).dot(Bivector2::new(3)), 15);
}

#[test]
fn bivector_arithmetic() {
    let a = Bivector2::new(6i64);
    let b = Bivector2::new(4i64);
    assert_eq!(a.add(b).data, 10);
    assert_eq!(a.sub(b).data, 2);
    assert_eq!(a.mul(b).data, 24);
    assert_eq!(a.div(b).data, 1);
    assert_eq!(a.mul_scalar(2).data, 12);
    assert_eq!(a.neg().data, -6);
    assert_eq!(a.magnitude_squared(), 36);
    assert_eq!(a.magnitude(), 6);
    assert!(Bivector2::<i64>::zero().is_zero());
    assert!(Bivector2::<i64>::one().is_one());
}

#[test]
fn wedge_antisymmetry_concrete() {
    let a = Vector::new([2i64, 5]);
    let b = Vector::new([7i64, 3]);
    let ab = a.wedge(b);
    let ba = b.wedge(a);
    assert_eq!(ab.data, 2 * 3 - 7 * 5);
    assert_eq!(ab.data, -ba.data);
    assert_eq!(a.wedge(a).data, 0);
}

#[test]
fn identity_rotor_moves_nothing() {
    let id = Rotor2::<i64>::identity();
    assert_eq!(id.scalar, 1);
    assert_eq!(id.bivector.data, 0);
    let mut v = Vector::new([-12i64, 35]);
    id.rotate_vec(&mut v);
    assert_eq!(v.data, [-12, 35]);
}

#[test]
fn rotor_reverse_negates_the_bivector() {
    let r = Rotor2::new(4i64, Bivector2::new(9));
    let rev = r.reversed();
    assert_eq!(rev.scalar, 4);
    assert_eq!(rev.bivector.data, -9);
    let mut s = r;
    s.reverse();
    assert_eq!(s, rev);
}

#[test]
fn rotor_dot_and_composition() {
    let a = Rotor2::new(2i64, Bivector2::new(3));
    let b = Rotor2::new(5i64, Bivector2::new(7));
    assert_eq!(a.dot(b), 2 * 5 + 3 * 7);
    // rotate b by a: the scale factor is a.scalar^2 + a.bivector^2.
    let composed = b.rotated_by(a);
    let norm = 2 * 2 + 3 * 3;
    assert_eq!(composed.bivector.data, 7 * norm);
    assert_eq!(composed.scalar, (2 - 5) * 3 * 7 + 5 * norm);
}

#[test]
fn rotor_into_matrix_uses_double_angles() {
    let r = Rotor2::new(3i64, Bivector2::new(2));
    let m = r.into_matrix();
    let diag = 3 * 3 - 2 * 2;
    let off = 2 * 3 * 2;
    assert_eq!(m.get(0, 0), diag);
    assert_eq!(m.get(1, 1), diag);
    assert_eq!(m.get(0, 1), off);
    assert_eq!(m.get(1, 0), -off);
}
