use lineal::linear::scalar::Scalar;
use lineal::linear::scalar::SignedScalar;
use lineal::linear::scalar::Two;
use lineal::numeric::cmp::Cmp;
use lineal::numeric::mul_add::MulAdd;
use lineal::traits::MathComponent;

#[test]
fn scalar_ring_ops_wrap() {
    assert_eq!(<i32 as Scalar>::add(2_000_000_000, 2_000_000_000), -294967296);
    assert_eq!(<i32 as Scalar>::add(3, 4), 7);
    assert_eq!(<i32 as Scalar>::sub(3, 10), -7);
    assert_eq!(<u32 as Scalar>::sub(3, 4), u32::MAX);
    assert_eq!(<i32 as Scalar>::mul(-6, 7), -42);
    assert_eq!(<i64 as Scalar>::mul(i64::MAX, 2), -2);
    assert_eq!(<i32 as SignedScalar>::neg(5), -5);
    assert_eq!(<i32 as SignedScalar>::neg(i32::MIN), i32::MIN);
}

#[test]
fn scalar_div_rem_round_toward_zero() {
    assert_eq!(<i32 as Scalar>::div(-7, 2), -3);
    assert_eq!(<i32 as Scalar>::rem(-7, 2), -1);
    assert_eq!(<i32 as Scalar>::div(7, -2), -3);
    assert_eq!(<i32 as Scalar>::rem(7, -2), 1);
    assert_eq!(<u32 as Scalar>::div(7, 2), 3);
    assert_eq!(<u32 as Scalar>::rem(7, 2), 1);
}

#[test]
fn scalar_sqrt_is_the_integer_root() {
    assert_eq!(<i64 as Scalar>::sqrt(25), 5);
    assert_eq!(<i64 as Scalar>::sqrt(24), 4);
    assert_eq!(<i64 as Scalar>::sqrt(26), 5);
    assert_eq!(<i64 as Scalar>::sqrt(0), 0);
    assert_eq!(<i64 as Scalar>::sqrt(-9), 0);
    assert_eq!(<u64 as Scalar>::sqrt(u64::MAX), 4294967295);
    assert_eq!(<u8 as Scalar>::sqrt(255), 15);
}

#[test]
fn scalar_identities_and_extremes() {
    assert_eq!(<i32 as Scalar>::zero(), 0);
    assert_eq!(<i32 as Scalar>::one(), 1);
    assert_eq!(<i32 as Two>::two(), 2);
    assert_eq!(<i32 as Scalar>::min_val(3, -5), -5);
    assert_eq!(<i32 as Scalar>::max_val(3, -5), 3);
    assert_eq!(<i32 as Scalar>::abs(-5), 5);
    assert_eq!(<u32 as Scalar>::abs(5), 5);
    assert!(<i32 as Scalar>::eq_val(4, 4));
    assert!(!<i32 as Scalar>::eq_val(4, 5));
    let mut t: i32 = 0;
    t.set_two();
    assert!(t.is_two());
}

#[test]
fn component_capabilities_agree_with_the_scalar_layer() {
    assert_eq!(Cmp::minimum(&3i64, 8), 3);
    assert_eq!(Cmp::maximum(&3i64, 8), 8);
    assert_eq!(<i64 as MathComponent<i64>>::sqrt(&49), 7);
    assert_eq!(<i64 as MathComponent<i64>>::splat(11), 11);
    assert_eq!(5i64.mul_add(6, 7), 37);
}

#[test]
fn float_test() {
}
