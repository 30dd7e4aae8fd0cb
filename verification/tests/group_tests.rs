use lineal::group_theory::groups::FI;

#[test]
fn test_signed() {
    let x = FI::<i32, 6>::new(5);
    let y = FI::<i32, 6>::new(4);
    let z = x.add(y);
    let w = x.mul(y);
    let a = x.sub(y);
    let b = y.sub(x);
    assert_eq!(z.value(), 3);
    assert_eq!(w.value(), 2);
    assert_eq!(a.value(), 1);
    assert_eq!(b.value(), -1);
    assert_eq!(FI::<i32, 6>::min_value(), -5);
    assert_eq!(FI::<i32, 6>::max_value(), 5);
}

#[test]
fn test_unsigned() {
    let x = FI::<u32, 6>::new(5);
    let y = FI::<u32, 6>::new(4);
    let z = x.add(y);
    let w = x.mul(y);
    assert_eq!(z.value(), 3);
    assert_eq!(w.value(), 2);
    assert_eq!(FI::<u32, 6>::min_value(), 0);
    assert_eq!(FI::<u32, 6>::max_value(), 5);
}

#[test]
fn test_range() {
    let list_set_signed = FI::<i32, 5>::list_set(-2, 4);
    let whole_list_set_signed = FI::<i32, 5>::whole_list_set();

    let list_set_unsigned = FI::<u32, 5>::list_set(1, 3);
    let whole_list_set_unsigned = FI::<u32, 5>::whole_list_set();

    assert_eq!(list_set_signed, vec![-2, -1, 0, 1, 2, 3]);
    assert_eq!(whole_list_set_signed, vec![-4, -3, -2, -1, 0, 1, 2, 3, 4]);
    assert_eq!(list_set_unsigned, vec![1, 2]);
    assert_eq!(whole_list_set_unsigned, vec![0, 1, 2, 3, 4]);
}

#[test]
fn test_euclidean() {
    let x = FI::<i32, 20>::new(15);
    let y = FI::<i32, 20>::new(6);
    let (a, b) = x.euclid_div(y);
    assert_eq!(a.value(), 2);
    assert_eq!(b.value(), 3);
}

#[test]
fn fixed_set_div_rem_and_norm() {
    let x = FI::<i32, 10>::new(-7);
    assert_eq!(x.euclid_norm(), 7);
    let y = FI::<i32, 10>::new(3);
    assert_eq!(x.div(y).value(), -2);
    assert_eq!(x.rem(y).value(), -1);
    let u = FI::<u32, 10>::new(7);
    assert_eq!(u.euclid_norm(), 7);
    assert_eq!(u.max_primitive(), 10);
    assert_eq!(u.max().value(), 10);
}
