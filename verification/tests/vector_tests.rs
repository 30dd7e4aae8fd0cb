use lineal::linear::vec::Vector;

#[test]
fn create_numeric_vectors() {
    let vec_float = Vector::new([2.0, 3.0, 1.0]);
    let vec_int = Vector::new([2, 3, 1]);
    assert_eq!(vec_float.data, [2.0, 3.0, 1.0]);
    assert_eq!(vec_int.data, [2, 3, 1]);
}

#[test]
fn create_non_numeric_vector() {
    let vec = Vector::new(["string", "test"]);
    assert_eq!(vec.data, ["string", "test"])
}

#[test]
fn create_probably_illegal_vector() {
    let _vec = Vector::new([["lol", "is"], ["why", "no"]]);
}

#[test]
fn vector_from_trait() {
    let vec: Vector<f32, 2> = [2.0, 1.0].into();
    assert_eq!(vec.data, [2.0, 1.0]);
}

#[test]
fn vector_dot_sum_of_squares() {
    let vec = Vector::new([2i64, 3, 1]);
    assert_eq!(vec.dot(Vector::new([2, 3, 1])), 4 + 9 + 1);
    assert_eq!(vec.dot(Vector::new([2, 3, 1])), 14);
}

#[test]
fn vector_dot_symmetry_concrete() {
    let a = Vector::new([3i32, -7, 2, 9]);
    let b = Vector::new([-4i32, 5, 11, 0]);
    assert_eq!(a.dot(b), b.dot(a));
}

#[test]
fn vector_int_add_sub() {
    let vec1 = Vector::new([3i64, 2, 1]);
    let mut vec1_copy = vec1;
    let vec2 = Vector::new([2i64, 4, 1]);
    let vec3 = vec1.add(vec2);
    vec1_copy.add_assign(vec2);
    assert_eq!(vec3.data, [5, 6, 2]);
    assert_eq!(vec1_copy.data, [5, 6, 2]);
    let vec4 = vec1.sub(vec2);
    assert_eq!(vec4.data, [1, -2, 0]);
}

#[test]
fn vector_add_wraps_at_the_type_bound() {
    let top = Vector::new([i32::MAX]);
    let one = Vector::new([1i32]);
    assert_eq!(top.add(one).data, [i32::MIN]);
}

#[test]
fn vector_unit_and_zero_and_one() {
    let unit: Vector<i64, 4> = Vector::unit(2);
    assert_eq!(unit.data, [0, 0, 1, 0]);
    let zero: Vector<i64, 3> = Vector::zero();
    assert_eq!(zero.data, [0, 0, 0]);
    let one: Vector<i64, 3> = Vector::one();
    assert_eq!(one.data, [1, 1, 1]);
}

#[test]
fn vector_magnitude_and_normalize() {
    let vec = Vector::new([3i64, 4]);
    assert_eq!(vec.magnitude_squared(), 25);
    assert_eq!(vec.magnitude(), 5);
    let n = vec.normalized();
    assert_eq!(n.data, [0, 0]);
    let sq = Vector::new([0i64, 9]);
    assert_eq!(sq.magnitude(), 9);
    let unit = sq.normalized();
    assert_eq!(unit.data, [0, 1]);
}

#[test]
fn vector_normalize_idempotent_on_axis() {
    let vec = Vector::new([0i64, 7, 0]);
    let once = vec.normalized();
    let twice = once.normalized();
    assert_eq!(once.data, [0, 1, 0]);
    assert_eq!(twice.data, once.data);
}

#[test]
fn vector_reverse_and_reversed() {
    let mut vec = Vector::new([1i64, 2, 3, 4, 5]);
    let rev = vec.reversed();
    assert_eq!(rev.data, [5, 4, 3, 2, 1]);
    vec.reverse();
    assert_eq!(vec.data, [5, 4, 3, 2, 1]);
}

#[test]
fn vector_abs_reflect_clamp() {
    let mut vec = Vector::new([-3i64, 4, -5]);
    let a = vec.abs_copy();
    assert_eq!(a.data, [3, 4, 5]);
    vec.abs();
    assert_eq!(vec.data, [3, 4, 5]);

    let mut v = Vector::new([1i64, 7]);
    // reflect in the plane with normal (0, 1): v - n * 2 * dot(v, n)
    v.reflect(Vector::new([0, 1]));
    assert_eq!(v.data, [1, -7]);

    let clamped = Vector::new([-9i64, 5, 2]).clamped(
        Vector::new([0, 0, 0]),
        Vector::new([3, 3, 3]),
    );
    assert_eq!(clamped.data, [0, 3, 2]);
}

#[test]
fn vector_componentwise_and_scalar_ops() {
    let a = Vector::new([2i64, -3, 5]);
    let b = Vector::new([4i64, 6, -1]);
    assert_eq!(a.mul(b).data, [8, -18, -5]);
    assert_eq!(a.mul_scalar(3).data, [6, -9, 15]);
    assert_eq!(b.div_scalar(2).data, [2, 3, 0]);
    assert_eq!(a.max_by_component(&b).data, [4, 6, 5]);
    assert_eq!(a.min_by_component(&b).data, [2, -3, -1]);
    assert_eq!(a.map(|x| x + 1).data, [3, -2, 6]);
}

#[test]
fn vector_from_other_pads_with_zero() {
    let vec_3 = Vector::new([3i64, 2, 1]);
    let vec_1: Vector<i64, 1> = Vector::from_other(vec_3);
    let vec_2: Vector<i64, 2> = Vector::from_other(vec_3);
    let vec_4: Vector<i64, 4> = Vector::from_other(vec_3);
    let vec_5: Vector<i64, 5> = Vector::from_other(vec_3);
    assert_eq!(vec_1.data, [3]);
    assert_eq!(vec_2.data, [3, 2]);
    assert_eq!(vec_4.data, [3, 2, 1, 0]);
    assert_eq!(vec_5.data, [3, 2, 1, 0, 0]);
}

#[test]
fn vector_fast_ops_match_the_loops() {
    let a = Vector::new([2i64, -3]);
    let b = Vector::new([4i64, 6]);
    assert_eq!(a.add_fast(b).data, a.add(b).data);
    assert_eq!(a.sub_fast(b).data, a.sub(b).data);
    assert_eq!(a.mul_fast(5).data, a.mul_scalar(5).data);
    assert_eq!(a.div_fast(2).data, a.div_scalar(2).data);
    assert_eq!(a.dot_fast(b), a.dot(b));
    let c = Vector::new([1i64, 2, 3]);
    let d = Vector::new([4i64, 5, 6]);
    assert_eq!(c.dot_fast(d), c.dot(d));
}
