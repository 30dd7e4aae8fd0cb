use lineal::linear::mat::Matrix;
use lineal::linear::mat::SquareMatrix;
use lineal::linear::vec::Vector;

#[test]
fn matrix_product_of_seed_literals() {
    // Three rows and two columns, stored as two columns of three.
    let a = Matrix::<i64, 3, 2>::new([[1, 2, 3], [2, 1, 3]]);
    // Two rows and three columns.
    let b = Matrix::<i64, 2, 3>::new([[1, 0], [0, 1], [1, 1]]);
    let c = a.mul(b);
    assert_eq!(c, Matrix::<i64, 3, 3>::new([[1, 2, 3], [2, 1, 3], [3, 3, 6]]));

    let p = Matrix::<i64, 2, 2>::new([[1, 3], [2, 4]]);
    let q = Matrix::<i64, 2, 2>::new([[5, 7], [6, 8]]);
    // Hand-computed: rows of p against columns of q.
    assert_eq!(p.mul(q), Matrix::<i64, 2, 2>::new([[19, 43], [22, 50]]));
}

#[test]
fn matrix_product_associativity_concrete() {
    let a = Matrix::<i64, 2, 3>::new([[1, 4], [2, 5], [3, 6]]);
    let b = Matrix::<i64, 3, 2>::new([[7, 9, 11], [8, 10, 12]]);
    let c = Matrix::<i64, 2, 2>::new([[2, 1], [0, 3]]);
    assert_eq!(a.mul(b).mul(c), a.mul(b.mul(c)));
}

#[test]
fn matrix_add_zero_is_identity() {
    let a = Matrix::<i64, 2, 3>::new([[1, -4], [2, 5], [-3, 6]]);
    let z = Matrix::<i64, 2, 3>::zero();
    assert_eq!(a.add(z), a);
}

#[test]
fn matrix_mul_identity_is_identity() {
    let a = Matrix::<i64, 2, 3>::new([[1, -4], [2, 5], [-3, 6]]);
    let id = SquareMatrix::<i64, 3>::new_identity();
    assert_eq!(a.mul(id), a);
    let sq = SquareMatrix::<i64, 2>::new([[9, 7], [-2, 4]]);
    assert_eq!(sq.mul(SquareMatrix::<i64, 2>::new_identity()), sq);
}

#[test]
fn matrix_elementwise_ops() {
    let a = Matrix::<i64, 2, 2>::new([[1, 2], [3, 4]]);
    let b = Matrix::<i64, 2, 2>::new([[10, 20], [30, 40]]);
    assert_eq!(a.add(b), Matrix::new([[11, 22], [33, 44]]));
    assert_eq!(b.sub(a), Matrix::new([[9, 18], [27, 36]]));
    assert_eq!(a.mul_scalar(3), Matrix::new([[3, 6], [9, 12]]));
    assert_eq!(b.div_scalar(20), Matrix::new([[0, 1], [1, 2]]));
    assert_eq!(b.rem_scalar(15), Matrix::new([[10, 5], [0, 10]]));
    assert_eq!(a.neg(), Matrix::new([[-1, -2], [-3, -4]]));
    let mut m = a;
    m.add_assign(b);
    assert_eq!(m, a.add(b));
}

#[test]
fn matrix_clamp_bounds_each_entry() {
    let mut a = Matrix::<i64, 2, 2>::new([[-9, 5], [2, 7]]);
    let lo = Matrix::<i64, 2, 2>::broadcast(0);
    let hi = Matrix::<i64, 2, 2>::broadcast(3);
    a.clamp(lo, hi);
    assert_eq!(a, Matrix::new([[0, 3], [2, 3]]));
}

#[test]
fn matrix_componentwise_extremes_and_abs() {
    let a = Matrix::<i64, 2, 2>::new([[-1, 5], [3, -7]]);
    let b = Matrix::<i64, 2, 2>::new([[2, 2], [2, 2]]);
    assert_eq!(a.max_by_component(&b), Matrix::new([[2, 5], [3, 2]]));
    assert_eq!(a.min_by_component(&b), Matrix::new([[-1, 2], [2, -7]]));
    assert_eq!(a.abs_copy(), Matrix::new([[1, 5], [3, 7]]));
}

#[test]
fn matrix_get_put_and_sizes() {
    let mut a = Matrix::<i64, 2, 3>::new([[1, 2], [3, 4], [5, 6]]);
    assert_eq!(a.size(), (2, 3));
    assert_eq!(a.len(), 6);
    // entry in row 1 of column 2
    assert_eq!(a.get(1, 2), 6);
    a.put(1, 2, 60);
    assert_eq!(a.get(1, 2), 60);
    assert_eq!(a.get(0, 0), 1);
}

#[test]
fn matrix_applied_to_vector() {
    // The identity-like map plus a swap: columns [0, 1] and [1, 0].
    let swap = Matrix::<i64, 2, 2>::new([[0, 1], [1, 0]]);
    let v = Vector::new([3i64, 9]);
    assert_eq!(swap.mul_vec(v).data, [9, 3]);
    let scale = Matrix::<i64, 2, 2>::new([[2, 0], [0, 2]]);
    assert_eq!(scale.mul_vec(v).data, [6, 18]);
}

#[test]
fn matrix_broadcast_and_map() {
    let b = Matrix::<i64, 2, 2>::broadcast(7);
    assert_eq!(b, Matrix::new([[7, 7], [7, 7]]));
    let doubled = b.map(|x| x * 2);
    assert_eq!(doubled, Matrix::new([[14, 14], [14, 14]]));
}

#[test]
fn parse() {
    let vec_string = String::from("2 3 -5");
    let mat_string = String::from("2 3;-1 4;0 -2");
    let vec = Vector::<i32, 3>::from(vec_string);
    let mat = Matrix::<i32, 2, 3>::from(mat_string);
    assert_eq!(vec, Vector::new([2, 3, -5]));
    assert_eq!(mat, Matrix::new([[2, 3], [-1, 4], [0, -2]]));
}

#[test]
fn parse_fills_gaps_and_drops_extras() {
    // a missing entry stays zero, a broken one reads as zero, and
    // pieces beyond the dimensions are ignored
    let m = Matrix::<i32, 2, 2>::from(String::from("1;2 x 9;7 8"));
    assert_eq!(m, Matrix::new([[1, 0], [2, 0]]));
    let v = Vector::<i32, 3>::from(String::from("+4 99999999999 -2147483648"));
    assert_eq!(v, Vector::new([4, 0, i32::MIN]));
}
