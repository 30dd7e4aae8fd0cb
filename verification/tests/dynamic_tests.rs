use lineal::linear::dynamic::DMatrix;
use lineal::linear::dynamic::DVector;

#[test]
fn dynamic_vector_add_sub() {
    let a = DVector::new(vec![1i64, 2, 3]);
    let b = DVector::new(vec![10i64, 20, 30]);
    let sum = a.add(b);
    assert_eq!(sum.data, vec![11, 22, 33]);
    let c = DVector::new(vec![11i64, 22, 33]);
    let d = DVector::new(vec![1i64, 2, 3]);
    let diff = c.sub(d);
    assert_eq!(diff.data, vec![10, 20, 30]);
}

#[test]
fn dynamic_vector_dot_is_the_sum_of_products() {
    let a = DVector::new(vec![1i64, 2, 3]);
    let b = DVector::new(vec![10i64, 20, 30]);
    assert_eq!(a.dot(b), 10 + 40 + 90);
}

#[test]
fn dynamic_matrix_add() {
    let mat1 = DMatrix::new(vec![vec![1i64, 3], vec![2, 4]]);
    let mat2 = DMatrix::new(vec![vec![10i64, 30], vec![20, 40]]);
    let mat3 = mat1.add(mat2);
    assert_eq!(mat3.data, vec![vec![11, 33], vec![22, 44]]);
}

#[test]
fn dynamic_matrix_add_assign() {
    let mut mat1 = DMatrix::new(vec![vec![1i64, 3], vec![2, 4]]);
    let mat2 = DMatrix::new(vec![vec![10i64, 30], vec![20, 40]]);
    mat1.add_assign(mat2);
    assert_eq!(mat1.data, vec![vec![11, 33], vec![22, 44]]);
}

#[test]
fn dynamic_matrix_mul() {
    // Three columns of two rows against two columns of three rows.
    let mat1 = DMatrix::new(vec![vec![1i64, 4], vec![2, 5], vec![3, 6]]);
    let mat2 = DMatrix::new(vec![vec![7i64, 9, 11], vec![8, 10, 12]]);
    let mat3 = mat1.mul(mat2);
    // row 0: 1*7 + 2*9 + 3*11 = 58, 1*8 + 2*10 + 3*12 = 64
    // row 1: 4*7 + 5*9 + 6*11 = 139, 4*8 + 5*10 + 6*12 = 154
    assert_eq!(mat3.data, vec![vec![58, 139], vec![64, 154]]);
}

#[test]
fn dynamic_matrix_from_columns() {
    let mat = DMatrix::new(vec![vec![7i64, 9, 11], vec![8, 10, 12]]);
    println!("{:?}", mat);
    assert_eq!(mat.size, (3, 2));
}
