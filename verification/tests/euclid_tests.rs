use lineal::group_theory::extended_euclidean_algorithm::extended_euclidean_algorithm;
use lineal::group_theory::extended_euclidean_algorithm::extended_euclidean_algorithm_with_steps;
use lineal::group_theory::extended_euclidean_algorithm::extended_euclidean_as_dmatrix;
use lineal::number_theory::euclid::eea;
use lineal::number_theory::euclid::eea_as_dmat;
use lineal::number_theory::euclid::eea_with_steps;
use lineal::number_theory::find::gcd;
use lineal::number_theory::find::lcm;

#[test]
fn euclid_algo() {
    let (a, b) = (935, 1491);
    let (s, t) = eea(a, b);
    assert_eq!(s, 716);
    assert_eq!(t, -449);
}

#[test]
fn euclid_algo_with_steps() {
    let (a, b) = (935, 1491);
    let (abs, ks, sts) = eea_with_steps(a, b);
    assert_eq!(abs[0], (935, 1491));
    assert_eq!(abs[abs.len() - 1], (1, 2));
    assert_eq!(ks, vec![1, 1, 1, 2, 7, 12]);
    assert_eq!(sts[0], (716, -449));
    assert_eq!(sts[sts.len() - 1], (1, 0));
}

#[test]
fn euclid_algo_matrix() {
    let (a, b) = (935, 1491);
    let mat = eea_as_dmat(a, b);
    println!("{:?}", mat);
    assert_eq!(mat.size.1, 5);
    assert_eq!(mat.data[0][0], 935);
    assert_eq!(mat.data[1][0], 1491);
    assert_eq!(mat.data[2][mat.data[2].len() - 1], -1);
    assert_eq!(mat.data[3][0], 716);
    assert_eq!(mat.data[4][0], -449);
}

#[test]
fn extended_euclidean_algorithm_algo() {
    let (a, b) = (935, 1491);
    let (s, t) = extended_euclidean_algorithm(a, b);
    assert_eq!(s, 716);
    assert_eq!(t, -449);
}

#[test]
fn extended_euclidean_algorithm_algo_with_steps() {
    let (a, b) = (935, 1491);
    let (abs, ks, sts) = extended_euclidean_algorithm_with_steps(a, b);
    println!("{:?}", abs);
    println!("{:?}", ks);
    println!("{:?}", sts);
}

#[test]
fn extended_euclidean_algorithm_algo_matrix() {
    let (a, b) = (935, 1491);
    let mat = extended_euclidean_as_dmatrix(a, b);
    println!("{:?}", mat);
}

#[test]
fn bezout_identity_holds_at_runtime() {
    let (a, b) = (935i64, 1491i64);
    let (s, t) = eea(a, b);
    assert_eq!(s * a + t * b, 1);
    let (s2, t2) = eea(12, 30);
    assert_eq!(s2 * 12 + t2 * 30, 6);
}

#[test]
fn gcd_and_lcm() {
    assert_eq!(gcd(12, 30), 6);
    assert_eq!(gcd(35, 1), 1);
    assert_eq!(gcd(7, 0), 7);
    assert_eq!(lcm(4, 6), 12);
    assert_eq!(lcm(5, 7), 35);
}
