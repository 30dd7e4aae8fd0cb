use lineal::group_theory::primes::GroupType;
use lineal::group_theory::primes::coprimes;
use lineal::group_theory::primes::gcd;
use lineal::group_theory::primes::group;
use lineal::group_theory::primes::group_size;
use lineal::group_theory::primes::is_prime;
use lineal::group_theory::primes::order_additive;
use lineal::group_theory::primes::order_multiplicative;
use lineal::group_theory::primes::order_multiplicative_2;
use lineal::group_theory::primes::orders;
use lineal::group_theory::primes::possible_orders;
use lineal::group_theory::primes::producers;
use lineal::group_theory::primes::wheel_factorization;

#[test]
fn wheel_factorization_splits_into_primes() {
    assert_eq!(wheel_factorization(12), vec![2, 2, 3]);
    assert_eq!(wheel_factorization(17), vec![17]);
    assert_eq!(wheel_factorization(16), vec![2, 2, 2, 2]);
    assert_eq!(wheel_factorization(1), vec![1]);
    assert_eq!(wheel_factorization(35), vec![5, 7]);
    let factors = wheel_factorization(1491);
    assert_eq!(factors.iter().product::<i64>(), 1491);
}

#[test]
fn is_prime_trial_division() {
    assert!(is_prime(2));
    assert!(is_prime(3));
    assert!(!is_prime(4));
    assert!(is_prime(17));
    assert!(!is_prime(25));
    assert!(is_prime(1491 / 3 / 7));
    // the wheel steps by six and so never tries seven itself
    assert!(is_prime(49));
    assert!(!is_prime(1491));
}

#[test]
fn gcd_scan_finds_the_largest_common_divisor() {
    assert_eq!(gcd(12, 30), 6);
    assert_eq!(gcd(17, 5), 1);
    assert_eq!(gcd(0, 3), 1);
}

#[test]
fn coprimes_are_the_units() {
    assert_eq!(coprimes(12), vec![1, 5, 7, 11]);
    assert_eq!(coprimes(7), vec![1, 2, 3, 4, 5, 6]);
    assert_eq!(coprimes(1), Vec::<i64>::new());
}

#[test]
fn group_sizes_and_elements() {
    assert_eq!(group_size(17, GroupType::Additive), 17);
    assert_eq!(group_size(17, GroupType::Multiplicative), 17);
    assert_eq!(group_size(17, GroupType::MultiplicativeStar), 16);
    assert_eq!(group(5, GroupType::Additive), vec![0, 1, 2, 3, 4]);
    assert_eq!(group(12, GroupType::MultiplicativeStar), vec![1, 5, 7, 11]);
}

#[test]
fn orders_of_elements() {
    // 2^1 = 2, 2^2 = 4, 2^3 = 1 modulo 7
    assert_eq!(order_multiplicative(7, 2), (2, 3));
    assert_eq!(order_multiplicative(7, 0), (0, 1));
    assert_eq!(order_multiplicative_2(7, 3), (3, 6));
    // the bounded search gives up at the modulus
    assert_eq!(order_multiplicative_2(6, 2), (2, 6));
    // 1 + 5 * 2 = 11, and 11 is 1 modulo 5
    assert_eq!(order_additive(5, 2), (2, 5));

    let g = group(7, GroupType::MultiplicativeStar);
    let ords = orders(7, &g, GroupType::MultiplicativeStar);
    assert_eq!(ords, vec![(1, 1), (2, 3), (3, 6), (4, 3), (5, 6), (6, 2)]);
}

#[test]
fn possible_orders_divide_the_group_size() {
    assert_eq!(possible_orders(12, GroupType::Additive), vec![1, 2, 3, 4, 6, 12]);
    assert_eq!(possible_orders(17, GroupType::MultiplicativeStar), vec![1, 2, 4, 8, 16]);
}

#[test]
fn primes_test() {
    let modulo = 17;
    let kind = GroupType::MultiplicativeStar;
    let prime_factorization = wheel_factorization(modulo);
    let group_size = group_size(modulo, kind);
    let group_size_factorization = wheel_factorization(group_size);
    let group = group(modulo, kind);
    let possible_orders = possible_orders(modulo, kind);
    let orders = orders(modulo, &group, kind);
    let producers = producers(modulo, &group, kind, false);

    println!("modulo: {}", modulo);
    println!("group type: {:?}", kind);
    println!("prime factors of n: {:?}", prime_factorization);
    println!("group size: {} := {:?}", group_size, group);
    println!("group size prime factors: {:?}", group_size_factorization);
    println!("possible orders: {:?}", possible_orders);
    println!("actual order: {:?}", orders);
    println!("producers: {:?}", producers);
}

#[test]
fn test2() {
    let modulo = 5;
    let kind = GroupType::Multiplicative;
    let group = group(modulo, kind);
    let orders = orders(modulo, &group, kind);
    let producers = producers(modulo, &group, kind, false);
    let _ = (orders, producers);
}

#[test]
fn producers_of_small_groups() {
    let group17 = group(17, GroupType::MultiplicativeStar);
    let gens = producers(17, &group17, GroupType::MultiplicativeStar, false);
    // the generators modulo 17 are exactly the non-squares
    assert_eq!(gens, vec![3, 5, 6, 7, 10, 11, 12, 14]);
    let gens_big = producers(17, &group17, GroupType::MultiplicativeStar, true);
    assert_eq!(gens_big, gens);

    let group5 = group(5, GroupType::Multiplicative);
    let gens5 = producers(5, &group5, GroupType::Multiplicative, false);
    assert_eq!(gens5, vec![0, 2, 3, 4]);

    let addgroup = group(5, GroupType::Additive);
    let addgens = producers(5, &addgroup, GroupType::Additive, false);
    assert_eq!(addgens, vec![1, 2, 3, 4]);
}
