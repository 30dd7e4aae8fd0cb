//! The algebraic laws of the library, each proved once and for all
//! scalar types.
//!
//! The exec operations state their results entry by entry; the lemmas
//! here relate those entry specifications to one another: matrix sums
//! and products have their identities, the matrix product is
//! associative, the dot product is symmetric, the wedge product is
//! antisymmetric, and the identity rotor moves nothing.

use crate::linear::bivec::wedge_spec;
use crate::linear::mat::Matrix;
use crate::linear::mat::prod_entry;
use crate::linear::mat::prod_prefix;
use crate::linear::rotor::Rotor2;
use crate::linear::rotor::rotate_vec_x_spec;
use crate::linear::rotor::rotate_vec_y_spec;
use crate::linear::scalar::Scalar;
use crate::linear::scalar::SignedScalar;
use crate::linear::scalar::Two;
use crate::linear::vec::Vector;
use crate::linear::vec::dot_prefix;
use crate::linear::vec::dot_seq;
use crate::numeric::trig::Trig;
use vstd::prelude::*;

verus! {

/// The sum of `f(0) + f(1) + ... + f(k - 1)`, accumulated left to right.
pub open spec fn sum_prefix<T: Scalar>(f: spec_fn(int) -> T, k: int) -> T
    decreases k,
{
    if k <= 0 {
        T::zero_spec()
    } else {
        T::add_spec(sum_prefix(f, k - 1), f(k - 1))
    }
}

/// Sums of pointwise equal families are equal.
pub proof fn lemma_sum_ext<T: Scalar>(f: spec_fn(int) -> T, g: spec_fn(int) -> T, k: int)
    requires
        forall|i: int| 0 <= i < k ==> #[trigger] f(i) == g(i),
    ensures
        sum_prefix(f, k) == sum_prefix(g, k),
    decreases k,
{
    if k > 0 {
        lemma_sum_ext(f, g, k - 1);
    }
}

/// A sum of zeros is zero.
pub proof fn lemma_sum_zero<T: Scalar>(f: spec_fn(int) -> T, k: int)
    requires
        forall|i: int| 0 <= i < k ==> #[trigger] f(i) == T::zero_spec(),
    ensures
        sum_prefix(f, k) == T::zero_spec(),
    decreases k,
{
    if k > 0 {
        lemma_sum_zero(f, k - 1);
        T::lemma_add_zero(T::zero_spec());
    }
}

/// Two sums can be added term by term.
pub proof fn lemma_sum_add<T: Scalar>(f: spec_fn(int) -> T, g: spec_fn(int) -> T, k: int)
    ensures
        T::add_spec(sum_prefix(f, k), sum_prefix(g, k)) == sum_prefix(
            |i: int| T::add_spec(f(i), g(i)),
            k,
        ),
    decreases k,
{
    let h = |i: int| T::add_spec(f(i), g(i));
    if k <= 0 {
        T::lemma_add_zero(T::zero_spec());
    } else {
        lemma_sum_add(f, g, k - 1);
        let sf = sum_prefix(f, k - 1);
        let sg = sum_prefix(g, k - 1);
        let x = f(k - 1);
        let y = g(k - 1);
        // (sf + x) + (sg + y) == (sf + sg) + (x + y)
        T::lemma_add_assoc(sf, x, T::add_spec(sg, y));
        T::lemma_add_assoc(x, sg, y);
        T::lemma_add_comm(x, sg);
        T::lemma_add_assoc(sg, x, y);
        T::lemma_add_assoc(sf, sg, T::add_spec(x, y));
    }
}

/// A common left factor moves out of a sum.
pub proof fn lemma_sum_mul_left<T: Scalar>(f: spec_fn(int) -> T, c: T, k: int)
    ensures
        T::mul_spec(c, sum_prefix(f, k)) == sum_prefix(|i: int| T::mul_spec(c, f(i)), k),
    decreases k,
{
    if k <= 0 {
        T::lemma_mul_zero(c);
    } else {
        lemma_sum_mul_left(f, c, k - 1);
        T::lemma_mul_distrib(c, sum_prefix(f, k - 1), f(k - 1));
    }
}

/// A common right factor moves out of a sum.
pub proof fn lemma_sum_mul_right<T: Scalar>(f: spec_fn(int) -> T, c: T, k: int)
    ensures
        T::mul_spec(sum_prefix(f, k), c) == sum_prefix(|i: int| T::mul_spec(f(i), c), k),
    decreases k,
{
    T::lemma_mul_comm(sum_prefix(f, k), c);
    lemma_sum_mul_left(f, c, k);
    let g1 = |i: int| T::mul_spec(c, f(i));
    let g2 = |i: int| T::mul_spec(f(i), c);
    assert forall|i: int| 0 <= i < k implies #[trigger] g1(i) == g2(i) by {
        T::lemma_mul_comm(c, f(i));
    }
    lemma_sum_ext(g1, g2, k);
}

/// A double sum may be taken in either order.
pub proof fn lemma_sum_swap<T: Scalar>(h: spec_fn(int, int) -> T, n: int, p: int)
    ensures
        sum_prefix(|j: int| sum_prefix(|i: int| h(i, j), n), p) == sum_prefix(
            |i: int| sum_prefix(|j: int| h(i, j), p),
            n,
        ),
    decreases p,
{
    let cols = |j: int| sum_prefix(|i: int| h(i, j), n);
    let rows = |i: int| sum_prefix(|j: int| h(i, j), p);
    if p <= 0 {
        assert forall|i: int| 0 <= i < n implies #[trigger] rows(i) == T::zero_spec() by {
            assert(sum_prefix(|j: int| h(i, j), p) == T::zero_spec());
        }
        lemma_sum_zero(rows, n);
    } else {
        let rows_prev = |i: int| sum_prefix(|j: int| h(i, j), p - 1);
        let last = |i: int| h(i, p - 1);
        let combined = |i: int| T::add_spec(rows_prev(i), last(i));
        lemma_sum_swap(h, n, p - 1);
        lemma_sum_add(rows_prev, last, n);
        assert forall|i: int| 0 <= i < n implies #[trigger] combined(i) == rows(i) by {
            assert(sum_prefix(|j: int| h(i, j), p) == T::add_spec(
                sum_prefix(|j: int| h(i, j), p - 1),
                h(i, p - 1),
            ));
        }
        lemma_sum_ext(combined, rows, n);
    }
}

/// A sum whose terms vanish everywhere but at `p` collapses to the term
/// at `p`.
pub proof fn lemma_sum_onehot<T: Scalar>(f: spec_fn(int) -> T, p: int, k: int)
    requires
        0 <= p < k,
        forall|i: int| 0 <= i < k && i != p ==> #[trigger] f(i) == T::zero_spec(),
    ensures
        sum_prefix(f, k) == f(p),
    decreases k,
{
    if k - 1 == p {
        lemma_sum_zero(f, k - 1);
        T::lemma_add_comm(T::zero_spec(), f(p));
        T::lemma_add_zero(f(p));
    } else {
        lemma_sum_onehot(f, p, k - 1);
        T::lemma_add_zero(f(p));
    }
}

/// The dot product written as a sum.
pub proof fn lemma_dot_as_sum<T: Scalar>(a: Seq<T>, b: Seq<T>, k: int)
    ensures
        dot_prefix(a, b, k) == sum_prefix(|i: int| T::mul_spec(a[i], b[i]), k),
    decreases k,
{
    if k > 0 {
        lemma_dot_as_sum(a, b, k - 1);
    }
}

/// A matrix-product entry written as a sum.
pub proof fn lemma_prod_as_sum<T: Scalar, const M: usize, const N: usize, const P: usize>(
    a: Matrix<T, M, N>,
    b: Matrix<T, N, P>,
    m: int,
    p: int,
    k: int,
)
    ensures
        prod_prefix(a, b, m, p, k) == sum_prefix(
            |i: int| T::mul_spec(a.ent(m, i), b.ent(i, p)),
            k,
        ),
    decreases k,
{
    if k > 0 {
        lemma_prod_as_sum(a, b, m, p, k - 1);
    }
}

/// Adding the zero matrix leaves every entry of a matrix as it was.
pub proof fn lemma_matrix_add_zero<T: Scalar, const M: usize, const N: usize>(
    a: Matrix<T, M, N>,
    z: Matrix<T, M, N>,
)
    requires
        forall|m: int, n: int| 0 <= m < M && 0 <= n < N ==> z.ent(m, n) == T::zero_spec(),
    ensures
        forall|m: int, n: int|
            0 <= m < M && 0 <= n < N ==> T::add_spec(a.ent(m, n), z.ent(m, n)) == a.ent(m, n),
{
    assert forall|m: int, n: int| 0 <= m < M && 0 <= n < N implies T::add_spec(
        a.ent(m, n),
        z.ent(m, n),
    ) == a.ent(m, n) by {
        T::lemma_add_zero(a.ent(m, n));
    }
}

/// Multiplying by the identity matrix on the right reproduces every
/// entry of a matrix.
pub proof fn lemma_matrix_mul_identity<T: Scalar, const M: usize, const N: usize>(
    a: Matrix<T, M, N>,
    id: Matrix<T, N, N>,
)
    requires
        forall|i: int| 0 <= i < N ==> id.ent(i, i) == T::one_spec(),
        forall|i: int, j: int|
            0 <= i < N && 0 <= j < N && i != j ==> id.ent(i, j) == T::zero_spec(),
    ensures
        forall|m: int, p: int| 0 <= m < M && 0 <= p < N ==> prod_entry(a, id, m, p) == a.ent(m, p),
{
    assert forall|m: int, p: int| 0 <= m < M && 0 <= p < N implies prod_entry(a, id, m, p)
        == a.ent(m, p) by {
        let f = |i: int| T::mul_spec(a.ent(m, i), id.ent(i, p));
        lemma_prod_as_sum(a, id, m, p, N as int);
        assert forall|i: int| 0 <= i < N && i != p implies #[trigger] f(i) == T::zero_spec() by {
            T::lemma_mul_zero(a.ent(m, i));
        }
        T::lemma_mul_one(a.ent(m, p));
        lemma_sum_onehot(f, p, N as int);
    }
}

/// The matrix product is associative: with `ab == a * b` and
/// `bc == b * c`, the products `ab * c` and `a * bc` agree entry for
/// entry.
pub proof fn lemma_matrix_mul_assoc<
    T: Scalar,
    const M: usize,
    const N: usize,
    const P: usize,
    const Q: usize,
>(
    a: Matrix<T, M, N>,
    b: Matrix<T, N, P>,
    c: Matrix<T, P, Q>,
    ab: Matrix<T, M, P>,
    bc: Matrix<T, N, Q>,
)
    requires
        forall|m: int, p: int| 0 <= m < M && 0 <= p < P ==> ab.ent(m, p) == prod_entry(a, b, m, p),
        forall|n: int, q: int| 0 <= n < N && 0 <= q < Q ==> bc.ent(n, q) == prod_entry(b, c, n, q),
    ensures
        forall|m: int, q: int|
            0 <= m < M && 0 <= q < Q ==> prod_entry(ab, c, m, q) == prod_entry(a, bc, m, q),
{
    assert forall|m: int, q: int| 0 <= m < M && 0 <= q < Q implies prod_entry(ab, c, m, q)
        == prod_entry(a, bc, m, q) by {
        let h = |n: int, p: int|
            T::mul_spec(T::mul_spec(a.ent(m, n), b.ent(n, p)), c.ent(p, q));
        // The left product, column sums first.
        let f1 = |p: int| T::mul_spec(ab.ent(m, p), c.ent(p, q));
        let cols = |p: int| sum_prefix(|n: int| h(n, p), N as int);
        lemma_prod_as_sum(ab, c, m, q, P as int);
        assert forall|p: int| 0 <= p < P implies #[trigger] f1(p) == cols(p) by {
            lemma_prod_as_sum(a, b, m, p, N as int);
            let inner = |n: int| T::mul_spec(a.ent(m, n), b.ent(n, p));
            let scaled = |n: int| T::mul_spec(inner(n), c.ent(p, q));
            let col_terms = |n: int| h(n, p);
            lemma_sum_mul_right(inner, c.ent(p, q), N as int);
            assert forall|n: int| 0 <= n < N implies #[trigger] scaled(n) == col_terms(n) by {
            }
            lemma_sum_ext(scaled, col_terms, N as int);
        }
        lemma_sum_ext(f1, cols, P as int);
        lemma_sum_swap(h, N as int, P as int);
        // The right product, row sums second.
        let f2 = |n: int| T::mul_spec(a.ent(m, n), bc.ent(n, q));
        let rows = |n: int| sum_prefix(|p: int| h(n, p), P as int);
        lemma_prod_as_sum(a, bc, m, q, N as int);
        assert forall|n: int| 0 <= n < N implies #[trigger] f2(n) == rows(n) by {
            lemma_prod_as_sum(b, c, n, q, P as int);
            let inner = |p: int| T::mul_spec(b.ent(n, p), c.ent(p, q));
            let scaled = |p: int| T::mul_spec(a.ent(m, n), inner(p));
            let row_terms = |p: int| h(n, p);
            lemma_sum_mul_left(inner, a.ent(m, n), P as int);
            assert forall|p: int| 0 <= p < P implies #[trigger] scaled(p) == row_terms(p) by {
                T::lemma_mul_assoc(a.ent(m, n), b.ent(n, p), c.ent(p, q));
            }
            lemma_sum_ext(scaled, row_terms, P as int);
        }
        lemma_sum_ext(f2, rows, N as int);
    }
}

/// The dot product does not depend on the order of its arguments.
pub proof fn lemma_dot_symmetric<T: Scalar, const N: usize>(a: Vector<T, N>, b: Vector<T, N>)
    ensures
        dot_seq(a@, b@) == dot_seq(b@, a@),
{
    lemma_dot_as_sum(a@, b@, N as int);
    lemma_dot_as_sum(b@, a@, N as int);
    let fab = |i: int| T::mul_spec(a@[i], b@[i]);
    let fba = |i: int| T::mul_spec(b@[i], a@[i]);
    assert forall|i: int| 0 <= i < N implies #[trigger] fab(i) == fba(i) by {
        T::lemma_mul_comm(a@[i], b@[i]);
    }
    lemma_sum_ext(fab, fba, N as int);
}

/// The additive inverse of a value is the only value that cancels it.
pub proof fn lemma_neg_unique<T: SignedScalar>(a: T, b: T)
    requires
        T::add_spec(a, b) == T::zero_spec(),
    ensures
        b == T::neg_spec(a),
{
    // b == b + 0 == b + (a + -a) == (b + a) + -a == 0 + -a == -a
    T::lemma_add_neg(a);
    T::lemma_add_zero(b);
    T::lemma_add_assoc(b, a, T::neg_spec(a));
    T::lemma_add_comm(b, a);
    T::lemma_add_comm(T::zero_spec(), T::neg_spec(a));
    T::lemma_add_zero(T::neg_spec(a));
}

/// Negating zero gives zero.
pub proof fn lemma_neg_zero<T: SignedScalar>()
    ensures
        T::neg_spec(T::zero_spec()) == T::zero_spec(),
{
    T::lemma_add_zero(T::zero_spec());
    T::lemma_add_comm(T::zero_spec(), T::zero_spec());
    lemma_neg_unique::<T>(T::zero_spec(), T::zero_spec());
}

/// Swapping the arguments of a difference negates it.
pub proof fn lemma_neg_sub<T: SignedScalar>(a: T, b: T)
    ensures
        T::sub_spec(b, a) == T::neg_spec(T::sub_spec(a, b)),
{
    T::lemma_sub_neg(a, b);
    T::lemma_sub_neg(b, a);
    // (a + -b) + (b + -a) == 0
    let na = T::neg_spec(a);
    let nb = T::neg_spec(b);
    T::lemma_add_assoc(T::add_spec(a, nb), b, na);
    T::lemma_add_assoc(a, nb, b);
    T::lemma_add_comm(nb, b);
    T::lemma_add_comm(b, nb);
    T::lemma_add_neg(b);
    T::lemma_add_zero(a);
    T::lemma_add_neg(a);
    assert(T::add_spec(T::add_spec(a, nb), T::add_spec(b, na)) == T::zero_spec());
    lemma_neg_unique::<T>(T::sub_spec(a, b), T::sub_spec(b, a));
}

/// A value is unchanged by subtracting zero.
pub proof fn lemma_sub_zero<T: SignedScalar>(a: T)
    ensures
        T::sub_spec(a, T::zero_spec()) == a,
{
    T::lemma_sub_neg(a, T::zero_spec());
    lemma_neg_zero::<T>();
    T::lemma_add_zero(a);
}

/// The wedge product is antisymmetric: `wedge(a, b) == -wedge(b, a)`.
pub proof fn lemma_wedge_antisymmetric<T: SignedScalar>(a: Vector<T, 2>, b: Vector<T, 2>)
    ensures
        wedge_spec(a, b) == T::neg_spec(wedge_spec(b, a)),
{
    lemma_neg_sub::<T>(
        T::mul_spec(b.data@[0], a.data@[1]),
        T::mul_spec(a.data@[0], b.data@[1]),
    );
}

/// The wedge of a vector with itself is the zero bivector.
pub proof fn lemma_wedge_self<T: SignedScalar>(a: Vector<T, 2>)
    ensures
        wedge_spec(a, a) == T::zero_spec(),
{
    let x = T::mul_spec(a.data@[0], a.data@[1]);
    T::lemma_sub_neg(x, x);
    T::lemma_add_neg(x);
}

/// The identity rotor rotates every vector to itself.
pub proof fn lemma_identity_rotor_fixes_vectors<S: SignedScalar>(r: Rotor2<S>, x: S, y: S)
    requires
        r.scalar == S::one_spec(),
        r.bivector.data == S::zero_spec(),
    ensures
        rotate_vec_x_spec(r, x, y) == x,
        rotate_vec_y_spec(r, x, y) == y,
{
    // fx == 1 * x + 0 * y == x, fy == 1 * y - 0 * x == y
    S::lemma_mul_comm(S::one_spec(), x);
    S::lemma_mul_one(x);
    S::lemma_mul_comm(S::zero_spec(), y);
    S::lemma_mul_zero(y);
    S::lemma_add_zero(x);
    S::lemma_mul_comm(S::one_spec(), y);
    S::lemma_mul_one(y);
    S::lemma_mul_comm(S::zero_spec(), x);
    S::lemma_mul_zero(x);
    lemma_sub_zero::<S>(y);
    // then the second pass repeats the same steps on (fx, fy) == (x, y)
}

/// At angle zero the rotor construction yields the identity rotor.
pub proof fn lemma_rotor_from_zero_angle<S: Trig + SignedScalar>()
    requires
        S::div_ok(S::zero_spec(), S::two_value()),
    ensures
        S::cos_spec(S::div_spec(S::zero_spec(), S::two_value())) == S::one_spec(),
        S::neg_spec(S::sin_spec(S::div_spec(S::zero_spec(), S::two_value()))) == S::zero_spec(),
{
    S::lemma_zero_div(S::two_value());
    S::lemma_sin_cos_zero();
    lemma_neg_zero::<S>();
}


/// A unit axis vector is a fixed point of normalization: its magnitude
/// is one and dividing each component by it changes nothing, so
/// normalizing it once or twice gives the same vector back.
pub proof fn lemma_normalize_fixes_axis<T: Scalar, const N: usize>(v: Vector<T, N>, j: int)
    requires
        0 <= j < N,
        v.data@[j] == T::one_spec(),
        forall|i: int| 0 <= i < N && i != j ==> v.data@[i] == T::zero_spec(),
    ensures
        T::sqrt_spec(dot_seq(v@, v@)) == T::one_spec(),
        forall|i: int| 0 <= i < N ==> T::div_ok(v.data@[i], T::sqrt_spec(dot_seq(v@, v@))),
        forall|i: int|
            0 <= i < N ==> T::div_spec(v.data@[i], T::sqrt_spec(dot_seq(v@, v@))) == v.data@[i],
{
    lemma_dot_as_sum(v@, v@, N as int);
    let f = |i: int| T::mul_spec(v@[i], v@[i]);
    assert forall|i: int| 0 <= i < N && i != j implies #[trigger] f(i) == T::zero_spec() by {
        T::lemma_mul_zero(v@[i]);
    }
    T::lemma_mul_one(T::one_spec());
    lemma_sum_onehot(f, j, N as int);
    assert(dot_seq(v@, v@) == T::one_spec());
    T::lemma_sqrt_one();
    assert forall|i: int| 0 <= i < N implies T::div_ok(
        v.data@[i],
        T::sqrt_spec(dot_seq(v@, v@)),
    ) && T::div_spec(v.data@[i], T::sqrt_spec(dot_seq(v@, v@))) == v.data@[i] by {
        T::lemma_div_one(v.data@[i]);
    }
}

} // verus!
