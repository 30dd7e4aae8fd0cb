//! Prime factorization, primality trial division, and the orders of
//! elements in the additive and multiplicative groups modulo `n`.

use crate::arith::trunc_rem_int;
use vstd::arithmetic::div_mod::lemma_fundamental_div_mod;
use vstd::prelude::*;

verus! {

/// Which group modulo `n` is meant: all residues under addition, all
/// residues under multiplication, or only the units.
#[derive(Debug, Copy, Clone, Eq, PartialEq)]
pub enum GroupType {
    Additive,
    Multiplicative,
    MultiplicativeStar,
}

/// The increments of the wheel the factorization walks:
/// `1, 2, 2, 4, 2, 4, 2, 4, 6, 2, 6` at positions zero through ten.
pub open spec fn wheel_val(w: int) -> int {
    if w == 0 {
        1
    } else if w == 3 || w == 5 || w == 7 {
        4
    } else if w == 8 || w == 10 {
        6
    } else {
        2
    }
}

/// The next wheel position.
pub open spec fn wheel_next(w: int) -> int {
    if w == 10 {
        3
    } else {
        w + 1
    }
}

/// The wheel-measure: how far the candidate divisor still is from
/// passing the square root of what is left.
pub open spec fn wheel_gap(num: int, f: int) -> int {
    if num - f >= 0 {
        num - f
    } else {
        0
    }
}

/// The factors the wheel factorization emits from state `(num, f, w)`.
pub open spec fn wheel_seq(num: int, f: int, w: int) -> Seq<int>
    decreases num, wheel_gap(num, f),
    via wheel_seq_decreases
{
    if 2 <= f && f * f <= num && 0 <= w <= 10 {
        if num % f == 0 {
            seq![f] + wheel_seq(num / f, f, w)
        } else {
            wheel_seq(num, f + wheel_val(w), wheel_next(w))
        }
    } else {
        seq![num]
    }
}

#[via_fn]
proof fn wheel_seq_decreases(num: int, f: int, w: int) {
    if 2 <= f && f * f <= num && 0 <= w <= 10 {
        assert(f < num && 0 <= num / f < num) by (nonlinear_arith)
            requires
                2 <= f,
                f * f <= num,
        ;
    }
}

/// The product of the values of a sequence.
pub open spec fn seq_prod(s: Seq<int>) -> int
    decreases s.len(),
{
    if s.len() == 0 {
        1
    } else {
        s[0] * seq_prod(s.subrange(1, s.len() as int))
    }
}

/// The wheel factorization multiplies back to its input.
pub proof fn lemma_wheel_prod(num: int, f: int, w: int)
    requires
        1 <= num,
        2 <= f,
    ensures
        seq_prod(wheel_seq(num, f, w)) == num,
    decreases num, wheel_gap(num, f),
{
    if 2 <= f && f * f <= num && 0 <= w <= 10 {
        if num % f == 0 {
            assert(1 <= num / f && num / f < num && f < num) by (nonlinear_arith)
                requires
                    2 <= f,
                    f * f <= num,
                    num % f == 0,
                    num >= 1,
            ;
            lemma_wheel_prod(num / f, f, w);
            let s = wheel_seq(num, f, w);
            assert(s == seq![f] + wheel_seq(num / f, f, w));
            assert(s[0] == f);
            assert(s.subrange(1, s.len() as int) =~= wheel_seq(num / f, f, w));
            assert(seq_prod(s) == f * seq_prod(wheel_seq(num / f, f, w)));
            lemma_fundamental_div_mod(num, f);
        } else {
            assert(f < num) by (nonlinear_arith)
                requires
                    2 <= f,
                    f * f <= num,
            ;
            lemma_wheel_prod(num, f + wheel_val(w), wheel_next(w));
        }
    } else {
        let s = wheel_seq(num, f, w);
        assert(s == seq![num]);
        assert(s[0] == num);
        assert(s.subrange(1, s.len() as int) =~= Seq::<int>::empty());
        assert(seq_prod(s) == num * seq_prod(Seq::<int>::empty()));
    }
}

/// The prime factors of `num`, smallest first, repeated by multiplicity;
/// what remains once the wheel passes the square root is appended last.
/// Their product is `num` again.
pub fn wheel_factorization(num: i64) -> (r: Vec<i64>)
    requires
        num <= 0x3fffffffffffffff,
    ensures
        r@.len() == wheel_seq(num as int, 2, 0).len(),
        forall|i: int|
            0 <= i < r@.len() ==> #[trigger] r@[i] as int == wheel_seq(num as int, 2, 0)[i],
        num >= 1 ==> seq_prod(wheel_seq(num as int, 2, 0)) == num,
{
    let ghost n0 = num as int;
    let mut num = num;
    let mut primes: Vec<i64> = Vec::new();
    let mut f: i64 = 2;
    let mut w: usize = 0;
    proof {
        if n0 >= 1 {
            lemma_wheel_prod(n0, 2, 0);
        }
    }
    while f * f <= num
        invariant
            num <= 0x3fffffffffffffff,
            2 <= f,
            f * f <= 0x7fffffffffffffff,
            w <= 10,
            wheel_seq(n0, 2, 0) == primes@.map_values(|x: i64| x as int) + wheel_seq(
                num as int,
                f as int,
                w as int,
            ),
        decreases num, wheel_gap(num as int, f as int),
    {
        proof {
            assert(f < num && 0 <= (num as int) / (f as int) < num) by (nonlinear_arith)
                requires
                    2 <= f,
                    f * f <= num,
            ;
        }
        if num % f == 0 {
            proof {
                assert(wheel_seq(num as int, f as int, w as int) == seq![f as int] + wheel_seq(
                    num as int / f as int,
                    f as int,
                    w as int,
                ));
                assert((primes@.map_values(|x: i64| x as int) + wheel_seq(
                    num as int,
                    f as int,
                    w as int,
                )) =~= (primes@.push(f).map_values(|x: i64| x as int) + wheel_seq(
                    num as int / f as int,
                    f as int,
                    w as int,
                )));
            }
            primes.push(f);
            num = num / f;
        } else {
            let step = wheel_step(w);
            proof {
                assert(f <= 0x80000000 && (f + step) * (f + step)
                    <= 0x7fffffffffffffff) by (nonlinear_arith)
                    requires
                        2 <= f,
                        f * f <= num,
                        num <= 0x3fffffffffffffff,
                        1 <= step <= 6,
                ;
            }
            f = f + step;
            w = if w == 10 {
                3
            } else {
                w + 1
            };
        }
    }
    proof {
        assert(wheel_seq(num as int, f as int, w as int) =~= seq![num as int]);
        assert((primes@.map_values(|x: i64| x as int) + seq![num as int]) =~= primes@.push(
            num,
        ).map_values(|x: i64| x as int));
    }
    primes.push(num);
    primes
}

/// The wheel increment at position `w`.
fn wheel_step(w: usize) -> (r: i64)
    requires
        w <= 10,
    ensures
        r as int == wheel_val(w as int),
        1 <= r <= 6,
{
    if w == 0 {
        1
    } else if w == 3 || w == 5 || w == 7 {
        4
    } else if w == 8 || w == 10 {
        6
    } else {
        2
    }
}

/// What the trial division decides: numbers up to three are prime past
/// one, multiples of two or three are not, and otherwise no candidate
/// `5, 11, 17, ...` up to the square root may divide the number.  The
/// candidates step by six and skip the residue-one lane, so the name
/// overstates: composites whose least factor past three sits in that
/// lane, such as forty-nine, pass the trial.
pub open spec fn is_prime_spec(num: int) -> bool {
    if 1 < num <= 3 {
        true
    } else if trunc_rem_int(num, 2) == 0 || trunc_rem_int(num, 3) == 0 {
        false
    } else {
        forall|i: int| 5 <= i && (i - 5) % 6 == 0 && i * i <= num ==> #[trigger] (num % i) != 0
    }
}

/// Trial division by two, three and the wheel residues.
pub fn is_prime(num: i64) -> (r: bool)
    requires
        num <= 0x3fffffffffffffff,
    ensures
        r == is_prime_spec(num as int),
{
    if num <= 3 && num > 1 {
        true
    } else if num % 2 == 0 || num % 3 == 0 {
        proof {
            if num >= 0 {
                assert(trunc_rem_int(num as int, 2) == num as int % 2);
                assert(trunc_rem_int(num as int, 3) == num as int % 3);
            }
        }
        false
    } else {
        let mut i: i64 = 5;
        while i * i <= num
            invariant
                num <= 0x3fffffffffffffff,
                5 <= i,
                (i - 5) % 6 == 0,
                i * i <= 0x7fffffffffffffff,
                forall|j: int| 5 <= j < i && (j - 5) % 6 == 0 && j * j <= num ==> #[trigger] (num as int % j) != 0,
            decreases wheel_gap(num as int, i as int),
        {
            proof {
                assert(i < num && num >= 25) by (nonlinear_arith)
                    requires
                        5 <= i,
                        i * i <= num,
                ;
            }
            if num % i == 0 || num % i + 2 == 0 {
                return false;
            }
            proof {
                assert(i <= 0x80000000 && (i + 6) * (i + 6)
                    <= 0x7fffffffffffffff) by (nonlinear_arith)
                    requires
                        5 <= i,
                        i * i <= num,
                        num <= 0x3fffffffffffffff,
                ;
            }
            i = i + 6;
        }
        proof {
            assert forall|j: int| 5 <= j && (j - 5) % 6 == 0 && j * j <= num implies #[trigger] (
            num as int % j) != 0 by {
                if j >= i {
                    assert(i * i <= j * j) by (nonlinear_arith)
                        requires
                            5 <= i <= j,
                    ;
                }
            }
        }
        true
    }
}

/// `r` is the largest value up to `a` and `b` dividing both, or one
/// when the inputs leave the scan no room.
pub fn gcd(a: i64, b: i64) -> (r: i64)
    ensures
        a >= 1 && b >= 1 ==> 1 <= r <= a && r <= b && a as int % r as int == 0 && b as int
            % r as int == 0,
        a >= 1 && b >= 1 ==> forall|d: int|
            1 <= d <= a && d <= b && #[trigger] (a as int % d) == 0 && b as int % d == 0 ==> d
                <= r,
        a < 1 || b < 1 ==> r == 1,
        r == gcd_loop_result(a as int, b as int),
{
    if a < 1 || b < 1 {
        proof {
            assert(gcd_loop_from(a as int, b as int, 1, 1) == 1);
        }
        return 1;
    }
    let bound = if a < b {
        a
    } else {
        b
    };
    let mut gcd: i64 = 1;
    let mut i: i64 = 1;
    while i < bound
        invariant
            1 <= a,
            1 <= b,
            bound == (if a < b {
                a
            } else {
                b
            }),
            1 <= i <= bound,
            1 <= gcd < i + 1 && gcd <= a && gcd <= b,
            a as int % gcd as int == 0 && b as int % gcd as int == 0,
            forall|d: int|
                1 <= d < i && d <= a && d <= b && #[trigger] (a as int % d) == 0 && b as int % d
                    == 0 ==> d <= gcd,
            gcd_loop_result(a as int, b as int) == gcd_loop_from(a as int, b as int, i as int, gcd as int),
        decreases bound - i,
    {
        if a % i == 0 && b % i == 0 {
            gcd = i;
        }
        i = i + 1;
    }
    proof {
        assert(i as int == bound as int);
    }
    if a % bound == 0 && b % bound == 0 {
        gcd = bound;
    }
    proof {
        assert(gcd_loop_from(a as int, b as int, bound as int + 1, gcd as int) == gcd);
    }
    gcd
}

/// The state-machine reading of the divisor search: the final value of
/// the accumulator once candidates from `i` up are tried.
pub open spec fn gcd_loop_from(a: int, b: int, i: int, acc: int) -> int
    decreases (if a + 1 - i >= 0 { a + 1 - i } else { 0 }),
{
    if 1 <= i && i <= a && i <= b {
        if a % i == 0 && b % i == 0 {
            gcd_loop_from(a, b, i + 1, i)
        } else {
            gcd_loop_from(a, b, i + 1, acc)
        }
    } else {
        acc
    }
}

/// The divisor search started from one.
pub open spec fn gcd_loop_result(a: int, b: int) -> int {
    gcd_loop_from(a, b, 1, 1)
}

/// True when `i` and `m` share no divisor above one.
pub open spec fn coprime(i: int, m: int) -> bool {
    forall|d: int| 2 <= d <= i ==> !(i % d == 0 && #[trigger] (m % d) == 0)
}

/// How many units there are below `upto`.
pub open spec fn count_coprimes(m: int, upto: int) -> int
    decreases (if upto >= 1 { upto } else { 0 }),
{
    if upto <= 1 {
        0
    } else {
        count_coprimes(m, upto - 1) + (if coprime(upto - 1, m) {
            1int
        } else {
            0int
        })
    }
}

/// The units modulo `modulo`, in ascending order.
pub fn coprimes(modulo: i64) -> (r: Vec<i64>)
    ensures
        r@.len() == count_coprimes(modulo as int, modulo as int),
        forall|k: int|
            0 <= k < r@.len() ==> 1 <= #[trigger] r@[k] < modulo && coprime(r@[k] as int, modulo as int),
        forall|i: int| 1 <= i < modulo && coprime(i, modulo as int) ==> r@.contains(i as i64),
        forall|k: int| 0 <= k < r@.len() - 1 ==> #[trigger] r@[k] < r@[k + 1],
{
    let mut cop: Vec<i64> = Vec::new();
    let mut i: i64 = 1;
    if modulo < 1 {
        return cop;
    }
    while i < modulo
        invariant
            1 <= i <= modulo,
            cop@.len() == count_coprimes(modulo as int, i as int),
            forall|k: int|
                0 <= k < cop@.len() ==> 1 <= #[trigger] cop@[k] < modulo && coprime(
                    cop@[k] as int,
                    modulo as int,
                ),
            forall|k: int| 0 <= k < cop@.len() ==> #[trigger] cop@[k] < i,
            forall|k: int| 0 <= k < cop@.len() - 1 ==> #[trigger] cop@[k] < cop@[k + 1],
            forall|j: int| 1 <= j < i && coprime(j, modulo as int) ==> cop@.contains(j as i64),
        decreases modulo - i,
    {
        let ghost old_cop = cop@;
        let g = gcd(i, modulo);
        if g == 1 {
            proof {
                assert forall|d: int| 2 <= d <= i implies !(i as int % d == 0 && #[trigger] (
                modulo as int % d) == 0) by {
                    if i as int % d == 0 && modulo as int % d == 0 {
                        assert(d <= i) by (nonlinear_arith)
                            requires
                                d >= 2,
                                i >= 1,
                                i as int % d == 0,
                        ;
                        lemma_gcd_loop_max(d, i as int, modulo as int);
                    }
                }
                assert(coprime(i as int, modulo as int));
            }
            cop.push(i);
            proof {
                assert forall|j: int|
                    1 <= j < i + 1 && coprime(j, modulo as int) implies cop@.contains(
                    j as i64,
                ) by {
                    if j < i {
                        let k = choose|k: int| 0 <= k < old_cop.len() && old_cop[k] == j as i64;
                        assert(cop@[k] == j as i64);
                    } else {
                        assert(cop@[cop@.len() - 1] == i);
                    }
                }
            }
        } else {
            proof {
                assert(1 <= g <= i && i as int % g as int == 0 && modulo as int % g as int == 0);
                assert(!coprime(i as int, modulo as int)) by {
                    assert(2 <= g as int <= i && i as int % g as int == 0 && (modulo as int
                        % g as int) == 0);
                }
                assert forall|j: int|
                    1 <= j < i + 1 && coprime(j, modulo as int) implies cop@.contains(
                    j as i64,
                ) by {
                }
            }
        }
        i = i + 1;
    }
    cop
}

/// A common divisor seen by the loop bounds the loop's result.
pub proof fn lemma_gcd_loop_max(d: int, a: int, b: int)
    requires
        1 <= a,
        1 <= b,
        1 <= d <= a,
        d <= b,
        a % d == 0,
        b % d == 0,
    ensures
        d <= gcd_loop_result(a, b),
{
    lemma_gcd_loop_ge(a, b, 1, 1, d);
}

/// Once a qualifying divisor lies at or ahead of the cursor, the final
/// accumulator is at least it.
pub proof fn lemma_gcd_loop_ge(a: int, b: int, i: int, acc: int, d: int)
    requires
        1 <= i,
        i <= d || acc >= d,
        1 <= d <= a,
        d <= b,
        a % d == 0,
        b % d == 0,
        acc <= a,
    ensures
        gcd_loop_from(a, b, i, acc) >= d,
    decreases (if a + 1 - i >= 0 { a + 1 - i } else { 0 }),
{
    if 1 <= i && i <= a && i <= b {
        if a % i == 0 && b % i == 0 {
            lemma_gcd_loop_ge(a, b, i + 1, i, d);
        } else {
            lemma_gcd_loop_ge(a, b, i + 1, acc, d);
        }
    }
}

/// The residue of `num^k` modulo `m`, accumulated the way the order
/// loops do: start from one, multiply and reduce `k` times.
pub open spec fn pow_mod_chain(num: int, k: int, m: int) -> int
    decreases (if k >= 0 { k } else { 0 }),
{
    if k <= 0 {
        1
    } else {
        (pow_mod_chain(num, k - 1, m) * num) % m
    }
}

/// The residue of `1 + k * num` modulo `m`, accumulated additively.
pub open spec fn add_mod_chain(num: int, k: int, m: int) -> int
    decreases (if k >= 0 { k } else { 0 }),
{
    if k <= 0 {
        1
    } else {
        (add_mod_chain(num, k - 1, m) + num) % m
    }
}

/// `ord` is the least positive exponent at which the power chain
/// returns to one.
pub open spec fn mul_order_exact(m: int, num: int, ord: int) -> bool {
    1 <= ord && pow_mod_chain(num, ord, m) == 1 && forall|j: int|
        1 <= j < ord ==> #[trigger] pow_mod_chain(num, j, m) != 1
}

/// `ord` is where the bounded search stopped: the least exponent
/// returning to one, or `m` when none was found that early.
pub open spec fn mul_order_bounded(m: int, num: int, ord: int) -> bool {
    1 <= ord <= m && (pow_mod_chain(num, ord, m) == 1 || ord == m) && forall|j: int|
        1 <= j < ord ==> #[trigger] pow_mod_chain(num, j, m) != 1
}

/// `ord` is the least positive count of additions returning to one.
pub open spec fn add_order_exact(m: int, num: int, ord: int) -> bool {
    1 <= ord && add_mod_chain(num, ord, m) == 1 && forall|j: int|
        1 <= j < ord ==> #[trigger] add_mod_chain(num, j, m) != 1
}

/// The pair of the element and its exact multiplicative order.  The
/// order must exist for the loop to end, so its existence is required.
pub fn order_multiplicative(modulo: i64, num: i64) -> (r: (i64, i64))
    requires
        num != 0 ==> 0 <= num && 1 <= modulo && (modulo - 1) * num <= i64::MAX
            && star_order_exists(num as int, modulo as int),
    ensures
        num == 0 ==> r == (0i64, 1i64),
        num != 0 ==> r.0 == num && mul_order_exact(modulo as int, num as int, r.1 as int),
{
    if num == 0 {
        return (num, 1);
    }
    let ghost k0 = choose|k: int|
        1 <= k <= i64::MAX && #[trigger] pow_mod_chain(num as int, k, modulo as int) == 1;
    let mut order: i64 = 1;
    let mut tmp: i64 = num % modulo;
    proof {
        assert(pow_mod_chain(num as int, 0, modulo as int) == 1);
        assert(pow_mod_chain(num as int, 1, modulo as int) == (1 * (num as int)) % (
        modulo as int));
    }
    while tmp != 1
        invariant
            0 <= num,
            1 <= modulo,
            (modulo - 1) * num <= i64::MAX,
            1 <= order <= k0,
            k0 <= i64::MAX,
            pow_mod_chain(num as int, k0, modulo as int) == 1,
            0 <= tmp < modulo,
            tmp == pow_mod_chain(num as int, order as int, modulo as int),
            forall|j: int| 1 <= j < order ==> #[trigger] pow_mod_chain(num as int, j, modulo as int) != 1,
        decreases k0 - order,
    {
        proof {
            assert(order < k0);
            assert(0 <= tmp * num <= (modulo - 1) * num) by (nonlinear_arith)
                requires
                    0 <= tmp <= modulo - 1,
                    0 <= num,
            ;
        }
        tmp = (tmp * num) % modulo;
        order = order + 1;
    }
    (num, order)
}

/// The pair of the element and its multiplicative order, with the
/// search cut off at the modulus.
pub fn order_multiplicative_2(modulo: i64, num: i64) -> (r: (i64, i64))
    requires
        num != 0 ==> 0 <= num && 1 <= modulo && (modulo - 1) * num <= i64::MAX,
    ensures
        num == 0 ==> r == (0i64, 1i64),
        num != 0 ==> r.0 == num && mul_order_bounded(modulo as int, num as int, r.1 as int),
{
    if num == 0 {
        return (num, 1);
    }
    let mut order: i64 = 1;
    let mut tmp: i64 = num % modulo;
    proof {
        assert(pow_mod_chain(num as int, 0, modulo as int) == 1);
        assert(pow_mod_chain(num as int, 1, modulo as int) == (1 * (num as int)) % (
        modulo as int));
    }
    while tmp != 1 && order < modulo
        invariant
            0 <= num,
            1 <= modulo,
            (modulo - 1) * num <= i64::MAX,
            1 <= order <= modulo,
            0 <= tmp < modulo,
            tmp == pow_mod_chain(num as int, order as int, modulo as int),
            forall|j: int| 1 <= j < order ==> #[trigger] pow_mod_chain(num as int, j, modulo as int) != 1,
        decreases modulo - order,
    {
        proof {
            assert(0 <= tmp * num <= (modulo - 1) * num) by (nonlinear_arith)
                requires
                    0 <= tmp <= modulo - 1,
                    0 <= num,
            ;
        }
        tmp = (tmp * num) % modulo;
        order = order + 1;
    }
    (num, order)
}

/// The pair of the element and its exact additive order.
pub fn order_additive(modulo: i64, num: i64) -> (r: (i64, i64))
    requires
        0 <= num,
        1 <= modulo,
        (modulo - 1) + num <= i64::MAX,
        exists|k: int|
            1 <= k <= i64::MAX && #[trigger] add_mod_chain(num as int, k, modulo as int) == 1,
    ensures
        r.0 == num,
        add_order_exact(modulo as int, num as int, r.1 as int),
{
    let ghost k0 = choose|k: int|
        1 <= k <= i64::MAX && #[trigger] add_mod_chain(num as int, k, modulo as int) == 1;
    let mut order: i64 = 1;
    let mut tmp: i64 = (1 + num) % modulo;
    proof {
        assert(add_mod_chain(num as int, 0, modulo as int) == 1);
        assert(add_mod_chain(num as int, 1, modulo as int) == (1 + num) % (modulo as int));
    }
    while tmp != 1
        invariant
            0 <= num,
            1 <= modulo,
            (modulo - 1) + num <= i64::MAX,
            1 <= order <= k0,
            k0 <= i64::MAX,
            add_mod_chain(num as int, k0, modulo as int) == 1,
            0 <= tmp < modulo,
            tmp == add_mod_chain(num as int, order as int, modulo as int),
            forall|j: int| 1 <= j < order ==> #[trigger] add_mod_chain(num as int, j, modulo as int) != 1,
        decreases k0 - order,
    {
        proof {
            assert(order < k0);
        }
        tmp = (tmp + num) % modulo;
        order = order + 1;
    }
    (num, order)
}

/// How many elements the chosen group has: every residue for the two
/// full groups, and the units alone for the star group.
pub fn group_size(modulo: i64, kind: GroupType) -> (r: i64)
    ensures
        kind == GroupType::Additive || kind == GroupType::Multiplicative ==> r == modulo,
        kind == GroupType::MultiplicativeStar ==> r == count_coprimes(modulo as int, modulo as int),
{
    match kind {
        GroupType::Additive => modulo,
        GroupType::Multiplicative => modulo,
        GroupType::MultiplicativeStar => {
            let cop = coprimes(modulo);
            proof {
                lemma_count_coprimes_bound(modulo as int, modulo as int);
            }
            cop.len() as i64
        },
    }
}

/// The unit count below `upto` never exceeds `upto`.
pub proof fn lemma_count_coprimes_bound(m: int, upto: int)
    ensures
        0 <= count_coprimes(m, upto) <= (if upto >= 1 { upto } else { 0 }),
    decreases (if upto >= 1 { upto } else { 0 }),
{
    if upto > 1 {
        lemma_count_coprimes_bound(m, upto - 1);
    }
}

/// The elements of the chosen group, in ascending order.
pub fn group(modulo: i64, kind: GroupType) -> (r: Vec<i64>)
    ensures
        kind == GroupType::Additive || kind == GroupType::Multiplicative ==> r@.len() == (
        if modulo >= 0 {
            modulo as int
        } else {
            0int
        }) && forall|i: int| 0 <= i < r@.len() ==> #[trigger] r@[i] == i,
        kind == GroupType::MultiplicativeStar ==> r@.len() == count_coprimes(
            modulo as int,
            modulo as int,
        ) && (forall|k: int|
            0 <= k < r@.len() ==> 1 <= #[trigger] r@[k] < modulo && coprime(
                r@[k] as int,
                modulo as int,
            )) && (forall|i: int|
            1 <= i < modulo && coprime(i, modulo as int) ==> r@.contains(i as i64)),
{
    match kind {
        GroupType::Additive | GroupType::Multiplicative => {
            let mut all: Vec<i64> = Vec::new();
            let mut i: i64 = 0;
            while i < modulo
                invariant
                    0 <= i,
                    modulo >= 0 ==> i <= modulo,
                    modulo < 0 ==> i == 0,
                    all@.len() == i,
                    forall|j: int| 0 <= j < i ==> #[trigger] all@[j] == j,
                decreases modulo - i,
            {
                all.push(i);
                i = i + 1;
            }
            all
        },
        GroupType::MultiplicativeStar => coprimes(modulo),
    }
}

/// Each element of the group paired with its order under the chosen
/// operation.  The star group uses the exact search, the full
/// multiplicative group the bounded one, the additive group the
/// additive chain.
pub fn orders(modulo: i64, group: &Vec<i64>, kind: GroupType) -> (r: Vec<(i64, i64)>)
    requires
        kind == GroupType::Additive ==> 1 <= modulo && forall|i: int|
            0 <= i < group@.len() ==> 0 <= #[trigger] group@[i] && (modulo - 1) + group@[i]
                <= i64::MAX && exists|k: int|
                1 <= k <= i64::MAX && #[trigger] add_mod_chain(
                    group@[i] as int,
                    k,
                    modulo as int,
                ) == 1,
        kind == GroupType::Multiplicative ==> forall|i: int|
            0 <= i < group@.len() && group@[i] != 0 ==> 0 <= #[trigger] group@[i] && 1 <= modulo
                && (modulo - 1) * group@[i] <= i64::MAX,
        kind == GroupType::MultiplicativeStar ==> forall|i: int|
            0 <= i < group@.len() && group@[i] != 0 ==> 0 <= #[trigger] group@[i] && 1 <= modulo
                && (modulo - 1) * group@[i] <= i64::MAX && star_order_exists(
                group@[i] as int,
                modulo as int,
            ),
    ensures
        r@.len() == group@.len(),
        kind == GroupType::Additive ==> forall|i: int|
            0 <= i < r@.len() ==> (#[trigger] r@[i]).0 == group@[i] && add_order_exact(
                modulo as int,
                group@[i] as int,
                r@[i].1 as int,
            ),
        kind == GroupType::Multiplicative ==> forall|i: int|
            0 <= i < r@.len() ==> (group@[i] == 0 ==> #[trigger] r@[i] == (0i64, 1i64)) && (
            group@[i] != 0 ==> r@[i].0 == group@[i] && mul_order_bounded(
                modulo as int,
                group@[i] as int,
                r@[i].1 as int,
            )),
        kind == GroupType::MultiplicativeStar ==> forall|i: int|
            0 <= i < r@.len() ==> (group@[i] == 0 ==> #[trigger] r@[i] == (0i64, 1i64)) && (
            group@[i] != 0 ==> r@[i].0 == group@[i] && mul_order_exact(
                modulo as int,
                group@[i] as int,
                r@[i].1 as int,
            )),
{
    let mut out: Vec<(i64, i64)> = Vec::new();
    match kind {
        GroupType::Additive => {
            for i in 0..group.len()
                invariant
                    1 <= modulo,
                    forall|j: int|
                        0 <= j < group@.len() ==> 0 <= #[trigger] group@[j] && (modulo - 1)
                            + group@[j] <= i64::MAX && exists|k: int|
                            1 <= k <= i64::MAX && #[trigger] add_mod_chain(
                                group@[j] as int,
                                k,
                                modulo as int,
                            ) == 1,
                    out@.len() == i,
                    forall|j: int|
                        0 <= j < i ==> (#[trigger] out@[j]).0 == group@[j] && add_order_exact(
                            modulo as int,
                            group@[j] as int,
                            out@[j].1 as int,
                        ),
            {
                let p = order_additive(modulo, group[i]);
                out.push(p);
            }
        },
        GroupType::Multiplicative => {
            for i in 0..group.len()
                invariant
                    forall|j: int|
                        0 <= j < group@.len() && group@[j] != 0 ==> 0 <= #[trigger] group@[j] && 1
                            <= modulo && (modulo - 1) * group@[j] <= i64::MAX,
                    out@.len() == i,
                    forall|j: int|
                        0 <= j < i ==> (group@[j] == 0 ==> #[trigger] out@[j] == (0i64, 1i64)) && (
                        group@[j] != 0 ==> out@[j].0 == group@[j] && mul_order_bounded(
                            modulo as int,
                            group@[j] as int,
                            out@[j].1 as int,
                        )),
            {
                let p = order_multiplicative_2(modulo, group[i]);
                out.push(p);
            }
        },
        GroupType::MultiplicativeStar => {
            for i in 0..group.len()
                invariant
                    forall|j: int|
                        0 <= j < group@.len() && group@[j] != 0 ==> 0 <= #[trigger] group@[j] && 1
                            <= modulo && (modulo - 1) * group@[j] <= i64::MAX && star_order_exists(
                            group@[j] as int,
                            modulo as int,
                        ),
                    out@.len() == i,
                    forall|j: int|
                        0 <= j < i ==> (group@[j] == 0 ==> #[trigger] out@[j] == (0i64, 1i64)) && (
                        group@[j] != 0 ==> out@[j].0 == group@[j] && mul_order_exact(
                            modulo as int,
                            group@[j] as int,
                            out@[j].1 as int,
                        )),
            {
                let p = order_multiplicative(modulo, group[i]);
                out.push(p);
            }
        },
    }
    out
}

/// The candidate orders: the divisors of the group size, ascending.
pub fn possible_orders(modulo: i64, kind: GroupType) -> (r: Vec<i64>)
    requires
        modulo < i64::MAX,
    ensures
        forall|k: int|
            0 <= k < r@.len() ==> 1 <= #[trigger] r@[k] && (group_size_spec(
                modulo as int,
                kind,
            ) as int % r@[k] as int) == 0,
        forall|d: int|
            1 <= d <= group_size_spec(modulo as int, kind) && #[trigger] (group_size_spec(
                modulo as int,
                kind,
            ) % d) == 0 ==> r@.contains(d as i64),
        forall|k: int| 0 <= k < r@.len() - 1 ==> #[trigger] r@[k] < r@[k + 1],
{
    let g = group_size(modulo, kind);
    proof {
        if kind == GroupType::MultiplicativeStar {
            lemma_count_coprimes_bound(modulo as int, modulo as int);
        }
    }
    let mut out: Vec<i64> = Vec::new();
    let mut i: i64 = 1;
    while i < g + 1
        invariant
            g == group_size_spec(modulo as int, kind),
            g < i64::MAX,
            1 <= i <= g + 1 || (g < 1 && i == 1),
            forall|k: int|
                0 <= k < out@.len() ==> 1 <= #[trigger] out@[k] && (g as int % out@[k] as int)
                    == 0,
            forall|k: int| 0 <= k < out@.len() ==> #[trigger] out@[k] < i,
            forall|k: int| 0 <= k < out@.len() - 1 ==> #[trigger] out@[k] < out@[k + 1],
            forall|d: int| 1 <= d < i && #[trigger] (g as int % d) == 0 ==> out@.contains(d as i64),
        decreases g + 1 - i,
    {
        if g % i == 0 {
            let ghost old_out = out@;
            out.push(i);
            proof {
                assert forall|d: int|
                    1 <= d < i + 1 && #[trigger] (g as int % d) == 0 implies out@.contains(
                    d as i64,
                ) by {
                    if d < i {
                        let k = choose|k: int| 0 <= k < old_out.len() && old_out[k] == d as i64;
                        assert(out@[k] == d as i64);
                    } else {
                        assert(out@[out@.len() - 1] == i);
                    }
                }
            }
        }
        i = i + 1;
    }
    out
}

/// What `group_size` returns, at the specification level.
pub open spec fn group_size_spec(modulo: int, kind: GroupType) -> int {
    if kind == GroupType::MultiplicativeStar {
        count_coprimes(modulo, modulo)
    } else {
        modulo
    }
}


/// The `e`-th power of `b`, as the repeated product.
pub open spec fn pow_int(b: int, e: int) -> int
    decreases (if e >= 0 { e } else { 0 }),
{
    if e <= 0 {
        1
    } else {
        b * pow_int(b, e - 1)
    }
}

/// Every partial power up to `e` fits in the machine type.
pub open spec fn pow_fits(b: int, e: int) -> bool {
    forall|j: int| 0 <= j <= e ==> i64::MIN <= #[trigger] pow_int(b, j) <= i64::MAX
}

/// Repeated multiplication.
pub fn pow_i64(base: i64, exp: u32) -> (r: i64)
    requires
        pow_fits(base as int, exp as int),
    ensures
        r as int == pow_int(base as int, exp as int),
{
    let mut acc: i64 = 1;
    let mut i: u32 = 0;
    while i < exp
        invariant
            i <= exp,
            pow_fits(base as int, exp as int),
            acc as int == pow_int(base as int, i as int),
        decreases exp - i,
    {
        proof {
            assert(pow_int(base as int, i + 1) == base as int * pow_int(base as int, i as int));
            assert(i64::MIN <= pow_int(base as int, i + 1) <= i64::MAX);
            assert(acc as int * base as int == pow_int(base as int, i + 1)) by (nonlinear_arith)
                requires
                    acc as int == pow_int(base as int, i as int),
                    pow_int(base as int, i + 1) == base as int * pow_int(base as int, i as int),
            ;
        }
        acc = acc * base;
        i = i + 1;
    }
    acc
}

/// Collapse runs of equal neighbours, keeping the first of each run.
pub open spec fn dedup_back(s: Seq<int>) -> Seq<int>
    decreases s.len(),
{
    if s.len() <= 1 {
        s
    } else if s[s.len() - 1] == s[s.len() - 2] {
        dedup_back(s.drop_last())
    } else {
        dedup_back(s.drop_last()).push(s.last())
    }
}

/// Drop consecutive duplicates from a run of values.
pub fn dedup_i64(v: &Vec<i64>) -> (r: Vec<i64>)
    ensures
        r@.len() == dedup_back(v@.map_values(|x: i64| x as int)).len(),
        forall|k: int|
            0 <= k < r@.len() ==> #[trigger] r@[k] as int == dedup_back(
                v@.map_values(|x: i64| x as int),
            )[k],
{
    let mut out: Vec<i64> = Vec::new();
    let ghost vm = v@.map_values(|x: i64| x as int);
    for i in 0..v.len()
        invariant
            vm == v@.map_values(|x: i64| x as int),
            out@.len() == dedup_back(vm.take(i as int)).len(),
            forall|k: int|
                0 <= k < out@.len() ==> #[trigger] out@[k] as int == dedup_back(
                    vm.take(i as int),
                )[k],
            i >= 1 ==> out@.len() >= 1 && out@[out@.len() - 1] == v@[i - 1],
            i == 0 ==> out@.len() == 0,
    {
        proof {
            assert(vm.take(i + 1).drop_last() =~= vm.take(i as int));
            assert(vm.take(i + 1).last() == v@[i as int] as int);
            if i >= 1 {
                assert(vm.take(i + 1)[i - 1] == v@[i - 1] as int);
            }
        }
        if out.len() == 0 {
            out.push(v[i]);
        } else {
            let last = out[out.len() - 1];
            if last != v[i] {
                out.push(v[i]);
            }
        }
    }
    proof {
        assert(vm.take(v@.len() as int) =~= vm);
    }
    out
}

/// Every factor the wheel emits from a positive number is positive.
pub proof fn lemma_wheel_pos(num: int, f: int, w: int)
    requires
        1 <= num,
        2 <= f,
    ensures
        forall|i: int|
            0 <= i < wheel_seq(num, f, w).len() ==> 1 <= #[trigger] wheel_seq(num, f, w)[i],
    decreases num, wheel_gap(num, f),
{
    if 2 <= f && f * f <= num && 0 <= w <= 10 {
        if num % f == 0 {
            assert(1 <= num / f && num / f < num) by (nonlinear_arith)
                requires
                    2 <= f,
                    f * f <= num,
                    num % f == 0,
                    num >= 1,
            ;
            lemma_wheel_pos(num / f, f, w);
            assert forall|i: int|
                0 <= i < wheel_seq(num, f, w).len() implies 1 <= #[trigger] wheel_seq(
                num,
                f,
                w,
            )[i] by {
                if i == 0 {
                    assert(wheel_seq(num, f, w)[0] == f);
                } else {
                    assert(wheel_seq(num, f, w)[i] == wheel_seq(num / f, f, w)[i - 1]);
                }
            }
        } else {
            assert(f < num) by (nonlinear_arith)
                requires
                    2 <= f,
                    f * f <= num,
            ;
            lemma_wheel_pos(num, f + wheel_val(w), wheel_next(w));
            assert(wheel_seq(num, f, w) == wheel_seq(num, f + wheel_val(w), wheel_next(w)));
        }
    } else {
        assert(wheel_seq(num, f, w) == seq![num]);
        assert(wheel_seq(num, f, w)[0] == num);
    }
}

/// Whether an element escapes every additive divisor test: no quotient
/// of the group size by a factor carries it onto one.
pub open spec fn add_can(e: int, gs: int, m: int, factors: Seq<int>) -> bool {
    forall|fi: int|
        0 <= fi < factors.len() ==> #[trigger] trunc_rem_int(e * (gs / factors[fi]), m) != 1
}

/// Whether an element escapes every multiplicative divisor test.
pub open spec fn mul_can(e: int, gs: int, m: int, factors: Seq<int>) -> bool {
    forall|fi: int|
        0 <= fi < factors.len() ==> #[trigger] trunc_rem_int(
            pow_int(e, gs / factors[fi]),
            m,
        ) != 1
}

/// The elements of `g` passing the additive test, in order.
pub open spec fn filter_add(g: Seq<int>, gs: int, m: int, factors: Seq<int>) -> Seq<int>
    decreases g.len(),
{
    if g.len() == 0 {
        Seq::empty()
    } else {
        let p = filter_add(g.drop_last(), gs, m, factors);
        if add_can(g.last(), gs, m, factors) {
            p.push(g.last())
        } else {
            p
        }
    }
}

/// The elements of `g` passing the multiplicative test, in order.
pub open spec fn filter_mul(g: Seq<int>, gs: int, m: int, factors: Seq<int>) -> Seq<int>
    decreases g.len(),
{
    if g.len() == 0 {
        Seq::empty()
    } else {
        let p = filter_mul(g.drop_last(), gs, m, factors);
        if mul_can(g.last(), gs, m, factors) {
            p.push(g.last())
        } else {
            p
        }
    }
}

/// A run with its first zero, if any, taken out.
pub open spec fn drop_first_zero(s: Seq<int>) -> Seq<int>
    decreases s.len(),
{
    if s.len() == 0 {
        s
    } else if s[0] == 0 {
        s.subrange(1, s.len() as int)
    } else {
        seq![s[0]] + drop_first_zero(s.subrange(1, s.len() as int))
    }
}

/// A zero-free run is left alone by the zero removal.
pub proof fn lemma_drop_zero_none(s: Seq<int>)
    requires
        forall|j: int| 0 <= j < s.len() ==> s[j] != 0,
    ensures
        drop_first_zero(s) =~= s,
    decreases s.len(),
{
    if s.len() > 0 {
        lemma_drop_zero_none(s.subrange(1, s.len() as int));
        assert((seq![s[0]] + s.subrange(1, s.len() as int)) =~= s);
    }
}

/// Removing the first zero is cutting the run at its position.
pub proof fn lemma_drop_zero_at(s: Seq<int>, pos: int)
    requires
        0 <= pos < s.len(),
        s[pos] == 0,
        forall|j: int| 0 <= j < pos ==> s[j] != 0,
    ensures
        drop_first_zero(s) =~= s.subrange(0, pos) + s.subrange(pos + 1, s.len() as int),
    decreases pos,
{
    if pos == 0 {
        assert(s.subrange(0, 0) + s.subrange(1, s.len() as int) =~= s.subrange(
            1,
            s.len() as int,
        ));
    } else {
        let rest = s.subrange(1, s.len() as int);
        lemma_drop_zero_at(rest, pos - 1);
        assert((seq![s[0]] + (rest.subrange(0, pos - 1) + rest.subrange(
            pos,
            rest.len() as int,
        ))) =~= s.subrange(0, pos) + s.subrange(pos + 1, s.len() as int));
    }
}

/// What the additive arm of the generator search returns: the filtered
/// group, its first zero removed, and a leading one restored when the
/// group held one but the filter lost it.
pub open spec fn producers_add_spec(g: Seq<int>, gs: int, m: int, factors: Seq<int>) -> Seq<int> {
    let kept = filter_add(g, gs, m, factors);
    let no_zero = drop_first_zero(kept);
    if !no_zero.contains(1) && g.contains(1) {
        seq![1int] + no_zero
    } else {
        no_zero
    }
}


/// Some positive exponent carries the element back to one.
pub open spec fn star_order_exists(e: int, m: int) -> bool {
    exists|k: int| 1 <= k <= i64::MAX && #[trigger] pow_mod_chain(e, k, m) == 1
}

/// The chain of powers of zero never reaches one.
pub proof fn lemma_pow_chain_zero(k: int, m: int)
    requires
        1 <= k,
        1 <= m,
    ensures
        pow_mod_chain(0, k, m) == 0,
    decreases k,
{
    assert(0int % m == 0) by (nonlinear_arith)
        requires
            m >= 1,
    ;
    if k > 1 {
        lemma_pow_chain_zero(k - 1, m);
        assert(pow_mod_chain(0, k, m) == (pow_mod_chain(0, k - 1, m) * 0) % m);
        assert(pow_mod_chain(0, k - 1, m) * 0 == 0);
    } else {
        assert(pow_mod_chain(0, 0, m) == 1);
        assert(pow_mod_chain(0, 1, m) == (1int * 0int) % m);
    }
}

/// Whether the order of `num` is exactly `group_size`: the power chain
/// first returns to one after that many steps.
fn is_producer_mul(modulo: i64, num: i64, group_size: i64) -> (r: bool)
    requires
        0 <= num,
        1 <= modulo,
        (modulo - 1) * num <= i64::MAX,
        star_order_exists(num as int, modulo as int),
    ensures
        r == mul_order_exact(modulo as int, num as int, group_size as int),
{
    proof {
        let k0 = choose|k: int|
            1 <= k <= i64::MAX && #[trigger] pow_mod_chain(num as int, k, modulo as int) == 1;
        if num == 0 {
            lemma_pow_chain_zero(k0, modulo as int);
        }
        assert(exists|k: int|
            1 <= k <= i64::MAX && #[trigger] pow_mod_chain(num as int, k, modulo as int) == 1);
    }
    let p = order_multiplicative(modulo, num);
    let counter = p.1;
    proof {
        if counter as int != group_size as int && mul_order_exact(
            modulo as int,
            num as int,
            group_size as int,
        ) {
            if group_size < counter {
                assert(pow_mod_chain(num as int, group_size as int, modulo as int) != 1);
            } else {
                assert(pow_mod_chain(num as int, counter as int, modulo as int) != 1);
            }
        }
    }
    counter == group_size
}

/// Whether the bounded order search stops exactly at `group_size`.
fn is_producer_mul_2(modulo: i64, num: i64, group_size: i64) -> (r: bool)
    requires
        0 <= num,
        1 <= modulo,
        (modulo - 1) * num <= i64::MAX,
    ensures
        r == mul_order_bounded(modulo as int, num as int, group_size as int),
{
    let mut counter: i64 = 1;
    let mut tmp: i64 = num % modulo;
    proof {
        assert(pow_mod_chain(num as int, 0, modulo as int) == 1);
        assert(pow_mod_chain(num as int, 1, modulo as int) == (1 * (num as int)) % (
        modulo as int));
    }
    while tmp != 1 && counter < modulo
        invariant
            0 <= num,
            1 <= modulo,
            (modulo - 1) * num <= i64::MAX,
            1 <= counter <= modulo,
            0 <= tmp < modulo,
            tmp == pow_mod_chain(num as int, counter as int, modulo as int),
            forall|j: int| 1 <= j < counter ==> #[trigger] pow_mod_chain(num as int, j, modulo as int) != 1,
        decreases modulo - counter,
    {
        proof {
            assert(0 <= tmp * num <= (modulo - 1) * num) by (nonlinear_arith)
                requires
                    0 <= tmp <= modulo - 1,
                    0 <= num,
            ;
        }
        tmp = (tmp * num) % modulo;
        counter = counter + 1;
    }
    proof {
        if counter as int != group_size as int && mul_order_bounded(
            modulo as int,
            num as int,
            group_size as int,
        ) {
            if group_size < counter {
                assert(pow_mod_chain(num as int, group_size as int, modulo as int) != 1);
            } else {
                assert(pow_mod_chain(num as int, counter as int, modulo as int) != 1);
            }
        }
    }
    counter == group_size
}

/// The elements of `g` whose exact order is the group size.
pub open spec fn filter_order_exact(g: Seq<int>, m: int, gs: int) -> Seq<int>
    decreases g.len(),
{
    if g.len() == 0 {
        Seq::empty()
    } else {
        let p = filter_order_exact(g.drop_last(), m, gs);
        if mul_order_exact(m, g.last(), gs) {
            p.push(g.last())
        } else {
            p
        }
    }
}

/// The elements of `g` whose bounded order search stops at the group
/// size.
pub open spec fn filter_order_bounded(g: Seq<int>, m: int, gs: int) -> Seq<int>
    decreases g.len(),
{
    if g.len() == 0 {
        Seq::empty()
    } else {
        let p = filter_order_bounded(g.drop_last(), m, gs);
        if mul_order_bounded(m, g.last(), gs) {
            p.push(g.last())
        } else {
            p
        }
    }
}


/// Elements of a positive run stay positive after collapsing
/// neighbours.
pub proof fn lemma_dedup_back_pos(s: Seq<int>)
    requires
        forall|j: int| 0 <= j < s.len() ==> 1 <= #[trigger] s[j],
    ensures
        forall|k: int| 0 <= k < dedup_back(s).len() ==> 1 <= #[trigger] dedup_back(s)[k],
    decreases s.len(),
{
    if s.len() > 1 {
        lemma_dedup_back_pos(s.drop_last());
        assert forall|k: int|
            0 <= k < dedup_back(s).len() implies 1 <= #[trigger] dedup_back(s)[k] by {
            if s[s.len() - 1] == s[s.len() - 2] {
                assert(dedup_back(s) == dedup_back(s.drop_last()));
            } else {
                assert(dedup_back(s) == dedup_back(s.drop_last()).push(s.last()));
                if k == dedup_back(s).len() - 1 {
                    assert(dedup_back(s)[k] == s.last());
                    assert(1 <= s[s.len() - 1]);
                }
            }
        }
    }
}

/// What the generator search returns for each flavour of group: the
/// additive arm filters by the linear test and patches zero and one;
/// the multiplicative arms filter by the power test, or by the order
/// itself when the `big` search is asked for.
pub open spec fn producers_spec(g: Seq<int>, m: int, kind: GroupType, big: bool) -> Seq<int> {
    let gs = g.len() as int;
    let factors = dedup_back(wheel_seq(gs, 2, 0));
    if kind == GroupType::Additive {
        producers_add_spec(g, gs, m, factors)
    } else if big && kind == GroupType::Multiplicative {
        filter_order_bounded(g, m, gs)
    } else if big {
        filter_order_exact(g, m, gs)
    } else {
        filter_mul(g, gs, m, factors)
    }
}

/// The generators of the group: the elements no proper divisor test
/// can fold back onto one.
pub fn producers(modulo: i64, group: &Vec<i64>, kind: GroupType, big: bool) -> (r: Vec<i64>)
    requires
        1 <= group@.len() <= 0xffffffff,
        1 <= modulo,
        kind == GroupType::Additive ==> forall|ei: int|
            0 <= ei < group@.len() ==> i64::MIN <= #[trigger] (group@[ei] * group@.len())
                <= i64::MAX,
        kind != GroupType::Additive && !big ==> forall|ei: int, fi: int|
            0 <= ei < group@.len() && 0 <= fi < dedup_back(
                wheel_seq(group@.len() as int, 2, 0),
            ).len() ==> pow_fits(
                #[trigger] group@[ei] as int,
                group@.len() as int / #[trigger] dedup_back(
                    wheel_seq(group@.len() as int, 2, 0),
                )[fi],
            ),
        kind != GroupType::Additive && big ==> forall|ei: int|
            0 <= ei < group@.len() ==> 0 <= #[trigger] group@[ei] && (modulo - 1) * group@[ei]
                <= i64::MAX,
        kind == GroupType::MultiplicativeStar && big ==> forall|ei: int|
            0 <= ei < group@.len() ==> #[trigger] star_order_exists(
                group@[ei] as int,
                modulo as int,
            ),
    ensures
        r@.len() == producers_spec(
            group@.map_values(|x: i64| x as int),
            modulo as int,
            kind,
            big,
        ).len(),
        forall|k: int|
            0 <= k < r@.len() ==> #[trigger] r@[k] as int == producers_spec(
                group@.map_values(|x: i64| x as int),
                modulo as int,
                kind,
                big,
            )[k],
{
    let ghost gm = group@.map_values(|x: i64| x as int);
    let group_size = group.len() as i64;
    let ghost gs = gm.len() as int;
    let mut producers: Vec<i64> = Vec::new();
    match kind {
        GroupType::Additive => {
            let wf_vec = wheel_factorization(group_size);
            let factors_vec = dedup_i64(&wf_vec);
            let ghost factors = dedup_back(wheel_seq(gs, 2, 0));
            proof {
                assert(wf_vec@.map_values(|x: i64| x as int) =~= wheel_seq(gs, 2, 0));
                assert(factors_vec@.len() == factors.len());
                assert(forall|k: int|
                    0 <= k < factors_vec@.len() ==> #[trigger] factors_vec@[k] as int
                        == factors[k]);
                lemma_wheel_pos(gs, 2, 0);
                lemma_dedup_back_pos(wheel_seq(gs, 2, 0));
            }
            for ei in 0..group.len()
                invariant
                    gm == group@.map_values(|x: i64| x as int),
                    gs == gm.len() as int,
                    1 <= gs <= 0xffffffff,
                    group_size as int == gs,
                    1 <= modulo,
                    factors == dedup_back(wheel_seq(gs, 2, 0)),
                    factors_vec@.len() == factors.len(),
                    forall|k: int|
                        0 <= k < factors_vec@.len() ==> #[trigger] factors_vec@[k] as int
                            == factors[k],
                    forall|k: int| 0 <= k < factors.len() ==> 1 <= #[trigger] factors[k],
                    forall|j: int|
                        0 <= j < group@.len() ==> i64::MIN <= #[trigger] (group@[j]
                            * group@.len()) <= i64::MAX,
                    producers@.len() == filter_add(gm.take(ei as int), gs, modulo as int, factors).len(),
                    forall|k: int|
                        0 <= k < producers@.len() ==> #[trigger] producers@[k] as int
                            == filter_add(gm.take(ei as int), gs, modulo as int, factors)[k],
            {
                let e = group[ei];
                let mut can_add = true;
                let mut fi: usize = 0;
                while fi < factors_vec.len()
                    invariant
                        fi <= factors_vec@.len(),
                        ei < group@.len(),
                        e == group@[ei as int],
                        gm == group@.map_values(|x: i64| x as int),
                        gs == gm.len() as int,
                        1 <= gs <= 0xffffffff,
                        group_size as int == gs,
                        1 <= modulo,
                        i64::MIN <= group@[ei as int] * group@.len() <= i64::MAX,
                        factors_vec@.len() == factors.len(),
                        forall|k: int|
                            0 <= k < factors_vec@.len() ==> #[trigger] factors_vec@[k] as int
                                == factors[k],
                        forall|k: int| 0 <= k < factors.len() ==> 1 <= #[trigger] factors[k],
                        can_add ==> forall|fj: int|
                            0 <= fj < fi ==> #[trigger] trunc_rem_int(
                                gm[ei as int] * (gs / factors[fj]),
                                modulo as int,
                            ) != 1,
                        !can_add ==> !add_can(gm[ei as int], gs, modulo as int, factors),
                    decreases factors_vec@.len() - fi,
                {
                    let factor = factors_vec[fi];
                    let q = group_size / factor;
                    proof {
                        assert(0 <= gs / (factor as int) <= gs) by (nonlinear_arith)
                            requires
                                1 <= gs,
                                1 <= factor as int,
                        ;
                        assert(i64::MIN <= (e as int) * (q as int) <= i64::MAX) by (nonlinear_arith)
                            requires
                                i64::MIN <= (e as int) * gs <= i64::MAX,
                                0 <= q as int <= gs,
                                1 <= gs,
                        ;
                    }
                    let p = e * q;
                    let rem = p % modulo;
                    proof {
                        if p >= 0 {
                            assert(rem as int == trunc_rem_int(p as int, modulo as int));
                        } else {
                            assert(rem as int == trunc_rem_int(p as int, modulo as int));
                        }
                        assert(p as int == gm[ei as int] * (gs / factors[fi as int]));
                    }
                    if rem == 1 {
                        can_add = false;
                    }
                    fi = fi + 1;
                }
                proof {
                    if can_add {
                        assert(add_can(gm[ei as int], gs, modulo as int, factors));
                    }
                    assert(gm.take(ei + 1).drop_last() =~= gm.take(ei as int));
                    assert(gm.take(ei + 1).last() == gm[ei as int]);
                }
                if can_add {
                    producers.push(e);
                }
            }
            proof {
                assert(gm.take(gm.len() as int) =~= gm);
            }
            let ghost kept = filter_add(gm, gs, modulo as int, factors);
            let mut zpos: usize = 0;
            let mut zfound = false;
            for j in 0..producers.len()
                invariant
                    producers@.len() == kept.len(),
                    forall|k: int|
                        0 <= k < producers@.len() ==> #[trigger] producers@[k] as int == kept[k],
                    !zfound ==> forall|k: int| 0 <= k < j ==> #[trigger] producers@[k] != 0,
                    zfound ==> zpos < producers@.len() && producers@[zpos as int] == 0 && forall|
                        k: int,
                    | 0 <= k < zpos ==> #[trigger] producers@[k] != 0,
            {
                if !zfound && producers[j] == 0 {
                    zfound = true;
                    zpos = j;
                }
            }
            let ghost no_zero = drop_first_zero(kept);
            if zfound {
                producers.remove(zpos);
                proof {
                    assert(kept[zpos as int] == 0);
                    assert forall|k: int| 0 <= k < zpos implies #[trigger] kept[k] != 0 by {
                        assert(producers@[k] as int == kept[k]);
                        assert(producers@[k] != 0);
                    }
                    lemma_drop_zero_at(kept, zpos as int);
                    assert(producers@.len() == no_zero.len());
                    assert forall|k: int|
                        0 <= k < producers@.len() implies #[trigger] producers@[k] as int
                        == no_zero[k] by {
                        if k < zpos {
                            assert(no_zero[k] == kept[k]);
                        } else {
                            assert(no_zero[k] == kept[k + 1]);
                        }
                    }
                }
            } else {
                proof {
                    assert forall|k: int| 0 <= k < kept.len() implies #[trigger] kept[k] != 0 by {
                        assert(producers@[k] as int == kept[k]);
                        assert(producers@[k] != 0);
                    }
                    lemma_drop_zero_none(kept);
                }
            }
            let mut has_one = false;
            for j in 0..producers.len()
                invariant
                    producers@.len() == no_zero.len(),
                    forall|k: int|
                        0 <= k < producers@.len() ==> #[trigger] producers@[k] as int
                            == no_zero[k],
                    has_one == exists|k: int| 0 <= k < j && #[trigger] producers@[k] == 1,
            {
                if producers[j] == 1 {
                    has_one = true;
                }
            }
            let mut group_has_one = false;
            for j in 0..group.len()
                invariant
                    gm == group@.map_values(|x: i64| x as int),
                    group_has_one == exists|k: int| 0 <= k < j && #[trigger] group@[k] == 1,
            {
                if group[j] == 1 {
                    group_has_one = true;
                }
            }
            proof {
                assert(has_one == no_zero.contains(1int)) by {
                    if has_one {
                        let k = choose|k: int|
                            0 <= k < producers@.len() && #[trigger] producers@[k] == 1;
                        assert(no_zero[k] == 1int);
                    }
                    if no_zero.contains(1int) {
                        let k = choose|k: int| 0 <= k < no_zero.len() && no_zero[k] == 1int;
                        assert(producers@[k] == 1i64);
                    }
                }
                assert(group_has_one == gm.contains(1int)) by {
                    if group_has_one {
                        let k = choose|k: int| 0 <= k < group@.len() && #[trigger] group@[k] == 1;
                        assert(gm[k] == 1int);
                    }
                    if gm.contains(1int) {
                        let k = choose|k: int| 0 <= k < gm.len() && gm[k] == 1int;
                        assert(group@[k] == 1i64);
                    }
                }
            }
            if !has_one && group_has_one {
                producers.insert(0, 1);
                proof {
                    assert(producers@ =~= seq![1i64] + producers@.subrange(
                        1,
                        producers@.len() as int,
                    ));
                }
            }
        },
        GroupType::Multiplicative | GroupType::MultiplicativeStar => {
            if big {
                let star = match kind {
                    GroupType::MultiplicativeStar => true,
                    _ => false,
                };
                for ei in 0..group.len()
                    invariant
                        gm == group@.map_values(|x: i64| x as int),
                        gs == gm.len() as int,
                        1 <= modulo,
                        star == (kind == GroupType::MultiplicativeStar),
                        kind == GroupType::Multiplicative || kind
                            == GroupType::MultiplicativeStar,
                        group_size as int == gs,
                        forall|j: int|
                            0 <= j < group@.len() ==> 0 <= #[trigger] group@[j] && (modulo - 1)
                                * group@[j] <= i64::MAX,
                        star ==> forall|j: int|
                            0 <= j < group@.len() ==> #[trigger] star_order_exists(
                                group@[j] as int,
                                modulo as int,
                            ),
                        !star ==> producers@.len() == filter_order_bounded(
                            gm.take(ei as int),
                            modulo as int,
                            gs,
                        ).len() && forall|k: int|
                            0 <= k < producers@.len() ==> #[trigger] producers@[k] as int
                                == filter_order_bounded(gm.take(ei as int), modulo as int, gs)[k],
                        star ==> producers@.len() == filter_order_exact(
                            gm.take(ei as int),
                            modulo as int,
                            gs,
                        ).len() && forall|k: int|
                            0 <= k < producers@.len() ==> #[trigger] producers@[k] as int
                                == filter_order_exact(gm.take(ei as int), modulo as int, gs)[k],
                {
                    let e = group[ei];
                    let keep = if star {
                        is_producer_mul(modulo, e, group_size)
                    } else {
                        is_producer_mul_2(modulo, e, group_size)
                    };
                    proof {
                        assert(gm.take(ei + 1).drop_last() =~= gm.take(ei as int));
                        assert(gm.take(ei + 1).last() == gm[ei as int]);
                    }
                    if keep {
                        producers.push(e);
                    }
                }
                proof {
                    assert(gm.take(gm.len() as int) =~= gm);
                }
            } else {
                let wf_vec = wheel_factorization(group_size);
                let factors_vec = dedup_i64(&wf_vec);
                let ghost factors = dedup_back(wheel_seq(gs, 2, 0));
                proof {
                    assert(wf_vec@.map_values(|x: i64| x as int) =~= wheel_seq(gs, 2, 0));
                    assert(factors_vec@.len() == factors.len());
                    assert(forall|k: int|
                        0 <= k < factors_vec@.len() ==> #[trigger] factors_vec@[k] as int
                            == factors[k]);
                    lemma_wheel_pos(gs, 2, 0);
                    lemma_dedup_back_pos(wheel_seq(gs, 2, 0));
                }
                for ei in 0..group.len()
                    invariant
                        gm == group@.map_values(|x: i64| x as int),
                        gs == gm.len() as int,
                        1 <= gs <= 0xffffffff,
                        group_size as int == gs,
                        1 <= modulo,
                        factors == dedup_back(wheel_seq(gs, 2, 0)),
                        factors_vec@.len() == factors.len(),
                        forall|k: int|
                            0 <= k < factors_vec@.len() ==> #[trigger] factors_vec@[k] as int
                                == factors[k],
                        forall|k: int| 0 <= k < factors.len() ==> 1 <= #[trigger] factors[k],
                        forall|j: int, fj: int|
                            0 <= j < group@.len() && 0 <= fj < factors.len() ==> pow_fits(
                                #[trigger] group@[j] as int,
                                gs / #[trigger] factors[fj],
                            ),
                        producers@.len() == filter_mul(gm.take(ei as int), gs, modulo as int, factors).len(),
                        forall|k: int|
                            0 <= k < producers@.len() ==> #[trigger] producers@[k] as int
                                == filter_mul(gm.take(ei as int), gs, modulo as int, factors)[k],
                {
                    let e = group[ei];
                    let mut can_add = true;
                    let mut fi: usize = 0;
                    while fi < factors_vec.len()
                        invariant
                            fi <= factors_vec@.len(),
                            ei < group@.len(),
                            e == group@[ei as int],
                            gm == group@.map_values(|x: i64| x as int),
                            gs == gm.len() as int,
                            1 <= gs <= 0xffffffff,
                            group_size as int == gs,
                            1 <= modulo,
                            factors_vec@.len() == factors.len(),
                            forall|k: int|
                                0 <= k < factors_vec@.len() ==> #[trigger] factors_vec@[k] as int
                                    == factors[k],
                            forall|k: int| 0 <= k < factors.len() ==> 1 <= #[trigger] factors[k],
                            forall|fj: int|
                                0 <= fj < factors.len() ==> pow_fits(
                                    group@[ei as int] as int,
                                    gs / #[trigger] factors[fj],
                                ),
                            can_add ==> forall|fj: int|
                                0 <= fj < fi ==> #[trigger] trunc_rem_int(
                                    pow_int(gm[ei as int], gs / factors[fj]),
                                    modulo as int,
                                ) != 1,
                            !can_add ==> !mul_can(gm[ei as int], gs, modulo as int, factors),
                        decreases factors_vec@.len() - fi,
                    {
                        let factor = factors_vec[fi];
                        let q = group_size / factor;
                        proof {
                            assert(0 <= gs / (factor as int) <= gs) by (nonlinear_arith)
                                requires
                                    1 <= gs,
                                    1 <= factor as int,
                            ;
                        }
                        let p = pow_i64(e, q as u32);
                        let rem = p % modulo;
                        proof {
                            if p >= 0 {
                                assert(rem as int == trunc_rem_int(p as int, modulo as int));
                            } else {
                                assert(rem as int == trunc_rem_int(p as int, modulo as int));
                            }
                            assert(p as int == pow_int(gm[ei as int], gs / factors[fi as int]));
                        }
                        if rem == 1 {
                            can_add = false;
                        }
                        fi = fi + 1;
                    }
                    proof {
                        if can_add {
                            assert(mul_can(gm[ei as int], gs, modulo as int, factors));
                        }
                        assert(gm.take(ei + 1).drop_last() =~= gm.take(ei as int));
                        assert(gm.take(ei + 1).last() == gm[ei as int]);
                    }
                    if can_add {
                        producers.push(e);
                    }
                }
                proof {
                    assert(gm.take(gm.len() as int) =~= gm);
                }
            }
        },
    }
    producers
}

} // verus!
