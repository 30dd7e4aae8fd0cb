//! Reading vectors and matrices from plain text.
//!
//! The text form is columns separated by `';'` and entries separated by
//! `' '`.  A piece that is not a decimal number — or does not fit the
//! scalar — reads as zero, a position the text does not give stays
//! zero, and pieces beyond the dimensions are ignored.  The functional
//! model below states all of this exactly, and the `From` conversions
//! are verified against it.

use crate::linear::mat::Matrix;
use crate::linear::mat::lemma_matrix_entrywise_eq;
use crate::linear::vec::Vector;
use crate::linear::vec::lemma_vector_entrywise_eq;
use vstd::prelude::*;

verus! {

/// One pass of the splitter over the first `i` characters: the pieces
/// already closed by a separator, and the piece still open.
pub open spec fn split_acc(s: Seq<char>, sep: char, i: int) -> (Seq<Seq<char>>, Seq<char>)
    decreases i,
{
    if i <= 0 {
        (Seq::empty(), Seq::empty())
    } else {
        let prev = split_acc(s, sep, i - 1);
        if s[i - 1] == sep {
            (prev.0.push(prev.1), Seq::empty())
        } else {
            (prev.0, prev.1.push(s[i - 1]))
        }
    }
}

/// The pieces of `s` between occurrences of `sep`; like the standard
/// splitter, it always yields at least one piece.
pub open spec fn split_chars(s: Seq<char>, sep: char) -> Seq<Seq<char>> {
    split_acc(s, sep, s.len() as int).0.push(split_acc(s, sep, s.len() as int).1)
}

/// A decimal digit.
pub open spec fn is_digit(c: char) -> bool {
    48 <= c as u32 <= 57
}

/// At least one character, all of them digits.
pub open spec fn all_digits(t: Seq<char>) -> bool {
    t.len() > 0 && forall|k: int| 0 <= k < t.len() ==> is_digit(#[trigger] t[k])
}

/// The value of the first `i` characters read as decimal digits, most
/// significant first.
pub open spec fn digits_val(t: Seq<char>, i: int) -> int
    decreases i,
{
    if i <= 0 {
        0
    } else {
        digits_val(t, i - 1) * 10 + (t[i - 1] as u32 - 48)
    }
}

/// What a piece of text parses to: the signed decimal value when the
/// piece is a decimal number that fits the scalar, and zero otherwise.
pub open spec fn token_i32(t: Seq<char>) -> i32 {
    if t.len() > 0 && (t[0] == '-' || t[0] == '+') {
        let body = t.subrange(1, t.len() as int);
        let v = digits_val(body, body.len() as int);
        if t[0] == '-' {
            if all_digits(body) && -v >= i32::MIN as int {
                (-v) as i32
            } else {
                0
            }
        } else {
            if all_digits(body) && v <= i32::MAX as int {
                v as i32
            } else {
                0
            }
        }
    } else {
        let v = digits_val(t, t.len() as int);
        if all_digits(t) && v <= i32::MAX as int {
            v as i32
        } else {
            0
        }
    }
}

/// Entry `(m, n)` of a text form: token `m` of chunk `n`, and zero
/// wherever the text gives no token.
pub open spec fn text_entry(s: Seq<char>, m: int, n: int) -> i32 {
    let cols = split_chars(s, ';');
    if 0 <= n < cols.len() {
        let toks = split_chars(cols[n], ' ');
        if 0 <= m < toks.len() {
            token_i32(toks[m])
        } else {
            0i32
        }
    } else {
        0i32
    }
}

/// The matrix reads the text: every entry within the dimensions is
/// the text's entry.
pub open spec fn matrix_matches_text<const M: usize, const N: usize>(
    mt: Matrix<i32, M, N>,
    s: Seq<char>,
) -> bool {
    forall|m: int, n: int|
        0 <= m < M && 0 <= n < N ==> #[trigger] mt.ent(m, n) == text_entry(s, m, n)
}

/// The vector reads the text: every component is an entry of the
/// text's first chunk.
pub open spec fn vector_matches_text<const N: usize>(vt: Vector<i32, N>, s: Seq<char>) -> bool {
    forall|m: int| 0 <= m < N ==> #[trigger] vt.data@[m] == text_entry(s, m, 0)
}

/// The characters of a string slice, as a vector.
fn collect_chars(s: &str) -> (r: Vec<char>)
    ensures
        r@ == s@,
{
    let mut out: Vec<char> = Vec::new();
    for c in it: s.chars()
        invariant
            it.seq() == s@,
            out@ == it.seq().take(it.index() as int),
    {
        out.push(c);
    }
    proof {
        assert(out@ =~= s@);
    }
    out
}

/// Split the characters at every occurrence of `sep`.
fn split_exec(chars: &Vec<char>, sep: char) -> (r: Vec<Vec<char>>)
    ensures
        r@.len() == split_chars(chars@, sep).len(),
        forall|k: int| 0 <= k < r@.len() ==> #[trigger] r@[k]@ == split_chars(chars@, sep)[k],
{
    let mut done: Vec<Vec<char>> = Vec::new();
    let mut cur: Vec<char> = Vec::new();
    for i in 0..chars.len()
        invariant
            done@.len() == split_acc(chars@, sep, i as int).0.len(),
            forall|k: int|
                0 <= k < done@.len() ==> #[trigger] done@[k]@ == split_acc(
                    chars@,
                    sep,
                    i as int,
                ).0[k],
            cur@ == split_acc(chars@, sep, i as int).1,
    {
        if chars[i] == sep {
            done.push(cur);
            cur = Vec::new();
        } else {
            cur.push(chars[i]);
        }
    }
    done.push(cur);
    done
}

/// Parse one piece of text as a signed decimal number, zero when it is
/// not one or does not fit.
fn token_exec(t: &Vec<char>) -> (r: i32)
    ensures
        r == token_i32(t@),
{
    let n = t.len();
    let signed = n > 0 && (t[0] == '-' || t[0] == '+');
    let start: usize = if signed {
        1
    } else {
        0
    };
    let ghost body = t@.subrange(start as int, n as int);
    proof {
        if !signed {
            assert(body =~= t@);
        }
    }
    if n == start {
        return 0;
    }
    let mut ok = true;
    let mut acc: i64 = 0;
    for i in start..n
        invariant
            n == t@.len(),
            start <= i <= n,
            start < n,
            start == 0 || start == 1,
            body == t@.subrange(start as int, n as int),
            ok == forall|k: int| 0 <= k < i - start ==> is_digit(#[trigger] body[k]),
            ok ==> 0 <= acc <= 0x80000001,
            ok && digits_val(body, i - start) <= 0x80000000 ==> acc == digits_val(
                body,
                i - start,
            ),
            ok && digits_val(body, i - start) > 0x80000000 ==> acc == 0x80000001,
    {
        let c = t[i];
        let u = c as u32;
        proof {
            assert(body[i - start] == t@[i as int]);
        }
        if 48 <= u && u <= 57 {
            if ok {
                let d = (u - 48) as i64;
                proof {
                    assert(digits_val(body, i - start + 1) == digits_val(body, i - start) * 10 + (
                    body[i - start] as u32 - 48));
                }
                if acc > 0x80000000 {
                    // once the value has passed the bound it stays past it
                    proof {
                        assert(digits_val(body, i - start) > 0x80000000);
                        assert(digits_val(body, i - start) * 10 >= digits_val(body, i - start))
                            by (nonlinear_arith)
                            requires
                                digits_val(body, i - start) >= 0,
                        ;
                        assert(digits_val(body, i - start + 1) > 0x80000000);
                    }
                } else {
                    acc = acc * 10 + d;
                    if acc > 0x80000000 {
                        acc = 0x80000001;
                    }
                }
            }
        } else {
            ok = false;
        }
    }
    if !ok {
        proof {
            assert(!all_digits(body));
        }
        return 0;
    }
    proof {
        assert(all_digits(body));
    }
    if signed && t[0] == '-' {
        if acc <= 0x80000000 {
            (-acc) as i32
        } else {
            0
        }
    } else {
        if acc <= 0x7fffffff {
            acc as i32
        } else {
            0
        }
    }
}

impl<const M: usize, const N: usize> From<String> for Matrix<i32, M, N> {
    /// Read a matrix from text.
    fn from(rhs: String) -> (r: Self) {
        let chars = collect_chars(rhs.as_str());
        let ghost sview = rhs@;
        let cols = split_exec(&chars, ';');
        let mut mat = Matrix::<i32, M, N>::broadcast(0);
        let mut n: usize = 0;
        while n < cols.len() && n < N
            invariant
                chars@ == sview,
                cols@.len() == split_chars(sview, ';').len(),
                forall|k: int|
                    0 <= k < cols@.len() ==> #[trigger] cols@[k]@ == split_chars(sview, ';')[k],
                n <= N,
                n <= cols@.len(),
                forall|i: int, j: int|
                    0 <= i < M && 0 <= j < n ==> mat.ent(i, j) == text_entry(sview, i, j),
                forall|i: int, j: int|
                    0 <= i < M && n <= j < N ==> mat.ent(i, j) == 0i32,
            decreases cols@.len() - n,
        {
            let toks = split_exec(&cols[n], ' ');
            let mut m: usize = 0;
            while m < toks.len() && m < M
                invariant
                    n < N,
                    n < cols@.len(),
                    n < split_chars(sview, ';').len(),
                    cols@[n as int]@ == split_chars(sview, ';')[n as int],
                    toks@.len() == split_chars(cols@[n as int]@, ' ').len(),
                    forall|k: int|
                        0 <= k < toks@.len() ==> #[trigger] toks@[k]@ == split_chars(
                            cols@[n as int]@,
                            ' ',
                        )[k],
                    m <= M,
                    m <= toks@.len(),
                    forall|i: int, j: int|
                        0 <= i < M && 0 <= j < n ==> mat.ent(i, j) == text_entry(sview, i, j),
                    forall|i: int| 0 <= i < m ==> mat.ent(i, n as int) == text_entry(
                        sview,
                        i,
                        n as int,
                    ),
                    forall|i: int| m <= i < M ==> mat.ent(i, n as int) == 0i32,
                    forall|i: int, j: int|
                        0 <= i < M && n < j < N ==> mat.ent(i, j) == 0i32,
                decreases toks@.len() - m,
            {
                let v = token_exec(&toks[m]);
                mat.put(m, n, v);
                proof {
                    assert(split_chars(sview, ';')[n as int] == cols@[n as int]@);
                    assert(split_chars(cols@[n as int]@, ' ')[m as int] == toks@[m as int]@);
                    assert(text_entry(sview, m as int, n as int) == token_i32(toks@[m as int]@));
                }
                m = m + 1;
            }
            proof {
                assert forall|i: int| 0 <= i < M implies mat.ent(i, n as int) == text_entry(
                    sview,
                    i,
                    n as int,
                ) by {
                    if i >= m {
                        assert(i >= toks@.len() || i >= M);
                    }
                }
            }
            n = n + 1;
        }
        proof {
            assert forall|i: int, j: int| 0 <= i < M && 0 <= j < N implies mat.ent(i, j)
                == text_entry(sview, i, j) by {
                if j >= n {
                    assert(j >= cols@.len() || j >= N);
                }
            }
            assert(matrix_matches_text(mat, rhs@));
            let picked = choose|mt: Matrix<i32, M, N>| #[trigger] matrix_matches_text(mt, rhs@);
            lemma_matrix_entrywise_eq(mat, picked);
        }
        mat
    }
}

impl<const M: usize, const N: usize> vstd::std_specs::convert::FromSpecImpl<String> for Matrix<i32, M, N> {
    open spec fn obeys_from_spec() -> bool {
        true
    }

    open spec fn from_spec(rhs: String) -> Self {
        choose|mt: Matrix<i32, M, N>| #[trigger] matrix_matches_text(mt, rhs@)
    }
}

impl<const N: usize> From<String> for Vector<i32, N> {
    /// Read a column vector from text: the entries of the first chunk.
    fn from(rhs: String) -> (r: Self) {
        let chars = collect_chars(rhs.as_str());
        let ghost sview = rhs@;
        let cols = split_exec(&chars, ';');
        let toks = split_exec(&cols[0], ' ');
        let mut vec = Vector::<i32, N>::broadcast(0);
        let mut m: usize = 0;
        while m < toks.len() && m < N
            invariant
                cols@.len() >= 1,
                split_chars(sview, ';').len() >= 1,
                cols@[0]@ == split_chars(sview, ';')[0],
                toks@.len() == split_chars(cols@[0]@, ' ').len(),
                forall|k: int|
                    0 <= k < toks@.len() ==> #[trigger] toks@[k]@ == split_chars(
                        cols@[0]@,
                        ' ',
                    )[k],
                m <= N,
                m <= toks@.len(),
                forall|i: int| 0 <= i < m ==> vec.data@[i] == text_entry(sview, i, 0),
                forall|i: int| m <= i < N ==> vec.data@[i] == 0i32,
            decreases toks@.len() - m,
        {
            let v = token_exec(&toks[m]);
            vec.data[m] = v;
            proof {
                assert(split_chars(sview, ';')[0] == cols@[0]@);
                assert(split_chars(cols@[0]@, ' ')[m as int] == toks@[m as int]@);
                assert(text_entry(sview, m as int, 0) == token_i32(toks@[m as int]@));
            }
            m = m + 1;
        }
        proof {
            assert forall|i: int| 0 <= i < N implies vec.data@[i] == text_entry(sview, i, 0) by {
                if i >= m {
                    assert(i >= toks@.len() || i >= N);
                }
            }
            assert(vector_matches_text(vec, rhs@));
            let picked = choose|vt: Vector<i32, N>| #[trigger] vector_matches_text(vt, rhs@);
            lemma_vector_entrywise_eq(vec, picked);
        }
        vec
    }
}

impl<const N: usize> vstd::std_specs::convert::FromSpecImpl<String> for Vector<i32, N> {
    open spec fn obeys_from_spec() -> bool {
        true
    }

    open spec fn from_spec(rhs: String) -> Self {
        choose|vt: Vector<i32, N>| #[trigger] vector_matches_text(vt, rhs@)
    }
}

} // verus!
