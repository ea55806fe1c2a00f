//! Sequential matrix multiplication, row by row.
use vstd::prelude::*;
use crate::arith::{wrap_i32, lemma_wrap_add, lemma_wrap_facts, lemma_wrap_in_range, lemma_wrapping_add, lemma_wrapping_mul};
use crate::matrix::{rows_of, is_square, compatible, partial_dot, row_times, product};
use crate::sanitize::{sanitize_matrices, SanitizeResult};

verus! {

/// Adds the term `x * y` to the running entry `acc`, wrapping as `i32` does.
fn accumulate(acc: i32, x: i32, y: i32) -> (r: i32)
    ensures
        r as int == wrap_i32(acc + x * y),
{
    let p = x.wrapping_mul(y);
    let r = acc.wrapping_add(p);
    proof {
        lemma_wrapping_mul(x, y);
        lemma_wrapping_add(acc, p);
        lemma_wrap_in_range(acc as int);
        lemma_wrap_add(acc as int, x * y);
    }
    r
}

/// One step of a wrapped dot product: wrapping the partial sums along the way changes nothing.
proof fn lemma_dot_step(row: Seq<i32>, b: Seq<Seq<i32>>, j: int, k: int, acc: i32)
    requires
        0 <= k,
        acc as int == wrap_i32(partial_dot(row, b, j, k)),
    ensures
        wrap_i32(acc + row[k] * b[k][j]) == wrap_i32(partial_dot(row, b, j, k + 1)),
{
    let t = row[k] * b[k][j];
    lemma_wrap_add(partial_dot(row, b, j, k), t);
    lemma_wrap_add(acc as int, t);
    lemma_wrap_in_range(acc as int);
}

/// A row of `n` zeros.
fn zero_row(n: usize) -> (r: Vec<i32>)
    ensures
        r@ == Seq::new(n as nat, |j: int| 0i32),
{
    let mut r: Vec<i32> = Vec::with_capacity(n);
    let mut j: usize = 0;
    while j < n
        invariant
            j <= n,
            r@ == Seq::new(j as nat, |x: int| 0i32),
        decreases n - j,
    {
        r.push(0);
        j = j + 1;
    }
    r
}

/// Row `a_row` times the square matrix `b`, with `k` in the outer loop and `j` in the inner one.
pub fn multiply_row_ikj(a_row: &Vec<i32>, b: &Vec<Vec<i32>>) -> (r: Vec<i32>)
    requires
        is_square(rows_of(b)),
        a_row@.len() == b@.len(),
    ensures
        r@ == row_times(a_row@, rows_of(b)),
{
    let ghost bm = rows_of(b);
    let n = b.len();
    let mut r = zero_row(n);
    let mut k: usize = 0;
    while k < n
        invariant
            n == b@.len(),
            bm == rows_of(b),
            is_square(bm),
            a_row@.len() == n,
            0 <= k <= n,
            r@.len() == n,
            forall|j: int| 0 <= j < n ==> #[trigger] r@[j] as int == wrap_i32(partial_dot(a_row@, bm, j, k as int)),
        decreases n - k,
    {
        let x = a_row[k];
        let b_k = &b[k];
        assert(bm[k as int] == b_k@);
        let mut j: usize = 0;
        while j < n
            invariant
                n == b@.len(),
                bm == rows_of(b),
                is_square(bm),
                a_row@.len() == n,
                0 <= k < n,
                x == a_row@[k as int],
                b_k@ == bm[k as int],
                b_k@.len() == n,
                0 <= j <= n,
                r@.len() == n,
                forall|l: int| j <= l < n ==> #[trigger] r@[l] as int == wrap_i32(partial_dot(a_row@, bm, l, k as int)),
                forall|l: int| 0 <= l < j ==> #[trigger] r@[l] as int == wrap_i32(partial_dot(a_row@, bm, l, k + 1)),
            decreases n - j,
        {
            let v = accumulate(r[j], x, b_k[j]);
            proof {
                lemma_dot_step(a_row@, bm, j as int, k as int, r@[j as int]);
            }
            r.set(j, v);
            j = j + 1;
        }
        k = k + 1;
    }
    proof {
        assert forall|j: int| 0 <= j < n implies #[trigger] r@[j] == row_times(a_row@, bm)[j] by {
            let q = lemma_wrap_facts(partial_dot(a_row@, bm, j, n as int));
        }
        assert(r@ =~= row_times(a_row@, bm));
    }
    r
}

/// Row `a_row` times the square matrix `b`, one entry at a time.
fn multiply_row_ijk(a_row: &Vec<i32>, b: &Vec<Vec<i32>>) -> (r: Vec<i32>)
    requires
        is_square(rows_of(b)),
        a_row@.len() == b@.len(),
    ensures
        r@ == row_times(a_row@, rows_of(b)),
{
    let ghost bm = rows_of(b);
    let n = b.len();
    let mut r: Vec<i32> = Vec::with_capacity(n);
    let mut j: usize = 0;
    while j < n
        invariant
            n == b@.len(),
            bm == rows_of(b),
            is_square(bm),
            a_row@.len() == n,
            0 <= j <= n,
            r@.len() == j,
            forall|l: int| 0 <= l < j ==> #[trigger] r@[l] == row_times(a_row@, bm)[l],
        decreases n - j,
    {
        let mut acc: i32 = 0;
        let mut k: usize = 0;
        proof {
            lemma_wrap_in_range(0);
        }
        while k < n
            invariant
                n == b@.len(),
                bm == rows_of(b),
                is_square(bm),
                a_row@.len() == n,
                0 <= j < n,
                0 <= k <= n,
                acc as int == wrap_i32(partial_dot(a_row@, bm, j as int, k as int)),
            decreases n - k,
        {
            assert(bm[k as int] == b@[k as int]@);
            let v = accumulate(acc, a_row[k], b[k][j]);
            proof {
                lemma_dot_step(a_row@, bm, j as int, k as int, acc);
            }
            acc = v;
            k = k + 1;
        }
        r.push(acc);
        j = j + 1;
    }
    proof {
        assert(r@ =~= row_times(a_row@, bm));
    }
    r
}

/// The product `a * b`, computed entry by entry (`i`, then `j`, then `k`); `None` where the
/// matrices are not non-empty square matrices of one size.
pub fn matrix_multiplication_sequential_ijk(a: &Vec<Vec<i32>>, b: &Vec<Vec<i32>>) -> (r: Option<Vec<Vec<i32>>>)
    ensures
        r is Some <==> compatible(rows_of(a), rows_of(b)),
        r matches Some(c) ==> rows_of(&c) == product(rows_of(a), rows_of(b)),
{
    match sanitize_matrices(a, b) {
        SanitizeResult::Valid => {},
        SanitizeResult::NotOk(_) => return None,
    }
    let ghost am = rows_of(a);
    let ghost bm = rows_of(b);
    let size = a.len();
    let mut c: Vec<Vec<i32>> = Vec::with_capacity(size);
    let mut i: usize = 0;
    while i < size
        invariant
            size == a@.len(),
            am == rows_of(a),
            bm == rows_of(b),
            compatible(am, bm),
            0 <= i <= size,
            c@.len() == i,
            forall|l: int| 0 <= l < i ==> #[trigger] c@[l]@ == row_times(am[l], bm),
        decreases size - i,
    {
        assert(am[i as int].len() == size);
        let row = multiply_row_ijk(&a[i], b);
        c.push(row);
        i = i + 1;
    }
    proof {
        assert(rows_of(&c) =~= product(am, bm));
    }
    Some(c)
}

/// The product `a * b`, computed row by row with `k` before `j`, which reads `b` row-wise;
/// `None` where the matrices are not non-empty square matrices of one size.
pub fn matrix_multiplication_sequential_ikj(a: &Vec<Vec<i32>>, b: &Vec<Vec<i32>>) -> (r: Option<Vec<Vec<i32>>>)
    ensures
        r is Some <==> compatible(rows_of(a), rows_of(b)),
        r matches Some(c) ==> rows_of(&c) == product(rows_of(a), rows_of(b)),
{
    match sanitize_matrices(a, b) {
        SanitizeResult::Valid => {},
        SanitizeResult::NotOk(_) => return None,
    }
    let ghost am = rows_of(a);
    let ghost bm = rows_of(b);
    let size = a.len();
    let mut c: Vec<Vec<i32>> = Vec::with_capacity(size);
    let mut i: usize = 0;
    while i < size
        invariant
            size == a@.len(),
            am == rows_of(a),
            bm == rows_of(b),
            compatible(am, bm),
            0 <= i <= size,
            c@.len() == i,
            forall|l: int| 0 <= l < i ==> #[trigger] c@[l]@ == row_times(am[l], bm),
        decreases size - i,
    {
        assert(am[i as int].len() == size);
        let row = multiply_row_ikj(&a[i], b);
        c.push(row);
        i = i + 1;
    }
    proof {
        assert(rows_of(&c) =~= product(am, bm));
    }
    Some(c)
}

} // verus!
