//! The parallel product as a set of independent row tasks.
//!
//! A product of two `n` by `n` matrices is split into `n` tasks, one per row of the result.
//! The task for row `i` reads row `i` of `a` and all of `b`, and its result is written to row
//! `i` of the output alone. No two tasks write the same row, so they may run in any order, on
//! any thread, without locks.
use vstd::prelude::*;
use crate::matrix::{rows_of, compatible, row_times, product};
use crate::multiply::multiply_row_ikj;
use crate::sanitize::{sanitize_matrices, pair_verdict, SanitizeError, SanitizeResult};

verus! {

/// The work of computing one row of a product.
#[derive(Clone, Copy, Debug, PartialEq, Eq)]
pub struct RowTask {
    pub row: usize,
}

impl RowTask {
    /// Computes row `self.row` of `a * b`.
    pub fn run(&self, a: &Vec<Vec<i32>>, b: &Vec<Vec<i32>>) -> (r: Vec<i32>)
        requires
            compatible(rows_of(a), rows_of(b)),
            self.row < a@.len(),
        ensures
            r@ == row_times(rows_of(a)[self.row as int], rows_of(b)),
            r@ == product(rows_of(a), rows_of(b))[self.row as int],
    {
        assert(rows_of(a)[self.row as int].len() == a@.len());
        multiply_row_ikj(&a[self.row], b)
    }
}

/// The tasks of `a * b`, one for each row in order; the validation error where the matrices
/// are not non-empty square matrices of one size, in which case nothing is to be run.
pub fn plan_row_tasks(a: &Vec<Vec<i32>>, b: &Vec<Vec<i32>>) -> (r: Result<Vec<RowTask>, SanitizeError>)
    ensures
        r is Ok <==> compatible(rows_of(a), rows_of(b)),
        r matches Ok(tasks) ==> tasks@.len() == a@.len()
            && forall|i: int| 0 <= i < tasks@.len() ==> (#[trigger] tasks@[i]).row == i,
        r matches Err(e) ==> pair_verdict(rows_of(a), rows_of(b), SanitizeResult::NotOk(e)),
{
    match sanitize_matrices(a, b) {
        SanitizeResult::Valid => {},
        SanitizeResult::NotOk(e) => return Err(e),
    }
    let size = a.len();
    let mut tasks: Vec<RowTask> = Vec::with_capacity(size);
    let mut i: usize = 0;
    while i < size
        invariant
            0 <= i <= size,
            tasks@.len() == i,
            forall|l: int| 0 <= l < i ==> (#[trigger] tasks@[l]).row == l,
        decreases size - i,
    {
        tasks.push(RowTask { row: i });
        i = i + 1;
    }
    Ok(tasks)
}

/// Writes `values` as row `row` of `c`, leaving every other row as it was.
pub fn store_row(c: &mut Vec<Vec<i32>>, row: usize, values: Vec<i32>)
    requires
        row < old(c)@.len(),
    ensures
        rows_of(final(c)) == rows_of(old(c)).update(row as int, values@),
{
    c.set(row, values);
    proof {
        assert(rows_of(final(c)) =~= rows_of(old(c)).update(row as int, values@));
    }
}

/// The matrix `c` after the results of the tasks for the rows in `order` were stored, in that
/// order.
pub open spec fn stored_in_order(c: Seq<Seq<i32>>, order: Seq<int>, a: Seq<Seq<i32>>, b: Seq<Seq<i32>>) -> Seq<Seq<i32>>
    decreases order.len(),
{
    if order.len() == 0 {
        c
    } else {
        let i = order.last();
        stored_in_order(c, order.drop_last(), a, b).update(i, row_times(a[i], b))
    }
}

/// After the stores of `order`, a row holds its task's result if `order` names it, and
/// what it held before otherwise.
pub proof fn lemma_stored_rows(c: Seq<Seq<i32>>, order: Seq<int>, a: Seq<Seq<i32>>, b: Seq<Seq<i32>>)
    requires
        forall|t: int| 0 <= t < order.len() ==> 0 <= #[trigger] order[t] < c.len(),
    ensures
        stored_in_order(c, order, a, b).len() == c.len(),
        forall|l: int| 0 <= l < c.len() ==> #[trigger] stored_in_order(c, order, a, b)[l]
            == if order.contains(l) { row_times(a[l], b) } else { c[l] },
    decreases order.len(),
{
    if order.len() > 0 {
        let rest = order.drop_last();
        assert forall|t: int| 0 <= t < rest.len() implies 0 <= #[trigger] rest[t] < c.len() by {
            assert(rest[t] == order[t]);
        }
        lemma_stored_rows(c, rest, a, b);
        assert forall|l: int| 0 <= l < c.len() implies #[trigger] stored_in_order(c, order, a, b)[l]
            == if order.contains(l) { row_times(a[l], b) } else { c[l] } by {
            if l != order.last() {
                if rest.contains(l) {
                    let t = choose|t: int| 0 <= t < rest.len() && rest[t] == l;
                    assert(order[t] == l);
                }
                if order.contains(l) {
                    let t = choose|t: int| 0 <= t < order.len() && order[t] == l;
                    assert(rest[t] == l);
                }
            } else {
                assert(order[order.len() - 1] == l);
            }
        }
    }
}

/// Whatever order the row tasks finish in, once the result of every row has been stored the
/// matrix is the product `a * b`, the same matrix the sequential products return.
pub proof fn lemma_any_order_gives_product(c: Seq<Seq<i32>>, order: Seq<int>, a: Seq<Seq<i32>>, b: Seq<Seq<i32>>)
    requires
        compatible(a, b),
        c.len() == a.len(),
        forall|t: int| 0 <= t < order.len() ==> 0 <= #[trigger] order[t] < c.len(),
        forall|l: int| 0 <= l < a.len() ==> #[trigger] order.contains(l),
    ensures
        stored_in_order(c, order, a, b) == product(a, b),
{
    lemma_stored_rows(c, order, a, b);
    assert(stored_in_order(c, order, a, b) =~= product(a, b));
}

} // verus!
