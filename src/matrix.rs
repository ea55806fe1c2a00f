//! The mathematical model of a matrix and of the product of two matrices.
use vstd::prelude::*;
use crate::arith::wrap_i32;

verus! {

/// A matrix as a sequence of rows, each a sequence of entries.
pub open spec fn rows_of(m: &Vec<Vec<i32>>) -> Seq<Seq<i32>> {
    Seq::new(m@.len(), |i: int| m@[i]@)
}

/// Every row of `m` has as many entries as `m` has rows.
pub open spec fn is_square(m: Seq<Seq<i32>>) -> bool {
    forall|i: int| 0 <= i < m.len() ==> #[trigger] m[i].len() == m.len()
}

/// `a` and `b` are non-empty square matrices of one size: what a product is defined on.
pub open spec fn compatible(a: Seq<Seq<i32>>, b: Seq<Seq<i32>>) -> bool {
    a.len() > 0 && is_square(a) && is_square(b) && a.len() == b.len()
}

/// The exact sum of the first `k` terms of `row` times column `j` of `b`.
pub open spec fn partial_dot(row: Seq<i32>, b: Seq<Seq<i32>>, j: int, k: int) -> int
    decreases k,
{
    if k <= 0 {
        0
    } else {
        partial_dot(row, b, j, k - 1) + row[k - 1] * b[k - 1][j]
    }
}

/// `row` times the square matrix `b`, each entry wrapped to `i32`.
pub open spec fn row_times(row: Seq<i32>, b: Seq<Seq<i32>>) -> Seq<i32> {
    Seq::new(b.len(), |j: int| wrap_i32(partial_dot(row, b, j, b.len() as int)) as i32)
}

/// The product `a * b`, each entry wrapped to `i32`.
pub open spec fn product(a: Seq<Seq<i32>>, b: Seq<Seq<i32>>) -> Seq<Seq<i32>> {
    Seq::new(a.len(), |i: int| row_times(a[i], b))
}

} // verus!
