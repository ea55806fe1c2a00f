//! Validation of the operands of a product: both square, non-empty, of one size.
use vstd::prelude::*;
use crate::matrix::{rows_of, is_square, compatible};

verus! {

/// Why a pair of matrices cannot be multiplied; a string names the offending matrix.
#[derive(Debug, PartialEq)]
pub enum SanitizeError {
    EmptyMatrix(String),
    NotSquareMatrix(String),
    NotSameSize,
}

/// The outcome of validating matrices.
#[derive(Debug, PartialEq)]
pub enum SanitizeResult {
    Valid,
    NotOk(SanitizeError),
}

/// `r` is the verdict on the single matrix `m`, named `name`.
pub open spec fn square_verdict(m: Seq<Seq<i32>>, name: Seq<char>, r: SanitizeResult) -> bool {
    if m.len() == 0 {
        match r {
            SanitizeResult::NotOk(SanitizeError::EmptyMatrix(s)) => s@ == name,
            _ => false,
        }
    } else if is_square(m) {
        r is Valid
    } else {
        match r {
            SanitizeResult::NotOk(SanitizeError::NotSquareMatrix(s)) => s@ == name,
            _ => false,
        }
    }
}

/// `r` is the verdict on the pair `a`, `b`: the first fault found, checking `a`, then `b`,
/// then their sizes.
pub open spec fn pair_verdict(a: Seq<Seq<i32>>, b: Seq<Seq<i32>>, r: SanitizeResult) -> bool {
    if a.len() == 0 || !is_square(a) {
        square_verdict(a, seq!['A'], r)
    } else if b.len() == 0 || !is_square(b) {
        square_verdict(b, seq!['B'], r)
    } else if a.len() != b.len() {
        match r {
            SanitizeResult::NotOk(SanitizeError::NotSameSize) => true,
            _ => false,
        }
    } else {
        r is Valid
    }
}

/// Whether the matrix has no rows.
pub fn is_matrix_empty(a: &Vec<Vec<i32>>) -> (r: bool)
    ensures
        r == (a@.len() == 0),
{
    a.len() == 0
}

/// Checks that `a` is non-empty and square; an error names it `matrix_name`.
pub fn is_matrix_square(a: &Vec<Vec<i32>>, matrix_name: &str) -> (r: SanitizeResult)
    ensures
        square_verdict(rows_of(a), matrix_name@, r),
{
    if is_matrix_empty(a) {
        return SanitizeResult::NotOk(SanitizeError::EmptyMatrix(matrix_name.to_owned()));
    }
    let row_length = a.len();
    let mut is_square_so_far = true;
    let mut i: usize = 0;
    while i < a.len() && is_square_so_far
        invariant
            row_length == a@.len(),
            0 <= i <= a@.len(),
            is_square_so_far ==> forall|l: int| 0 <= l < i ==> #[trigger] a@[l]@.len() == row_length,
            !is_square_so_far ==> 0 < i && a@[i - 1]@.len() != row_length,
        decreases a@.len() - i,
    {
        if a[i].len() != row_length {
            is_square_so_far = false;
        }
        i = i + 1;
    }
    proof {
        let m = rows_of(a);
        if is_square_so_far {
            assert forall|l: int| 0 <= l < m.len() implies #[trigger] m[l].len() == m.len() by {
                assert(a@[l]@.len() == row_length);
            }
        } else {
            assert(m[i - 1].len() != m.len());
        }
    }
    if is_square_so_far {
        SanitizeResult::Valid
    } else {
        SanitizeResult::NotOk(SanitizeError::NotSquareMatrix(matrix_name.to_owned()))
    }
}

/// Whether two matrices, already known to be square, have the same size.
pub fn are_square_matrices_same_size(a: &Vec<Vec<i32>>, b: &Vec<Vec<i32>>) -> (r: bool)
    ensures
        r == (a@.len() == b@.len()),
{
    a.len() == b.len()
}

/// Checks that `a` and `b` are non-empty square matrices of one size.
pub fn sanitize_matrices(a: &Vec<Vec<i32>>, b: &Vec<Vec<i32>>) -> (r: SanitizeResult)
    ensures
        pair_verdict(rows_of(a), rows_of(b), r),
        r is Valid <==> compatible(rows_of(a), rows_of(b)),
{
    proof {
        reveal_strlit("A");
        reveal_strlit("B");
        assert("A"@ =~= seq!['A']);
        assert("B"@ =~= seq!['B']);
    }
    match is_matrix_square(a, "A") {
        SanitizeResult::Valid => {},
        SanitizeResult::NotOk(e) => return SanitizeResult::NotOk(e),
    }
    match is_matrix_square(b, "B") {
        SanitizeResult::Valid => {},
        SanitizeResult::NotOk(e) => return SanitizeResult::NotOk(e),
    }
    if are_square_matrices_same_size(a, b) {
        SanitizeResult::Valid
    } else {
        SanitizeResult::NotOk(SanitizeError::NotSameSize)
    }
}

} // verus!
