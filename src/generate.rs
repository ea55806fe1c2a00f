//! Square matrices filled with zeros or with small random entries.
use vstd::prelude::*;
use crate::matrix::{rows_of, is_square};

verus! {

/// Relies on rand::random: a value of any type that `Standard` samples; nothing is known of it.
pub assume_specification<T>[ rand::random::<T> ]() -> (r: T)
    where
        rand::distributions::Standard: rand::distributions::Distribution<T>,
;

/// The entry drawn from a random `i32`: its remainder by 20, less 10.
fn small_entry(r: i32) -> (e: i32)
    ensures
        -29 <= e <= 9,
{
    r % 20 - 10
}

/// A `size` by `size` matrix, of zeros, or with each entry drawn at random from `-29..=9`.
pub fn generate_square_matrix_of_size(size: usize, random_values: bool) -> (m: Vec<Vec<i32>>)
    ensures
        m@.len() == size,
        is_square(rows_of(&m)),
        !random_values ==> forall|i: int, j: int| 0 <= i < size && 0 <= j < size ==> #[trigger] m@[i]@[j] == 0,
        random_values ==> forall|i: int, j: int| 0 <= i < size && 0 <= j < size ==> -29 <= #[trigger] m@[i]@[j] <= 9,
{
    let mut matrix: Vec<Vec<i32>> = Vec::with_capacity(size);
    let mut i: usize = 0;
    while i < size
        invariant
            0 <= i <= size,
            matrix@.len() == i,
            forall|l: int| 0 <= l < i ==> #[trigger] matrix@[l]@.len() == size,
            !random_values ==> forall|l: int, j: int| 0 <= l < i && 0 <= j < size ==> #[trigger] matrix@[l]@[j] == 0,
            random_values ==> forall|l: int, j: int| 0 <= l < i && 0 <= j < size ==> -29 <= #[trigger] matrix@[l]@[j] <= 9,
        decreases size - i,
    {
        let mut row: Vec<i32> = Vec::with_capacity(size);
        let mut j: usize = 0;
        while j < size
            invariant
                0 <= j <= size,
                row@.len() == j,
                !random_values ==> forall|l: int| 0 <= l < j ==> #[trigger] row@[l] == 0,
                random_values ==> forall|l: int| 0 <= l < j ==> -29 <= #[trigger] row@[l] <= 9,
            decreases size - j,
        {
            if random_values {
                row.push(small_entry(rand::random::<i32>()));
            } else {
                row.push(0);
            }
            j = j + 1;
        }
        matrix.push(row);
        i = i + 1;
    }
    matrix
}

} // verus!
