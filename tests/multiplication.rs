use matrix_multiplication::generate::generate_square_matrix_of_size;
use matrix_multiplication::multiply::{
    matrix_multiplication_sequential_ijk, matrix_multiplication_sequential_ikj, multiply_row_ikj,
};
use matrix_multiplication::parallel::{plan_row_tasks, store_row, RowTask};
use matrix_multiplication::sanitize::SanitizeError;

fn get_a() -> Vec<Vec<i32>> {
    vec![vec![1, 2], vec![3, 4]]
}

fn get_b() -> Vec<Vec<i32>> {
    vec![vec![5, 6], vec![7, 8]]
}

fn run_tasks_in_order(a: &Vec<Vec<i32>>, b: &Vec<Vec<i32>>, order: &[usize]) -> Vec<Vec<i32>> {
    let tasks = plan_row_tasks(a, b).unwrap();
    let mut c = generate_square_matrix_of_size(a.len(), false);
    for &i in order {
        let values = tasks[i].run(a, b);
        store_row(&mut c, tasks[i].row, values);
    }
    c
}

#[test]
fn test_matrix_multiplication_sequential_ijk() {
    let a = get_a();
    let b = get_b();

    let c = matrix_multiplication_sequential_ijk(&a, &b).unwrap();

    assert_eq!(c, vec![vec![19, 22], vec![43, 50]]);
}

#[test]
fn test_matrix_multiplication_sequential_ikj() {
    let a = get_a();
    let b = get_b();

    let c = matrix_multiplication_sequential_ikj(&a, &b).unwrap();

    assert_eq!(c, vec![vec![19, 22], vec![43, 50]]);
}

#[test]
fn row_tasks_give_the_product_in_any_order() {
    let a = get_a();
    let b = get_b();
    assert_eq!(run_tasks_in_order(&a, &b, &[0, 1]), vec![vec![19, 22], vec![43, 50]]);
    assert_eq!(run_tasks_in_order(&a, &b, &[1, 0]), vec![vec![19, 22], vec![43, 50]]);
}

#[test]
fn row_tasks_agree_with_sequential_products() {
    let a = vec![vec![2, -1, 0], vec![4, 3, -7], vec![1, 1, 1]];
    let b = vec![vec![1, 0, 5], vec![-2, 6, 3], vec![9, -4, 2]];
    let expected = vec![vec![4, -6, 7], vec![-65, 46, 15], vec![8, 2, 10]];
    assert_eq!(matrix_multiplication_sequential_ijk(&a, &b).unwrap(), expected);
    assert_eq!(matrix_multiplication_sequential_ikj(&a, &b).unwrap(), expected);
    assert_eq!(run_tasks_in_order(&a, &b, &[2, 0, 1]), expected);
}

#[test]
fn plan_has_one_task_per_row() {
    let a = vec![vec![1, 2, 3], vec![4, 5, 6], vec![7, 8, 9]];
    let tasks = plan_row_tasks(&a, &a).unwrap();
    assert_eq!(tasks, vec![RowTask { row: 0 }, RowTask { row: 1 }, RowTask { row: 2 }]);
}

#[test]
fn plan_rejects_invalid_operands() {
    let square = vec![vec![1, 2], vec![3, 4]];
    let empty: Vec<Vec<i32>> = vec![];
    let not_square = vec![vec![1, 2], vec![3, 4], vec![5, 6]];
    let bigger = vec![vec![1, 2, 3], vec![4, 5, 6], vec![7, 8, 9]];
    assert_eq!(plan_row_tasks(&empty, &square), Err(SanitizeError::EmptyMatrix("A".to_string())));
    assert_eq!(plan_row_tasks(&square, &empty), Err(SanitizeError::EmptyMatrix("B".to_string())));
    assert_eq!(plan_row_tasks(&not_square, &square), Err(SanitizeError::NotSquareMatrix("A".to_string())));
    assert_eq!(plan_row_tasks(&square, &not_square), Err(SanitizeError::NotSquareMatrix("B".to_string())));
    assert_eq!(plan_row_tasks(&square, &bigger), Err(SanitizeError::NotSameSize));
}

#[test]
fn zero_by_zero_operands_plan_no_work() {
    let empty: Vec<Vec<i32>> = vec![];
    assert_eq!(plan_row_tasks(&empty, &empty), Err(SanitizeError::EmptyMatrix("A".to_string())));
    assert_eq!(matrix_multiplication_sequential_ijk(&empty, &empty), None);
    assert_eq!(matrix_multiplication_sequential_ikj(&empty, &empty), None);
}

#[test]
fn sequential_products_reject_invalid_operands() {
    let square = vec![vec![1, 2], vec![3, 4]];
    let ragged = vec![vec![1, 2, 3], vec![4, 5], vec![6, 7, 8]];
    assert_eq!(matrix_multiplication_sequential_ijk(&square, &ragged), None);
    assert_eq!(matrix_multiplication_sequential_ikj(&ragged, &square), None);
}

#[test]
fn single_entry_product() {
    let a = vec![vec![-3]];
    let b = vec![vec![7]];
    assert_eq!(matrix_multiplication_sequential_ijk(&a, &b), Some(vec![vec![-21]]));
    assert_eq!(matrix_multiplication_sequential_ikj(&a, &b), Some(vec![vec![-21]]));
}

#[test]
fn overflowing_entries_wrap() {
    let a = vec![vec![i32::MAX, 1], vec![0, 0]];
    let b = vec![vec![2, 0], vec![i32::MAX, 0]];
    let expected_entry = (2 * (i32::MAX as i64) + i32::MAX as i64) as i32;
    let expected = vec![vec![expected_entry, 0], vec![0, 0]];
    assert_eq!(matrix_multiplication_sequential_ijk(&a, &b).unwrap(), expected);
    assert_eq!(matrix_multiplication_sequential_ikj(&a, &b).unwrap(), expected);
    assert_eq!(multiply_row_ikj(&a[0], &b), vec![expected_entry, 0]);
}

#[test]
fn generated_zero_matrix() {
    assert_eq!(generate_square_matrix_of_size(3, false), vec![vec![0; 3]; 3]);
    assert_eq!(generate_square_matrix_of_size(0, false), Vec::<Vec<i32>>::new());
}

#[test]
fn generated_random_matrix_is_square_with_small_entries() {
    let m = generate_square_matrix_of_size(6, true);
    assert_eq!(m.len(), 6);
    for row in &m {
        assert_eq!(row.len(), 6);
        for &v in row {
            assert!((-29..=9).contains(&v));
        }
    }
}
