use matrix_multiplication::sanitize::{
    are_square_matrices_same_size, is_matrix_empty, is_matrix_square, sanitize_matrices,
    SanitizeError, SanitizeResult,
};

fn get_3x3() -> Vec<Vec<i32>> {
    vec![vec![1, 2, 3], vec![4, 5, 6], vec![7, 8, 9]]
}

fn get_2x2() -> Vec<Vec<i32>> {
    vec![vec![1, 2], vec![3, 4]]
}

fn get_3x2() -> Vec<Vec<i32>> {
    vec![vec![1, 2], vec![3, 4], vec![5, 6]]
}

fn get_empty() -> Vec<Vec<i32>> {
    vec![]
}

fn get_row_of_different_length() -> Vec<Vec<i32>> {
    vec![vec![1, 2, 3], vec![4, 5], vec![6, 7, 8]]
}

#[test]
fn test_is_matrix_empty() {
    let a = get_3x3();
    let b = get_empty();

    assert_eq!(is_matrix_square(&a, "A"), SanitizeResult::Valid);
    assert_eq!(
        is_matrix_square(&b, "B"),
        SanitizeResult::NotOk(SanitizeError::EmptyMatrix("B".to_string()))
    );
}

#[test]
fn test_is_matrix_square() {
    let a = get_3x3();
    let b = get_3x2();
    let c = get_row_of_different_length();

    assert_eq!(is_matrix_square(&a, "A"), SanitizeResult::Valid);
    assert_eq!(
        is_matrix_square(&b, "B"),
        SanitizeResult::NotOk(SanitizeError::NotSquareMatrix("B".to_string()))
    );
    assert_eq!(
        is_matrix_square(&c, "C"),
        SanitizeResult::NotOk(SanitizeError::NotSquareMatrix("C".to_string()))
    );
}

#[test]
fn test_are_square_matrices_same_size() {
    let a = get_3x3();
    let b = get_3x3();
    let c = get_2x2();

    assert_eq!(are_square_matrices_same_size(&a, &b), true);
    assert_eq!(are_square_matrices_same_size(&a, &c), false);
}

#[test]
fn test_sanitize_matrices() {
    let a = get_3x3();
    let b = get_3x3();
    let c = get_2x2();

    assert_eq!(sanitize_matrices(&a, &b), SanitizeResult::Valid);
    assert_eq!(
        sanitize_matrices(&a, &c),
        SanitizeResult::NotOk(SanitizeError::NotSameSize)
    );
}

#[test]
fn sanitize_reports_the_first_fault() {
    let empty = get_empty();
    let ragged = get_row_of_different_length();
    assert_eq!(
        sanitize_matrices(&ragged, &empty),
        SanitizeResult::NotOk(SanitizeError::NotSquareMatrix("A".to_string()))
    );
    assert_eq!(
        sanitize_matrices(&get_2x2(), &empty),
        SanitizeResult::NotOk(SanitizeError::EmptyMatrix("B".to_string()))
    );
    assert_eq!(
        sanitize_matrices(&get_2x2(), &get_3x2()),
        SanitizeResult::NotOk(SanitizeError::NotSquareMatrix("B".to_string()))
    );
}

#[test]
fn emptiness() {
    assert!(is_matrix_empty(&get_empty()));
    assert!(!is_matrix_empty(&get_2x2()));
}
