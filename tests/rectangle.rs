use matrix_multiplication::cli::average_millis;
use matrix_multiplication::rectangle::Rectangle;

#[test]
fn rectangle_area() {
    let rect = Rectangle::build_rectangle(30, 50);
    assert_eq!(rect.area(), 1500);
    assert_eq!(Rectangle::square(7).area(), 49);
}

#[test]
fn rectangle_shapes() {
    assert!(Rectangle::square(4).is_square());
    assert!(!Rectangle::build_rectangle(4, 5).is_square());
    assert!(Rectangle::build_rectangle(0, 5).has_zero_width());
    assert!(!Rectangle::build_rectangle(1, 5).has_zero_width());
}

#[test]
fn rectangle_can_hold() {
    let larger = Rectangle::build_rectangle(8, 7);
    let smaller = Rectangle::build_rectangle(5, 1);
    assert!(larger.can_hold(&smaller));
    assert!(!smaller.can_hold(&larger));
    assert!(!larger.can_hold(&Rectangle::build_rectangle(8, 1)));
}

#[test]
fn averages() {
    assert_eq!(average_millis(&vec![10, 20, 31], 3), Some(20));
    assert_eq!(average_millis(&vec![], 5), Some(0));
    assert_eq!(average_millis(&vec![1, 2], 0), None);
    assert_eq!(average_millis(&vec![u128::MAX, 1], 2), None);
}
