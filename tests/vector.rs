use starry_mosaic::vector::{orientation, UNITS_PER_PIXEL};
use starry_mosaic::Vector;

const UNIT: i128 = UNITS_PER_PIXEL as i128;

#[test]
fn vector_squared_length() {
    let vector = Vector::from_pixels(3, 4);
    assert_eq!(vector.squared_length(), 25 * UNIT * UNIT);
}

#[test]
fn dot() {
    let first = Vector::from_pixels(3, 5);
    let second = Vector::from_pixels(4, 2);
    assert_eq!(first.dot(&second), 22 * UNIT * UNIT);
}

#[test]
fn dot_self_is_squared_length() {
    let vector = Vector::new(15 * UNITS_PER_PIXEL / 2, 4 * UNITS_PER_PIXEL);
    assert_eq!(vector.dot(&vector), vector.squared_length());
}

#[test]
fn cross() {
    let first = Vector::from_pixels(5, 4);
    let second = Vector::from_pixels(3, 2);
    assert_eq!(first.cross(&second), 2 * UNIT * UNIT);
}

#[test]
fn translate() {
    let point = Vector::from_pixels(7, -2);
    assert_eq!(point.add(&Vector::from_pixels(3, 3)), Vector::from_pixels(10, 1));
}

#[test]
fn add() {
    let sum = Vector::from_pixels(4, 5).add(&Vector::from_pixels(2, 3));
    assert_eq!(sum, Vector::from_pixels(6, 8));
}

#[test]
fn sub() {
    let difference = Vector::from_pixels(4, 5).sub(&Vector::from_pixels(2, 3));
    assert_eq!(difference, Vector::from_pixels(2, 2));
}

#[test]
fn squared_distance() {
    let a = Vector::from_pixels(1, 1);
    let b = Vector::from_pixels(4, 5);
    assert_eq!(a.squared_distance_to(&b), 25 * UNIT * UNIT);
    assert_eq!(Vector::from_pixel(4, 5).squared_distance_to_pixel(&a), 25 * UNIT * UNIT);
}

#[test]
fn lexicographic_order() {
    assert!(Vector::new(0, 9).precedes(&Vector::new(1, 0)));
    assert!(Vector::new(1, 0).precedes(&Vector::new(1, 1)));
    assert!(!Vector::new(1, 1).precedes(&Vector::new(1, 1)));
    assert!(Vector::new(0, 9) < Vector::new(1, 0));
    assert!(Vector::new(2, -3) > Vector::new(2, -4));
    assert_eq!(
        Vector::new(5, 5).partial_cmp(&Vector::new(5, 5)),
        Some(std::cmp::Ordering::Equal)
    );
}

#[test]
fn orientation_sign() {
    let a = Vector::new(0, 0);
    let b = Vector::new(10, 0);
    assert!(orientation(&a, &b, &Vector::new(5, 5)) > 0);
    assert!(orientation(&a, &b, &Vector::new(5, -5)) < 0);
    assert_eq!(orientation(&a, &b, &Vector::new(20, 0)), 0);
}
