use starry_mosaic::segment::PARALLEL_TOLERANCE;
use starry_mosaic::vector::UNITS_PER_PIXEL;
use starry_mosaic::{Segment, Vector};

fn segment(a: (i32, i32), b: (i32, i32)) -> Segment {
    Segment::new(Vector::from_pixels(a.0, a.1), Vector::from_pixels(b.0, b.1))
}

#[test]
fn segment_squared_length() {
    let segment = segment((1, 1), (4, 5));
    let unit = UNITS_PER_PIXEL as i128;
    assert_eq!(segment.squared_length(), 25 * unit * unit);
}

#[test]
fn intersect() {
    let first = segment((-1, -1), (2, 2));
    let second = segment((-3, 3), (5, -5));
    let intersection = first.intersect(&second);
    assert!(intersection.is_some());
    let intersection = intersection.unwrap();
    assert_eq!(intersection.x, 0);
    assert_eq!(intersection.y, 0);
}

#[test]
fn intersect_parallel() {
    let first = segment((-1, -1), (-3, -1));
    let second = segment((-1, 4), (-3, 4));
    let intersection = first.intersect(&second);
    assert!(intersection.is_none());
}

#[test]
fn intersect_off_the_grid() {
    let first = Segment::new(Vector::new(0, 0), Vector::new(3 * UNITS_PER_PIXEL, 0));
    let second = Segment::new(
        Vector::new(UNITS_PER_PIXEL, -UNITS_PER_PIXEL),
        Vector::new(UNITS_PER_PIXEL + 1, UNITS_PER_PIXEL),
    );
    // The crossing lies at x = 1 pixel plus half a unit, which rounds away from zero.
    assert_eq!(first.intersect(&second), Some(Vector::new(UNITS_PER_PIXEL + 1, 0)));
}

#[test]
fn intersect_at_an_end_is_none() {
    let first = segment((0, 0), (2, 0));
    let second = segment((2, -1), (2, 1));
    assert_eq!(first.intersect(&second), None);
    let third = segment((0, -1), (0, 1));
    assert_eq!(first.intersect(&third), None);
}

#[test]
fn intersect_checks_only_the_first_segment() {
    let first = segment((0, 0), (4, 0));
    let second = segment((2, 1), (2, 5));
    assert_eq!(first.intersect(&second), Some(Vector::from_pixels(2, 0)));
    assert_eq!(second.intersect(&first), None);
}

#[test]
fn nearly_parallel_is_parallel() {
    let first = Segment::new(Vector::new(0, 0), Vector::new(1 << 20, 0));
    let second = Segment::new(Vector::new(0, 1), Vector::new(1 << 20, 9));
    // The cross product of the directions is 8 * 2^20, under the tolerance.
    assert!(8i128 * (1 << 20) <= PARALLEL_TOLERANCE);
    assert_eq!(first.intersect(&second), None);
}

#[test]
fn segment_equality_ignores_direction() {
    assert_eq!(segment((0, 0), (1, 2)), segment((1, 2), (0, 0)));
    assert_ne!(segment((0, 0), (1, 2)), segment((0, 0), (2, 1)));
}
