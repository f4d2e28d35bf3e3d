use std::f64::consts;

use starry_mosaic::mosaic_shape::{Grid, MosaicShape, PolygonalStar, RegularPolygon};
use starry_mosaic::vector::UNITS_PER_PIXEL;
use starry_mosaic::{Segment, Vector};

fn to_units(value: f64) -> i64 {
    (value * UNITS_PER_PIXEL as f64).round() as i64
}

fn point(x: f64, y: f64) -> Vector {
    Vector::new(to_units(x), to_units(y))
}

fn polygon_points(corners_count: u32, radius: f64, rotation_angle: f64) -> Vec<Vector> {
    (0..corners_count)
        .map(|index| {
            let angle = rotation_angle
                + consts::PI / corners_count as f64 * (2 * index + 1 - corners_count % 2) as f64
                - consts::FRAC_PI_2;
            point(radius * angle.cos(), radius * angle.sin())
        })
        .collect()
}

fn star_points(corners_count: u32, image_size: u32) -> Vec<Vector> {
    let n = corners_count as f64;
    let radius = image_size as f64 * 0.5;
    let inner_radius = radius * (consts::PI * (n * 0.5 - 2.0) / n).sin()
        / (consts::FRAC_PI_2 * (n - 2.0) / n).sin();
    let mut points = polygon_points(corners_count, radius, 0.0);
    points.append(&mut polygon_points(corners_count, inner_radius, consts::PI / n));
    points
}

fn near(a: &Vector, b: &Vector) -> bool {
    (a.x - b.x).abs() <= 16 && (a.y - b.y).abs() <= 16
}

fn contains_point(points: &[Vector], p: &Vector) -> bool {
    points.iter().any(|q| near(q, p))
}

fn contains_segment(segments: &[Segment], s: &Segment) -> bool {
    segments.iter().any(|t| {
        (near(&t.start, &s.start) && near(&t.end, &s.end))
            || (near(&t.start, &s.end) && near(&t.end, &s.start))
    })
}

fn segment(a: (f64, f64), b: (f64, f64)) -> Segment {
    Segment::new(point(a.0, a.1), point(b.0, b.1))
}

#[test]
fn grid_set_rows_count() {
    let mut grid = Grid::default();
    grid.set_rows_count(7);
    assert_eq!(grid.rows_count(), 7);
}

#[test]
fn grid_set_incorrect_rows_count() {
    let mut grid = Grid::default();
    grid.set_rows_count(0);
    assert_eq!(grid.rows_count(), 1);
}

#[test]
fn grid_set_columns_count() {
    let mut grid = Grid::default();
    grid.set_columns_count(15);
    assert_eq!(grid.columns_count(), 15);
}

#[test]
fn grid_set_incorrect_columns_count() {
    let mut grid = Grid::default();
    grid.set_columns_count(0);
    assert_eq!(grid.columns_count(), 1);
}

#[test]
fn grid_set_up_points() {
    let grid = Grid::new(4, 4);
    let points = grid.set_up_points(400, 400);
    assert_eq!(points.len(), 16);
    assert!(points.contains(&Vector::from_pixels(200, -200)));
    assert!(points.contains(&Vector::from_pixels(100, 200)));
    assert!(points.contains(&Vector::from_pixels(-100, -200)));
    assert!(points.contains(&Vector::from_pixels(0, 200)));
}

#[test]
fn grid_connect_points() {
    let grid = Grid::new(4, 4);
    let points = grid.set_up_points(400, 400);
    let segments = grid.connect_points(&points);
    assert_eq!(segments.len(), 6);
    let segment = Segment::new(Vector::from_pixels(-200, 100), Vector::from_pixels(200, 100));
    assert!(segments.contains(&segment));
    let segment = Segment::new(Vector::from_pixels(100, -200), Vector::from_pixels(100, 200));
    assert!(segments.contains(&segment));
}

#[test]
fn grid_intersect_segments() {
    let grid = Grid::new(4, 4);
    let shape = MosaicShape::Grid(grid);
    let points = grid.set_up_points(400, 400);
    let segments = grid.connect_points(&points);
    let intersections = shape.intersect_segments(&segments);
    assert_eq!(intersections.len(), 9);
    assert!(intersections.contains(&Vector::from_pixels(100, 100)));
}

#[test]
fn grid_fits_the_smaller_side() {
    let grid = Grid::new(2, 4);
    let points = grid.set_up_points(400, 100);
    assert_eq!(points.len(), 4 + 2 + 6);
    assert_eq!(points[0], Vector::from_pixels(-100, -50));
    assert_eq!(points[3], Vector::from_pixels(100, 50));
    assert_eq!(points[4], Vector::from_pixels(-100, 0));
    assert_eq!(points[5], Vector::from_pixels(100, 0));
    assert_eq!(points[6], Vector::from_pixels(-50, -50));
    assert_eq!(points[11], Vector::from_pixels(50, 50));
}

#[test]
fn grid_of_one_cell_has_no_lines() {
    let grid = Grid::new(0, 0);
    let points = grid.set_up_points(10, 10);
    assert_eq!(points.len(), 4);
    assert!(grid.connect_points(&points).is_empty());
}

#[test]
fn polygonal_star_set_corners_count() {
    let mut star = PolygonalStar::default();
    star.set_corners_count(12);
    assert_eq!(star.corners_count(), 12);
}

#[test]
fn polygonal_star_set_incorrect_corners_count() {
    let mut star = PolygonalStar::default();
    star.set_corners_count(1);
    assert_eq!(star.corners_count(), 3);
}

#[test]
fn polygonal_star_connect_points() {
    let star = PolygonalStar::new(4);
    let points = star_points(4, 400);
    let segments = star.connect_points(&points);
    let s = 100.0 * 2.0f64.sqrt();
    assert!(contains_segment(&segments, &segment((s, s), (-s, -s))));
    assert!(contains_segment(&segments, &segment((s, -s), (-s, s))));
}

#[test]
fn connect_points_of_hexagonal_star() {
    let star = PolygonalStar::new(6);
    let points = star_points(6, 400);
    let segments = star.connect_points(&points);
    let h = 100.0 * 3.0f64.sqrt();
    assert!(contains_segment(&segments, &segment((100.0, -h), (100.0, h))));
    assert!(contains_segment(&segments, &segment((-200.0, 0.0), (100.0, -h))));
    assert!(!contains_segment(&segments, &segment((-100.0, -h), (100.0, h))));
}

#[test]
fn polygonal_star_intersect_segments_with_even_corners_count() {
    let star = PolygonalStar::new(8);
    let shape = MosaicShape::PolygonalStar(star);
    let points = star_points(8, 400);
    let segments = shape.connect_points(&points);
    let intersections = shape.intersect_segments(&segments);
    assert!(!contains_point(&intersections, &Vector::new(0, 0)));
}

#[test]
fn polygonal_star_intersect_segments_with_odd_corners_count() {
    let star = PolygonalStar::new(7);
    let shape = MosaicShape::PolygonalStar(star);
    let points = star_points(7, 400);
    let segments = shape.connect_points(&points);
    let intersections = shape.intersect_segments(&segments);
    assert!(contains_point(&intersections, &Vector::new(0, 0)));
}

#[test]
fn star_segment_counts() {
    let star = PolygonalStar::new(7);
    let points = star_points(7, 400);
    let segments = star.connect_points(&points);
    assert_eq!(segments.len(), 7 + 7 * 3);
    assert_eq!(segments[0], Segment::new(points[0], points[2]));
    assert_eq!(segments[6], Segment::new(points[6], points[1]));
    assert_eq!(segments[7], Segment::new(points[0], points[7 + 2]));
}

#[test]
fn regular_polygon_set_corners_count() {
    let mut polygon = RegularPolygon::default();
    polygon.set_corners_count(12);
    assert_eq!(polygon.corners_count(), 12);
}

#[test]
fn regular_polygon_set_incorrect_corners_count() {
    let mut polygon = RegularPolygon::default();
    polygon.set_corners_count(1);
    assert_eq!(polygon.corners_count(), 3);
}

#[test]
fn default_shapes() {
    assert_eq!(RegularPolygon::default().corners_count(), 8);
    assert_eq!(PolygonalStar::default().corners_count(), 8);
    let grid = Grid::default();
    assert_eq!((grid.rows_count(), grid.columns_count()), (4, 4));
    assert_eq!(RegularPolygon::new(5).corners_count(), 5);
}

#[test]
fn regular_polygon_connect_points() {
    let polygon = RegularPolygon::new(8);
    let points = polygon_points(8, 200.0, 0.0);
    let segments = polygon.connect_points(&points);
    assert_eq!(segments.len(), 28);
    let segment_a = segment(
        (200.0 * consts::FRAC_PI_8.cos(), 200.0 * consts::FRAC_PI_8.sin()),
        (200.0 * (5.0 * consts::FRAC_PI_8).cos(), 200.0 * (5.0 * consts::FRAC_PI_8).sin()),
    );
    assert!(contains_segment(&segments, &segment_a));
    let segment_b = segment(
        (200.0 * (3.0 * consts::FRAC_PI_8).cos(), 200.0 * (3.0 * consts::FRAC_PI_8).sin()),
        (200.0 * (7.0 * consts::FRAC_PI_8).cos(), 200.0 * (7.0 * consts::FRAC_PI_8).sin()),
    );
    assert!(contains_segment(&segments, &segment_b));
}

#[test]
fn polygon_segments_in_order() {
    let polygon = RegularPolygon::new(4);
    let points = vec![
        Vector::from_pixels(0, 0),
        Vector::from_pixels(1, 0),
        Vector::from_pixels(1, 1),
        Vector::from_pixels(0, 1),
    ];
    let segments = polygon.connect_points(&points);
    let expected = [(0, 1), (0, 2), (0, 3), (1, 2), (1, 3), (2, 3)];
    assert_eq!(segments.len(), expected.len());
    for (segment, (i, j)) in segments.iter().zip(expected.iter()) {
        assert_eq!(segment.start, points[*i]);
        assert_eq!(segment.end, points[*j]);
    }
}

#[test]
fn regular_polygon_intersect_segments_with_even_corners_count() {
    let shape = MosaicShape::RegularPolygon(RegularPolygon::new(8));
    let points = polygon_points(8, 200.0, 0.0);
    let segments = shape.connect_points(&points);
    let intersections = shape.intersect_segments(&segments);
    assert!(contains_point(&intersections, &Vector::new(0, 0)));
}

#[test]
fn regular_polygon_intersect_segments_with_odd_corners_count() {
    let shape = MosaicShape::RegularPolygon(RegularPolygon::new(9));
    let points = polygon_points(9, 200.0, 0.0);
    let segments = shape.connect_points(&points);
    let intersections = shape.intersect_segments(&segments);
    assert!(!contains_point(&intersections, &Vector::new(0, 0)));
}
