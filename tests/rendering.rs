use starry_mosaic::key_points::subdivision_sites;
use starry_mosaic::mosaic_shape::{MosaicShape, RegularPolygon};
use starry_mosaic::polygonal_mosaic::rasterize_triangles;
use starry_mosaic::starry_mosaic::{find_closest_site, locate_sites, maximum_cell_distances};
use starry_mosaic::vector::UNITS_PER_PIXEL;
use starry_mosaic::Vector;

#[test]
fn walk_reaches_the_nearest_site() {
    let sites = vec![
        Vector::from_pixels(0, 0),
        Vector::from_pixels(10, 0),
        Vector::from_pixels(20, 0),
    ];
    let neighbors = vec![vec![1], vec![0, 2], vec![1]];
    assert_eq!(find_closest_site(&sites, &neighbors, 0, &Vector::from_pixels(19, 3)), 2);
    assert_eq!(find_closest_site(&sites, &neighbors, 2, &Vector::from_pixels(4, 0)), 0);
    assert_eq!(find_closest_site(&sites, &neighbors, 1, &Vector::from_pixels(11, 0)), 1);
}

#[test]
fn sites_are_located_in_raster_order() {
    let sites = vec![Vector::from_pixels(0, 0), Vector::from_pixels(3, 0)];
    let neighbors = vec![vec![1], vec![0]];
    assert_eq!(locate_sites(&sites, &neighbors, 4, 2), vec![0, 0, 1, 1, 0, 0, 1, 1]);
}

#[test]
fn cell_extent_is_the_farthest_vertex() {
    let sites = vec![Vector::from_pixels(0, 0), Vector::from_pixels(5, 5)];
    let vertices = vec![
        vec![Vector::from_pixels(1, 1), Vector::from_pixels(3, 4), Vector::from_pixels(-2, 0)],
        vec![],
    ];
    let unit = UNITS_PER_PIXEL as i128;
    assert_eq!(maximum_cell_distances(&sites, &vertices), vec![25 * unit * unit, 0]);
}

#[test]
fn triangle_covers_its_pixels() {
    let sites = vec![
        Vector::from_pixels(0, 0),
        Vector::from_pixels(0, 4),
        Vector::from_pixels(4, 0),
    ];
    let owners = rasterize_triangles(&sites, &vec![0, 1, 2], 6, 6);
    assert_eq!(owners.len(), 36);
    for y in 0..6 {
        for x in 0..6 {
            let expected = if x + y <= 4 { Some(0) } else { None };
            assert_eq!(owners[y * 6 + x], expected, "pixel {} {}", x, y);
        }
    }
}

#[test]
fn counter_clockwise_triangle_covers_nothing() {
    let sites = vec![
        Vector::from_pixels(0, 0),
        Vector::from_pixels(4, 0),
        Vector::from_pixels(0, 4),
    ];
    let owners = rasterize_triangles(&sites, &vec![0, 1, 2], 6, 6);
    // With the corners in counter-clockwise order no pixel is on the inner side of all
    // three edges.
    assert!(owners.iter().all(|o| o.is_none()));
}

#[test]
fn later_triangle_wins_shared_pixels() {
    let sites = vec![
        Vector::from_pixels(0, 0),
        Vector::from_pixels(0, 4),
        Vector::from_pixels(4, 0),
        Vector::from_pixels(4, 4),
    ];
    let owners = rasterize_triangles(&sites, &vec![0, 1, 2, 1, 3, 2], 5, 5);
    assert_eq!(owners[0], Some(0));
    assert_eq!(owners[4 * 5 + 4], Some(1));
    assert_eq!(owners[2 * 5 + 2], Some(1));
    assert_eq!(owners[4], Some(1));
    assert_eq!(owners[1 * 5 + 1], Some(0));
}

#[test]
fn octagon_mosaic_centre_belongs_to_the_centre_site() {
    let (width, height) = (400u32, 400u32);
    let radius = 400.0 * 0.5 * 0.5;
    let points: Vec<Vector> = (0..8)
        .map(|index| {
            let angle = std::f64::consts::PI / 8.0 * (2 * index + 1) as f64
                - std::f64::consts::FRAC_PI_2;
            let x = 200.0 + radius * angle.cos();
            let y = 200.0 + radius * angle.sin();
            let unit = UNITS_PER_PIXEL as f64;
            Vector::new((x * unit).round() as i64, (y * unit).round() as i64)
        })
        .collect();
    let shape = MosaicShape::RegularPolygon(RegularPolygon::new(8));
    let sites = subdivision_sites(&shape, &points).unwrap();
    let centre = sites
        .iter()
        .position(|s| (s.x - 200 * UNITS_PER_PIXEL).abs() <= 16 && (s.y - 200 * UNITS_PER_PIXEL).abs() <= 16)
        .unwrap();
    let near_centre = sites
        .iter()
        .filter(|s| (s.x - 200 * UNITS_PER_PIXEL).abs() <= UNITS_PER_PIXEL && (s.y - 200 * UNITS_PER_PIXEL).abs() <= UNITS_PER_PIXEL)
        .count();
    assert_eq!(near_centre, 1);
    // With every site adjacent to every other, the walk ends at a nearest site.
    let neighbors: Vec<Vec<usize>> = (0..sites.len())
        .map(|i| (0..sites.len()).filter(|j| *j != i).collect())
        .collect();
    let located = locate_sites(&sites, &neighbors, width, height);
    assert_eq!(located.len(), 160000);
    assert_eq!(located[200 * 400 + 200], centre);
    for dy in -5i64..=5 {
        for dx in -5i64..=5 {
            let index = ((200 + dy) * 400 + 200 + dx) as usize;
            assert_eq!(located[index], centre);
        }
    }
}
