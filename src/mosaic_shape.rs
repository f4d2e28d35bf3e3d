//! Shapes of mosaics. Each shape places its primary key points, connects them with
//! construction segments, and the crossings of those segments are its other key points.
use vstd::prelude::*;

pub mod grid;
pub mod polygonal_star;
pub mod regular_polygon;

pub use self::grid::Grid;
pub use self::polygonal_star::PolygonalStar;
pub use self::regular_polygon::RegularPolygon;

use self::grid::grid_segments;
use self::polygonal_star::star_segments;
use self::regular_polygon::polygon_segments;
use crate::segment::{intersection, Segment};
use crate::vector::Vector;

verus! {

/// One of the shapes a mosaic can be based on.
#[derive(Clone, Copy, Debug)]
pub enum MosaicShape {
    RegularPolygon(RegularPolygon),
    PolygonalStar(PolygonalStar),
    Grid(Grid),
}

/// The construction segments that `shape` draws between its primary points.
pub open spec fn shape_segments(shape: MosaicShape, points: Seq<Vector>) -> Seq<Segment> {
    match shape {
        MosaicShape::RegularPolygon(_) => polygon_segments(points),
        MosaicShape::PolygonalStar(_) => star_segments(points),
        MosaicShape::Grid(_) => grid_segments(points),
    }
}

/// Whether every segment has both ends within the coordinate limit.
pub open spec fn segments_in_range(segments: Seq<Segment>) -> bool {
    forall|i: int| 0 <= i < segments.len() ==> (#[trigger] segments[i]).in_range()
}

/// Whether every point lies within the coordinate limit.
pub open spec fn points_in_range(points: Seq<Vector>) -> bool {
    forall|i: int| 0 <= i < points.len() ==> (#[trigger] points[i]).in_range()
}

/// The crossings of segment `i` with the segments from index `j` on, in order.
pub open spec fn crossings_of(segments: Seq<Segment>, i: int, j: int) -> Seq<Vector>
    decreases segments.len() - j,
{
    if j < 0 || j >= segments.len() {
        Seq::empty()
    } else {
        let rest = crossings_of(segments, i, j + 1);
        match intersection(segments[i], segments[j]) {
            Some(p) => seq![p] + rest,
            None => rest,
        }
    }
}

/// The crossings of each segment from index `i` on with itself and every later segment, in
/// order: each pair of segments is tried once.
pub open spec fn crossings_from(segments: Seq<Segment>, i: int) -> Seq<Vector>
    decreases segments.len() - i,
{
    if i < 0 || i >= segments.len() {
        Seq::empty()
    } else {
        crossings_of(segments, i, i) + crossings_from(segments, i + 1)
    }
}

/// All crossings among the segments.
pub open spec fn all_crossings(segments: Seq<Segment>) -> Seq<Vector> {
    crossings_from(segments, 0)
}

impl MosaicShape {
    /// Connects the primary points of the shape with its construction segments.
    pub fn connect_points(&self, shape_points: &Vec<Vector>) -> (r: Vec<Segment>)
        ensures
            r@ == shape_segments(*self, shape_points@),
    {
        match self {
            MosaicShape::RegularPolygon(polygon) => polygon.connect_points(shape_points),
            MosaicShape::PolygonalStar(star) => star.connect_points(shape_points),
            MosaicShape::Grid(grid) => grid.connect_points(shape_points),
        }
    }

    /// Every crossing of two of the segments strictly inside the first of them, each pair
    /// tried once, in the order that `all_crossings` gives.
    pub fn intersect_segments(&self, shape_segments: &Vec<Segment>) -> (r: Vec<Vector>)
        requires
            segments_in_range(shape_segments@),
        ensures
            r@ == all_crossings(shape_segments@),
            points_in_range(r@),
    {
        let segments = shape_segments;
        let n = segments.len();
        let mut points: Vec<Vector> = Vec::new();
        let mut i: usize = 0;
        while i < n
            invariant
                n == segments.len(),
                i <= n,
                segments_in_range(segments@),
                points_in_range(points@),
                points@ + crossings_from(segments@, i as int) == all_crossings(segments@),
            decreases n - i,
        {
            assert(points@ + crossings_from(segments@, i as int) =~= points@ + crossings_of(
                segments@,
                i as int,
                i as int,
            ) + crossings_from(segments@, i + 1));
            let mut j: usize = i;
            while j < n
                invariant
                    n == segments.len(),
                    i < n,
                    i <= j <= n,
                    segments_in_range(segments@),
                    points_in_range(points@),
                    points@ + crossings_of(segments@, i as int, j as int) + crossings_from(
                        segments@,
                        i + 1,
                    ) == all_crossings(segments@),
                decreases n - j,
            {
                let ghost before = points@;
                let hit = segments[i].intersect(&segments[j]);
                assert(segments@[i as int].in_range() && segments@[j as int].in_range());
                match hit {
                    Some(p) => {
                        points.push(p);
                        assert(before + crossings_of(segments@, i as int, j as int) =~= points@
                            + crossings_of(segments@, i as int, j + 1));
                    },
                    None => {},
                }
                j = j + 1;
            }
            assert(crossings_of(segments@, i as int, n as int) == Seq::<Vector>::empty());
            assert(points@ + crossings_of(segments@, i as int, n as int) + crossings_from(
                segments@,
                i + 1,
            ) =~= points@ + crossings_from(segments@, i + 1));
            i = i + 1;
        }
        assert(points@ + crossings_from(segments@, n as int) =~= points@);
        points
    }
}

} // verus!
