use vstd::prelude::*;

use crate::segment::Segment;
use crate::vector::Vector;

verus! {

/// Mosaic shape based on a regular polygon.
#[derive(Clone, Copy, Debug)]
pub struct RegularPolygon {
    corners_count: u32,
}

/// The segments from point `start` to each later point, in order.
pub open spec fn fan(points: Seq<Vector>, start: int) -> Seq<Segment>
    recommends
        0 <= start < points.len(),
{
    points.subrange(start + 1, points.len() as int).map_values(
        |p: Vector| Segment { start: points[start], end: p },
    )
}

/// All segments between two of the points from index `start` on, each pair once, ordered by
/// the index of their first and then of their second point.
pub open spec fn diagonals_from(points: Seq<Vector>, start: int) -> Seq<Segment>
    decreases points.len() - start,
{
    if start < 0 || start >= points.len() {
        Seq::empty()
    } else {
        fan(points, start) + diagonals_from(points, start + 1)
    }
}

/// All the diagonals and sides of the polygon with the given corners.
pub open spec fn polygon_segments(points: Seq<Vector>) -> Seq<Segment> {
    diagonals_from(points, 0)
}

impl RegularPolygon {
    /// Number of corners.
    pub closed spec fn spec_corners_count(self) -> u32 {
        self.corners_count
    }

    #[verifier::type_invariant]
    spec fn inv(self) -> bool {
        self.corners_count >= 3
    }

    /// Creates a regular polygon with the given number of corners, at least 3.
    pub fn new(corners_count: u32) -> (r: RegularPolygon)
        ensures
            r.spec_corners_count() == if corners_count < 3 { 3 } else { corners_count },
    {
        RegularPolygon { corners_count: if corners_count < 3 { 3 } else { corners_count } }
    }

    /// Number of corners of the polygon.
    pub fn corners_count(&self) -> (r: u32)
        ensures
            r == self.spec_corners_count(),
            r >= 3,
    {
        proof {
            use_type_invariant(self);
        }
        self.corners_count
    }

    /// Sets the number of corners; values under 3 become 3.
    pub fn set_corners_count(&mut self, corners_count: u32)
        ensures
            final(self).spec_corners_count() == if corners_count < 3 { 3 } else { corners_count },
    {
        self.corners_count = if corners_count < 3 { 3 } else { corners_count };
    }

    /// Connects every corner with every other one: each pair once, by the index of the first
    /// corner and then of the second.
    pub fn connect_points(&self, shape_points: &Vec<Vector>) -> (r: Vec<Segment>)
        ensures
            r@ == polygon_segments(shape_points@),
    {
        let points = shape_points;
        let n = points.len();
        let mut segments: Vec<Segment> = Vec::new();
        let mut start: usize = 0;
        while start < n
            invariant
                n == points.len(),
                start <= n,
                segments@ + diagonals_from(points@, start as int) == polygon_segments(points@),
            decreases n - start,
        {
            let ghost before = segments@;
            let mut end: usize = start + 1;
            while end < n
                invariant
                    n == points.len(),
                    start < n,
                    start + 1 <= end <= n,
                    segments@ == before + fan(points@, start as int).take(end - start - 1),
                decreases n - end,
            {
                let ghost prev = segments@;
                segments.push(Segment::new(points[start], points[end]));
                proof {
                    let f = fan(points@, start as int);
                    assert(f.take(end - start) =~= f.take(end - start - 1).push(f[end - start - 1]));
                    assert(segments@ =~= before + f.take(end - start));
                }
                end = end + 1;
            }
            proof {
                let f = fan(points@, start as int);
                assert(f.take(end - start - 1) =~= f);
                assert(diagonals_from(points@, start as int) == f + diagonals_from(
                    points@,
                    start + 1,
                ));
                assert(before + diagonals_from(points@, start as int) =~= (before + f)
                    + diagonals_from(points@, start + 1));
            }
            start = start + 1;
        }
        proof {
            assert(diagonals_from(points@, n as int) == Seq::<Segment>::empty());
            assert(segments@ =~= segments@ + diagonals_from(points@, n as int));
        }
        segments
    }
}

impl Default for RegularPolygon {
    fn default() -> (r: RegularPolygon)
        ensures
            r.spec_corners_count() == 8,
    {
        RegularPolygon { corners_count: 8 }
    }
}

} // verus!
