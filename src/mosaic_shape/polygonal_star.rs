use vstd::prelude::*;

use crate::segment::Segment;
use crate::vector::Vector;

verus! {

/// Mosaic shape based on a polygonal star: an outer polygon of convex corners and an inner
/// polygon of concave ones.
#[derive(Clone, Copy, Debug)]
pub struct PolygonalStar {
    corners_count: u32,
}

/// The rays of the star: from each outer corner `s` to outer corner `(s + 2) % n`, where `n`
/// is the number of outer corners.
pub open spec fn star_rays(points: Seq<Vector>, n: int) -> Seq<Segment>
    recommends
        0 < n,
        2 * n <= points.len(),
{
    Seq::new(n as nat, |s: int| Segment { start: points[s], end: points[(s + 2) % n] })
}

/// Number of inner corners that the fan of one outer corner reaches.
pub open spec fn star_fan_len(n: int) -> int {
    if n >= 4 {
        n - 4
    } else {
        0
    }
}

/// The fan of outer corner `s`: segments to the inner corners `n + (s + 2 + j) % n`.
pub open spec fn star_fan(points: Seq<Vector>, n: int, s: int) -> Seq<Segment>
    recommends
        0 <= s < n,
        2 * n <= points.len(),
{
    Seq::new(
        star_fan_len(n) as nat,
        |j: int| Segment { start: points[s], end: points[n + (s + 2 + j) % n] },
    )
}

/// The fans of the outer corners from index `s` on, in order.
pub open spec fn star_fans_from(points: Seq<Vector>, n: int, s: int) -> Seq<Segment>
    decreases n - s,
{
    if s < 0 || s >= n {
        Seq::empty()
    } else {
        star_fan(points, n, s) + star_fans_from(points, n, s + 1)
    }
}

/// The construction segments of a star whose first half of points are the outer corners and
/// whose second half are the inner ones: the rays, then the fans.
pub open spec fn star_segments(points: Seq<Vector>) -> Seq<Segment> {
    let n = points.len() / 2;
    star_rays(points, n as int) + star_fans_from(points, n as int, 0)
}

impl PolygonalStar {
    /// Number of convex corners.
    pub closed spec fn spec_corners_count(self) -> u32 {
        self.corners_count
    }

    #[verifier::type_invariant]
    spec fn inv(self) -> bool {
        self.corners_count >= 3
    }

    /// Creates a polygonal star with the given number of convex corners, at least 3.
    pub fn new(corners_count: u32) -> (r: PolygonalStar)
        ensures
            r.spec_corners_count() == if corners_count < 3 { 3 } else { corners_count },
    {
        PolygonalStar { corners_count: if corners_count < 3 { 3 } else { corners_count } }
    }

    /// Number of convex corners of the star.
    pub fn corners_count(&self) -> (r: u32)
        ensures
            r == self.spec_corners_count(),
            r >= 3,
    {
        proof {
            use_type_invariant(self);
        }
        self.corners_count
    }

    /// Sets the number of convex corners; values under 3 become 3.
    pub fn set_corners_count(&mut self, corners_count: u32)
        ensures
            final(self).spec_corners_count() == if corners_count < 3 { 3 } else { corners_count },
    {
        self.corners_count = if corners_count < 3 { 3 } else { corners_count };
    }

    /// Connects the points of a star, outer corners first and inner corners second, as
    /// `star_segments` says.
    pub fn connect_points(&self, shape_points: &Vec<Vector>) -> (r: Vec<Segment>)
        ensures
            r@ == star_segments(shape_points@),
    {
        let points = shape_points;
        let n = points.len() / 2;
        let mut segments: Vec<Segment> = Vec::new();
        let mut s: usize = 0;
        while s < n
            invariant
                n == points.len() / 2,
                s <= n,
                segments@ == star_rays(points@, n as int).take(s as int),
            decreases n - s,
        {
            segments.push(Segment::new(points[s], points[(s + 2) % n]));
            proof {
                let rays = star_rays(points@, n as int);
                assert(rays.take(s + 1) =~= rays.take(s as int).push(rays[s as int]));
            }
            s = s + 1;
        }
        proof {
            assert(star_rays(points@, n as int).take(n as int) =~= star_rays(points@, n as int));
        }
        let ghost rays = segments@;
        let mut s: usize = 0;
        while s < n
            invariant
                n == points.len() / 2,
                s <= n,
                rays == star_rays(points@, n as int),
                segments@ + star_fans_from(points@, n as int, s as int) == rays + star_fans_from(
                    points@,
                    n as int,
                    0,
                ),
            decreases n - s,
        {
            let ghost before = segments@;
            let count: usize = if n >= 4 {
                n - 4
            } else {
                0
            };
            let mut j: usize = 0;
            while j < count
                invariant
                    n == points.len() / 2,
                    s < n,
                    count == star_fan_len(n as int),
                    j <= count,
                    segments@ == before + star_fan(points@, n as int, s as int).take(j as int),
                decreases count - j,
            {
                segments.push(Segment::new(points[s], points[n + (s + 2 + j) % n]));
                proof {
                    let f = star_fan(points@, n as int, s as int);
                    assert(f.take(j + 1) =~= f.take(j as int).push(f[j as int]));
                    assert(segments@ =~= before + f.take(j + 1));
                }
                j = j + 1;
            }
            proof {
                let f = star_fan(points@, n as int, s as int);
                assert(f.take(j as int) =~= f);
                assert(before + star_fans_from(points@, n as int, s as int) =~= (before + f)
                    + star_fans_from(points@, n as int, s + 1));
            }
            s = s + 1;
        }
        proof {
            assert(segments@ =~= segments@ + star_fans_from(points@, n as int, n as int));
        }
        segments
    }
}

impl Default for PolygonalStar {
    fn default() -> (r: PolygonalStar)
        ensures
            r.spec_corners_count() == 8,
    {
        PolygonalStar { corners_count: 8 }
    }
}

} // verus!
