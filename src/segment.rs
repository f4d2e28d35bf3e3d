use vstd::prelude::*;

use crate::vector::{cross_spec, squared_distance_spec, Vector};

verus! {

/// Largest absolute cross product of two directions, in square units, under which the
/// directions count as parallel (the single-precision epsilon of one square pixel).
pub const PARALLEL_TOLERANCE: i128 = 8388608;

/// A line segment between two points; the order of its ends does not matter for `==`.
#[derive(Clone, Copy, Debug)]
pub struct Segment {
    pub start: Vector,
    pub end: Vector,
}

/// Nearest integer to `n / d` for a positive `d`, halves rounded away from zero.
pub open spec fn round_div(n: int, d: int) -> int
    recommends
        d > 0,
{
    if n >= 0 {
        (2 * n + d) / (2 * d)
    } else {
        -((-2 * n + d) / (2 * d))
    }
}

/// Nearest integer to `n / d` for a nonzero `d`, halves rounded away from zero.
pub open spec fn round_quotient(n: int, d: int) -> int {
    if d > 0 {
        round_div(n, d)
    } else {
        round_div(-n, -d)
    }
}

/// Whether the fraction `n / d` lies strictly between 0 and 1.
pub open spec fn strictly_inside_unit(n: int, d: int) -> bool {
    (d > 0 && 0 < n < d) || (d < 0 && d < n < 0)
}

/// Direction of a segment, from its start to its end.
pub open spec fn direction(s: Segment) -> Vector {
    Vector { x: (s.end.x - s.start.x) as i64, y: (s.end.y - s.start.y) as i64 }
}

/// Cross product of the directions of `a` and `b`; zero when they are parallel.
pub open spec fn denominator(a: Segment, b: Segment) -> int {
    cross_spec(direction(a), direction(b))
}

/// Cross product of the direction of `b` and the displacement from `b.start` to `a.start`.
pub open spec fn numerator(a: Segment, b: Segment) -> int {
    cross_spec(
        direction(b),
        Vector { x: (a.start.x - b.start.x) as i64, y: (a.start.y - b.start.y) as i64 },
    )
}

/// The point where `a` crosses `b` strictly inside `a`, rounded to whole units; `None`
/// where the directions are parallel within `PARALLEL_TOLERANCE`, or where the crossing of
/// the two lines is not strictly between the ends of `a`.
pub open spec fn intersection(a: Segment, b: Segment) -> Option<Vector> {
    let d = denominator(a, b);
    let n = numerator(a, b);
    if -PARALLEL_TOLERANCE <= d <= PARALLEL_TOLERANCE {
        None
    } else if !strictly_inside_unit(n, d) {
        None
    } else {
        Some(
            Vector {
                x: (a.start.x + round_quotient(n * direction(a).x, d)) as i64,
                y: (a.start.y + round_quotient(n * direction(a).y, d)) as i64,
            },
        )
    }
}

/// Two segments are equal when they join the same two points, in either order.
pub open spec fn same_segment(a: Segment, b: Segment) -> bool {
    (a.start == b.start && a.end == b.end) || (a.start == b.end && a.end == b.start)
}

/// Rounding `m / d` keeps the result between 0 and `k` when `m / d` lies there.
proof fn lemma_round_div_between(m: int, d: int, k: int)
    requires
        d > 0,
        (0 <= m <= d * k) || (d * k <= m <= 0),
    ensures
        (0 <= round_div(m, d) <= k) || (k <= round_div(m, d) <= 0),
{
    let x = if m >= 0 { 2 * m + d } else { -2 * m + d };
    let q = x / (2 * d);
    let r = x % (2 * d);
    vstd::arithmetic::div_mod::lemma_fundamental_div_mod(x, 2 * d);
    vstd::arithmetic::div_mod::lemma_mod_bound(x, 2 * d);
    if m == 0 {
        assert(q == 0) by (nonlinear_arith)
            requires
                d > 0,
                x == d,
                x == (2 * d) * q + r,
                0 <= r < 2 * d,
        ;
    } else if m > 0 {
        assert(0 <= q <= k) by (nonlinear_arith)
            requires
                d > 0,
                0 < m <= d * k,
                x == 2 * m + d,
                x == (2 * d) * q + r,
                0 <= r < 2 * d,
        ;
    } else {
        assert(0 <= q <= -k) by (nonlinear_arith)
            requires
                d > 0,
                d * k <= m < 0,
                x == -2 * m + d,
                x == (2 * d) * q + r,
                0 <= r < 2 * d,
        ;
    }
}

/// The rounded quotient times `d` exceeds `n` by at most half of `d`.
pub proof fn lemma_round_div_upper(n: int, d: int)
    requires
        d > 0,
    ensures
        2 * (round_div(n, d) * d) <= 2 * n + d,
{
    let x = if n >= 0 { 2 * n + d } else { -2 * n + d };
    let q = x / (2 * d);
    let r = x % (2 * d);
    vstd::arithmetic::div_mod::lemma_fundamental_div_mod(x, 2 * d);
    vstd::arithmetic::div_mod::lemma_mod_bound(x, 2 * d);
    if n >= 0 {
        assert(2 * (q * d) <= 2 * n + d) by (nonlinear_arith)
            requires
                x == 2 * n + d,
                x == (2 * d) * q + r,
                0 <= r,
        ;
    } else {
        assert(2 * ((-q) * d) <= 2 * n + d) by (nonlinear_arith)
            requires
                d > 0,
                x == -2 * n + d,
                x == (2 * d) * q + r,
                r < 2 * d,
        ;
    }
}

/// The rounded quotient times `d` falls short of `n` by at most half of `d`.
pub proof fn lemma_round_div_lower(n: int, d: int)
    requires
        d > 0,
    ensures
        2 * n - d <= 2 * (round_div(n, d) * d),
{
    let x = if n >= 0 { 2 * n + d } else { -2 * n + d };
    let q = x / (2 * d);
    let r = x % (2 * d);
    vstd::arithmetic::div_mod::lemma_fundamental_div_mod(x, 2 * d);
    vstd::arithmetic::div_mod::lemma_mod_bound(x, 2 * d);
    if n >= 0 {
        assert(2 * n - d <= 2 * (q * d)) by (nonlinear_arith)
            requires
                d > 0,
                x == 2 * n + d,
                x == (2 * d) * q + r,
                r < 2 * d,
        ;
    } else {
        assert(2 * n - d <= 2 * ((-q) * d)) by (nonlinear_arith)
            requires
                x == -2 * n + d,
                x == (2 * d) * q + r,
                0 <= r,
        ;
    }
}

/// Nearest integer to `n / d` for a positive `d`, computed on magnitudes.
pub(crate) fn round_div_exec(n: i128, d: i128) -> (r: i128)
    requires
        d > 0,
        d <= 0x800000000000000000000,
        -0x10000000000000000000000000000000 <= n <= 0x10000000000000000000000000000000,
    ensures
        r == round_div(n as int, d as int),
{
    if n >= 0 {
        (2 * n + d) / (2 * d)
    } else {
        let m: i128 = -n;
        let q: i128 = (2 * m + d) / (2 * d);
        -q
    }
}

impl Segment {
    /// Whether both ends lie within `COORDINATE_LIMIT`.
    pub open spec fn in_range(self) -> bool {
        self.start.in_range() && self.end.in_range()
    }

    /// Creates a segment between two points.
    pub fn new(start: Vector, end: Vector) -> (r: Segment)
        ensures
            r.start == start,
            r.end == end,
    {
        Segment { start, end }
    }

    /// Squared length of the segment, in square units.
    pub fn squared_length(&self) -> (r: i128)
        requires
            self.in_range(),
        ensures
            r == squared_distance_spec(self.start, self.end),
    {
        self.start.squared_distance_to(&self.end)
    }

    /// The point where `self` crosses `segment` strictly between the ends of `self`.
    /// Parallel or collinear segments, and crossings at an end of `self` or beyond it,
    /// give `None`.
    pub fn intersect(&self, segment: &Segment) -> (r: Option<Vector>)
        requires
            self.in_range(),
            segment.in_range(),
        ensures
            r == intersection(*self, *segment),
            r matches Some(p) ==> p.in_range(),
    {
        let self_vector = self.end.sub(&self.start);
        let segment_vector = segment.end.sub(&segment.start);
        let denominator = self_vector.cross(&segment_vector);
        if -PARALLEL_TOLERANCE <= denominator && denominator <= PARALLEL_TOLERANCE {
            return None;
        }
        let start_vector = self.start.sub(&segment.start);
        let numerator = segment_vector.cross(&start_vector);
        let inside = (denominator > 0 && 0 < numerator && numerator < denominator) || (
        denominator < 0 && denominator < numerator && numerator < 0);
        if !inside {
            return None;
        }
        let (n, d) = if denominator > 0 {
            (numerator, denominator)
        } else {
            (-numerator, -denominator)
        };
        let (dx, dy) = (self_vector.x as i128, self_vector.y as i128);
        assert(0 < n < d);
        assert(d <= 0x800000000000000000000) by {
            crate::vector::lemma_product_bound(self_vector.y as int, segment_vector.x as int);
            crate::vector::lemma_product_bound(self_vector.x as int, segment_vector.y as int);
        };
        assert(-0x10000000000000000000000000000000 <= n * dx <= 0x10000000000000000000000000000000
            && -0x10000000000000000000000000000000 <= n * dy <= 0x10000000000000000000000000000000)
            by (nonlinear_arith)
            requires
                0 < n <= 0x800000000000000000000,
                -0x20000000000 <= dx <= 0x20000000000,
                -0x20000000000 <= dy <= 0x20000000000,
        ;
        let rx = round_div_exec(n * dx, d);
        let ry = round_div_exec(n * dy, d);
        proof {
            assert((0 <= n * dx <= d * dx) || (d * dx <= n * dx <= 0)) by (nonlinear_arith)
                requires
                    0 < n < d,
            ;
            assert((0 <= n * dy <= d * dy) || (d * dy <= n * dy <= 0)) by (nonlinear_arith)
                requires
                    0 < n < d,
            ;
            lemma_round_div_between(n * dx, d as int, dx as int);
            lemma_round_div_between(n * dy, d as int, dy as int);
            if denominator < 0 {
                assert(-(numerator * dx) == n * dx) by (nonlinear_arith)
                    requires
                        n == -numerator,
                ;
                assert(-(numerator * dy) == n * dy) by (nonlinear_arith)
                    requires
                        n == -numerator,
                ;
            }
        }
        Some(Vector { x: (self.start.x as i128 + rx) as i64, y: (self.start.y as i128 + ry) as i64 })
    }
}

impl PartialEq for Segment {
    fn eq(&self, segment: &Segment) -> (r: bool)
        ensures
            r == same_segment(*self, *segment),
    {
        (self.start == segment.start && self.end == segment.end) || (self.start == segment.end
            && self.end == segment.start)
    }
}

impl vstd::std_specs::cmp::PartialEqSpecImpl for Segment {
    open spec fn obeys_eq_spec() -> bool {
        true
    }

    open spec fn eq_spec(&self, other: &Segment) -> bool {
        same_segment(*self, *other)
    }
}

} // verus!
