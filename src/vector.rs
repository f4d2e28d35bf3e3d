use vstd::prelude::*;

verus! {

/// Number of coordinate units in one pixel (two to the power of 23).
pub const UNITS_PER_PIXEL: i64 = 8388608;

/// Largest absolute coordinate, in units, of a point that takes part in intersections
/// (two to the power of 40, that is 131072 pixels).
pub const COORDINATE_LIMIT: i64 = 1099511627776;

/// Largest absolute coordinate, in units, of a pixel position or of a cell vertex that a
/// renderer measures distances to (two to the power of 56).
pub const PIXEL_LIMIT: i64 = 72057594037927936;

/// A point or a displacement on the plane, in fixed-point units.
#[derive(Clone, Copy, Debug, PartialEq, Eq, Structural, Hash)]
pub struct Vector {
    pub x: i64,
    pub y: i64,
}

/// Whether `a` comes strictly before `b`: by `x` first, then by `y`.
pub open spec fn precedes(a: Vector, b: Vector) -> bool {
    a.x < b.x || (a.x == b.x && a.y < b.y)
}

/// Scalar cross product of two displacements, `a.y * b.x - a.x * b.y`.
pub open spec fn cross_spec(a: Vector, b: Vector) -> int {
    a.y * b.x - a.x * b.y
}

/// Dot product of two displacements.
pub open spec fn dot_spec(a: Vector, b: Vector) -> int {
    a.x * b.x + a.y * b.y
}

/// Squared distance between two points.
pub open spec fn squared_distance_spec(a: Vector, b: Vector) -> int {
    (b.x - a.x) * (b.x - a.x) + (b.y - a.y) * (b.y - a.y)
}

/// The position of pixel `(x, y)` in units.
pub open spec fn pixel_position(x: int, y: int) -> Vector {
    Vector { x: (x * UNITS_PER_PIXEL) as i64, y: (y * UNITS_PER_PIXEL) as i64 }
}

/// Orientation of `c` against the directed line from `a` to `b`: the cross product of
/// `b - a` and `c - a`. It is zero exactly when the three points are collinear.
pub open spec fn orientation_spec(a: Vector, b: Vector, c: Vector) -> int {
    (b.x - a.x) * (c.y - a.y) - (b.y - a.y) * (c.x - a.x)
}

impl Vector {
    /// Whether both coordinates lie within `COORDINATE_LIMIT`.
    pub open spec fn in_range(self) -> bool {
        -COORDINATE_LIMIT <= self.x <= COORDINATE_LIMIT && -COORDINATE_LIMIT <= self.y
            <= COORDINATE_LIMIT
    }

    /// Whether both coordinates lie within `PIXEL_LIMIT`.
    pub open spec fn in_pixel_range(self) -> bool {
        -PIXEL_LIMIT <= self.x <= PIXEL_LIMIT && -PIXEL_LIMIT <= self.y <= PIXEL_LIMIT
    }

    /// Whether both coordinates lie within `PIXEL_LIMIT`.
    pub fn is_in_pixel_range(&self) -> (r: bool)
        ensures
            r == self.in_pixel_range(),
    {
        -PIXEL_LIMIT <= self.x && self.x <= PIXEL_LIMIT && -PIXEL_LIMIT <= self.y && self.y
            <= PIXEL_LIMIT
    }

    /// The position of pixel `(x, y)`.
    pub fn from_pixel(x: u32, y: u32) -> (r: Vector)
        ensures
            r == pixel_position(x as int, y as int),
            r.in_pixel_range(),
    {
        assert(0 <= x * 8388608 <= 0xffffffff * 8388608) by (nonlinear_arith)
            requires
                0 <= x <= 0xffffffff,
        ;
        assert(0 <= y * 8388608 <= 0xffffffff * 8388608) by (nonlinear_arith)
            requires
                0 <= y <= 0xffffffff,
        ;
        Vector { x: x as i64 * UNITS_PER_PIXEL, y: y as i64 * UNITS_PER_PIXEL }
    }

    /// Squared distance to another point, both within `PIXEL_LIMIT`, in square units.
    pub fn squared_distance_to_pixel(&self, other: &Vector) -> (r: i128)
        requires
            self.in_pixel_range(),
            other.in_pixel_range(),
        ensures
            r == squared_distance_spec(*self, *other),
            r >= 0,
    {
        let dx = other.x as i128 - self.x as i128;
        let dy = other.y as i128 - self.y as i128;
        assert(0 <= dx * dx <= 0x100000000000000 * 0x100000000000000 * 4) by (nonlinear_arith)
            requires
                -0x200000000000000 <= dx <= 0x200000000000000,
        ;
        assert(0 <= dy * dy <= 0x100000000000000 * 0x100000000000000 * 4) by (nonlinear_arith)
            requires
                -0x200000000000000 <= dy <= 0x200000000000000,
        ;
        dx * dx + dy * dy
    }

    /// Creates a vector from coordinates given in units.
    pub fn new(x: i64, y: i64) -> (r: Vector)
        ensures
            r.x == x,
            r.y == y,
    {
        Vector { x, y }
    }

    /// Creates a vector from coordinates given in whole pixels.
    pub fn from_pixels(x: i32, y: i32) -> (r: Vector)
        ensures
            r.x == x * UNITS_PER_PIXEL,
            r.y == y * UNITS_PER_PIXEL,
    {
        assert(-2147483648 * 8388608 <= x * 8388608 <= 2147483647 * 8388608) by (nonlinear_arith)
            requires
                -2147483648 <= x <= 2147483647,
        ;
        assert(-2147483648 * 8388608 <= y * 8388608 <= 2147483647 * 8388608) by (nonlinear_arith)
            requires
                -2147483648 <= y <= 2147483647,
        ;
        Vector { x: x as i64 * UNITS_PER_PIXEL, y: y as i64 * UNITS_PER_PIXEL }
    }

    /// Whether both coordinates lie within `COORDINATE_LIMIT`.
    pub fn is_in_range(&self) -> (r: bool)
        ensures
            r == self.in_range(),
    {
        -COORDINATE_LIMIT <= self.x && self.x <= COORDINATE_LIMIT && -COORDINATE_LIMIT <= self.y
            && self.y <= COORDINATE_LIMIT
    }

    /// Whether `self` comes strictly before `other` in the lexicographic order.
    pub fn precedes(&self, other: &Vector) -> (r: bool)
        ensures
            r == precedes(*self, *other),
    {
        self.x < other.x || (self.x == other.x && self.y < other.y)
    }

    /// Scalar cross product `self.y * other.x - self.x * other.y`.
    pub fn cross(&self, other: &Vector) -> (r: i128)
        requires
            -2 * COORDINATE_LIMIT <= self.x <= 2 * COORDINATE_LIMIT,
            -2 * COORDINATE_LIMIT <= self.y <= 2 * COORDINATE_LIMIT,
            -2 * COORDINATE_LIMIT <= other.x <= 2 * COORDINATE_LIMIT,
            -2 * COORDINATE_LIMIT <= other.y <= 2 * COORDINATE_LIMIT,
        ensures
            r == cross_spec(*self, *other),
            -0x800000000000000000000 <= r <= 0x800000000000000000000,
    {
        let (ax, ay, bx, by) = (self.x as i128, self.y as i128, other.x as i128, other.y as i128);
        proof {
            lemma_product_bound(ay as int, bx as int);
            lemma_product_bound(ax as int, by as int);
        }
        ay * bx - ax * by
    }

    /// Dot product of two displacements.
    pub fn dot(&self, other: &Vector) -> (r: i128)
        requires
            -2 * COORDINATE_LIMIT <= self.x <= 2 * COORDINATE_LIMIT,
            -2 * COORDINATE_LIMIT <= self.y <= 2 * COORDINATE_LIMIT,
            -2 * COORDINATE_LIMIT <= other.x <= 2 * COORDINATE_LIMIT,
            -2 * COORDINATE_LIMIT <= other.y <= 2 * COORDINATE_LIMIT,
        ensures
            r == dot_spec(*self, *other),
    {
        let (ax, ay, bx, by) = (self.x as i128, self.y as i128, other.x as i128, other.y as i128);
        proof {
            lemma_product_bound(ax as int, bx as int);
            lemma_product_bound(ay as int, by as int);
        }
        ax * bx + ay * by
    }

    /// Squared length of the displacement, in square units.
    pub fn squared_length(&self) -> (r: i128)
        requires
            self.in_range(),
        ensures
            r == dot_spec(*self, *self),
            r >= 0,
    {
        proof {
            assert(self.x * self.x >= 0 && self.y * self.y >= 0) by (nonlinear_arith);
        }
        self.dot(self)
    }

    /// `self` moved by the displacement `other`.
    pub fn add(&self, other: &Vector) -> (r: Vector)
        requires
            self.in_range(),
            other.in_range(),
        ensures
            r.x == self.x + other.x,
            r.y == self.y + other.y,
    {
        Vector { x: self.x + other.x, y: self.y + other.y }
    }

    /// Displacement from `other` to `self`.
    pub fn sub(&self, other: &Vector) -> (r: Vector)
        requires
            self.in_range(),
            other.in_range(),
        ensures
            r.x == self.x - other.x,
            r.y == self.y - other.y,
    {
        Vector { x: self.x - other.x, y: self.y - other.y }
    }

    /// Squared distance to another point, in square units.
    pub fn squared_distance_to(&self, other: &Vector) -> (r: i128)
        requires
            self.in_range(),
            other.in_range(),
        ensures
            r == squared_distance_spec(*self, *other),
    {
        let d = other.sub(self);
        d.dot(&d)
    }
}

/// The lexicographic order of two points: by `x` first, then by `y`.
pub open spec fn order_of(a: Vector, b: Vector) -> core::cmp::Ordering {
    if precedes(a, b) {
        core::cmp::Ordering::Less
    } else if a == b {
        core::cmp::Ordering::Equal
    } else {
        core::cmp::Ordering::Greater
    }
}

impl PartialOrd for Vector {
    fn partial_cmp(&self, other: &Vector) -> (r: Option<core::cmp::Ordering>)
        ensures
            r == Some(order_of(*self, *other)),
    {
        if self.precedes(other) {
            Some(core::cmp::Ordering::Less)
        } else if self.x == other.x && self.y == other.y {
            Some(core::cmp::Ordering::Equal)
        } else {
            Some(core::cmp::Ordering::Greater)
        }
    }
}

impl vstd::std_specs::cmp::PartialOrdSpecImpl for Vector {
    open spec fn obeys_partial_cmp_spec() -> bool {
        true
    }

    open spec fn partial_cmp_spec(&self, other: &Vector) -> Option<core::cmp::Ordering> {
        Some(order_of(*self, *other))
    }
}

/// Orientation of `c` against the directed line from `a` to `b` (see `orientation_spec`).
/// Its sign is exact.
pub fn orientation(a: &Vector, b: &Vector, c: &Vector) -> (r: i128)
    requires
        a.in_range(),
        b.in_range(),
        c.in_range(),
    ensures
        r == orientation_spec(*a, *b, *c),
{
    let u = b.sub(a);
    let v = c.sub(a);
    proof {
        lemma_product_bound(u.x as int, v.y as int);
        lemma_product_bound(u.y as int, v.x as int);
    }
    u.x as i128 * v.y as i128 - u.y as i128 * v.x as i128
}

/// A product of two numbers within twice `COORDINATE_LIMIT` stays within 2^82.
pub proof fn lemma_product_bound(a: int, b: int)
    requires
        -2 * COORDINATE_LIMIT <= a <= 2 * COORDINATE_LIMIT,
        -2 * COORDINATE_LIMIT <= b <= 2 * COORDINATE_LIMIT,
    ensures
        -0x400000000000000000000 <= a * b <= 0x400000000000000000000,
{
    assert(-0x20000000000 * 0x20000000000 <= a * b <= 0x20000000000 * 0x20000000000)
        by (nonlinear_arith)
        requires
            -0x20000000000 <= a <= 0x20000000000,
            -0x20000000000 <= b <= 0x20000000000,
    ;
}

} // verus!
