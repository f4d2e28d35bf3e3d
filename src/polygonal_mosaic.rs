//! Rasterization for the Delaunay-based renderer: which triangle paints each pixel.
//! A pixel belongs to a triangle when it lies in the triangle's pixel bounding box and on
//! the inner side of its three edges (clockwise corners); where triangles share pixels the
//! later one wins.
use vstd::prelude::*;

use crate::mosaic_shape::points_in_range;
use crate::segment::{lemma_round_div_lower, lemma_round_div_upper, round_div, round_div_exec};
use crate::vector::{orientation_spec, pixel_position, Vector, COORDINATE_LIMIT, UNITS_PER_PIXEL};

verus! {

/// The pixel nearest to a coordinate given in units, halves rounded away from zero.
pub open spec fn nearest_pixel(u: int) -> int {
    round_div(u, UNITS_PER_PIXEL as int)
}

/// The least of three numbers.
pub open spec fn min3(a: int, b: int, c: int) -> int {
    if a <= b && a <= c {
        a
    } else if b <= c {
        b
    } else {
        c
    }
}

/// The greatest of three numbers.
pub open spec fn max3(a: int, b: int, c: int) -> int {
    if a >= b && a >= c {
        a
    } else if b >= c {
        b
    } else {
        c
    }
}

/// Whether pixel `(x, y)` lies in the pixel bounding box of the triangle `a`, `b`, `c` and
/// on the inner side of (or on) each of its edges `a b`, `b c` and `c a`.
pub open spec fn covers(a: Vector, b: Vector, c: Vector, x: int, y: int) -> bool {
    let p = pixel_position(x, y);
    &&& nearest_pixel(min3(a.x as int, b.x as int, c.x as int)) <= x
    &&& x <= nearest_pixel(max3(a.x as int, b.x as int, c.x as int))
    &&& nearest_pixel(min3(a.y as int, b.y as int, c.y as int)) <= y
    &&& y <= nearest_pixel(max3(a.y as int, b.y as int, c.y as int))
    &&& orientation_spec(a, b, p) <= 0
    &&& orientation_spec(b, c, p) <= 0
    &&& orientation_spec(c, a, p) <= 0
}

/// Whether triangle `t`, whose corners are the sites at `triangles[3 t]`, `triangles[3 t + 1]`
/// and `triangles[3 t + 2]`, covers pixel `(x, y)`.
pub open spec fn triangle_covers(
    sites: Seq<Vector>,
    triangles: Seq<usize>,
    t: int,
    x: int,
    y: int,
) -> bool {
    covers(
        sites[triangles[3 * t] as int],
        sites[triangles[3 * t + 1] as int],
        sites[triangles[3 * t + 2] as int],
        x,
        y,
    )
}

/// The last of the first `count` triangles that covers pixel `(x, y)`, if any.
pub open spec fn last_cover(
    sites: Seq<Vector>,
    triangles: Seq<usize>,
    count: nat,
    x: int,
    y: int,
) -> Option<usize>
    decreases count,
{
    if count == 0 {
        None
    } else if triangle_covers(sites, triangles, count - 1, x, y) {
        Some((count - 1) as usize)
    } else {
        last_cover(sites, triangles, (count - 1) as nat, x, y)
    }
}

/// Whether every entry of `triangles` is the index of a site.
pub open spec fn indexes_sites(sites: Seq<Vector>, triangles: Seq<usize>) -> bool {
    forall|k: int| 0 <= k < triangles.len() ==> #[trigger] triangles[k] < sites.len()
}

/// Orientation of pixel position `p` against the directed line from `a` to `b`.
fn orientation_of_pixel(a: &Vector, b: &Vector, p: &Vector) -> (r: i128)
    requires
        a.in_range(),
        b.in_range(),
        -2 * COORDINATE_LIMIT <= p.x <= 2 * COORDINATE_LIMIT,
        -2 * COORDINATE_LIMIT <= p.y <= 2 * COORDINATE_LIMIT,
    ensures
        r == orientation_spec(*a, *b, *p),
{
    let ux = b.x as i128 - a.x as i128;
    let uy = b.y as i128 - a.y as i128;
    let vx = p.x as i128 - a.x as i128;
    let vy = p.y as i128 - a.y as i128;
    assert(-0x40000000000 * 0x40000000000 <= ux * vy <= 0x40000000000 * 0x40000000000)
        by (nonlinear_arith)
        requires
            -0x40000000000 <= ux <= 0x40000000000,
            -0x40000000000 <= vy <= 0x40000000000,
    ;
    assert(-0x40000000000 * 0x40000000000 <= uy * vx <= 0x40000000000 * 0x40000000000)
        by (nonlinear_arith)
        requires
            -0x40000000000 <= uy <= 0x40000000000,
            -0x40000000000 <= vx <= 0x40000000000,
    ;
    ux * vy - uy * vx
}

fn min3_exec(a: i64, b: i64, c: i64) -> (r: i64)
    ensures
        r == min3(a as int, b as int, c as int),
{
    if a <= b && a <= c {
        a
    } else if b <= c {
        b
    } else {
        c
    }
}

fn max3_exec(a: i64, b: i64, c: i64) -> (r: i64)
    ensures
        r == max3(a as int, b as int, c as int),
{
    if a >= b && a >= c {
        a
    } else if b >= c {
        b
    } else {
        c
    }
}

/// The range of pixels, clipped to `0 .. size`, between the pixels nearest to `low` and
/// `high`; empty where `low_pixel > high_pixel`.
fn pixel_span(low: i64, high: i64, size: u32) -> (r: (i64, i64))
    requires
        -COORDINATE_LIMIT <= low <= COORDINATE_LIMIT,
        -COORDINATE_LIMIT <= high <= COORDINATE_LIMIT,
        size > 0,
    ensures
        r.0 == if nearest_pixel(low as int) < 0 { 0 } else { nearest_pixel(low as int) },
        r.1 == if nearest_pixel(high as int) > size - 1 { size - 1 } else { nearest_pixel(high as int) },
        0 <= r.0,
        r.1 < size,
        r.1 * UNITS_PER_PIXEL <= COORDINATE_LIMIT + UNITS_PER_PIXEL,
{
    let lo = round_div_exec(low as i128, UNITS_PER_PIXEL as i128);
    let hi = round_div_exec(high as i128, UNITS_PER_PIXEL as i128);
    proof {
        lemma_round_div_upper(high as int, UNITS_PER_PIXEL as int);
        lemma_round_div_lower(high as int, UNITS_PER_PIXEL as int);
        lemma_round_div_upper(low as int, UNITS_PER_PIXEL as int);
        lemma_round_div_lower(low as int, UNITS_PER_PIXEL as int);
        assert(-0x40000 <= lo <= 0x40000) by (nonlinear_arith)
            requires
                2 * (lo * 8388608) <= 2 * low + 8388608,
                2 * low - 8388608 <= 2 * (lo * 8388608),
                -1099511627776 <= low <= 1099511627776,
        ;
        assert(-0x40000 <= hi <= 0x40000) by (nonlinear_arith)
            requires
                2 * (hi * 8388608) <= 2 * high + 8388608,
                2 * high - 8388608 <= 2 * (hi * 8388608),
                -1099511627776 <= high <= 1099511627776,
        ;
    }
    let first = if lo < 0 {
        0
    } else {
        lo as i64
    };
    let last = if hi > size as i128 - 1 {
        size as i64 - 1
    } else {
        hi as i64
    };
    proof {
        assert(last * 8388608 <= 1099511627776 + 8388608) by (nonlinear_arith)
            requires
                last <= hi,
                2 * (hi * 8388608) <= 2 * high + 8388608,
                high <= 1099511627776,
        ;
    }
    (first, last)
}

/// For each pixel of a `width` by `height` image, in raster order (row by row), the last
/// triangle that covers it, or `None`. `triangles` holds three site indices per triangle,
/// corners in clockwise order.
pub fn rasterize_triangles(
    sites: &Vec<Vector>,
    triangles: &Vec<usize>,
    width: u32,
    height: u32,
) -> (r: Vec<Option<usize>>)
    requires
        points_in_range(sites@),
        indexes_sites(sites@, triangles@),
        width as int * height as int <= usize::MAX,
    ensures
        r.len() == width as int * height as int,
        forall|i: int|
            0 <= i < r.len() ==> #[trigger] r@[i] == last_cover(
                sites@,
                triangles@,
                (triangles.len() / 3) as nat,
                i % width as int,
                i / width as int,
            ),
{
    let count = width as usize * height as usize;
    let mut owners: Vec<Option<usize>> = Vec::with_capacity(count);
    let mut i: usize = 0;
    while i < count
        invariant
            i <= count,
            owners.len() == i,
            forall|j: int| 0 <= j < i ==> #[trigger] owners@[j] == None::<usize>,
        decreases count - i,
    {
        owners.push(None);
        i = i + 1;
    }
    if count == 0 {
        return owners;
    }
    assert(width > 0 && height > 0) by (nonlinear_arith)
        requires
            count == width as int * height as int,
            count > 0,
            width >= 0,
            height >= 0,
    ;
    let triangle_count = triangles.len() / 3;
    let mut t: usize = 0;
    while t < triangle_count
        invariant
            triangle_count == triangles.len() / 3,
            t <= triangle_count,
            width > 0,
            height > 0,
            count == width as int * height as int,
            owners.len() == count,
            points_in_range(sites@),
            indexes_sites(sites@, triangles@),
            forall|j: int|
                0 <= j < count ==> #[trigger] owners@[j] == last_cover(
                    sites@,
                    triangles@,
                    t as nat,
                    (j % width as int),
                    (j / width as int),
                ),
        decreases triangle_count - t,
    {
        assert(triangles@[3 * t as int] < sites.len() && triangles@[3 * t + 1] < sites.len()
            && triangles@[3 * t + 2] < sites.len());
        let a = sites[triangles[3 * t]];
        let b = sites[triangles[3 * t + 1]];
        let c = sites[triangles[3 * t + 2]];
        assert(a.in_range() && b.in_range() && c.in_range());
        let (x_first, x_last) = pixel_span(min3_exec(a.x, b.x, c.x), max3_exec(a.x, b.x, c.x), width);
        let (y_first, y_last) = pixel_span(min3_exec(a.y, b.y, c.y), max3_exec(a.y, b.y, c.y), height);
        proof {
            assert forall|j: int|
                0 <= j < count && #[trigger] triangle_covers(sites@, triangles@, t as int, (j % width as int), (j / width as int))
                implies x_first <= (j % width as int) <= x_last && y_first <= (j / width as int) <= y_last by {
                vstd::arithmetic::div_mod::lemma_fundamental_div_mod(j, width as int);
                vstd::arithmetic::div_mod::lemma_mod_bound(j, width as int);
                let q = (j / width as int);
                let m = (j % width as int);
                assert(0 <= q < height) by (nonlinear_arith)
                    requires
                        j == width * q + m,
                        0 <= m < width,
                        0 <= j < width * height,
                        width > 0,
                ;
            };
        }
        let ghost previous = owners@;
        let ghost tri = t as int;
        let mut x = x_first;
        while x <= x_last
            invariant
                triangle_count == triangles.len() / 3,
                t < triangle_count,
                tri == t,
                width > 0,
                height > 0,
                count == width as int * height as int,
                owners.len() == count,
                a == sites@[triangles@[3 * tri] as int],
                b == sites@[triangles@[3 * tri + 1] as int],
                c == sites@[triangles@[3 * tri + 2] as int],
                a.in_range() && b.in_range() && c.in_range(),
                0 <= x_first <= x,
                x <= x_last + 1 || x == x_first,
                x_last < width,
                0 <= y_first,
                y_last < height,
                x_last * UNITS_PER_PIXEL <= COORDINATE_LIMIT + UNITS_PER_PIXEL,
                y_last * UNITS_PER_PIXEL <= COORDINATE_LIMIT + UNITS_PER_PIXEL,
                nearest_pixel(min3(a.x as int, b.x as int, c.x as int)) <= x_first,
                x_last <= nearest_pixel(max3(a.x as int, b.x as int, c.x as int)),
                nearest_pixel(min3(a.y as int, b.y as int, c.y as int)) <= y_first,
                y_last <= nearest_pixel(max3(a.y as int, b.y as int, c.y as int)),
                forall|j: int|
                    0 <= j < count && #[trigger] triangle_covers(sites@, triangles@, tri, (j % width as int), (j / width as int))
                        ==> x_first <= (j % width as int) <= x_last && y_first <= (j / width as int) <= y_last,
                forall|j: int|
                    0 <= j < count ==> #[trigger] owners@[j] == if (j % width as int)
                        < x && triangle_covers(
                        sites@,
                        triangles@,
                        tri,
                        (j % width as int),
                        (j / width as int),
                    ) {
                        Some(t)
                    } else {
                        previous[j]
                    },
            decreases x_last + 1 - x,
        {
            let ghost column = owners@;
            let mut y = y_first;
            while y <= y_last
                invariant
                    triangle_count == triangles.len() / 3,
                    t < triangle_count,
                    tri == t,
                    width > 0,
                    height > 0,
                    count == width as int * height as int,
                    owners.len() == count,
                    a == sites@[triangles@[3 * tri] as int],
                    b == sites@[triangles@[3 * tri + 1] as int],
                    c == sites@[triangles@[3 * tri + 2] as int],
                    a.in_range() && b.in_range() && c.in_range(),
                    0 <= x_first <= x <= x_last,
                    x_last < width,
                    0 <= y_first <= y,
                    y <= y_last + 1 || y == y_first,
                    y_last < height,
                    x_last * UNITS_PER_PIXEL <= COORDINATE_LIMIT + UNITS_PER_PIXEL,
                    y_last * UNITS_PER_PIXEL <= COORDINATE_LIMIT + UNITS_PER_PIXEL,
                    nearest_pixel(min3(a.x as int, b.x as int, c.x as int)) <= x_first,
                    x_last <= nearest_pixel(max3(a.x as int, b.x as int, c.x as int)),
                    nearest_pixel(min3(a.y as int, b.y as int, c.y as int)) <= y_first,
                    y_last <= nearest_pixel(max3(a.y as int, b.y as int, c.y as int)),
                    forall|j: int|
                        0 <= j < count ==> #[trigger] owners@[j] == if (j % width as int) == x
                            && (j / width as int) < y && triangle_covers(
                            sites@,
                            triangles@,
                            tri,
                            (j % width as int),
                            (j / width as int),
                        ) {
                            Some(t)
                        } else {
                            column[j]
                        },
                decreases y_last + 1 - y,
            {
                assert(0 <= x * UNITS_PER_PIXEL <= x_last * UNITS_PER_PIXEL) by (nonlinear_arith)
                    requires
                        0 <= x <= x_last,
                ;
                assert(0 <= y * UNITS_PER_PIXEL <= y_last * UNITS_PER_PIXEL) by (nonlinear_arith)
                    requires
                        0 <= y <= y_last,
                ;
                let p = Vector::from_pixel(x as u32, y as u32);
                let inside = orientation_of_pixel(&a, &b, &p) <= 0 && orientation_of_pixel(&b, &c, &p)
                    <= 0 && orientation_of_pixel(&c, &a, &p) <= 0;
                assert(0 <= y * width <= y * width + x < count) by (nonlinear_arith)
                    requires
                        0 <= x < width,
                        0 <= y < height,
                        count == width * height,
                ;
                let index = y as usize * width as usize + x as usize;
                proof {
                    vstd::arithmetic::div_mod::lemma_fundamental_div_mod_converse(
                        index as int,
                        width as int,
                        y as int,
                        x as int,
                    );
                    assert(inside == triangle_covers(sites@, triangles@, tri, x as int, y as int));
                }
                let ghost before = owners@;
                if inside {
                    owners.set(index, Some(t));
                }
                proof {
                    assert forall|j: int| 0 <= j < count implies #[trigger] owners@[j] == if (j
                        % width as int) == x && (j / width as int) < y + 1 && triangle_covers(
                        sites@,
                        triangles@,
                        tri,
                        (j % width as int),
                        (j / width as int),
                    ) {
                        Some(t)
                    } else {
                        column[j]
                    } by {
                        if (j % width as int) == x && (j / width as int) == y {
                            vstd::arithmetic::div_mod::lemma_fundamental_div_mod(j, width as int);
                            let (q, m) = ((j / width as int), (j % width as int));
                            assert(j == index) by (nonlinear_arith)
                                requires
                                    j == width * q + m,
                                    q == y,
                                    m == x,
                                    index == y * width + x,
                            ;
                        } else if j != index {
                            assert(owners@[j] == before[j]);
                        }
                    };
                }
                y = y + 1;
            }
            proof {
                assert forall|j: int| 0 <= j < count implies #[trigger] owners@[j] == if (j
                    % width as int) < x + 1 && triangle_covers(
                    sites@,
                    triangles@,
                    tri,
                    (j % width as int),
                    (j / width as int),
                ) {
                    Some(t)
                } else {
                    previous[j]
                } by {
                    assert(owners@[j] == if (j % width as int) == x && (j / width as int) < y
                        && triangle_covers(sites@, triangles@, tri, (j % width as int), (j / width as int)) {
                        Some(t)
                    } else {
                        column[j]
                    });
                    assert(column[j] == if (j % width as int) < x && triangle_covers(
                        sites@,
                        triangles@,
                        tri,
                        (j % width as int),
                        (j / width as int),
                    ) {
                        Some(t)
                    } else {
                        previous[j]
                    });
                };
            }
            x = x + 1;
        }
        proof {
            assert forall|j: int| 0 <= j < count implies #[trigger] owners@[j] == last_cover(
                sites@,
                triangles@,
                (t + 1) as nat,
                (j % width as int),
                (j / width as int),
            ) by {
                assert(owners@[j] == if (j % width as int) < x && triangle_covers(
                    sites@,
                    triangles@,
                    tri,
                    (j % width as int),
                    (j / width as int),
                ) {
                    Some(t)
                } else {
                    previous[j]
                });
            };
        }
        t = t + 1;
    }
    owners
}

} // verus!
