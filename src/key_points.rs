//! The key point set of a shape: its primary points and the crossings of its construction
//! segments, merged, sorted and without repeats; and the test that decides whether a
//! subdivision can be built on it.
use vstd::prelude::*;

use crate::mosaic_shape::polygonal_star::{star_fan, star_fans_from, star_rays};
use crate::mosaic_shape::regular_polygon::{diagonals_from, fan};
use crate::mosaic_shape::{all_crossings, points_in_range, shape_segments, MosaicShape};
use crate::vector::{orientation, orientation_spec, precedes, Vector};

verus! {

/// Whether each point comes strictly before every later one.
pub open spec fn strictly_sorted(s: Seq<Vector>) -> bool {
    forall|i: int, j: int| 0 <= i < j < s.len() ==> precedes(#[trigger] s[i], #[trigger] s[j])
}

/// The points a shape's key point set is made of: the crossings of its construction segments
/// and its primary points.
pub open spec fn key_point_candidates(shape: MosaicShape, points: Seq<Vector>) -> Seq<Vector> {
    all_crossings(shape_segments(shape, points)) + points
}

/// Whether `keys` is the key point set of `shape` on `points`: strictly sorted, and holding
/// exactly the candidate points.
pub open spec fn is_key_point_set(shape: MosaicShape, points: Seq<Vector>, keys: Seq<Vector>) -> bool {
    &&& strictly_sorted(keys)
    &&& forall|q: Vector| #[trigger]
        keys.contains(q) <==> key_point_candidates(shape, points).contains(q)
}

/// Whether all points lie on one line: every three of them are collinear. This holds of
/// fewer than three points too.
pub open spec fn all_on_one_line(keys: Seq<Vector>) -> bool {
    forall|i: int, j: int, k: int|
        0 <= i < keys.len() && 0 <= j < keys.len() && 0 <= k < keys.len() ==> orientation_spec(
            #[trigger] keys[i],
            #[trigger] keys[j],
            #[trigger] keys[k],
        ) == 0
}

/// Points on the line through two distinct points `a` and `b` are collinear three by three.
pub proof fn lemma_collinear_with_line(a: Vector, b: Vector, p: Vector, q: Vector, r: Vector)
    requires
        a != b,
        orientation_spec(a, b, p) == 0,
        orientation_spec(a, b, q) == 0,
        orientation_spec(a, b, r) == 0,
    ensures
        orientation_spec(p, q, r) == 0,
{
    let (ux, uy) = (b.x - a.x, b.y - a.y);
    let (px, py) = (p.x - a.x, p.y - a.y);
    let (qx, qy) = (q.x - a.x, q.y - a.y);
    let (rx, ry) = (r.x - a.x, r.y - a.y);
    let (vx, vy) = (qx - px, qy - py);
    let (wx, wy) = (rx - px, ry - py);
    assert(ux * vy == uy * vx && ux * wy == uy * wx) by (nonlinear_arith)
        requires
            ux * py - uy * px == 0,
            ux * qy - uy * qx == 0,
            ux * ry - uy * rx == 0,
            vx == qx - px,
            vy == qy - py,
            wx == rx - px,
            wy == ry - py,
    ;
    assert(ux * (vx * wy - vy * wx) == 0) by (nonlinear_arith)
        requires
            ux * vy == uy * vx,
            ux * wy == uy * wx,
    ;
    assert(uy * (vx * wy - vy * wx) == 0) by (nonlinear_arith)
        requires
            ux * vy == uy * vx,
            ux * wy == uy * wx,
    ;
    assert(vx * wy - vy * wx == 0) by (nonlinear_arith)
        requires
            ux != 0 || uy != 0,
            ux * (vx * wy - vy * wx) == 0,
            uy * (vx * wy - vy * wx) == 0,
    ;
    assert(orientation_spec(p, q, r) == vx * wy - vy * wx);
}

/// Three points of which two are the same are collinear.
proof fn lemma_repeated_point_collinear(p: Vector, q: Vector, r: Vector)
    requires
        p == q || q == r || p == r,
    ensures
        orientation_spec(p, q, r) == 0,
{
    let (ux, uy) = (q.x - p.x, q.y - p.y);
    let (vx, vy) = (r.x - p.x, r.y - p.y);
    if q == r {
        assert(ux * vy - uy * vx == 0) by (nonlinear_arith)
            requires
                ux == vx,
                uy == vy,
        ;
    } else if p == q {
        assert(ux * vy - uy * vx == 0) by (nonlinear_arith)
            requires
                ux == 0,
                uy == 0,
        ;
    } else {
        assert(ux * vy - uy * vx == 0) by (nonlinear_arith)
            requires
                vx == 0,
                vy == 0,
        ;
    }
}

/// Inserts `p` into a strictly sorted vector unless it is there already.
pub fn insert_sorted(v: &mut Vec<Vector>, p: Vector)
    requires
        strictly_sorted(old(v)@),
    ensures
        strictly_sorted(final(v)@),
        forall|q: Vector| #[trigger] final(v)@.contains(q) <==> (old(v)@.contains(q) || q == p),
{
    let n = v.len();
    let mut lo: usize = 0;
    let mut hi: usize = n;
    while lo < hi
        invariant
            n == v.len(),
            0 <= lo <= hi <= n,
            strictly_sorted(v@),
            forall|i: int| 0 <= i < lo ==> precedes(#[trigger] v@[i], p),
            forall|i: int| hi <= i < n ==> !precedes(#[trigger] v@[i], p),
        decreases hi - lo,
    {
        let mid = lo + (hi - lo) / 2;
        if v[mid].precedes(&p) {
            assert forall|i: int| 0 <= i < mid + 1 implies precedes(#[trigger] v@[i], p) by {
                if i < mid {
                    assert(precedes(v@[i], v@[mid as int]));
                }
            };
            lo = mid + 1;
        } else {
            assert forall|i: int| mid <= i < n implies !precedes(#[trigger] v@[i], p) by {
                if i > mid {
                    assert(precedes(v@[mid as int], v@[i]));
                }
            };
            hi = mid;
        }
    }
    if lo < n && v[lo] == p {
        assert(v@.contains(p) && v@[lo as int] == p);
        return ;
    }
    let ghost old_v = v@;
    v.insert(lo, p);
    proof {
        assert(v@ =~= old_v.subrange(0, lo as int).push(p) + old_v.subrange(lo as int, n as int));
        assert forall|i: int, j: int| 0 <= i < j < v@.len() implies precedes(
            #[trigger] v@[i],
            #[trigger] v@[j],
        ) by {
            if j < lo {
                assert(precedes(old_v[i], old_v[j]));
            } else if j == lo {
                assert(precedes(old_v[i], p));
            } else if i < lo {
                assert(precedes(old_v[i], p));
                assert(!precedes(old_v[j - 1], p));
            } else if i == lo {
                assert(!precedes(old_v[j - 1], p));
                assert(old_v[j - 1] != p);
            } else {
                assert(precedes(old_v[i - 1], old_v[j - 1]));
            }
        };
        assert forall|q: Vector| #[trigger] v@.contains(q) <==> (old_v.contains(q) || q == p) by {
            if v@.contains(q) {
                let k = choose|k: int| 0 <= k < v@.len() && v@[k] == q;
                if k < lo {
                    assert(old_v[k] == q);
                } else if k > lo {
                    assert(old_v[k - 1] == q);
                }
            }
            if old_v.contains(q) {
                let k = choose|k: int| 0 <= k < old_v.len() && old_v[k] == q;
                if k < lo {
                    assert(v@[k] == q);
                } else {
                    assert(v@[k + 1] == q);
                }
            }
            if q == p {
                assert(v@[lo as int] == q);
            }
        };
    }
}

/// The key point set of `shape` on its primary points `shape_points`: `None` when a point
/// lies beyond the coordinate limit, else the set that `is_key_point_set` describes.
pub fn construct_key_points(shape: &MosaicShape, shape_points: &Vec<Vector>) -> (r: Option<
    Vec<Vector>,
>)
    ensures
        r is None <==> !points_in_range(shape_points@),
        r matches Some(keys) ==> is_key_point_set(*shape, shape_points@, keys@) && points_in_range(
            keys@,
        ),
{
    let mut i: usize = 0;
    while i < shape_points.len()
        invariant
            i <= shape_points.len(),
            forall|k: int| 0 <= k < i ==> (#[trigger] shape_points@[k]).in_range(),
        decreases shape_points.len() - i,
    {
        if !shape_points[i].is_in_range() {
            return None;
        }
        i = i + 1;
    }
    let segments = shape.connect_points(shape_points);
    assert forall|k: int| 0 <= k < segments@.len() implies (#[trigger] segments@[k]).in_range() by {
        lemma_shape_segments_in_range(*shape, shape_points@, k);
    };
    let mut candidates = shape.intersect_segments(&segments);
    let mut extra = shape_points.clone();
    assert(extra@ =~= shape_points@);
    candidates.append(&mut extra);
    let ghost all = candidates@;
    assert(points_in_range(all));
    assert(all =~= key_point_candidates(*shape, shape_points@));
    let mut keys: Vec<Vector> = Vec::new();
    let mut i: usize = 0;
    while i < candidates.len()
        invariant
            candidates@ == all,
            i <= candidates.len(),
            strictly_sorted(keys@),
            forall|q: Vector| #[trigger] keys@.contains(q) <==> all.take(i as int).contains(q),
        decreases candidates.len() - i,
    {
        insert_sorted(&mut keys, candidates[i]);
        proof {
            assert(all.take(i + 1) =~= all.take(i as int).push(all[i as int]));
            assert forall|q: Vector| #[trigger] all.take(i + 1).contains(q) <==> (all.take(
                i as int,
            ).contains(q) || q == all[i as int]) by {
                let t = all.take(i as int);
                let t1 = all.take(i + 1);
                if t1.contains(q) {
                    let k = choose|k: int| 0 <= k < t1.len() && t1[k] == q;
                    if k < i {
                        assert(t[k] == q);
                    }
                }
                if t.contains(q) {
                    let k = choose|k: int| 0 <= k < i && t[k] == q;
                    assert(all.take(i + 1)[k] == q);
                }
                if q == all[i as int] {
                    assert(all.take(i + 1)[i as int] == q);
                }
            };
        }
        i = i + 1;
    }
    assert(all.take(i as int) =~= all);
    assert forall|k: int| 0 <= k < keys@.len() implies (#[trigger] keys@[k]).in_range() by {
        assert(keys@.contains(keys@[k]));
        assert(all.contains(keys@[k]));
        let m = choose|m: int| 0 <= m < all.len() && all[m] == keys@[k];
        assert(all[m].in_range());
    };
    Some(keys)
}

/// Each construction segment of a shape joins two of its primary points.
proof fn lemma_shape_segments_in_range(shape: MosaicShape, points: Seq<Vector>, k: int)
    requires
        points_in_range(points),
        0 <= k < shape_segments(shape, points).len(),
    ensures
        shape_segments(shape, points)[k].in_range(),
{
    let n = points.len() / 2;
    match shape {
        MosaicShape::RegularPolygon(_) => {
            lemma_diagonals_in_range(points, 0, k);
        },
        MosaicShape::PolygonalStar(_) => {
            let rays = star_rays(points, n as int);
            if k < rays.len() {
                assert(0 <= (k + 2) % (n as int) < n) by {
                    vstd::arithmetic::div_mod::lemma_mod_bound(k + 2, n as int);
                };
                assert(points[k].in_range() && points[(k + 2) % (n as int)].in_range());
            } else {
                lemma_star_fans_in_range(points, n as int, 0, k - rays.len());
            }
        },
        MosaicShape::Grid(_) => {
            assert(points[4 + 2 * k].in_range() && points[5 + 2 * k].in_range());
        },
    }
}

proof fn lemma_diagonals_in_range(points: Seq<Vector>, start: int, k: int)
    requires
        points_in_range(points),
        0 <= k < diagonals_from(points, start).len(),
    ensures
        diagonals_from(points, start)[k].in_range(),
    decreases points.len() - start,
{
    let f = fan(points, start);
    if k < f.len() {
        assert(points[start].in_range() && points[start + 1 + k].in_range());
    } else {
        lemma_diagonals_in_range(points, start + 1, k - f.len());
    }
}

proof fn lemma_star_fans_in_range(points: Seq<Vector>, n: int, s: int, k: int)
    requires
        points_in_range(points),
        2 * n <= points.len(),
        0 <= k < star_fans_from(points, n, s).len(),
    ensures
        star_fans_from(points, n, s)[k].in_range(),
    decreases n - s,
{
    let f = star_fan(points, n, s);
    if k < f.len() {
        assert(0 <= (s + 2 + k) % n < n) by {
            vstd::arithmetic::div_mod::lemma_mod_bound(s + 2 + k, n);
        };
        assert(points[s].in_range() && points[n + (s + 2 + k) % n].in_range());
    } else {
        lemma_star_fans_in_range(points, n, s + 1, k - f.len());
    }
}

/// Two strictly sorted sequences that hold the same points are equal.
pub proof fn lemma_strictly_sorted_unique(a: Seq<Vector>, b: Seq<Vector>)
    requires
        strictly_sorted(a),
        strictly_sorted(b),
        forall|q: Vector| a.contains(q) <==> b.contains(q),
    ensures
        a == b,
{
    if a.len() < b.len() {
        let m = a.len() as int;
        lemma_prefix_equal(a, b, m - 1);
        assert(a.contains(b[m]));
        let j = choose|j: int| 0 <= j < a.len() && a[j] == b[m];
        assert(precedes(b[j], b[m]));
    } else if b.len() < a.len() {
        let m = b.len() as int;
        lemma_prefix_equal(a, b, m - 1);
        assert(b.contains(a[m]));
        let j = choose|j: int| 0 <= j < b.len() && b[j] == a[m];
        assert(precedes(a[j], a[m]));
    } else {
        lemma_prefix_equal(a, b, a.len() - 1);
    }
    assert(a =~= b);
}

proof fn lemma_prefix_equal(a: Seq<Vector>, b: Seq<Vector>, i: int)
    requires
        strictly_sorted(a),
        strictly_sorted(b),
        forall|q: Vector| a.contains(q) <==> b.contains(q),
        i < a.len(),
        i < b.len(),
    ensures
        forall|k: int| 0 <= k <= i ==> a[k] == b[k],
    decreases i + 1,
{
    if i >= 0 {
        lemma_prefix_equal(a, b, i - 1);
        assert(b.contains(a[i]));
        assert(a.contains(b[i]));
        let j = choose|j: int| 0 <= j < b.len() && b[j] == a[i];
        let m = choose|m: int| 0 <= m < a.len() && a[m] == b[i];
        if j < i {
            assert(precedes(a[j], a[i]));
        }
        if m < i {
            assert(precedes(b[m], b[i]));
        }
        if j > i && m > i {
            assert(precedes(b[i], b[j]));
            assert(precedes(a[i], a[m]));
        }
    }
}

/// Building the key point set twice from the same shape and primary points gives the same
/// sequence: the set is determined point for point, order included.
pub proof fn lemma_key_point_set_is_unique(
    shape: MosaicShape,
    points: Seq<Vector>,
    first: Seq<Vector>,
    second: Seq<Vector>,
)
    requires
        is_key_point_set(shape, points, first),
        is_key_point_set(shape, points, second),
    ensures
        first == second,
{
    assert forall|q: Vector| first.contains(q) <==> second.contains(q) by {
        assert(first.contains(q) <==> key_point_candidates(shape, points).contains(q));
        assert(second.contains(q) <==> key_point_candidates(shape, points).contains(q));
    };
    lemma_strictly_sorted_unique(first, second);
}

/// Whether the key points leave no room for a subdivision: all of them on one line,
/// fewer than three included.
pub fn is_degenerate(keys: &Vec<Vector>) -> (r: bool)
    requires
        points_in_range(keys@),
        strictly_sorted(keys@),
    ensures
        r == all_on_one_line(keys@),
{
    if keys.len() < 3 {
        proof {
            assert forall|i: int, j: int, k: int|
                0 <= i < keys@.len() && 0 <= j < keys@.len() && 0 <= k < keys@.len()
                implies orientation_spec(
                #[trigger] keys@[i],
                #[trigger] keys@[j],
                #[trigger] keys@[k],
            ) == 0 by {
                lemma_repeated_point_collinear(keys@[i], keys@[j], keys@[k]);
            };
        }
        return true;
    }
    assert(precedes(keys@[0], keys@[1]));
    let mut k: usize = 0;
    while k < keys.len()
        invariant
            3 <= keys.len(),
            k <= keys.len(),
            points_in_range(keys@),
            forall|m: int| 0 <= m < k ==> orientation_spec(keys@[0], keys@[1], #[trigger] keys@[m]) == 0,
        decreases keys.len() - k,
    {
        assert(keys@[0].in_range() && keys@[1].in_range() && keys@[k as int].in_range());
        if orientation(&keys[0], &keys[1], &keys[k]) != 0 {
            return false;
        }
        k = k + 1;
    }
    proof {
        assert forall|i: int, j: int, m: int|
            0 <= i < keys@.len() && 0 <= j < keys@.len() && 0 <= m < keys@.len()
            implies orientation_spec(
            #[trigger] keys@[i],
            #[trigger] keys@[j],
            #[trigger] keys@[m],
        ) == 0 by {
            lemma_collinear_with_line(keys@[0], keys@[1], keys@[i], keys@[j], keys@[m]);
        };
    }
    true
}

/// The sites of the subdivision of `shape` on its primary points: its key point set, or
/// `None` where a point lies beyond the coordinate limit or the key points are degenerate.
pub fn subdivision_sites(shape: &MosaicShape, shape_points: &Vec<Vector>) -> (r: Option<
    Vec<Vector>,
>)
    ensures
        !points_in_range(shape_points@) ==> r is None,
        points_in_range(shape_points@) ==> (r is None <==> forall|keys: Seq<Vector>|
            is_key_point_set(*shape, shape_points@, keys) ==> all_on_one_line(keys)),
        r matches Some(keys) ==> is_key_point_set(*shape, shape_points@, keys@),
{
    match construct_key_points(shape, shape_points) {
        None => None,
        Some(keys) => {
            proof {
                assert forall|other: Seq<Vector>| is_key_point_set(
                    *shape,
                    shape_points@,
                    other,
                ) implies other == keys@ by {
                    lemma_key_point_set_is_unique(*shape, shape_points@, other, keys@);
                };
            }
            if is_degenerate(&keys) {
                None
            } else {
                Some(keys)
            }
        },
    }
}

} // verus!
