//! Point location for the Voronoi-based renderer: which site's cell each pixel lies in,
//! found by walking from cell to neighbouring cell in raster order, and the extent of
//! each cell that the lighten falloff is measured against.
use vstd::prelude::*;

use crate::vector::{pixel_position, squared_distance_spec, Vector};

verus! {

/// Whether `neighbors` gives, for each of the sites, a list of indices of sites.
pub open spec fn is_adjacency(sites: Seq<Vector>, neighbors: Seq<Vec<usize>>) -> bool {
    &&& neighbors.len() == sites.len()
    &&& forall|s: int, k: int|
        0 <= s < neighbors.len() && 0 <= k < neighbors[s]@.len() ==> #[trigger] neighbors[s]@[k]
            < sites.len()
}

/// Whether every site lies within the pixel limit.
pub open spec fn sites_in_pixel_range(sites: Seq<Vector>) -> bool {
    forall|i: int| 0 <= i < sites.len() ==> (#[trigger] sites[i]).in_pixel_range()
}

/// Whether no neighbour of site `s` is strictly closer to `point` than `s` is. Where the
/// neighbours are those of the Voronoi diagram of the sites, this means that `point` lies
/// in the cell of `s`.
pub open spec fn is_locally_nearest(
    sites: Seq<Vector>,
    neighbors: Seq<Vec<usize>>,
    s: int,
    point: Vector,
) -> bool {
    &&& 0 <= s < sites.len()
    &&& forall|k: int|
        0 <= k < neighbors[s]@.len() ==> squared_distance_spec(sites[s], point)
            <= squared_distance_spec(sites[#[trigger] neighbors[s]@[k] as int], point)
}

/// The position of the pixel with raster index `i` in an image `width` pixels wide.
pub open spec fn raster_position(i: int, width: int) -> Vector {
    pixel_position(i % width, i / width)
}

/// Walks from the cell of `site` towards `point`: at each step it moves to the neighbour
/// nearest to `point` among those strictly nearer than the current site (the first such
/// in the list), and stops where there is none.
pub fn find_closest_site(
    sites: &Vec<Vector>,
    neighbors: &Vec<Vec<usize>>,
    site: usize,
    point: &Vector,
) -> (r: usize)
    requires
        site < sites.len(),
        is_adjacency(sites@, neighbors@),
        sites_in_pixel_range(sites@),
        point.in_pixel_range(),
    ensures
        is_locally_nearest(sites@, neighbors@, r as int, *point),
        squared_distance_spec(sites@[r as int], *point) <= squared_distance_spec(
            sites@[site as int],
            *point,
        ),
{
    let mut current = site;
    let mut current_distance = sites[current].squared_distance_to_pixel(point);
    loop
        invariant
            current < sites.len(),
            is_adjacency(sites@, neighbors@),
            sites_in_pixel_range(sites@),
            point.in_pixel_range(),
            current_distance == squared_distance_spec(sites@[current as int], *point),
            current_distance >= 0,
            current_distance <= squared_distance_spec(sites@[site as int], *point),
        decreases current_distance,
    {
        let cell_neighbors = &neighbors[current];
        let mut best = current;
        let mut best_distance = current_distance;
        let mut k: usize = 0;
        while k < cell_neighbors.len()
            invariant
                current < sites.len(),
                cell_neighbors@ == neighbors@[current as int]@,
                is_adjacency(sites@, neighbors@),
                sites_in_pixel_range(sites@),
                point.in_pixel_range(),
                k <= cell_neighbors.len(),
                best < sites.len(),
                best_distance == squared_distance_spec(sites@[best as int], *point),
                best_distance <= current_distance,
                best_distance >= 0,
                best == current || best_distance < current_distance,
                forall|m: int|
                    0 <= m < k ==> best_distance <= squared_distance_spec(
                        sites@[#[trigger] cell_neighbors@[m] as int],
                        *point,
                    ),
            decreases cell_neighbors.len() - k,
        {
            let neighbor = cell_neighbors[k];
            assert(neighbors@[current as int]@[k as int] < sites.len());
            let distance = sites[neighbor].squared_distance_to_pixel(point);
            if distance < best_distance {
                best = neighbor;
                best_distance = distance;
            }
            k = k + 1;
        }
        if best == current {
            return current;
        }
        current = best;
        current_distance = best_distance;
    }
}

/// The site whose cell holds each pixel of a `width` by `height` image, in raster order
/// (row by row). The walk for each pixel starts from the site found for the pixel before
/// it, and from site 0 for the first.
pub fn locate_sites(
    sites: &Vec<Vector>,
    neighbors: &Vec<Vec<usize>>,
    width: u32,
    height: u32,
) -> (r: Vec<usize>)
    requires
        sites.len() > 0,
        is_adjacency(sites@, neighbors@),
        sites_in_pixel_range(sites@),
        width as int * height as int <= usize::MAX,
    ensures
        r.len() == width as int * height as int,
        forall|i: int|
            0 <= i < r.len() ==> is_locally_nearest(
                sites@,
                neighbors@,
                #[trigger] r@[i] as int,
                raster_position(i, width as int),
            ),
{
    let count = width as usize * height as usize;
    let mut located: Vec<usize> = Vec::with_capacity(count);
    let mut current: usize = 0;
    let mut i: usize = 0;
    while i < count
        invariant
            count == width as int * height as int,
            i <= count,
            located.len() == i,
            current < sites.len(),
            is_adjacency(sites@, neighbors@),
            sites_in_pixel_range(sites@),
            forall|j: int|
                0 <= j < i ==> is_locally_nearest(
                    sites@,
                    neighbors@,
                    #[trigger] located@[j] as int,
                    raster_position(j, width as int),
                ),
        decreases count - i,
    {
        proof {
            assert(width > 0) by (nonlinear_arith)
                requires
                    i < width as int * height as int,
                    width >= 0,
                    height >= 0,
            ;
            let q = i as int / width as int;
            let m = i as int % width as int;
            vstd::arithmetic::div_mod::lemma_fundamental_div_mod(i as int, width as int);
            vstd::arithmetic::div_mod::lemma_mod_bound(i as int, width as int);
            assert(0 <= q < height) by (nonlinear_arith)
                requires
                    i == width * q + m,
                    0 <= m < width,
                    0 <= i < width * height,
                    width > 0,
            ;
        }
        let x = (i % width as usize) as u32;
        let y = (i / width as usize) as u32;
        let position = Vector::from_pixel(x, y);
        let site = find_closest_site(sites, neighbors, current, &position);
        located.push(site);
        current = site;
        i = i + 1;
    }
    located
}

/// The largest squared distance from `site` to any of the vertices, or 0 where there are none.
pub open spec fn max_squared_distance(site: Vector, vertices: Seq<Vector>) -> int
    decreases vertices.len(),
{
    if vertices.len() == 0 {
        0
    } else {
        let rest = max_squared_distance(site, vertices.drop_last());
        let last = squared_distance_spec(site, vertices.last());
        if last > rest {
            last
        } else {
            rest
        }
    }
}

/// For each site, the largest squared distance from it to a vertex of its own cell.
pub fn maximum_cell_distances(sites: &Vec<Vector>, cell_vertices: &Vec<Vec<Vector>>) -> (r: Vec<
    i128,
>)
    requires
        cell_vertices.len() == sites.len(),
        sites_in_pixel_range(sites@),
        forall|s: int, k: int|
            0 <= s < cell_vertices.len() && 0 <= k < cell_vertices@[s]@.len() ==> (
            #[trigger] cell_vertices@[s]@[k]).in_pixel_range(),
    ensures
        r.len() == sites.len(),
        forall|s: int|
            0 <= s < r.len() ==> #[trigger] r@[s] == max_squared_distance(
                sites@[s],
                cell_vertices@[s]@,
            ),
{
    let mut distances: Vec<i128> = Vec::with_capacity(sites.len());
    let mut s: usize = 0;
    while s < sites.len()
        invariant
            cell_vertices.len() == sites.len(),
            s <= sites.len(),
            distances.len() == s,
            sites_in_pixel_range(sites@),
            forall|t: int, k: int|
                0 <= t < cell_vertices.len() && 0 <= k < cell_vertices@[t]@.len() ==> (
                #[trigger] cell_vertices@[t]@[k]).in_pixel_range(),
            forall|t: int|
                0 <= t < s ==> #[trigger] distances@[t] == max_squared_distance(
                    sites@[t],
                    cell_vertices@[t]@,
                ),
        decreases sites.len() - s,
    {
        let vertices = &cell_vertices[s];
        let mut maximum: i128 = 0;
        let mut k: usize = 0;
        while k < vertices.len()
            invariant
                s < sites.len(),
                cell_vertices.len() == sites.len(),
                vertices@ == cell_vertices@[s as int]@,
                sites_in_pixel_range(sites@),
                forall|t: int, m: int|
                    0 <= t < cell_vertices.len() && 0 <= m < cell_vertices@[t]@.len() ==> (
                    #[trigger] cell_vertices@[t]@[m]).in_pixel_range(),
                k <= vertices.len(),
                maximum == max_squared_distance(sites@[s as int], vertices@.take(k as int)),
            decreases vertices.len() - k,
        {
            assert(cell_vertices@[s as int]@[k as int].in_pixel_range());
            let distance = sites[s].squared_distance_to_pixel(&vertices[k]);
            proof {
                let t = vertices@.take(k + 1);
                assert(t.drop_last() =~= vertices@.take(k as int));
                assert(t.last() == vertices@[k as int]);
            }
            if distance > maximum {
                maximum = distance;
            }
            k = k + 1;
        }
        assert(vertices@.take(k as int) =~= vertices@);
        distances.push(maximum);
        s = s + 1;
    }
    distances
}

} // verus!
