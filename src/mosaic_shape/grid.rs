use vstd::prelude::*;

use crate::segment::Segment;
use crate::vector::{Vector, UNITS_PER_PIXEL};

verus! {

/// Mosaic shape based on a grid of rows and columns.
#[derive(Clone, Copy, Debug)]
pub struct Grid {
    rows_count: u32,
    columns_count: u32,
}

/// Half the side of a grid cell, in units: the largest that lets `columns` cells fit the
/// width and `rows` cells fit the height.
pub open spec fn grid_half_step(rows: int, columns: int, width: int, height: int) -> int {
    let horizontal = (width * UNITS_PER_PIXEL) / (2 * columns);
    let vertical = (height * UNITS_PER_PIXEL) / (2 * rows);
    if horizontal <= vertical {
        horizontal
    } else {
        vertical
    }
}

/// The primary points of a grid centred on the origin, cells of side `2 * half_step`:
/// the four corners, then for each inner row line its left and right ends, then for each
/// inner column line its top and bottom ends.
pub open spec fn grid_points_of(rows: int, columns: int, half_step: int) -> Seq<Vector> {
    let hw = half_step * columns;
    let hh = half_step * rows;
    let step = 2 * half_step;
    seq![
        Vector { x: -hw as i64, y: -hh as i64 },
        Vector { x: -hw as i64, y: hh as i64 },
        Vector { x: hw as i64, y: -hh as i64 },
        Vector { x: hw as i64, y: hh as i64 },
    ] + Seq::new(
        (2 * (rows - 1)) as nat,
        |k: int|
            Vector {
                x: (if k % 2 == 0 { -hw } else { hw }) as i64,
                y: (-hh + step * (k / 2 + 1)) as i64,
            },
    ) + Seq::new(
        (2 * (columns - 1)) as nat,
        |k: int|
            Vector {
                x: (-hw + step * (k / 2 + 1)) as i64,
                y: (if k % 2 == 0 { -hh } else { hh }) as i64,
            },
    )
}

/// The dividing lines of a grid: each pair of points from index 4 on, that is the points
/// `4 + 2 * k` and `5 + 2 * k`.
pub open spec fn grid_segments(points: Seq<Vector>) -> Seq<Segment> {
    let count = if points.len() >= 4 {
        (points.len() - 4) / 2
    } else {
        0
    };
    Seq::new(count as nat, |k: int| Segment { start: points[4 + 2 * k], end: points[5 + 2 * k] })
}

impl Grid {
    /// Number of rows.
    pub closed spec fn spec_rows_count(self) -> u32 {
        self.rows_count
    }

    /// Number of columns.
    pub closed spec fn spec_columns_count(self) -> u32 {
        self.columns_count
    }

    #[verifier::type_invariant]
    spec fn inv(self) -> bool {
        self.rows_count >= 1 && self.columns_count >= 1
    }

    /// Creates a grid with the given numbers of rows and columns, each at least 1.
    pub fn new(rows_count: u32, columns_count: u32) -> (r: Grid)
        ensures
            r.spec_rows_count() == if rows_count < 1 { 1 } else { rows_count },
            r.spec_columns_count() == if columns_count < 1 { 1 } else { columns_count },
    {
        Grid {
            rows_count: if rows_count < 1 { 1 } else { rows_count },
            columns_count: if columns_count < 1 { 1 } else { columns_count },
        }
    }

    /// Number of rows of the grid.
    pub fn rows_count(&self) -> (r: u32)
        ensures
            r == self.spec_rows_count(),
            r >= 1,
    {
        proof {
            use_type_invariant(self);
        }
        self.rows_count
    }

    /// Number of columns of the grid.
    pub fn columns_count(&self) -> (r: u32)
        ensures
            r == self.spec_columns_count(),
            r >= 1,
    {
        proof {
            use_type_invariant(self);
        }
        self.columns_count
    }

    /// Sets the number of rows; 0 becomes 1.
    pub fn set_rows_count(&mut self, rows_count: u32)
        ensures
            final(self).spec_rows_count() == if rows_count < 1 { 1 } else { rows_count },
            final(self).spec_columns_count() == old(self).spec_columns_count(),
    {
        proof {
            use_type_invariant(&*self);
        }
        self.rows_count = if rows_count < 1 { 1 } else { rows_count };
    }

    /// Sets the number of columns; 0 becomes 1.
    pub fn set_columns_count(&mut self, columns_count: u32)
        ensures
            final(self).spec_columns_count() == if columns_count < 1 { 1 } else { columns_count },
            final(self).spec_rows_count() == old(self).spec_rows_count(),
    {
        proof {
            use_type_invariant(&*self);
        }
        self.columns_count = if columns_count < 1 { 1 } else { columns_count };
    }

    /// The primary points of the grid for an image of the given size, centred on the origin:
    /// cells are square, as large as fit, and the grid is as in `grid_points_of`.
    pub fn set_up_points(&self, image_width: u32, image_height: u32) -> (r: Vec<Vector>)
        ensures
            r@ == grid_points_of(
                self.spec_rows_count() as int,
                self.spec_columns_count() as int,
                grid_half_step(
                    self.spec_rows_count() as int,
                    self.spec_columns_count() as int,
                    image_width as int,
                    image_height as int,
                ),
            ),
    {
        proof {
            use_type_invariant(self);
        }
        let rows = self.rows_count as i64;
        let columns = self.columns_count as i64;
        assert(0 <= image_width as i64 * UNITS_PER_PIXEL <= 0xffffffff * 8388608) by (nonlinear_arith)
            requires 0 <= image_width <= 0xffffffff;
        assert(0 <= image_height as i64 * UNITS_PER_PIXEL <= 0xffffffff * 8388608) by (nonlinear_arith)
            requires 0 <= image_height <= 0xffffffff;
        let horizontal = (image_width as i64 * UNITS_PER_PIXEL) / (2 * columns);
        let vertical = (image_height as i64 * UNITS_PER_PIXEL) / (2 * rows);
        let half_step = if horizontal <= vertical {
            horizontal
        } else {
            vertical
        };
        assert(0 <= half_step * columns <= image_width as i64 * UNITS_PER_PIXEL) by {
            assert(0 <= horizontal * (2 * columns) <= image_width as i64 * UNITS_PER_PIXEL) by {
                vstd::arithmetic::div_mod::lemma_fundamental_div_mod(
                    image_width as i64 * UNITS_PER_PIXEL as int,
                    2 * columns as int,
                );
                vstd::arithmetic::div_mod::lemma_mod_bound(
                    image_width as i64 * UNITS_PER_PIXEL as int,
                    2 * columns as int,
                );
                vstd::arithmetic::div_mod::lemma_div_pos_is_pos(
                    image_width as i64 * UNITS_PER_PIXEL as int,
                    2 * columns as int,
                );
            };
            assert(0 <= half_step * columns <= horizontal * (2 * columns)) by (nonlinear_arith)
                requires 0 <= half_step <= horizontal, columns >= 1;
        };
        assert(0 <= half_step * rows <= image_height as i64 * UNITS_PER_PIXEL) by {
            assert(0 <= vertical * (2 * rows) <= image_height as i64 * UNITS_PER_PIXEL) by {
                vstd::arithmetic::div_mod::lemma_fundamental_div_mod(
                    image_height as i64 * UNITS_PER_PIXEL as int,
                    2 * rows as int,
                );
                vstd::arithmetic::div_mod::lemma_mod_bound(
                    image_height as i64 * UNITS_PER_PIXEL as int,
                    2 * rows as int,
                );
                vstd::arithmetic::div_mod::lemma_div_pos_is_pos(
                    image_height as i64 * UNITS_PER_PIXEL as int,
                    2 * rows as int,
                );
            };
            assert(0 <= half_step * rows <= vertical * (2 * rows)) by (nonlinear_arith)
                requires 0 <= half_step <= vertical, rows >= 1;
        };
        let hw = half_step * columns;
        let hh = half_step * rows;
        let step = 2 * half_step;
        let ghost spec_points = grid_points_of(rows as int, columns as int, half_step as int);
        let mut points: Vec<Vector> = Vec::new();
        points.push(Vector::new(-hw, -hh));
        points.push(Vector::new(-hw, hh));
        points.push(Vector::new(hw, -hh));
        points.push(Vector::new(hw, hh));
        assert(points@ =~= spec_points.take(4));
        let mut index: i64 = 1;
        while index < rows
            invariant
                1 <= index <= rows,
                rows == self.rows_count,
                columns == self.columns_count,
                rows >= 1,
                columns >= 1,
                hw == half_step * columns,
                hh == half_step * rows,
                step == 2 * half_step,
                half_step >= 0,
                0 <= hh <= 0xffffffff * 8388608,
                0 <= hw <= 0xffffffff * 8388608,
                spec_points == grid_points_of(rows as int, columns as int, half_step as int),
                points@ == spec_points.take(4 + 2 * (index - 1)),
            decreases rows - index,
        {
            assert(0 <= step * index <= 2 * hh) by (nonlinear_arith)
                requires step == 2 * half_step, hh == half_step * rows, 1 <= index < rows,
                    half_step >= 0;
            let y = -hh + step * index;
            points.push(Vector::new(-hw, y));
            points.push(Vector::new(hw, y));
            proof {
                let k = 2 * (index - 1);
                assert(k / 2 + 1 == index);
                assert((k + 1) / 2 + 1 == index);
                assert(points@ =~= spec_points.take(4 + 2 * index));
            }
            index = index + 1;
        }
        let mut index: i64 = 1;
        while index < columns
            invariant
                1 <= index <= columns,
                rows == self.rows_count,
                columns == self.columns_count,
                rows >= 1,
                columns >= 1,
                hw == half_step * columns,
                hh == half_step * rows,
                step == 2 * half_step,
                half_step >= 0,
                0 <= hh <= 0xffffffff * 8388608,
                0 <= hw <= 0xffffffff * 8388608,
                spec_points == grid_points_of(rows as int, columns as int, half_step as int),
                points@ == spec_points.take(4 + 2 * (rows - 1) + 2 * (index - 1)),
            decreases columns - index,
        {
            assert(0 <= step * index <= 2 * hw) by (nonlinear_arith)
                requires step == 2 * half_step, hw == half_step * columns, 1 <= index < columns,
                    half_step >= 0;
            let x = -hw + step * index;
            points.push(Vector::new(x, -hh));
            points.push(Vector::new(x, hh));
            proof {
                let k = 2 * (index - 1);
                assert(k / 2 + 1 == index);
                assert((k + 1) / 2 + 1 == index);
                assert(points@ =~= spec_points.take(4 + 2 * (rows - 1) + 2 * index));
            }
            index = index + 1;
        }
        assert(points@ =~= spec_points);
        points
    }

    /// Connects the ends of each inner row and column line, as `grid_segments` says.
    pub fn connect_points(&self, shape_points: &Vec<Vector>) -> (r: Vec<Segment>)
        ensures
            r@ == grid_segments(shape_points@),
    {
        let n = shape_points.len();
        let count: usize = if n >= 4 {
            (n - 4) / 2
        } else {
            0
        };
        let mut segments: Vec<Segment> = Vec::new();
        let mut k: usize = 0;
        while k < count
            invariant
                n == shape_points.len(),
                count == if n >= 4 { (n - 4) / 2 } else { 0 },
                k <= count,
                segments@ == grid_segments(shape_points@).take(k as int),
            decreases count - k,
        {
            segments.push(Segment::new(shape_points[4 + 2 * k], shape_points[5 + 2 * k]));
            proof {
                let g = grid_segments(shape_points@);
                assert(g.take(k + 1) =~= g.take(k as int).push(g[k as int]));
            }
            k = k + 1;
        }
        assert(segments@ =~= grid_segments(shape_points@));
        segments
    }
}

impl Default for Grid {
    fn default() -> (r: Grid)
        ensures
            r.spec_rows_count() == 4,
            r.spec_columns_count() == 4,
    {
        Grid { rows_count: 4, columns_count: 4 }
    }
}

} // verus!
