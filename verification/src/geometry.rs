//! The padded grid geometry: mapping physical coordinates to grid cells.
//!
//! The physical region runs from 0 to `x_max` (respectively `y_max`) in
//! fixed-point coordinates; `nboundary` padding cells extend beyond it on each
//! side, so the full grid has `nx` by `ny` cells, cell (nboundary, nboundary)
//! touching the physical origin.

use vstd::prelude::*;
use crate::fx::{abs_i, div_trunc, sat64};
use crate::fx::{div_trunc_i128, mul_small_i128, sat_narrow};
use crate::grid::GRID_CELL_CAP;

verus! {

/// Unclamped cell indices are cut off at this magnitude; it lies far beyond
/// any admissible grid extent, so in-grid indices are never affected.
pub const CELL_INDEX_CAP: i64 = 4294967296;

/// The grid geometry. Immutable after construction.
pub struct Geometry {
    /// Maximum x extent of the physical region, fixed-point.
    pub x_max: i64,
    /// Maximum y extent of the physical region, fixed-point.
    pub y_max: i64,
    /// Grid cells in the x direction, including 2 * nboundary padding cells.
    pub nx: usize,
    /// Grid cells in the y direction, including 2 * nboundary padding cells.
    pub ny: usize,
    /// Padding cells on each side.
    pub nboundary: usize,
}

impl Geometry {
    /// The structural invariant: positive extents, more cells than padding,
    /// and an extent large enough that a cell has a nonzero size and that
    /// the truncation error of the cell size stays below half a cell, so the
    /// affine coordinate-to-cell map stays faithful (see
    /// [`lemma_centroid_round_trips`]).
    pub open spec fn wf(self) -> bool {
        &&& self.nx > 2 * self.nboundary
        &&& self.ny > 2 * self.nboundary
        &&& self.nx <= GRID_CELL_CAP
        &&& self.ny <= GRID_CELL_CAP
        &&& self.nx * self.ny <= GRID_CELL_CAP
        &&& self.x_max >= 2 * self.nx * self.nx
        &&& self.y_max >= 2 * self.ny * self.ny
    }

    /// Interior (non-padding) cells in the x direction.
    pub open spec fn spec_interior_nx(self) -> int {
        self.nx - 2 * self.nboundary
    }

    /// Interior (non-padding) cells in the y direction.
    pub open spec fn spec_interior_ny(self) -> int {
        self.ny - 2 * self.nboundary
    }

    /// The cell size in x: `x_max` split over the interior cells.
    pub open spec fn spec_delta_x(self) -> int {
        self.x_max as int / self.spec_interior_nx()
    }

    /// The cell size in y.
    pub open spec fn spec_delta_y(self) -> int {
        self.y_max as int / self.spec_interior_ny()
    }

    /// The cell size in x, fixed-point.
    pub fn delta_x(&self) -> (d: i64)
        requires
            self.wf(),
        ensures
            d == self.spec_delta_x(),
            1 <= d <= self.x_max,
    {
        let k: i64 = (self.nx - 2 * self.nboundary) as i64;
        proof {
            assert(self.x_max >= k) by (nonlinear_arith)
                requires
                    self.x_max >= 2 * self.nx * self.nx,
                    0 < k <= self.nx,
            ;
        }
        let d = self.x_max / k;
        proof {
            vstd::arithmetic::div_mod::lemma_div_is_ordered_by_denominator(self.x_max as int, 1, k as int);
            vstd::arithmetic::div_mod::lemma_div_by_multiple(self.x_max as int, 1);
            vstd::arithmetic::div_mod::lemma_div_non_zero(self.x_max as int, k as int);
        }
        d
    }

    /// The cell size in y, fixed-point.
    pub fn delta_y(&self) -> (d: i64)
        requires
            self.wf(),
        ensures
            d == self.spec_delta_y(),
            1 <= d <= self.y_max,
    {
        let k: i64 = (self.ny - 2 * self.nboundary) as i64;
        proof {
            assert(self.y_max >= k) by (nonlinear_arith)
                requires
                    self.y_max >= 2 * self.ny * self.ny,
                    0 < k <= self.ny,
            ;
        }
        let d = self.y_max / k;
        proof {
            vstd::arithmetic::div_mod::lemma_div_is_ordered_by_denominator(self.y_max as int, 1, k as int);
            vstd::arithmetic::div_mod::lemma_div_by_multiple(self.y_max as int, 1);
            vstd::arithmetic::div_mod::lemma_div_non_zero(self.y_max as int, k as int);
        }
        d
    }

    /// Cut an unclamped cell index off at `CELL_INDEX_CAP`.
    pub open spec fn clamp_index(t: int) -> int {
        if t > CELL_INDEX_CAP {
            CELL_INDEX_CAP as int
        } else if t < -CELL_INDEX_CAP {
            -CELL_INDEX_CAP as int
        } else {
            t
        }
    }

    /// The signed x cell index of a physical position: an affine map with an
    /// offset of `nboundary` cells, truncated toward zero.
    pub open spec fn spec_cell_x(self, x: int) -> int {
        Self::clamp_index(div_trunc(self.spec_interior_nx() * x, self.x_max as int) + self.nboundary)
    }

    /// The signed y cell index of a physical position.
    pub open spec fn spec_cell_y(self, y: int) -> int {
        Self::clamp_index(div_trunc(self.spec_interior_ny() * y, self.y_max as int) + self.nboundary)
    }

    /// The signed grid cell containing a position; may lie outside the grid.
    pub fn position_to_cell_unclamped(&self, x: i64, y: i64) -> (c: (i64, i64))
        requires
            self.wf(),
        ensures
            c.0 == self.spec_cell_x(x as int),
            c.1 == self.spec_cell_y(y as int),
    {
        proof {
            assert(self.x_max >= 1 && self.y_max >= 1) by (nonlinear_arith)
                requires
                    self.x_max >= 2 * self.nx * self.nx,
                    self.y_max >= 2 * self.ny * self.ny,
                    self.nx >= 1,
                    self.ny >= 1,
            ;
        }
        let ci = clamp_index_exec(
            div_trunc_i128(
                mul_small_i128((self.nx - 2 * self.nboundary) as i128, x as i128),
                self.x_max as i128,
            ) + self.nboundary as i128,
        );
        let cj = clamp_index_exec(
            div_trunc_i128(
                mul_small_i128((self.ny - 2 * self.nboundary) as i128, y as i128),
                self.y_max as i128,
            ) + self.nboundary as i128,
        );
        (ci, cj)
    }

    /// The grid cell containing a position, or None if the position lies
    /// outside the full (padded) grid.
    pub fn position_to_cell(&self, x: i64, y: i64) -> (c: Option<(usize, usize)>)
        requires
            self.wf(),
        ensures
            match c {
                Some((i, j)) => {
                    &&& i == self.spec_cell_x(x as int)
                    &&& j == self.spec_cell_y(y as int)
                    &&& i < self.nx
                    &&& j < self.ny
                },
                None => !(0 <= self.spec_cell_x(x as int) < self.nx
                    && 0 <= self.spec_cell_y(y as int) < self.ny),
            },
    {
        let (i, j) = self.position_to_cell_unclamped(x, y);
        if i < 0 || i >= self.nx as i64 || j < 0 || j >= self.ny as i64 {
            None
        } else {
            Some((i as usize, j as usize))
        }
    }

    /// The in-grid cells of the 3-by-3 neighborhood around the cell
    /// containing a position, enumerated row by row.
    pub open spec fn spec_surrounding(self, ci: int, cj: int, t: nat) -> Seq<(usize, usize)>
        decreases t,
    {
        if t == 0 {
            Seq::empty()
        } else {
            let prev = self.spec_surrounding(ci, cj, (t - 1) as nat);
            let di = (t - 1) as int / 3 - 1;
            let dj = (t - 1) as int % 3 - 1;
            if 0 <= ci + di < self.nx && 0 <= cj + dj < self.ny {
                prev.push((((ci + di) as usize), ((cj + dj) as usize)))
            } else {
                prev
            }
        }
    }

    /// The in-grid cells of the 3-by-3 neighborhood of a position's cell.
    pub fn position_to_surrounding_cells(&self, x: i64, y: i64) -> (v: Vec<(usize, usize)>)
        requires
            self.wf(),
        ensures
            v@ == self.spec_surrounding(self.spec_cell_x(x as int), self.spec_cell_y(y as int), 9),
            forall|k: int| 0 <= k < v@.len() ==> #[trigger] v@[k].0 < self.nx && v@[k].1 < self.ny,
    {
        let (ci, cj) = self.position_to_cell_unclamped(x, y);
        let mut v: Vec<(usize, usize)> = Vec::new();
        let mut t: usize = 0;
        while t < 9
            invariant
                self.wf(),
                t <= 9,
                ci == self.spec_cell_x(x as int),
                cj == self.spec_cell_y(y as int),
                abs_i(ci as int) <= CELL_INDEX_CAP,
                abs_i(cj as int) <= CELL_INDEX_CAP,
                v@ == self.spec_surrounding(ci as int, cj as int, t as nat),
                forall|k: int| 0 <= k < v@.len() ==> #[trigger] v@[k].0 < self.nx && v@[k].1
                    < self.ny,
            decreases 9 - t,
        {
            let di: i64 = (t as i64) / 3 - 1;
            let dj: i64 = (t as i64) % 3 - 1;
            let i = ci + di;
            let j = cj + dj;
            if 0 <= i && i < self.nx as i64 && 0 <= j && j < self.ny as i64 {
                let ghost prev = v@;
                v.push((i as usize, j as usize));
                proof {
                    assert forall|k: int| 0 <= k < v@.len() implies #[trigger] v@[k].0 < self.nx
                        && v@[k].1 < self.ny by {
                        if k < prev.len() {
                            assert(v@[k] == prev[k]);
                        } else {
                            assert(v@[k] == (i as usize, j as usize));
                        }
                    }
                }
            }
            t += 1;
        }
        v
    }

    /// The physical x coordinate of the center of cell column i.
    pub open spec fn spec_centroid_x(self, i: int) -> int {
        sat64(div_trunc((2 * (i - self.nboundary) + 1) * self.spec_delta_x(), 2))
    }

    /// The physical y coordinate of the center of cell row j.
    pub open spec fn spec_centroid_y(self, j: int) -> int {
        sat64(div_trunc((2 * (j - self.nboundary) + 1) * self.spec_delta_y(), 2))
    }

    /// The physical coordinates of the center of a cell.
    pub fn cell_to_centroid(&self, i: usize, j: usize) -> (c: (i64, i64))
        requires
            self.wf(),
            i < self.nx,
            j < self.ny,
        ensures
            c.0 == self.spec_centroid_x(i as int),
            c.1 == self.spec_centroid_y(j as int),
    {
        let dx = self.delta_x();
        let dy = self.delta_y();
        let x = sat_narrow(
            div_trunc_i128(
                mul_small_i128(2 * (i as i128 - self.nboundary as i128) + 1, dx as i128),
                2,
            ),
        );
        let y = sat_narrow(
            div_trunc_i128(
                mul_small_i128(2 * (j as i128 - self.nboundary as i128) + 1, dy as i128),
                2,
            ),
        );
        (x, y)
    }

    /// The physical x coordinate of the left edge of cell column i (an edge
    /// index may run one past the last cell).
    pub open spec fn spec_corner_x(self, i: int) -> int {
        sat64((i - self.nboundary) * self.spec_delta_x())
    }

    /// The physical y coordinate of the bottom edge of cell row j.
    pub open spec fn spec_corner_y(self, j: int) -> int {
        sat64((j - self.nboundary) * self.spec_delta_y())
    }

    /// The four physical corners of a cell, in the order (x0, y0), (x1, y0),
    /// (x0, y1), (x1, y1).
    pub fn cell_to_corners(&self, i: usize, j: usize) -> (c: Vec<(i64, i64)>)
        requires
            self.wf(),
            i < self.nx,
            j < self.ny,
        ensures
            c@.len() == 4,
            c@[0].0 == self.spec_corner_x(i as int) && c@[0].1 == self.spec_corner_y(j as int),
            c@[1].0 == self.spec_corner_x(i as int + 1) && c@[1].1 == self.spec_corner_y(j as int),
            c@[2].0 == self.spec_corner_x(i as int) && c@[2].1 == self.spec_corner_y(j as int + 1),
            c@[3].0 == self.spec_corner_x(i as int + 1) && c@[3].1 == self.spec_corner_y(
                j as int + 1,
            ),
    {
        let dx = self.delta_x();
        let dy = self.delta_y();
        let x0 = sat_narrow(mul_small_i128(i as i128 - self.nboundary as i128, dx as i128));
        let x1 = sat_narrow(mul_small_i128(i as i128 - self.nboundary as i128 + 1, dx as i128));
        let y0 = sat_narrow(mul_small_i128(j as i128 - self.nboundary as i128, dy as i128));
        let y1 = sat_narrow(mul_small_i128(j as i128 - self.nboundary as i128 + 1, dy as i128));
        let mut c: Vec<(i64, i64)> = Vec::new();
        c.push((x0, y0));
        c.push((x1, y0));
        c.push((x0, y1));
        c.push((x1, y1));
        c
    }

    /// The x extent of the full grid including the padding cells.
    pub open spec fn spec_x_extent(self) -> int {
        sat64(self.nx * self.spec_delta_x())
    }

    /// The y extent of the full grid including the padding cells.
    pub open spec fn spec_y_extent(self) -> int {
        sat64(self.ny * self.spec_delta_y())
    }

    /// The x extent of the full grid including the padding cells.
    pub fn x_extent_including_boundary(&self) -> (e: i64)
        requires
            self.wf(),
        ensures
            e == self.spec_x_extent(),
    {
        let dx = self.delta_x();
        sat_narrow(mul_small_i128(self.nx as i128, dx as i128))
    }

    /// The y extent of the full grid including the padding cells.
    pub fn y_extent_including_boundary(&self) -> (e: i64)
        requires
            self.wf(),
        ensures
            e == self.spec_y_extent(),
    {
        let dy = self.delta_y();
        sat_narrow(mul_small_i128(self.ny as i128, dy as i128))
    }

    /// True when a position lies within the full grid extent including the
    /// padding; false once it has left the outer boundary.
    pub open spec fn spec_in_padding_region(self, x: int, y: int) -> bool {
        &&& sat64(-self.nboundary * self.spec_delta_x()) <= x
        &&& x <= sat64((self.nx - self.nboundary) * self.spec_delta_x())
        &&& sat64(-self.nboundary * self.spec_delta_y()) <= y
        &&& y <= sat64((self.ny - self.nboundary) * self.spec_delta_y())
    }

    /// True when a position lies within the full grid extent including the
    /// padding.
    pub fn in_padding_region(&self, x: i64, y: i64) -> (r: bool)
        requires
            self.wf(),
        ensures
            r == self.spec_in_padding_region(x as int, y as int),
    {
        let dx = self.delta_x();
        let dy = self.delta_y();
        let min_x = sat_narrow(mul_small_i128(-(self.nboundary as i128), dx as i128));
        let max_x = sat_narrow(mul_small_i128(self.nx as i128 - self.nboundary as i128, dx as i128));
        let min_y = sat_narrow(mul_small_i128(-(self.nboundary as i128), dy as i128));
        let max_y = sat_narrow(mul_small_i128(self.ny as i128 - self.nboundary as i128, dy as i128));
        min_x <= x && x <= max_x && min_y <= y && y <= max_y
    }
}

/// One axis of the centroid-to-cell round trip: with the extent at least
/// `2 * n * n` (so the truncated cell size errs by less than half a cell) and
/// the padded extent representable, the centroid of a cell with nonnegative
/// coordinate maps back to that cell.
proof fn lemma_axis_round_trip(extent: int, n: int, nb: int, idx: int)
    requires
        0 <= nb,
        n > 2 * nb,
        n <= GRID_CELL_CAP,
        extent >= 2 * n * n,
        nb <= idx < n,
        n * (extent / (n - 2 * nb)) <= i64::MAX,
    ensures
        Geometry::clamp_index(
            div_trunc(
                (n - 2 * nb) * sat64(
                    div_trunc((2 * (idx - nb) + 1) * (extent / (n - 2 * nb)), 2),
                ),
                extent,
            ) + nb,
        ) == idx,
{
    let k = n - 2 * nb;
    let dx = extent / k;
    let m = idx - nb;
    assert(extent >= 1) by (nonlinear_arith)
        requires
            extent >= 2 * n * n,
            n >= 1,
    ;
    vstd::arithmetic::div_mod::lemma_fundamental_div_mod(extent, k);
    vstd::arithmetic::div_mod::lemma_mod_division_less_than_divisor(extent, k);
    let r = extent % k;
    assert(extent == k * dx + r);

    // the cell size is at least 2 * n
    assert(2 * n * n == n * (2 * n)) by (nonlinear_arith);
    vstd::arithmetic::div_mod::lemma_div_multiples_vanish(2 * n, n);
    vstd::arithmetic::div_mod::lemma_div_is_ordered(n * (2 * n), extent, n);
    vstd::arithmetic::div_mod::lemma_div_is_ordered_by_denominator(extent, k, n);
    assert(dx >= 2 * n);

    // the centroid coordinate is m * dx + dx / 2, unsaturated
    let cnum = (2 * m + 1) * dx;
    assert((2 * m + 1) * dx == (m * dx) * 2 + dx) by (nonlinear_arith);
    assert(m * dx >= 0) by (nonlinear_arith)
        requires
            m >= 0,
            dx >= 0,
    ;
    let h = dx / 2;
    vstd::arithmetic::div_mod::lemma_hoist_over_denominator(dx, m * dx, 2nat);
    let c = cnum / 2;
    assert(c == m * dx + h);
    assert(div_trunc(cnum, 2) == c);
    vstd::arithmetic::div_mod::lemma_div_pos_is_pos(dx, 2);
    vstd::arithmetic::div_mod::lemma_div_nonincreasing(dx, 2);
    assert(c <= n * dx) by (nonlinear_arith)
        requires
            c == m * dx + h,
            0 <= h <= dx,
            0 <= m <= n - 1,
            dx >= 0,
    ;
    assert(sat64(c) == c);

    // half a cell in truncation error never crosses a cell edge
    vstd::arithmetic::div_mod::lemma_div_multiples_vanish(n, 2);
    vstd::arithmetic::div_mod::lemma_div_is_ordered(2 * n, dx, 2);
    assert(h >= n);
    vstd::arithmetic::div_mod::lemma_fundamental_div_mod(dx, 2);
    assert(2 * h <= dx);
    let rem = k * h - m * r;
    assert(k * c == m * extent + rem) by (nonlinear_arith)
        requires
            c == m * dx + h,
            extent == k * dx + r,
            rem == k * h - m * r,
    ;
    assert(rem >= 0) by (nonlinear_arith)
        requires
            rem == k * h - m * r,
            0 <= m <= n - 1,
            0 <= r <= k - 1,
            h >= n,
            k >= 1,
    ;
    assert(m * r >= 0) by (nonlinear_arith)
        requires
            m >= 0,
            r >= 0,
    ;
    assert(rem < extent) by (nonlinear_arith)
        requires
            rem == k * h - m * r,
            2 * h <= dx,
            extent == k * dx + r,
            0 <= r,
            k >= 1,
            h >= 1,
            m * r >= 0,
    ;
    vstd::arithmetic::div_mod::lemma_fundamental_div_mod_converse(k * c, extent, m, rem);
    assert(k * c >= 0) by (nonlinear_arith)
        requires
            k >= 1,
            c >= 0,
    ;
    assert(div_trunc(k * c, extent) == m);
}

/// The centroid of any cell with nonnegative coordinates maps back to the
/// cell it came from: the affine coordinate-to-cell map inverts the
/// cell-to-centroid map wherever the padded extent is representable.
pub proof fn lemma_centroid_round_trips(g: Geometry, i: int, j: int)
    requires
        g.wf(),
        g.nboundary <= i < g.nx,
        g.nboundary <= j < g.ny,
        g.nx * g.spec_delta_x() <= i64::MAX,
        g.ny * g.spec_delta_y() <= i64::MAX,
    ensures
        g.spec_cell_x(g.spec_centroid_x(i)) == i,
        g.spec_cell_y(g.spec_centroid_y(j)) == j,
{
    lemma_axis_round_trip(g.x_max as int, g.nx as int, g.nboundary as int, i);
    lemma_axis_round_trip(g.y_max as int, g.ny as int, g.nboundary as int, j);
}

/// Cut an unclamped cell index off at `CELL_INDEX_CAP`.
fn clamp_index_exec(t: i128) -> (r: i64)
    ensures
        r == Geometry::clamp_index(t as int),
        abs_i(r as int) <= CELL_INDEX_CAP,
{
    if t > CELL_INDEX_CAP as i128 {
        CELL_INDEX_CAP
    } else if t < -(CELL_INDEX_CAP as i128) {
        -CELL_INDEX_CAP
    } else {
        t as i64
    }
}

} // verus!
