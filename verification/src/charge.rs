//! Point charges in physical coordinates.

use vstd::prelude::*;
use crate::geometry::Geometry;

verus! {

/// A point charge: a position and a strength, fixed-point.
#[derive(Clone, Copy, PartialEq, Eq, Structural, Debug)]
pub struct Charge {
    /// The x coordinate, fixed-point.
    pub x: i64,
    /// The y coordinate, fixed-point.
    pub y: i64,
    /// The strength, fixed-point.
    pub charge: i64,
}

impl Charge {
    /// A charge at (x, y) of the given strength.
    pub fn new(x: i64, y: i64, charge: i64) -> (c: Charge)
        ensures
            c == (Charge { x, y, charge }),
    {
        Charge { x, y, charge }
    }

    /// True when the charge lies inside the physical (non-padded) domain.
    pub open spec fn spec_in_domain(self, g: Geometry) -> bool {
        0 <= self.x <= g.x_max && 0 <= self.y <= g.y_max
    }

    /// The grid cell holding this charge. The charge must lie on the grid
    /// (anywhere within the padded extent).
    pub fn get_location_on_grid(&self, geometry: &Geometry) -> (c: (usize, usize))
        requires
            geometry.wf(),
            0 <= geometry.spec_cell_x(self.x as int) < geometry.nx,
            0 <= geometry.spec_cell_y(self.y as int) < geometry.ny,
        ensures
            c.0 == geometry.spec_cell_x(self.x as int),
            c.1 == geometry.spec_cell_y(self.y as int),
            c.0 < geometry.nx,
            c.1 < geometry.ny,
    {
        let r = geometry.position_to_cell(self.x, self.y);
        r.unwrap()
    }
}

/// A position inside the physical domain maps to a cell inside the grid,
/// at least `nboundary` cells away from the x edges.
pub proof fn lemma_cell_in_grid_when_in_domain_x(g: Geometry, x: int)
    requires
        g.wf(),
        g.nboundary >= 1,
        0 <= x <= g.x_max,
    ensures
        g.nboundary <= g.spec_cell_x(x) <= g.nx - g.nboundary,
{
    let k = g.spec_interior_nx();
    let m = g.x_max as int;
    assert(m >= k && m >= 1) by (nonlinear_arith)
        requires
            m >= 2 * g.nx * g.nx,
            1 <= k <= g.nx,
    ;
    assert(0 <= k * x <= k * m) by (nonlinear_arith)
        requires
            0 <= x <= m,
            k >= 1,
    ;
    vstd::arithmetic::div_mod::lemma_div_pos_is_pos(k * x, m);
    vstd::arithmetic::div_mod::lemma_multiply_divide_le(k * x, m, k);
    assert(k * x <= m * k) by (nonlinear_arith)
        requires
            0 <= x <= m,
            k >= 1,
    ;
    assert(crate::fx::div_trunc(k * x, m) == k * x / m);
}

/// A position inside the physical domain maps to a cell inside the grid,
/// at least `nboundary` cells away from the y edges.
pub proof fn lemma_cell_in_grid_when_in_domain_y(g: Geometry, y: int)
    requires
        g.wf(),
        g.nboundary >= 1,
        0 <= y <= g.y_max,
    ensures
        g.nboundary <= g.spec_cell_y(y) <= g.ny - g.nboundary,
{
    let k = g.spec_interior_ny();
    let m = g.y_max as int;
    assert(m >= k && m >= 1) by (nonlinear_arith)
        requires
            m >= 2 * g.ny * g.ny,
            1 <= k <= g.ny,
    ;
    assert(0 <= k * y <= k * m) by (nonlinear_arith)
        requires
            0 <= y <= m,
            k >= 1,
    ;
    vstd::arithmetic::div_mod::lemma_div_pos_is_pos(k * y, m);
    vstd::arithmetic::div_mod::lemma_multiply_divide_le(k * y, m, k);
    assert(k * y <= m * k) by (nonlinear_arith)
        requires
            0 <= y <= m,
            k >= 1,
    ;
    assert(crate::fx::div_trunc(k * y, m) == k * y / m);
}

} // verus!
