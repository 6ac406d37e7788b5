//! The absorbing boundary layer (PML): per-cell damping coefficients.
//!
//! Within a layer of `layer_width` cells at each edge of an axis, the damping
//! coefficient ramps linearly from 0 at the inner edge of the layer to 1
//! (fixed-point `FX_ONE`) at the outermost cell; it is 0 everywhere else.

use vstd::prelude::*;
use crate::fx::FX_ONE;
use crate::geometry::Geometry;
use crate::grid::GRID_CELL_CAP;

verus! {

/// The damping coefficient for index `idx` on an axis of `n` cells with a
/// boundary layer of `layer` cells: `1 - distance_to_nearest_edge / layer`
/// inside the layer, 0 outside, fixed-point, truncated toward zero.
pub open spec fn spec_sigma(idx: int, n: int, layer: int) -> int {
    if layer > 0 && (idx < layer || idx >= n - layer) {
        let dist = if idx <= n - idx - 1 {
            idx
        } else {
            n - idx - 1
        };
        ((layer - dist) * FX_ONE) / layer
    } else {
        0
    }
}

/// The damping coefficient for one cell index along one axis.
pub fn sigma_at(idx: usize, n: usize, layer: usize) -> (s: i64)
    requires
        idx < n,
        n > 2 * layer,
        n <= GRID_CELL_CAP,
    ensures
        s == spec_sigma(idx as int, n as int, layer as int),
        0 <= s <= FX_ONE,
{
    if layer > 0 && (idx < layer || idx >= n - layer) {
        let dist: i64 = if idx <= n - idx - 1 {
            idx as i64
        } else {
            (n - idx - 1) as i64
        };
        let num: i64 = (layer as i64 - dist) * FX_ONE;
        let s = num / (layer as i64);
        proof {
            let l = layer as int;
            assert(0 <= dist < l);
            vstd::arithmetic::div_mod::lemma_div_pos_is_pos(num as int, l);
            vstd::arithmetic::div_mod::lemma_div_is_ordered(num as int, l * FX_ONE, l);
            vstd::arithmetic::div_mod::lemma_div_multiples_vanish(FX_ONE as int, l);
        }
        s
    } else {
        0
    }
}

/// Walks every grid cell in order (the x index moving fastest), handing out
/// the cell together with its two damping coefficients.
pub struct PmlIterator {
    i: usize,
    j: usize,
    nx: usize,
    ny: usize,
    layer_width: usize,
}

impl PmlIterator {
    /// The next cell this iterator will yield; finished when `pos_j == ny`.
    pub closed spec fn pos_i(self) -> int {
        self.i as int
    }

    /// The next row this iterator will yield.
    pub closed spec fn pos_j(self) -> int {
        self.j as int
    }

    /// Cells in the x direction.
    pub closed spec fn spec_nx(self) -> int {
        self.nx as int
    }

    /// Cells in the y direction.
    pub closed spec fn spec_ny(self) -> int {
        self.ny as int
    }

    /// Width of the boundary layer, in cells.
    pub closed spec fn spec_layer(self) -> int {
        self.layer_width as int
    }

    /// The structural invariant of the walk.
    pub closed spec fn wf(self) -> bool {
        &&& self.nx > 2 * self.layer_width
        &&& self.ny > 2 * self.layer_width
        &&& self.nx <= GRID_CELL_CAP
        &&& self.ny <= GRID_CELL_CAP
        &&& self.i < self.nx
        &&& self.j <= self.ny
    }

    /// The next cell and its damping coefficients, or None once every cell
    /// has been yielded.
    pub fn next(&mut self) -> (r: Option<(usize, usize, i64, i64)>)
        requires
            old(self).wf(),
        ensures
            final(self).wf(),
            final(self).spec_nx() == old(self).spec_nx(),
            final(self).spec_ny() == old(self).spec_ny(),
            final(self).spec_layer() == old(self).spec_layer(),
            match r {
                Some((i, j, sx, sy)) => {
                    &&& old(self).pos_j() < old(self).spec_ny()
                    &&& i == old(self).pos_i()
                    &&& j == old(self).pos_j()
                    &&& sx == spec_sigma(i as int, old(self).spec_nx(), old(self).spec_layer())
                    &&& sy == spec_sigma(j as int, old(self).spec_ny(), old(self).spec_layer())
                    &&& if i as int + 1 < old(self).spec_nx() {
                        final(self).pos_i() == i + 1 && final(self).pos_j() == j
                    } else {
                        final(self).pos_i() == 0 && final(self).pos_j() == j + 1
                    }
                },
                None => {
                    &&& old(self).pos_j() == old(self).spec_ny()
                    &&& final(self).pos_i() == old(self).pos_i()
                    &&& final(self).pos_j() == old(self).pos_j()
                },
            },
    {
        if self.j == self.ny {
            return None;
        }
        let i = self.i;
        let j = self.j;
        let sigma_x = sigma_at(i, self.nx, self.layer_width);
        let sigma_y = sigma_at(j, self.ny, self.layer_width);
        if self.i + 1 < self.nx {
            self.i += 1;
        } else {
            self.i = 0;
            self.j += 1;
        }
        Some((i, j, sigma_x, sigma_y))
    }
}

/// A fresh cell walk over the grid a geometry describes.
pub fn pml_iterator_from_geometry(geometry: &Geometry) -> (it: PmlIterator)
    requires
        geometry.wf(),
    ensures
        it.wf(),
        it.pos_i() == 0,
        it.pos_j() == 0,
        it.spec_nx() == geometry.nx,
        it.spec_ny() == geometry.ny,
        it.spec_layer() == geometry.nboundary,
{
    PmlIterator {
        i: 0,
        j: 0,
        nx: geometry.nx,
        ny: geometry.ny,
        layer_width: geometry.nboundary,
    }
}

/// The damping profile vanishes on the whole interior: `sigma(idx) == 0`
/// whenever `layer <= idx < n - layer`.
pub proof fn lemma_sigma_zero_in_interior(idx: int, n: int, layer: int)
    requires
        n > 2 * layer,
        layer <= idx < n - layer,
    ensures
        spec_sigma(idx, n, layer) == 0,
{
}

/// Within the left boundary layer the damping profile strictly increases
/// toward the edge, reaching exactly 1 (fixed-point) at index 0.
pub proof fn lemma_sigma_increases_toward_left_edge(idx: int, n: int, layer: int)
    requires
        n > 2 * layer,
        n <= GRID_CELL_CAP,
        0 < idx < layer,
    ensures
        spec_sigma(idx - 1, n, layer) > spec_sigma(idx, n, layer),
        spec_sigma(0, n, layer) == FX_ONE,
{
    let s = FX_ONE as int;
    let a = (layer - idx) * s;
    assert(idx < n - idx - 1);
    assert(idx - 1 < n - (idx - 1) - 1);
    assert((layer - (idx - 1)) * s == a + s);
    vstd::arithmetic::div_mod::lemma_hoist_over_denominator(a, 1, layer as nat);
    vstd::arithmetic::div_mod::lemma_div_is_ordered(a + layer, a + s, layer);
    vstd::arithmetic::div_mod::lemma_div_multiples_vanish(s, layer);
    assert(spec_sigma(0, n, layer) == (layer * s) / layer);
    assert((layer * s) / layer == s);
}

/// Within the right boundary layer the damping profile strictly increases
/// toward the edge, reaching exactly 1 (fixed-point) at index n - 1.
pub proof fn lemma_sigma_increases_toward_right_edge(idx: int, n: int, layer: int)
    requires
        n > 2 * layer,
        n <= GRID_CELL_CAP,
        n - layer <= idx < n - 1,
    ensures
        spec_sigma(idx + 1, n, layer) > spec_sigma(idx, n, layer),
        spec_sigma(n - 1, n, layer) == FX_ONE,
{
    let s = FX_ONE as int;
    let d = n - idx - 1;
    let a = (layer - d) * s;
    assert(idx > n - idx - 1);
    assert((layer - (d - 1)) * s == a + s);
    vstd::arithmetic::div_mod::lemma_hoist_over_denominator(a, 1, layer as nat);
    vstd::arithmetic::div_mod::lemma_div_is_ordered(a + layer, a + s, layer);
    vstd::arithmetic::div_mod::lemma_div_multiples_vanish(s, layer);
    assert(spec_sigma(n - 1, n, layer) == (layer * s) / layer);
    assert((layer * s) / layer == s);
}

} // verus!
