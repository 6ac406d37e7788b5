//! Grid stencils: the Gaussian softening kernel and finite-difference
//! gradients.
//!
//! The softening kernel deposits a point source onto the grid without a
//! grid-scale singularity. With the kernel widths fixed at twice the cell
//! size, the Gaussian weight at integer cell offset (di, dj) is
//! `exp(-1/8) ^ (di*di + dj*dj)`, so the whole kernel is generated by powers
//! of one fixed-point constant; the kernel is normalized by its sum over the
//! full grid with wrapped (toroidal) distances.

use vstd::prelude::*;
use crate::fx::{
    abs_i, div_trunc, fx_add, fx_div, fx_mul, fx_sub, sat64, spec_fx_add, spec_fx_div, spec_fx_mul,
    spec_fx_sub, FX_ONE,
};
use crate::geometry::Geometry;
use crate::grid::{index_in_range, Grid};

verus! {

/// One half, fixed-point.
pub const FX_HALF: i64 = 2147483648;

/// `exp(-1/8)`, fixed-point: the Gaussian softening weight of one cell
/// offset at the fixed kernel width of two cells.
pub const SOFTEN_BASE: i64 = 3790295335;

/// Cells the softening kernel reaches on each side of the center: four times
/// the kernel width of two cells.
pub const SOFTEN_REACH: usize = 8;

/// The grid stencils the solver applies.
pub enum StencilType {
    DelSquared,
    GradX,
    GradY,
    GradXDelSquaredInv,
    GradYDelSquaredInv,
    Soften,
}

/// The finite-difference scheme of a gradient.
pub enum DifferenceType {
    Forward,
    Backward,
    Central,
}

/// The k-th fixed-point power of `b`.
pub open spec fn spec_fx_pow(b: int, k: nat) -> int
    decreases k,
{
    if k == 0 {
        FX_ONE as int
    } else {
        spec_fx_mul(b, spec_fx_pow(b, (k - 1) as nat))
    }
}

/// The sum of two small squares is small.
proof fn lemma_square_sum_bounded(a: int, b: int)
    requires
        0 <= a <= 0x100_0000,
        0 <= b <= 0x100_0000,
    ensures
        0 <= a * a <= 0x1_0000_0000_0000,
        0 <= b * b <= 0x1_0000_0000_0000,
        0 <= a * a + b * b <= 0x2_0000_0000_0000,
{
    assert(0 <= a * a <= 0x1_0000_0000_0000int && 0 <= b * b <= 0x1_0000_0000_0000int)
        by (nonlinear_arith)
        requires
            0 <= a <= 0x100_0000,
            0 <= b <= 0x100_0000,
    ;
}

/// Once a power chain reaches zero it stays zero.
proof fn lemma_pow_zero_absorbs(b: int, t: nat, k: nat)
    requires
        spec_fx_pow(b, t) == 0,
        t <= k,
    ensures
        spec_fx_pow(b, k) == 0,
    decreases k,
{
    if k > t {
        lemma_pow_zero_absorbs(b, t, (k - 1) as nat);
        assert(b * 0 == 0);
    }
}

/// Powers of a nonnegative base are nonnegative.
pub proof fn lemma_pow_nonneg(b: int, k: nat)
    requires
        b >= 0,
    ensures
        0 <= spec_fx_pow(b, k) <= i64::MAX,
    decreases k,
{
    if k > 0 {
        lemma_pow_nonneg(b, (k - 1) as nat);
        let p = spec_fx_pow(b, (k - 1) as nat);
        assert(b * p >= 0) by (nonlinear_arith)
            requires
                b >= 0,
                p >= 0,
        ;
        vstd::arithmetic::div_mod::lemma_div_pos_is_pos(b * p, FX_ONE as int);
    }
}

/// The k-th fixed-point power of `b`.
pub fn fx_pow(b: i64, k: u64) -> (r: i64)
    requires
        b >= 0,
    ensures
        r == spec_fx_pow(b as int, k as nat),
{
    let mut acc: i64 = FX_ONE;
    let mut t: u64 = 0;
    while t < k
        invariant
            t <= k,
            b >= 0,
            acc == spec_fx_pow(b as int, t as nat),
        decreases k - t,
    {
        if acc == 0 {
            proof {
                lemma_pow_zero_absorbs(b as int, t as nat, k as nat);
            }
            return 0;
        }
        acc = fx_mul(b, acc);
        t += 1;
    }
    acc
}

/// The wrapped (toroidal) distance of cell index i from the origin on an
/// axis of n cells.
pub open spec fn spec_wrap_dist(i: int, n: int) -> int {
    if 2 * i <= n {
        i
    } else {
        n - i
    }
}

/// The kernel exponent of grid cell (i, j): the squared wrapped distance
/// from the origin, in cells.
pub open spec fn spec_cell_exponent(g: Geometry, i: int, j: int) -> nat {
    (spec_wrap_dist(i, g.nx as int) * spec_wrap_dist(i, g.nx as int) + spec_wrap_dist(
        j,
        g.ny as int,
    ) * spec_wrap_dist(j, g.ny as int)) as nat
}

/// The kernel sum over the first t cells of the grid, in row-major order.
pub open spec fn spec_norm_upto(g: Geometry, t: nat) -> int
    decreases t,
{
    if t == 0 {
        0
    } else {
        let c = (t - 1) as int;
        let i = c / g.ny as int;
        let j = c % g.ny as int;
        spec_fx_add(
            spec_norm_upto(g, (t - 1) as nat),
            spec_fx_pow(SOFTEN_BASE as int, spec_cell_exponent(g, i, j)),
        )
    }
}

/// The softening normalization: the kernel summed over the whole grid.
pub open spec fn spec_soften_norm(g: Geometry) -> int {
    spec_norm_upto(g, (g.nx * g.ny) as nat)
}

/// The kernel sum only grows as cells are added.
proof fn lemma_norm_upto_monotone(g: Geometry, t: nat)
    requires
        t >= 1,
    ensures
        spec_norm_upto(g, t) >= spec_norm_upto(g, (t - 1) as nat),
        spec_norm_upto(g, t) <= i64::MAX,
{
    let c = (t - 1) as int;
    let i = c / g.ny as int;
    let j = c % g.ny as int;
    lemma_pow_nonneg(SOFTEN_BASE as int, spec_cell_exponent(g, i, j));
}

/// The normalization is at least one (fixed-point): the kernel's center cell
/// alone contributes one.
pub proof fn lemma_norm_at_least_one(g: Geometry, t: nat)
    requires
        t >= 1,
        g.wf(),
    ensures
        FX_ONE <= spec_norm_upto(g, t) <= i64::MAX,
    decreases t,
{
    if t == 1 {
        assert(spec_wrap_dist(0, g.nx as int) == 0);
        assert(spec_cell_exponent(g, 0, 0) == 0);
        assert(spec_norm_upto(g, 1) == spec_fx_add(0, FX_ONE as int));
    } else {
        lemma_norm_at_least_one(g, (t - 1) as nat);
        lemma_norm_upto_monotone(g, t);
    }
}

/// An index shifted by at most `SOFTEN_REACH` cells, wrapped back onto the
/// axis torus.
pub open spec fn spec_wrap_idx(c: int, n: int) -> int {
    if c < 0 {
        c + n
    } else if c >= n {
        c - n
    } else {
        c
    }
}

/// The grid after depositing the first t kernel window cells (of the 17 by 17
/// window, walked row by row) of a softened point of weight `value` centered
/// at cell (ic, jc).
pub open spec fn spec_deposit_upto(
    cells: Seq<i64>,
    nx: int,
    ny: int,
    norm: int,
    ic: int,
    jc: int,
    value: int,
    t: nat,
) -> Seq<i64>
    decreases t,
{
    if t == 0 {
        cells
    } else {
        let prev = spec_deposit_upto(cells, nx, ny, norm, ic, jc, value, (t - 1) as nat);
        let c = (t - 1) as int;
        let di = c / 17 - 8;
        let dj = c % 17 - 8;
        let i = spec_wrap_idx(ic + di, nx);
        let j = spec_wrap_idx(jc + dj, ny);
        let idx = i * ny + j;
        let add = spec_fx_div(
            spec_fx_mul(value, spec_fx_pow(SOFTEN_BASE as int, (di * di + dj * dj) as nat)),
            norm,
        );
        prev.update(idx, spec_fx_add(prev[idx] as int, add) as i64)
    }
}

/// The grid after depositing a full softened point.
pub open spec fn spec_deposit(
    cells: Seq<i64>,
    nx: int,
    ny: int,
    norm: int,
    ic: int,
    jc: int,
    value: int,
) -> Seq<i64> {
    spec_deposit_upto(cells, nx, ny, norm, ic, jc, value, 289)
}

/// The inverse cell size in x, fixed-point.
pub open spec fn spec_dx_inv(g: Geometry) -> int {
    spec_fx_div(FX_ONE as int, g.spec_delta_x())
}

/// The inverse cell size in y, fixed-point.
pub open spec fn spec_dy_inv(g: Geometry) -> int {
    spec_fx_div(FX_ONE as int, g.spec_delta_y())
}

/// Half the inverse cell size in x, fixed-point.
pub open spec fn spec_dx_inv_by_2(g: Geometry) -> int {
    spec_fx_div(FX_HALF as int, g.spec_delta_x())
}

/// Half the inverse cell size in y, fixed-point.
pub open spec fn spec_dy_inv_by_2(g: Geometry) -> int {
    spec_fx_div(FX_HALF as int, g.spec_delta_y())
}

/// The finite-difference gradient of a grid at one cell, with periodic wrap:
/// forward `(f[i+1]-f[i])/d`, backward `(f[i]-f[i-1])/d`, or central
/// `(f[i+1]-f[i-1])/2d`, along the axis the stencil type names.
pub open spec fn spec_evaluate(
    g: Geometry,
    cells: Seq<i64>,
    i: int,
    j: int,
    st: StencilType,
    dt: DifferenceType,
) -> int {
    let nx = g.nx as int;
    let ny = g.ny as int;
    let at = |a: int, b: int| cells[a * ny + b] as int;
    match st {
        StencilType::GradX => {
            let ip = if i < nx - 1 {
                i + 1
            } else {
                0
            };
            let im = if i > 0 {
                i - 1
            } else {
                nx - 1
            };
            match dt {
                DifferenceType::Forward => spec_fx_mul(
                    spec_dx_inv(g),
                    spec_fx_sub(at(ip, j), at(i, j)),
                ),
                DifferenceType::Backward => spec_fx_mul(
                    spec_dx_inv(g),
                    spec_fx_sub(at(i, j), at(im, j)),
                ),
                DifferenceType::Central => spec_fx_mul(
                    spec_dx_inv_by_2(g),
                    spec_fx_sub(at(ip, j), at(im, j)),
                ),
            }
        },
        StencilType::GradY => {
            let jp = if j < ny - 1 {
                j + 1
            } else {
                0
            };
            let jm = if j > 0 {
                j - 1
            } else {
                ny - 1
            };
            match dt {
                DifferenceType::Forward => spec_fx_mul(
                    spec_dy_inv(g),
                    spec_fx_sub(at(i, jp), at(i, j)),
                ),
                DifferenceType::Backward => spec_fx_mul(
                    spec_dy_inv(g),
                    spec_fx_sub(at(i, j), at(i, jm)),
                ),
                DifferenceType::Central => spec_fx_mul(
                    spec_dy_inv_by_2(g),
                    spec_fx_sub(at(i, jp), at(i, jm)),
                ),
            }
        },
        _ => 0,
    }
}

/// Precomputed stencil data: the geometry and the softening normalization.
pub struct Stencils {
    /// The grid geometry the stencils are sized to.
    pub geometry: Geometry,
    /// The softening normalization: the kernel summed over the grid
    /// (see [`Stencils::wf`]).
    pub soften_norm: i64,
}

/// The kernel sum over the whole grid, computed cell by cell.
fn compute_soften_norm(g: &Geometry) -> (norm: i64)
    requires
        g.wf(),
    ensures
        norm == spec_soften_norm(*g),
{
    let total: usize = g.nx * g.ny;
    let mut norm: i64 = 0;
    let mut t: usize = 0;
    while t < total
        invariant
            g.wf(),
            total == g.nx * g.ny,
            t <= total,
            norm == spec_norm_upto(*g, t as nat),
        decreases total - t,
    {
        let i: usize = t / g.ny;
        let j: usize = t % g.ny;
        proof {
            crate::grid::row_col_of_linear(t as int, g.nx as int, g.ny as int);
        }
        let wi: u64 = if 2 * i <= g.nx {
            i as u64
        } else {
            (g.nx - i) as u64
        };
        let wj: u64 = if 2 * j <= g.ny {
            j as u64
        } else {
            (g.ny - j) as u64
        };
        proof {
            lemma_square_sum_bounded(wi as int, wj as int);
            assert(wi == spec_wrap_dist(i as int, g.nx as int));
            assert(wj == spec_wrap_dist(j as int, g.ny as int));
        }
        let w = fx_pow(SOFTEN_BASE, wi * wi + wj * wj);
        norm = fx_add(norm, w);
        t += 1;
    }
    norm
}

impl Stencils {
    /// The structural invariant: the stored normalization is the kernel sum
    /// of the stored geometry.
    pub open spec fn wf(self) -> bool {
        &&& self.geometry.wf()
        &&& self.spec_norm() == spec_soften_norm(self.geometry)
    }

    /// The softening normalization this stencil set carries.
    pub open spec fn spec_norm(self) -> int {
        self.soften_norm as int
    }

    /// Precompute the stencils for a geometry. The kernel normalization is
    /// at least one (fixed-point): the kernel's center cell alone
    /// contributes one.
    pub fn new(geometry: Geometry) -> (s: Stencils)
        requires
            geometry.wf(),
        ensures
            s.wf(),
            s.geometry == geometry,
            FX_ONE <= s.soften_norm,
    {
        let soften_norm = compute_soften_norm(&geometry);
        proof {
            assert(geometry.nx * geometry.ny >= 1) by (nonlinear_arith)
                requires
                    geometry.nx >= 1,
                    geometry.ny >= 1,
            ;
            lemma_norm_at_least_one(geometry, (geometry.nx * geometry.ny) as nat);
        }
        Stencils { geometry, soften_norm }
    }

    /// Add a softened point of weight `value` centered at cell (ic, jc):
    /// the Gaussian kernel scaled by `value`, wrapped toroidally, normalized
    /// by the kernel sum.
    pub fn add_softened_point(&self, grid: &mut Grid, ic: usize, jc: usize, value: i64)
        requires
            self.wf(),
            old(grid).wf(),
            old(grid)@.nx == self.geometry.nx,
            old(grid)@.ny == self.geometry.ny,
            ic < self.geometry.nx,
            jc < self.geometry.ny,
            self.geometry.nx >= 8,
            self.geometry.ny >= 8,
        ensures
            final(grid).wf(),
            final(grid)@.nx == old(grid)@.nx,
            final(grid)@.ny == old(grid)@.ny,
            final(grid)@.cells == spec_deposit(
                old(grid)@.cells,
                self.geometry.nx as int,
                self.geometry.ny as int,
                self.spec_norm(),
                ic as int,
                jc as int,
                value as int,
            ),
    {
        let nx = self.geometry.nx;
        let ny = self.geometry.ny;
        let ghost cells0 = grid@.cells;
        let mut t: usize = 0;
        while t < 289
            invariant
                self.wf(),
                grid.wf(),
                grid@.nx == nx,
                grid@.ny == ny,
                nx == self.geometry.nx,
                ny == self.geometry.ny,
                ic < nx,
                jc < ny,
                nx >= 8,
                ny >= 8,
                t <= 289,
                grid@.cells == spec_deposit_upto(
                    cells0,
                    nx as int,
                    ny as int,
                    self.spec_norm(),
                    ic as int,
                    jc as int,
                    value as int,
                    t as nat,
                ),
            decreases 289 - t,
        {
            let di: i64 = (t / 17) as i64 - 8;
            let dj: i64 = (t % 17) as i64 - 8;
            proof {
                crate::grid::row_col_of_linear(t as int, 17, 17);
                assert(0 <= di * di <= 64 && 0 <= dj * dj <= 64) by (nonlinear_arith)
                    requires
                        -8 <= di <= 8,
                        -8 <= dj <= 8,
                ;
            }
            let ci: i64 = ic as i64 + di;
            let cj: i64 = jc as i64 + dj;
            let i: usize = if ci < 0 {
                (ci + nx as i64) as usize
            } else if ci >= nx as i64 {
                (ci - nx as i64) as usize
            } else {
                ci as usize
            };
            let j: usize = if cj < 0 {
                (cj + ny as i64) as usize
            } else if cj >= ny as i64 {
                (cj - ny as i64) as usize
            } else {
                cj as usize
            };
            let k: u64 = (di * di + dj * dj) as u64;
            let w = fx_pow(SOFTEN_BASE, k);
            let add = fx_div(fx_mul(value, w), self.soften_norm);
            let cur = grid.get(i, j);
            grid.set(i, j, fx_add(cur, add));
            t += 1;
            proof {
                assert(grid@.cells == spec_deposit_upto(
                    cells0,
                    nx as int,
                    ny as int,
                    self.spec_norm(),
                    ic as int,
                    jc as int,
                    value as int,
                    t as nat,
                ));
            }
        }
    }

    /// The finite-difference gradient of a grid at one cell; the stencil type
    /// names the axis and must be one of the gradient stencils.
    pub fn evaluate(
        &self,
        array: &Grid,
        i: usize,
        j: usize,
        stencil_type: &StencilType,
        difference_type: &DifferenceType,
    ) -> (r: i64)
        requires
            self.wf(),
            array.wf(),
            array@.nx == self.geometry.nx,
            array@.ny == self.geometry.ny,
            i < self.geometry.nx,
            j < self.geometry.ny,
            stencil_type is GradX || stencil_type is GradY,
        ensures
            r == spec_evaluate(
                self.geometry,
                array@.cells,
                i as int,
                j as int,
                *stencil_type,
                *difference_type,
            ),
    {
        let nx = self.geometry.nx;
        let ny = self.geometry.ny;
        match stencil_type {
            StencilType::GradX => {
                let ip: usize = if i < nx - 1 {
                    i + 1
                } else {
                    0
                };
                let im: usize = if i > 0 {
                    i - 1
                } else {
                    nx - 1
                };
                match difference_type {
                    DifferenceType::Forward => {
                        let dx_inv = fx_div(FX_ONE, self.delta_x_exec());
                        fx_mul(dx_inv, fx_sub(array.get(ip, j), array.get(i, j)))
                    },
                    DifferenceType::Backward => {
                        let dx_inv = fx_div(FX_ONE, self.delta_x_exec());
                        fx_mul(dx_inv, fx_sub(array.get(i, j), array.get(im, j)))
                    },
                    DifferenceType::Central => {
                        let dx_inv_by_2 = fx_div(FX_HALF, self.delta_x_exec());
                        fx_mul(dx_inv_by_2, fx_sub(array.get(ip, j), array.get(im, j)))
                    },
                }
            },
            StencilType::GradY => {
                let jp: usize = if j < ny - 1 {
                    j + 1
                } else {
                    0
                };
                let jm: usize = if j > 0 {
                    j - 1
                } else {
                    ny - 1
                };
                match difference_type {
                    DifferenceType::Forward => {
                        let dy_inv = fx_div(FX_ONE, self.delta_y_exec());
                        fx_mul(dy_inv, fx_sub(array.get(i, jp), array.get(i, j)))
                    },
                    DifferenceType::Backward => {
                        let dy_inv = fx_div(FX_ONE, self.delta_y_exec());
                        fx_mul(dy_inv, fx_sub(array.get(i, j), array.get(i, jm)))
                    },
                    DifferenceType::Central => {
                        let dy_inv_by_2 = fx_div(FX_HALF, self.delta_y_exec());
                        fx_mul(dy_inv_by_2, fx_sub(array.get(i, jp), array.get(i, jm)))
                    },
                }
            },
            _ => {
                proof {
                    assert(false);
                }
                0
            },
        }
    }

    /// The cell size in x of the owned geometry.
    fn delta_x_exec(&self) -> (d: i64)
        requires
            self.wf(),
        ensures
            d == self.geometry.spec_delta_x(),
    {
        self.geometry.delta_x()
    }

    /// The cell size in y of the owned geometry.
    fn delta_y_exec(&self) -> (d: i64)
        requires
            self.wf(),
        ensures
            d == self.geometry.spec_delta_y(),
    {
        self.geometry.delta_y()
    }

    /// Apply a gradient stencil to `array`, writing into `result`.
    pub fn apply_grad(
        &self,
        array: &Grid,
        result: &mut Grid,
        stencil_type: StencilType,
        difference_type: DifferenceType,
    )
        requires
            self.wf(),
            array.wf(),
            array@.nx == self.geometry.nx,
            array@.ny == self.geometry.ny,
            old(result).wf(),
            old(result)@.nx == self.geometry.nx,
            old(result)@.ny == self.geometry.ny,
            stencil_type is GradX || stencil_type is GradY,
        ensures
            final(result).wf(),
            final(result)@.nx == old(result)@.nx,
            final(result)@.ny == old(result)@.ny,
            forall|a: int, b: int|
                0 <= a < self.geometry.nx && 0 <= b < self.geometry.ny
                    ==> #[trigger] final(result)@.cells[a * self.geometry.ny as int + b]
                    == spec_evaluate(
                    self.geometry,
                    array@.cells,
                    a,
                    b,
                    stencil_type,
                    difference_type,
                ),
    {
        let nx = self.geometry.nx;
        let ny = self.geometry.ny;
        let total: usize = nx * ny;
        let mut t: usize = 0;
        while t < total
            invariant
                self.wf(),
                array.wf(),
                array@.nx == nx,
                array@.ny == ny,
                result.wf(),
                result@.nx == nx,
                result@.ny == ny,
                nx == self.geometry.nx,
                ny == self.geometry.ny,
                total == nx * ny,
                t <= total,
                stencil_type is GradX || stencil_type is GradY,
                forall|k: int|
                    0 <= k < t ==> #[trigger] result@.cells[k] == spec_evaluate(
                        self.geometry,
                        array@.cells,
                        k / ny as int,
                        k % ny as int,
                        stencil_type,
                        difference_type,
                    ),
            decreases total - t,
        {
            let i: usize = t / ny;
            let j: usize = t % ny;
            proof {
                crate::grid::row_col_of_linear(t as int, nx as int, ny as int);
            }
            let v = self.evaluate(array, i, j, &stencil_type, &difference_type);
            let ghost prev = result@.cells;
            result.set(i, j, v);
            t += 1;
            proof {
                assert(i as int * ny as int + j as int == t - 1);
                assert forall|k: int| 0 <= k < t implies #[trigger] result@.cells[k]
                    == spec_evaluate(
                    self.geometry,
                    array@.cells,
                    k / ny as int,
                    k % ny as int,
                    stencil_type,
                    difference_type,
                ) by {
                    if k < t - 1 {
                        assert(result@.cells[k] == prev[k]);
                    } else {
                        assert(result@.cells[k] == v);
                    }
                }
            }
        }
        proof {
            assert forall|a: int, b: int|
                0 <= a < self.geometry.nx && 0 <= b < self.geometry.ny implies #[trigger] result@
                .cells[a * self.geometry.ny as int + b] == spec_evaluate(
                self.geometry,
                array@.cells,
                a,
                b,
                stencil_type,
                difference_type,
            ) by {
                let k = a * self.geometry.ny as int + b;
                index_in_range(result@, a, b);
                vstd::arithmetic::div_mod::lemma_fundamental_div_mod_converse(
                    k,
                    self.geometry.ny as int,
                    a,
                    b,
                );
            }
        }
    }

    /// Apply a gradient stencil to a grid in place. (The spectrally composed
    /// stencil types are applied by the host that owns the spectral solve;
    /// this entry point covers the real-space gradients.)
    pub fn apply(&self, array: &mut Grid, stencil_type: StencilType, difference_type: DifferenceType)
        requires
            self.wf(),
            old(array).wf(),
            old(array)@.nx == self.geometry.nx,
            old(array)@.ny == self.geometry.ny,
            stencil_type is GradX || stencil_type is GradY,
        ensures
            final(array).wf(),
            final(array)@.nx == old(array)@.nx,
            final(array)@.ny == old(array)@.ny,
            forall|a: int, b: int|
                0 <= a < self.geometry.nx && 0 <= b < self.geometry.ny
                    ==> #[trigger] final(array)@.cells[a * self.geometry.ny as int + b]
                    == spec_evaluate(
                    self.geometry,
                    old(array)@.cells,
                    a,
                    b,
                    stencil_type,
                    difference_type,
                ),
    {
        let scratch = array.duplicate();
        self.apply_grad(&scratch, array, stencil_type, difference_type);
    }

    /// The softening kernel as a grid: each cell carries the normalized
    /// Gaussian weight of its wrapped distance from the origin. Returns the
    /// kernel and the normalization it was divided by.
    pub fn make_soften_stencil(&self) -> (r: (Grid, i64))
        requires
            self.wf(),
        ensures
            r.0.wf(),
            r.0@.nx == self.geometry.nx,
            r.0@.ny == self.geometry.ny,
            r.1 == spec_soften_norm(self.geometry),
            forall|a: int, b: int|
                0 <= a < self.geometry.nx && 0 <= b < self.geometry.ny
                    ==> #[trigger] r.0@.cells[a * self.geometry.ny as int + b] == spec_fx_div(
                    spec_fx_pow(SOFTEN_BASE as int, spec_cell_exponent(self.geometry, a, b)),
                    spec_soften_norm(self.geometry),
                ),
    {
        let nx = self.geometry.nx;
        let ny = self.geometry.ny;
        let mut out = Grid::new(nx, ny);
        let total: usize = nx * ny;
        let mut t: usize = 0;
        while t < total
            invariant
                self.wf(),
                out.wf(),
                out@.nx == nx,
                out@.ny == ny,
                nx == self.geometry.nx,
                ny == self.geometry.ny,
                total == nx * ny,
                t <= total,
                self.soften_norm == spec_soften_norm(self.geometry),
                forall|k: int|
                    0 <= k < t ==> #[trigger] out@.cells[k] == spec_fx_div(
                        spec_fx_pow(
                            SOFTEN_BASE as int,
                            spec_cell_exponent(self.geometry, k / ny as int, k % ny as int),
                        ),
                        spec_soften_norm(self.geometry),
                    ),
            decreases total - t,
        {
            let i: usize = t / ny;
            let j: usize = t % ny;
            proof {
                crate::grid::row_col_of_linear(t as int, nx as int, ny as int);
            }
            let wi: u64 = if 2 * i <= nx {
                i as u64
            } else {
                (nx - i) as u64
            };
            let wj: u64 = if 2 * j <= ny {
                j as u64
            } else {
                (ny - j) as u64
            };
            proof {
                lemma_square_sum_bounded(wi as int, wj as int);
                assert(wi == spec_wrap_dist(i as int, nx as int));
                assert(wj == spec_wrap_dist(j as int, ny as int));
            }
            let w = fx_pow(SOFTEN_BASE, wi * wi + wj * wj);
            let v = fx_div(w, self.soften_norm);
            let ghost prev = out@.cells;
            out.set(i, j, v);
            t += 1;
            proof {
                assert(i as int * ny as int + j as int == t - 1);
                assert forall|k: int| 0 <= k < t implies #[trigger] out@.cells[k] == spec_fx_div(
                    spec_fx_pow(
                        SOFTEN_BASE as int,
                        spec_cell_exponent(self.geometry, k / ny as int, k % ny as int),
                    ),
                    spec_soften_norm(self.geometry),
                ) by {
                    if k < t - 1 {
                        assert(out@.cells[k] == prev[k]);
                    } else {
                        assert(out@.cells[k] == v);
                    }
                }
            }
        }
        proof {
            assert forall|a: int, b: int|
                0 <= a < self.geometry.nx && 0 <= b < self.geometry.ny implies #[trigger] out@
                .cells[a * self.geometry.ny as int + b] == spec_fx_div(
                spec_fx_pow(SOFTEN_BASE as int, spec_cell_exponent(self.geometry, a, b)),
                spec_soften_norm(self.geometry),
            ) by {
                let k = a * self.geometry.ny as int + b;
                index_in_range(out@, a, b);
                vstd::arithmetic::div_mod::lemma_fundamental_div_mod_converse(
                    k,
                    self.geometry.ny as int,
                    a,
                    b,
                );
            }
        }
        (out, self.soften_norm)
    }
}

} // verus!
