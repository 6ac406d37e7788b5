//! The field configuration: all grids, constrained initialization, charge
//! and current deposition, and the leapfrog time step.

use vstd::prelude::*;
use crate::charge::{lemma_cell_in_grid_when_in_domain_x, lemma_cell_in_grid_when_in_domain_y, Charge};
use crate::diag::{DiagEvent, DiagSink};
use crate::fx::{
    abs_i, fx_abs, fx_add, fx_div, fx_mul, fx_sqrt, fx_sub, sat64, spec_fx_add, spec_fx_div,
    spec_fx_mul, spec_fx_sqrt, spec_fx_sub, FX_ONE,
};
use crate::geometry::Geometry;
use crate::grid::{Grid, GRID_CELL_CAP};
use crate::stencil::{spec_deposit, spec_evaluate, DifferenceType, Stencils, StencilType};

verus! {

/// The charge-to-density conversion constant, fixed-point: a point strength
/// becomes this many density units per unit of cell area.
pub const FX_CHARGE_SCALE: i64 = 17179869184000;

/// A row-major sequence of zero cells.
pub open spec fn spec_zeros(len: nat) -> Seq<i64> {
    Seq::new(len, |k: int| 0i64)
}

/// The factor converting a point strength to an areal density:
/// `FX_CHARGE_SCALE / cell_area`.
pub open spec fn spec_charge_normalization(g: Geometry) -> int {
    spec_fx_div(FX_CHARGE_SCALE as int, spec_fx_mul(g.spec_delta_x(), g.spec_delta_y()))
}

/// An optional grid is either absent or well-formed with the geometry's
/// extent.
pub open spec fn grid_ok(o: Option<Grid>, g: Geometry) -> bool {
    match o {
        Some(gr) => gr.wf() && gr@.nx == g.nx && gr@.ny == g.ny,
        None => true,
    }
}

/// The charge-density grid and the diagnostics of depositing the first t
/// charges: each in-domain charge adds a softened point of weight
/// `strength * charge_normalization` at its grid cell; each out-of-domain
/// charge is skipped with a diagnostic.
pub open spec fn spec_cic_upto(
    g: Geometry,
    snorm: int,
    cnorm: int,
    charges: Seq<Charge>,
    t: nat,
) -> (Seq<i64>, Seq<DiagEvent>)
    decreases t,
{
    if t == 0 {
        (spec_zeros((g.nx * g.ny) as nat), Seq::empty())
    } else {
        let prev = spec_cic_upto(g, snorm, cnorm, charges, (t - 1) as nat);
        let c = charges[t - 1];
        if !c.spec_in_domain(g) {
            (prev.0, prev.1.push(DiagEvent::ChargeOutOfBounds))
        } else {
            (
                spec_deposit(
                    prev.0,
                    g.nx as int,
                    g.ny as int,
                    snorm,
                    g.spec_cell_x(c.x as int),
                    g.spec_cell_y(c.y as int),
                    spec_fx_mul(c.charge as int, cnorm),
                ),
                prev.1,
            )
        }
    }
}

/// The charge-density grid of a charge set, with its diagnostics.
pub open spec fn spec_cic(g: Geometry, snorm: int, cnorm: int, charges: Seq<Charge>) -> (
    Seq<i64>,
    Seq<DiagEvent>,
) {
    spec_cic_upto(g, snorm, cnorm, charges, charges.len())
}

/// The farthest distance `closest_charge` considers, fixed-point.
pub const FX_FAR: i64 = 4294967296000000000;

/// The grid value at a signed cell index: the cell's value inside the grid,
/// zero outside it.
pub open spec fn spec_grid_at_or_zero(cells: Seq<i64>, nx: int, ny: int, x: int, y: int) -> int {
    if 0 <= x < nx && 0 <= y < ny {
        cells[x * ny + y] as int
    } else {
        0
    }
}

/// The value of a grid at a signed cell index, or zero outside the grid.
pub fn evaluate_grid(field: &Grid, x: i64, y: i64) -> (r: i64)
    requires
        field.wf(),
    ensures
        r == spec_grid_at_or_zero(field@.cells, field@.nx as int, field@.ny as int, x as int, y as int),
{
    let nx = field.nx();
    let ny = field.ny();
    if x < 0 || x >= nx as i64 || y < 0 || y >= ny as i64 {
        return 0;
    }
    proof {
        crate::grid::index_in_range(field@, x as int, y as int);
    }
    field.get(x as usize, y as usize)
}

/// The bilinear interpolation of a grid at a physical position inside the
/// physical domain: the four cell centroids around the position, weighted by
/// the position's offsets from the containing cell's centroid.
pub open spec fn spec_interpolate(g: Geometry, cells: Seq<i64>, x: int, y: int) -> int {
    let dx = g.spec_delta_x();
    let dy = g.spec_delta_y();
    let i0 = g.spec_cell_x(x);
    let j0 = g.spec_cell_y(y);
    let x0 = g.spec_centroid_x(i0);
    let y0 = g.spec_centroid_y(j0);
    let i1 = if x > x0 {
        i0 + 1
    } else {
        i0 - 1
    };
    let j1 = if y > y0 {
        j0 + 1
    } else {
        j0 - 1
    };
    let wx1 = spec_fx_div(sat64(abs_i(spec_fx_sub(x, x0))), dx);
    let wy1 = spec_fx_div(sat64(abs_i(spec_fx_sub(y, y0))), dy);
    let wx0 = spec_fx_sub(FX_ONE as int, wx1);
    let wy0 = spec_fx_sub(FX_ONE as int, wy1);
    let nx = g.nx as int;
    let ny = g.ny as int;
    let f0 = spec_fx_add(
        0,
        spec_fx_mul(spec_fx_mul(spec_grid_at_or_zero(cells, nx, ny, i0, j0), wx0), wy0),
    );
    let f1 = spec_fx_add(
        f0,
        spec_fx_mul(spec_fx_mul(spec_grid_at_or_zero(cells, nx, ny, i1, j0), wx1), wy0),
    );
    let f2 = spec_fx_add(
        f1,
        spec_fx_mul(spec_fx_mul(spec_grid_at_or_zero(cells, nx, ny, i0, j1), wx0), wy1),
    );
    spec_fx_add(
        f2,
        spec_fx_mul(spec_fx_mul(spec_grid_at_or_zero(cells, nx, ny, i1, j1), wx1), wy1),
    )
}

/// True when a query position lies inside the physical domain.
pub open spec fn spec_query_in_domain(g: Geometry, x: int, y: int) -> bool {
    0 <= x <= g.x_max && 0 <= y <= g.y_max
}

/// Interpolate a grid at a physical position. Positions outside the physical
/// domain return zero with a diagnostic.
pub fn evaluate_grid_interpolated(
    field_config: &FieldConfiguration,
    grid: &Grid,
    x: i64,
    y: i64,
    sink: &mut DiagSink,
) -> (r: i64)
    requires
        field_config.wf(),
        grid.wf(),
        grid@.nx == field_config.geometry.nx,
        grid@.ny == field_config.geometry.ny,
    ensures
        spec_query_in_domain(field_config.geometry, x as int, y as int) ==> {
            &&& r == spec_interpolate(field_config.geometry, grid@.cells, x as int, y as int)
            &&& final(sink).events@ == old(sink).events@
        },
        !spec_query_in_domain(field_config.geometry, x as int, y as int) ==> {
            &&& r == 0
            &&& final(sink).events@ == old(sink).events@.push(DiagEvent::PointOutOfBounds)
        },
{
    let g = &field_config.geometry;
    if x < 0 || x > g.x_max || y < 0 || y > g.y_max {
        sink.record(DiagEvent::PointOutOfBounds);
        return 0;
    }
    proof {
        lemma_cell_in_grid_when_in_domain_x(*g, x as int);
        lemma_cell_in_grid_when_in_domain_y(*g, y as int);
    }
    let dx = g.delta_x();
    let dy = g.delta_y();
    let (i0, j0) = g.position_to_cell_unclamped(x, y);
    let (x0, y0) = g.cell_to_centroid(i0 as usize, j0 as usize);
    let i1: i64 = if x > x0 {
        i0 + 1
    } else {
        i0 - 1
    };
    let j1: i64 = if y > y0 {
        j0 + 1
    } else {
        j0 - 1
    };
    let wx1 = fx_div(fx_abs(fx_sub(x, x0)), dx);
    let wy1 = fx_div(fx_abs(fx_sub(y, y0)), dy);
    let wx0 = fx_sub(FX_ONE, wx1);
    let wy0 = fx_sub(FX_ONE, wy1);
    let mut field: i64 = 0;
    field = fx_add(field, fx_mul(fx_mul(evaluate_grid(grid, i0, j0), wx0), wy0));
    field = fx_add(field, fx_mul(fx_mul(evaluate_grid(grid, i1, j0), wx1), wy0));
    field = fx_add(field, fx_mul(fx_mul(evaluate_grid(grid, i0, j1), wx0), wy1));
    field = fx_add(field, fx_mul(fx_mul(evaluate_grid(grid, i1, j1), wx1), wy1));
    field
}

/// Interpolate an optional grid at a physical position: zero when the grid
/// does not exist yet.
pub fn evaluate_grid_interpolated_or_0(
    field_config: &FieldConfiguration,
    grid: &Option<Grid>,
    x: i64,
    y: i64,
    sink: &mut DiagSink,
) -> (r: i64)
    requires
        field_config.wf(),
        grid_ok(*grid, field_config.geometry),
    ensures
        match grid {
            Some(gr) => {
                &&& (spec_query_in_domain(field_config.geometry, x as int, y as int) ==> {
                    &&& r == spec_interpolate(
                        field_config.geometry,
                        gr@.cells,
                        x as int,
                        y as int,
                    )
                    &&& final(sink).events@ == old(sink).events@
                })
                &&& (!spec_query_in_domain(field_config.geometry, x as int, y as int) ==> {
                    &&& r == 0
                    &&& final(sink).events@ == old(sink).events@.push(DiagEvent::PointOutOfBounds)
                })
            },
            None => r == 0 && final(sink).events@ == old(sink).events@,
        },
{
    match grid {
        Some(gr) => evaluate_grid_interpolated(field_config, gr, x, y, sink),
        None => 0,
    }
}

/// The closest charge to a position and its distance, considering the first
/// t charges; charges farther than `FX_FAR` are never selected.
pub open spec fn spec_closest_upto(charges: Seq<Charge>, x: int, y: int, t: nat) -> (
    Option<Charge>,
    int,
)
    decreases t,
{
    if t == 0 {
        (None::<Charge>, FX_FAR as int)
    } else {
        let prev = spec_closest_upto(charges, x, y, (t - 1) as nat);
        let c = charges[t - 1];
        let dx = spec_fx_sub(x, c.x as int);
        let dy = spec_fx_sub(y, c.y as int);
        let d = spec_fx_sqrt(spec_fx_add(spec_fx_mul(dx, dx), spec_fx_mul(dy, dy)));
        if d < prev.1 {
            (Some(c), d)
        } else {
            prev
        }
    }
}

/// The owner of all simulation state: the charges, the geometry, and the
/// lazily created grids.
pub struct FieldConfiguration {
    /// The current charges.
    pub charges: Vec<Charge>,
    /// The charges as of the last completed initialization or tick.
    pub charges_at_last_tick: Vec<Charge>,
    /// The grid geometry; immutable after construction.
    pub geometry: Geometry,
    /// The charge-density grid, once initialized.
    pub cic_grid: Option<Grid>,
    /// The x component of the electric field, once initialized.
    pub elec_x: Option<Grid>,
    /// The y component of the electric field, once initialized.
    pub elec_y: Option<Grid>,
    /// The x component of the current density, once initialized.
    pub current_x: Option<Grid>,
    /// The y component of the current density, once initialized.
    pub current_y: Option<Grid>,
    /// The z component of the magnetic field, once initialized.
    pub mag_z: Option<Grid>,
    /// The magnetic field integrated over time, used by the absorbing
    /// boundary, once initialized.
    pub mag_z_integral: Option<Grid>,
    /// The precomputed stencils.
    pub stencils: Stencils,
    /// The factor converting a point strength to an areal density.
    pub charge_normalization: i64,
}

impl FieldConfiguration {
    /// The structural invariant.
    pub open spec fn wf(self) -> bool {
        &&& self.geometry.wf()
        &&& self.geometry.nx >= 8
        &&& self.geometry.ny >= 8
        &&& self.geometry.nboundary >= 1
        &&& self.stencils.wf()
        &&& self.stencils.geometry == self.geometry
        &&& self.charge_normalization == spec_charge_normalization(self.geometry)
        &&& grid_ok(self.cic_grid, self.geometry)
        &&& grid_ok(self.elec_x, self.geometry)
        &&& grid_ok(self.elec_y, self.geometry)
        &&& grid_ok(self.current_x, self.geometry)
        &&& grid_ok(self.current_y, self.geometry)
        &&& grid_ok(self.mag_z, self.geometry)
        &&& grid_ok(self.mag_z_integral, self.geometry)
        &&& (self.spec_initialized() ==> {
            &&& self.elec_x is Some
            &&& self.current_x is Some
            &&& self.current_y is Some
            &&& self.mag_z is Some
            &&& self.mag_z_integral is Some
        })
    }

    /// True once the field grids exist.
    pub open spec fn spec_initialized(self) -> bool {
        self.elec_y is Some
    }

    /// True when the charge set has drifted from the snapshot the fields
    /// were solved under: a different count, or any strength changed.
    pub open spec fn spec_constraint_violation(self) -> bool {
        ||| self.charges_at_last_tick@.len() != self.charges@.len()
        ||| exists|k: int|
            0 <= k < self.charges@.len() && self.charges_at_last_tick@[k].charge
                != self.charges@[k].charge
    }

    /// True when the next operation must (re)initialize the grids first.
    pub open spec fn spec_needs_init(self) -> bool {
        !self.spec_initialized() || self.spec_constraint_violation()
    }

    /// Admissible constructor arguments: enough cells for the softening
    /// window, a representable grid, and extents large enough that the
    /// truncated cell size keeps the coordinate-to-cell map faithful.
    pub open spec fn spec_admissible(x_max: i64, y_max: i64, nx: usize, ny: usize) -> bool {
        &&& 8 <= nx
        &&& 8 <= ny
        &&& nx <= GRID_CELL_CAP
        &&& ny <= GRID_CELL_CAP
        &&& nx * ny <= GRID_CELL_CAP
        &&& ny > 2 * (nx / 8)
        &&& x_max >= 2 * nx * nx
        &&& y_max >= 2 * ny * ny
    }

    /// A new, uninitialized configuration. The boundary layer takes one
    /// eighth of the cells on each side.
    pub fn new(x_max: i64, y_max: i64, nx: usize, ny: usize) -> (c: FieldConfiguration)
        requires
            Self::spec_admissible(x_max, y_max, nx, ny),
        ensures
            c.wf(),
            c.charges@.len() == 0,
            c.charges_at_last_tick@.len() == 0,
            c.geometry == (Geometry { x_max, y_max, nx, ny, nboundary: nx / 8 }),
            c.cic_grid is None,
            c.elec_x is None,
            c.elec_y is None,
            c.current_x is None,
            c.current_y is None,
            c.mag_z is None,
            c.mag_z_integral is None,
            !c.spec_initialized(),
    {
        let nboundary: usize = nx / 8;
        proof {
            vstd::arithmetic::div_mod::lemma_fundamental_div_mod(nx as int, 8);
            vstd::arithmetic::div_mod::lemma_div_pos_is_pos(nx as int, 8);
            vstd::arithmetic::div_mod::lemma_div_non_zero(nx as int, 8);
            assert(nx > 2 * nboundary);
        }
        let geometry = Geometry { x_max, y_max, nx, ny, nboundary };
        let geometry_clone = Geometry { x_max, y_max, nx, ny, nboundary };
        let dx = geometry.delta_x();
        let dy = geometry.delta_y();
        let charge_normalization = crate::fx::fx_div(FX_CHARGE_SCALE, fx_mul(dx, dy));
        FieldConfiguration {
            charges: Vec::new(),
            charges_at_last_tick: Vec::new(),
            geometry,
            cic_grid: None,
            elec_x: None,
            elec_y: None,
            current_x: None,
            current_y: None,
            mag_z: None,
            mag_z_integral: None,
            stencils: Stencils::new(geometry_clone),
            charge_normalization,
        }
    }

    /// Replace the charge set wholesale.
    pub fn set_charges(&mut self, charges: Vec<Charge>)
        requires
            old(self).wf(),
        ensures
            final(self).wf(),
            final(self).charges == charges,
            *final(self) == (FieldConfiguration { charges, ..*old(self) }),
    {
        self.charges = charges;
    }

    /// Drop every grid; the next operation that needs them reinitializes.
    pub fn reset_fields(&mut self)
        requires
            old(self).wf(),
        ensures
            final(self).wf(),
            *final(self) == (FieldConfiguration {
                cic_grid: None,
                elec_x: None,
                elec_y: None,
                current_x: None,
                current_y: None,
                mag_z: None,
                mag_z_integral: None,
                ..*old(self)
            }),
            !final(self).spec_initialized(),
    {
        self.cic_grid = None;
        self.elec_x = None;
        self.elec_y = None;
        self.mag_z = None;
        self.mag_z_integral = None;
        self.current_x = None;
        self.current_y = None;
    }

    /// True when the next operation must (re)initialize the grids: they do
    /// not exist yet, or the charge count or a charge's strength has changed
    /// since they were solved.
    pub fn needs_initialization(&self) -> (r: bool)
        requires
            self.wf(),
        ensures
            r == self.spec_needs_init(),
    {
        if self.elec_y.is_none() {
            return true;
        }
        if self.charges_at_last_tick.len() != self.charges.len() {
            return true;
        }
        let n = self.charges.len();
        let mut k: usize = 0;
        while k < n
            invariant
                n == self.charges@.len(),
                n == self.charges_at_last_tick@.len(),
                k <= n,
                forall|m: int|
                    0 <= m < k ==> self.charges_at_last_tick@[m].charge == #[trigger] self.charges@[m].charge,
            decreases n - k,
        {
            if self.charges_at_last_tick[k].charge != self.charges[k].charge {
                return true;
            }
            k += 1;
        }
        false
    }

    /// Deposit every in-domain charge onto a fresh charge-density grid;
    /// charges outside the physical domain are skipped with a diagnostic.
    pub fn make_cic_grid(&mut self, sink: &mut DiagSink)
        requires
            old(self).wf(),
        ensures
            final(self).wf(),
            *final(self) == (FieldConfiguration { cic_grid: final(self).cic_grid, ..*old(self) }),
            final(self).cic_grid is Some,
            final(self).cic_grid.unwrap()@.cells == spec_cic(
                old(self).geometry,
                old(self).stencils.spec_norm(),
                old(self).charge_normalization as int,
                old(self).charges@,
            ).0,
            final(sink).events@ == old(sink).events@ + spec_cic(
                old(self).geometry,
                old(self).stencils.spec_norm(),
                old(self).charge_normalization as int,
                old(self).charges@,
            ).1,
    {
        let nx = self.geometry.nx;
        let ny = self.geometry.ny;
        let mut grid = Grid::new(nx, ny);
        proof {
            assert(grid@.cells =~= spec_zeros((nx * ny) as nat));
        }
        let n = self.charges.len();
        let mut t: usize = 0;
        while t < n
            invariant
                self.wf(),
                nx == self.geometry.nx,
                ny == self.geometry.ny,
                n == self.charges@.len(),
                t <= n,
                grid.wf(),
                grid@.nx == nx,
                grid@.ny == ny,
                grid@.cells == spec_cic_upto(
                    self.geometry,
                    self.stencils.spec_norm(),
                    self.charge_normalization as int,
                    self.charges@,
                    t as nat,
                ).0,
                sink.events@ == old(sink).events@ + spec_cic_upto(
                    self.geometry,
                    self.stencils.spec_norm(),
                    self.charge_normalization as int,
                    self.charges@,
                    t as nat,
                ).1,
            decreases n - t,
        {
            let c = self.charges[t];
            if c.x < 0 || c.x > self.geometry.x_max || c.y < 0 || c.y > self.geometry.y_max {
                sink.record(DiagEvent::ChargeOutOfBounds);
            } else {
                proof {
                    lemma_cell_in_grid_when_in_domain_x(self.geometry, c.x as int);
                    lemma_cell_in_grid_when_in_domain_y(self.geometry, c.y as int);
                }
                let (i, j) = c.get_location_on_grid(&self.geometry);
                let value = fx_mul(c.charge, self.charge_normalization);
                self.stencils.add_softened_point(&mut grid, i, j, value);
            }
            t += 1;
        }
        self.cic_grid = Some(grid);
    }

    /// Rebuild every grid from the current charges and a solved inverse
    /// Laplacian of the charge density (`phi`): the electric field is the
    /// forward-difference gradient of `phi`, and the magnetic field, its time
    /// integral and the currents start at zero. Rejects a `phi` whose extent
    /// does not match the geometry, with a diagnostic.
    pub fn initialize_on_constraints(&mut self, phi: &Grid, sink: &mut DiagSink) -> (ok: bool)
        requires
            old(self).wf(),
            phi.wf(),
        ensures
            final(self).wf(),
            ok == (phi@.nx == old(self).geometry.nx && phi@.ny == old(self).geometry.ny),
            !ok ==> *final(self) == *old(self) && final(sink).events@ == old(sink).events@.push(
                DiagEvent::GridSizeMismatch,
            ),
            ok ==> {
                &&& *final(self) == (FieldConfiguration {
                    cic_grid: final(self).cic_grid,
                    elec_x: final(self).elec_x,
                    elec_y: final(self).elec_y,
                    current_x: final(self).current_x,
                    current_y: final(self).current_y,
                    mag_z: final(self).mag_z,
                    mag_z_integral: final(self).mag_z_integral,
                    charges_at_last_tick: final(self).charges_at_last_tick,
                    ..*old(self)
                })
                &&& final(self).charges_at_last_tick@ == old(self).charges@
                &&& final(self).spec_initialized()
                &&& final(self).cic_grid is Some
                &&& final(self).cic_grid.unwrap()@.cells == spec_cic(
                    old(self).geometry,
                    old(self).stencils.spec_norm(),
                    old(self).charge_normalization as int,
                    old(self).charges@,
                ).0
                &&& final(self).elec_x is Some
                &&& final(self).elec_y is Some
                &&& forall|a: int, b: int|
                    0 <= a < old(self).geometry.nx && 0 <= b < old(self).geometry.ny
                        ==> #[trigger] final(self).elec_x.unwrap()@.cells[a * old(
                        self,
                    ).geometry.ny as int + b] == spec_evaluate(
                        old(self).geometry,
                        phi@.cells,
                        a,
                        b,
                        StencilType::GradX,
                        DifferenceType::Forward,
                    )
                &&& forall|a: int, b: int|
                    0 <= a < old(self).geometry.nx && 0 <= b < old(self).geometry.ny
                        ==> #[trigger] final(self).elec_y.unwrap()@.cells[a * old(
                        self,
                    ).geometry.ny as int + b] == spec_evaluate(
                        old(self).geometry,
                        phi@.cells,
                        a,
                        b,
                        StencilType::GradY,
                        DifferenceType::Forward,
                    )
                &&& final(self).mag_z.unwrap()@.cells == spec_zeros(
                    (old(self).geometry.nx * old(self).geometry.ny) as nat,
                )
                &&& final(self).mag_z_integral.unwrap()@.cells == spec_zeros(
                    (old(self).geometry.nx * old(self).geometry.ny) as nat,
                )
                &&& final(self).current_x.unwrap()@.cells == spec_zeros(
                    (old(self).geometry.nx * old(self).geometry.ny) as nat,
                )
                &&& final(self).current_y.unwrap()@.cells == spec_zeros(
                    (old(self).geometry.nx * old(self).geometry.ny) as nat,
                )
                &&& final(sink).events@ == old(sink).events@ + spec_cic(
                    old(self).geometry,
                    old(self).stencils.spec_norm(),
                    old(self).charge_normalization as int,
                    old(self).charges@,
                ).1
            },
    {
        let nx = self.geometry.nx;
        let ny = self.geometry.ny;
        if phi.nx() != nx || phi.ny() != ny {
            sink.record(DiagEvent::GridSizeMismatch);
            return false;
        }
        self.make_cic_grid(sink);
        let mut elec_x = Grid::new(nx, ny);
        let mut elec_y = Grid::new(nx, ny);
        self.stencils.apply_grad(phi, &mut elec_x, StencilType::GradX, DifferenceType::Forward);
        self.stencils.apply_grad(phi, &mut elec_y, StencilType::GradY, DifferenceType::Forward);
        self.elec_x = Some(elec_x);
        self.elec_y = Some(elec_y);
        let mag_z = Grid::new(nx, ny);
        proof {
            assert(mag_z@.cells =~= spec_zeros((nx * ny) as nat));
        }
        let mag_z_integral = Grid::new(nx, ny);
        let current_x = Grid::new(nx, ny);
        let current_y = Grid::new(nx, ny);
        proof {
            assert(mag_z_integral@.cells =~= spec_zeros((nx * ny) as nat));
            assert(current_x@.cells =~= spec_zeros((nx * ny) as nat));
            assert(current_y@.cells =~= spec_zeros((nx * ny) as nat));
        }
        self.mag_z = Some(mag_z);
        self.mag_z_integral = Some(mag_z_integral);
        self.current_x = Some(current_x);
        self.current_y = Some(current_y);
        self.charges_at_last_tick = clone_charges(&self.charges);
        true
    }

    /// Make sure the grids exist and still satisfy the elliptic constraint:
    /// when they are missing, or the charge count or a strength has drifted
    /// from the snapshot, rebuild everything from `phi`, the solved inverse
    /// Laplacian of the current density; otherwise leave the state untouched.
    pub fn ensure_initialized(&mut self, phi: &Grid, sink: &mut DiagSink) -> (ok: bool)
        requires
            old(self).wf(),
            phi.wf(),
        ensures
            final(self).wf(),
            !old(self).spec_needs_init() ==> {
                &&& ok
                &&& *final(self) == *old(self)
                &&& final(sink).events@ == old(sink).events@
            },
            old(self).spec_needs_init() ==> ok == (phi@.nx == old(self).geometry.nx && phi@.ny
                == old(self).geometry.ny),
            ok ==> !final(self).spec_needs_init(),
    {
        if self.needs_initialization() {
            let ok = self.initialize_on_constraints(phi, sink);
            if ok {
                proof {
                    assert(self.charges_at_last_tick@ =~= self.charges@);
                }
            }
            ok
        } else {
            true
        }
    }

    /// Interpolate the charge-density grid at a physical position; zero when
    /// the grid does not exist yet or the position lies outside the domain.
    pub fn evaluate_cic_grid_interpolated(&self, x: i64, y: i64, sink: &mut DiagSink) -> (r: i64)
        requires
            self.wf(),
        ensures
            match self.cic_grid {
                Some(gr) => {
                    &&& (spec_query_in_domain(self.geometry, x as int, y as int) ==> {
                        &&& r == spec_interpolate(self.geometry, gr@.cells, x as int, y as int)
                        &&& final(sink).events@ == old(sink).events@
                    })
                    &&& (!spec_query_in_domain(self.geometry, x as int, y as int) ==> {
                        &&& r == 0
                        &&& final(sink).events@ == old(sink).events@.push(
                            DiagEvent::PointOutOfBounds,
                        )
                    })
                },
                None => r == 0 && final(sink).events@ == old(sink).events@,
            },
    {
        evaluate_grid_interpolated_or_0(self, &self.cic_grid, x, y, sink)
    }

    /// Interpolate both electric field components at a physical position;
    /// zeros with a diagnostic when the fields are not initialized yet.
    pub fn evaluate_elec_interpolated(&self, x: i64, y: i64, sink: &mut DiagSink) -> (r: (
        i64,
        i64,
    ))
        requires
            self.wf(),
        ensures
            !self.spec_initialized() ==> r == (0i64, 0i64) && final(sink).events@ == old(
                sink,
            ).events@.push(DiagEvent::FieldsUninitialized),
            self.spec_initialized() && spec_query_in_domain(self.geometry, x as int, y as int)
                ==> {
                &&& r.0 == spec_interpolate(
                    self.geometry,
                    self.elec_x.unwrap()@.cells,
                    x as int,
                    y as int,
                )
                &&& r.1 == spec_interpolate(
                    self.geometry,
                    self.elec_y.unwrap()@.cells,
                    x as int,
                    y as int,
                )
                &&& final(sink).events@ == old(sink).events@
            },
            self.spec_initialized() && !spec_query_in_domain(self.geometry, x as int, y as int)
                ==> {
                &&& r == (0i64, 0i64)
                &&& final(sink).events@ == old(sink).events@.push(
                    DiagEvent::PointOutOfBounds,
                ).push(DiagEvent::PointOutOfBounds)
            },
    {
        if self.elec_y.is_none() {
            sink.record(DiagEvent::FieldsUninitialized);
            return (0, 0);
        }
        let ex = evaluate_grid_interpolated_or_0(self, &self.elec_x, x, y, sink);
        let ey = evaluate_grid_interpolated_or_0(self, &self.elec_y, x, y, sink);
        (ex, ey)
    }

    /// Rebuild the current-density grids from the charge motion since the
    /// last snapshot: each charge that changed grid cell deposits a signed
    /// current density along the axis-aligned path between its old and new
    /// cell. The charge count and each strength must match the snapshot;
    /// a charge whose position has left the padded grid is skipped with a
    /// diagnostic.
    pub fn make_currents(&mut self, delta_t: i64, sink: &mut DiagSink)
        requires
            old(self).wf(),
            old(self).spec_initialized(),
            old(self).charges@.len() == old(self).charges_at_last_tick@.len(),
            forall|k: int|
                0 <= k < old(self).charges@.len() ==> old(self).charges_at_last_tick@[k].charge
                    == #[trigger] old(self).charges@[k].charge,
        ensures
            final(self).wf(),
            *final(self) == (FieldConfiguration {
                current_x: final(self).current_x,
                current_y: final(self).current_y,
                ..*old(self)
            }),
            final(self).current_x is Some,
            final(self).current_y is Some,
            final(self).current_x.unwrap()@.cells == spec_currents(
                old(self).geometry,
                old(self).stencils.spec_norm(),
                old(self).charge_normalization as int,
                old(self).charges@,
                old(self).charges_at_last_tick@,
                delta_t as int,
            ).0,
            final(self).current_y.unwrap()@.cells == spec_currents(
                old(self).geometry,
                old(self).stencils.spec_norm(),
                old(self).charge_normalization as int,
                old(self).charges@,
                old(self).charges_at_last_tick@,
                delta_t as int,
            ).1,
            final(sink).events@ == old(sink).events@ + spec_currents(
                old(self).geometry,
                old(self).stencils.spec_norm(),
                old(self).charge_normalization as int,
                old(self).charges@,
                old(self).charges_at_last_tick@,
                delta_t as int,
            ).2,
    {
        let nx = self.geometry.nx;
        let ny = self.geometry.ny;
        let mut jx = self.current_x.take().unwrap();
        let mut jy = self.current_y.take().unwrap();
        jx.fill(0);
        jy.fill(0);
        proof {
            assert(jx@.cells =~= spec_zeros((nx * ny) as nat));
            assert(jy@.cells =~= spec_zeros((nx * ny) as nat));
        }
        let dx = self.geometry.delta_x();
        let dy = self.geometry.delta_y();
        let n = self.charges.len();
        let mut t: usize = 0;
        while t < n
            invariant
                self.geometry.wf(),
                self.geometry.nx >= 8,
                self.geometry.ny >= 8,
                self.stencils.wf(),
                self.stencils.geometry == self.geometry,
                nx == self.geometry.nx,
                ny == self.geometry.ny,
                dx == self.geometry.spec_delta_x(),
                dy == self.geometry.spec_delta_y(),
                n == self.charges@.len(),
                n == self.charges_at_last_tick@.len(),
                t <= n,
                jx.wf(),
                jx@.nx == nx,
                jx@.ny == ny,
                jy.wf(),
                jy@.nx == nx,
                jy@.ny == ny,
                jx@.cells == spec_currents_upto(
                    self.geometry,
                    self.stencils.spec_norm(),
                    self.charge_normalization as int,
                    self.charges@,
                    self.charges_at_last_tick@,
                    delta_t as int,
                    t as nat,
                ).0,
                jy@.cells == spec_currents_upto(
                    self.geometry,
                    self.stencils.spec_norm(),
                    self.charge_normalization as int,
                    self.charges@,
                    self.charges_at_last_tick@,
                    delta_t as int,
                    t as nat,
                ).1,
                sink.events@ == old(sink).events@ + spec_currents_upto(
                    self.geometry,
                    self.stencils.spec_norm(),
                    self.charge_normalization as int,
                    self.charges@,
                    self.charges_at_last_tick@,
                    delta_t as int,
                    t as nat,
                ).2,
            decreases n - t,
        {
            let c_old = self.charges_at_last_tick[t];
            let c_now = self.charges[t];
            let cell_old = self.geometry.position_to_cell(c_old.x, c_old.y);
            let cell_now = self.geometry.position_to_cell(c_now.x, c_now.y);
            if cell_old.is_none() || cell_now.is_none() {
                sink.record(DiagEvent::CurrentPathOutOfGrid);
            } else {
                let (i_earlier, j_earlier) = cell_old.unwrap();
                let (i_now, j_now) = cell_now.unwrap();
                if !(i_earlier == i_now && j_earlier == j_now) {
                    let i_min = if i_earlier <= i_now {
                        i_earlier
                    } else {
                        i_now
                    };
                    let i_max = if i_earlier <= i_now {
                        i_now
                    } else {
                        i_earlier
                    };
                    let j_min = if j_earlier <= j_now {
                        j_earlier
                    } else {
                        j_now
                    };
                    let j_max = if j_earlier <= j_now {
                        j_now
                    } else {
                        j_earlier
                    };
                    let base_x = fx_div(fx_mul(fx_mul(c_now.charge, self.charge_normalization), dx), delta_t);
                    let x_density: i64 = if i_now > i_earlier {
                        base_x
                    } else if i_now < i_earlier {
                        fx_sub(0, base_x)
                    } else {
                        0
                    };
                    let base_y = fx_div(fx_mul(fx_mul(c_now.charge, self.charge_normalization), dy), delta_t);
                    let y_density: i64 = if j_now > j_earlier {
                        base_y
                    } else if j_now < j_earlier {
                        fx_sub(0, base_y)
                    } else {
                        0
                    };
                    let ghost jx_start = jx@.cells;
                    let mut i: usize = i_min;
                    while i < i_max
                        invariant
                            self.geometry.wf(),
                            self.geometry.nx >= 8,
                            self.geometry.ny >= 8,
                            self.stencils.wf(),
                            self.stencils.geometry == self.geometry,
                            nx == self.geometry.nx,
                            ny == self.geometry.ny,
                            jx.wf(),
                            jx@.nx == nx,
                            jx@.ny == ny,
                            i_min <= i <= i_max,
                            i_max < nx,
                            j_earlier < ny,
                            x_density == spec_axis_density(
                                c_now.charge as int,
                                self.charge_normalization as int,
                                self.geometry.spec_delta_x(),
                                delta_t as int,
                                i_now - i_earlier,
                            ),
                            jx@.cells == spec_line_x(
                                jx_start,
                                self.geometry,
                                self.stencils.spec_norm(),
                                i_min as int,
                                (i - i_min) as nat,
                                j_earlier as int,
                                x_density as int,
                            ),
                        decreases i_max - i,
                    {
                        self.stencils.add_softened_point(&mut jx, i, j_earlier, x_density);
                        i += 1;
                    }
                    let ghost jy_start = jy@.cells;
                    let mut j: usize = j_min;
                    while j < j_max
                        invariant
                            self.geometry.wf(),
                            self.geometry.nx >= 8,
                            self.geometry.ny >= 8,
                            self.stencils.wf(),
                            self.stencils.geometry == self.geometry,
                            nx == self.geometry.nx,
                            ny == self.geometry.ny,
                            jy.wf(),
                            jy@.nx == nx,
                            jy@.ny == ny,
                            j_min <= j <= j_max,
                            j_max < ny,
                            i_now < nx,
                            y_density == spec_axis_density(
                                c_now.charge as int,
                                self.charge_normalization as int,
                                self.geometry.spec_delta_y(),
                                delta_t as int,
                                j_now - j_earlier,
                            ),
                            jy@.cells == spec_line_y(
                                jy_start,
                                self.geometry,
                                self.stencils.spec_norm(),
                                j_min as int,
                                (j - j_min) as nat,
                                i_now as int,
                                y_density as int,
                            ),
                        decreases j_max - j,
                    {
                        self.stencils.add_softened_point(&mut jy, i_now, j, y_density);
                        j += 1;
                    }
                }
            }
            t += 1;
        }
        self.current_x = Some(jx);
        self.current_y = Some(jy);
    }

    /// Advance the fields by one timestep of length `delta_t`: rebuild the
    /// currents from the charge motion, snapshot the charges, advance the
    /// magnetic field by the curl of E with boundary damping, then advance
    /// the electric field by the curl of B minus the currents with boundary
    /// damping. When the grids are missing or the charge set has drifted,
    /// nothing moves and the caller is asked to initialize first.
    pub fn tick(&mut self, delta_t: i64, sink: &mut DiagSink) -> (r: TickOutcome)
        requires
            old(self).wf(),
        ensures
            final(self).wf(),
            r == TickOutcome::NeedsInitialization <==> old(self).spec_needs_init(),
            r == TickOutcome::NeedsInitialization ==> {
                &&& *final(self) == *old(self)
                &&& final(sink).events@ == old(sink).events@
            },
            r == TickOutcome::Stepped ==> {
                &&& *final(self) == (FieldConfiguration {
                    charges_at_last_tick: final(self).charges_at_last_tick,
                    current_x: final(self).current_x,
                    current_y: final(self).current_y,
                    elec_x: final(self).elec_x,
                    elec_y: final(self).elec_y,
                    mag_z: final(self).mag_z,
                    mag_z_integral: final(self).mag_z_integral,
                    ..*old(self)
                })
                &&& final(self).charges_at_last_tick@ == old(self).charges@
                &&& final(self).spec_initialized()
                &&& final(self).current_x is Some
                &&& final(self).current_y is Some
                &&& final(self).current_x.unwrap()@.cells == spec_currents(
                    old(self).geometry,
                    old(self).stencils.spec_norm(),
                    old(self).charge_normalization as int,
                    old(self).charges@,
                    old(self).charges_at_last_tick@,
                    delta_t as int,
                ).0
                &&& final(self).current_y.unwrap()@.cells == spec_currents(
                    old(self).geometry,
                    old(self).stencils.spec_norm(),
                    old(self).charge_normalization as int,
                    old(self).charges@,
                    old(self).charges_at_last_tick@,
                    delta_t as int,
                ).1
                &&& final(sink).events@ == old(sink).events@ + spec_currents(
                    old(self).geometry,
                    old(self).stencils.spec_norm(),
                    old(self).charge_normalization as int,
                    old(self).charges@,
                    old(self).charges_at_last_tick@,
                    delta_t as int,
                ).2
                &&& forall|a: int, b: int|
                    0 <= a < old(self).geometry.nx && 0 <= b < old(self).geometry.ny
                        ==> #[trigger] final(self).mag_z.unwrap()@.cells[a * old(
                        self,
                    ).geometry.ny as int + b] == spec_tick_bz(
                        old(self).geometry,
                        old(self).elec_x.unwrap()@.cells,
                        old(self).elec_y.unwrap()@.cells,
                        old(self).mag_z.unwrap()@.cells,
                        old(self).mag_z_integral.unwrap()@.cells,
                        delta_t as int,
                        a,
                        b,
                    )
                &&& forall|a: int, b: int|
                    0 <= a < old(self).geometry.nx && 0 <= b < old(self).geometry.ny
                        ==> #[trigger] final(self).mag_z_integral.unwrap()@.cells[a * old(
                        self,
                    ).geometry.ny as int + b] == spec_tick_bint(
                        old(self).geometry,
                        old(self).elec_x.unwrap()@.cells,
                        old(self).elec_y.unwrap()@.cells,
                        old(self).mag_z.unwrap()@.cells,
                        old(self).mag_z_integral.unwrap()@.cells,
                        delta_t as int,
                        a,
                        b,
                    )
                &&& forall|a: int, b: int|
                    0 <= a < old(self).geometry.nx && 0 <= b < old(self).geometry.ny
                        ==> #[trigger] final(self).elec_x.unwrap()@.cells[a * old(
                        self,
                    ).geometry.ny as int + b] == spec_tick_ex(
                        old(self).geometry,
                        final(self).mag_z.unwrap()@.cells,
                        final(self).mag_z_integral.unwrap()@.cells,
                        final(self).current_x.unwrap()@.cells,
                        old(self).elec_x.unwrap()@.cells,
                        delta_t as int,
                        a,
                        b,
                    )
                &&& forall|a: int, b: int|
                    0 <= a < old(self).geometry.nx && 0 <= b < old(self).geometry.ny
                        ==> #[trigger] final(self).elec_y.unwrap()@.cells[a * old(
                        self,
                    ).geometry.ny as int + b] == spec_tick_ey(
                        old(self).geometry,
                        final(self).mag_z.unwrap()@.cells,
                        final(self).mag_z_integral.unwrap()@.cells,
                        final(self).current_y.unwrap()@.cells,
                        old(self).elec_y.unwrap()@.cells,
                        delta_t as int,
                        a,
                        b,
                    )
            },
    {
        if self.needs_initialization() {
            return TickOutcome::NeedsInitialization;
        }
        self.make_currents(delta_t, sink);
        self.charges_at_last_tick = clone_charges(&self.charges);
        let nx = self.geometry.nx;
        let ny = self.geometry.ny;
        let nb = self.geometry.nboundary;
        let total: usize = nx * ny;
        let ex_g = self.elec_x.take().unwrap();
        let ey_g = self.elec_y.take().unwrap();
        let mut bz_g = self.mag_z.take().unwrap();
        let mut bint_g = self.mag_z_integral.take().unwrap();
        let ghost bz0 = bz_g@.cells;
        let ghost bint0 = bint_g@.cells;

        let mut t: usize = 0;
        while t < total
            invariant
                self.geometry.wf(),
                self.stencils.wf(),
                self.stencils.geometry == self.geometry,
                nx == self.geometry.nx,
                ny == self.geometry.ny,
                nb == self.geometry.nboundary,
                total == nx * ny,
                t <= total,
                ex_g.wf() && ex_g@.nx == nx && ex_g@.ny == ny,
                ey_g.wf() && ey_g@.nx == nx && ey_g@.ny == ny,
                bz_g.wf() && bz_g@.nx == nx && bz_g@.ny == ny,
                bint_g.wf() && bint_g@.nx == nx && bint_g@.ny == ny,
                bz0.len() == total,
                bint0.len() == total,
                forall|k: int|
                    0 <= k < t ==> #[trigger] bz_g@.cells[k] == spec_tick_bz(
                        self.geometry,
                        ex_g@.cells,
                        ey_g@.cells,
                        bz0,
                        bint0,
                        delta_t as int,
                        k / ny as int,
                        k % ny as int,
                    ),
                forall|k: int| t <= k < total ==> #[trigger] bz_g@.cells[k] == bz0[k],
                forall|k: int|
                    0 <= k < t ==> #[trigger] bint_g@.cells[k] == spec_tick_bint(
                        self.geometry,
                        ex_g@.cells,
                        ey_g@.cells,
                        bz0,
                        bint0,
                        delta_t as int,
                        k / ny as int,
                        k % ny as int,
                    ),
                forall|k: int| t <= k < total ==> #[trigger] bint_g@.cells[k] == bint0[k],
            decreases total - t,
        {
            let i: usize = t / ny;
            let j: usize = t % ny;
            proof {
                crate::grid::row_col_of_linear(t as int, nx as int, ny as int);
            }
            let d_elec_x_dy = self.stencils.evaluate(
                &ex_g,
                i,
                j,
                &StencilType::GradY,
                &DifferenceType::Forward,
            );
            let d_elec_y_dx = self.stencils.evaluate(
                &ey_g,
                i,
                j,
                &StencilType::GradX,
                &DifferenceType::Forward,
            );
            let sigma_x = crate::pml::sigma_at(i, nx, nb);
            let sigma_y = crate::pml::sigma_at(j, ny, nb);
            let bz_old = bz_g.get(i, j);
            let bint_old = bint_g.get(i, j);
            let b1 = fx_add(bz_old, fx_mul(fx_sub(d_elec_x_dy, d_elec_y_dx), delta_t));
            let damp = fx_mul(
                fx_sub(
                    fx_sub(0, fx_mul(fx_add(sigma_x, sigma_y), b1)),
                    fx_mul(fx_mul(sigma_x, sigma_y), bint_old),
                ),
                delta_t,
            );
            let b2 = fx_add(b1, damp);
            let bint2 = fx_add(bint_old, fx_mul(b2, delta_t));
            let ghost bz_prev = bz_g@.cells;
            let ghost bint_prev = bint_g@.cells;
            bz_g.set(i, j, b2);
            bint_g.set(i, j, bint2);
            t += 1;
            proof {
                assert(i as int * ny as int + j as int == t - 1);
                assert forall|k: int| 0 <= k < t implies #[trigger] bz_g@.cells[k] == spec_tick_bz(
                    self.geometry,
                    ex_g@.cells,
                    ey_g@.cells,
                    bz0,
                    bint0,
                    delta_t as int,
                    k / ny as int,
                    k % ny as int,
                ) by {
                    if k < t - 1 {
                        assert(bz_g@.cells[k] == bz_prev[k]);
                    } else {
                        assert(bz_g@.cells[k] == b2);
                    }
                }
                assert forall|k: int| t <= k < total implies #[trigger] bz_g@.cells[k] == bz0[k] by {
                    assert(bz_g@.cells[k] == bz_prev[k]);
                }
                assert forall|k: int| 0 <= k < t implies #[trigger] bint_g@.cells[k]
                    == spec_tick_bint(
                    self.geometry,
                    ex_g@.cells,
                    ey_g@.cells,
                    bz0,
                    bint0,
                    delta_t as int,
                    k / ny as int,
                    k % ny as int,
                ) by {
                    if k < t - 1 {
                        assert(bint_g@.cells[k] == bint_prev[k]);
                    } else {
                        assert(bint_g@.cells[k] == bint2);
                    }
                }
                assert forall|k: int| t <= k < total implies #[trigger] bint_g@.cells[k]
                    == bint0[k] by {
                    assert(bint_g@.cells[k] == bint_prev[k]);
                }
            }
        }

        let mut ex_m = ex_g;
        let mut ey_m = ey_g;
        let ghost ex0 = ex_m@.cells;
        let ghost ey0 = ey_m@.cells;
        let jx_g = self.current_x.take().unwrap();
        let jy_g = self.current_y.take().unwrap();
        let mut t: usize = 0;
        while t < total
            invariant
                self.geometry.wf(),
                self.stencils.wf(),
                self.stencils.geometry == self.geometry,
                nx == self.geometry.nx,
                ny == self.geometry.ny,
                nb == self.geometry.nboundary,
                total == nx * ny,
                t <= total,
                ex_m.wf() && ex_m@.nx == nx && ex_m@.ny == ny,
                ey_m.wf() && ey_m@.nx == nx && ey_m@.ny == ny,
                bz_g.wf() && bz_g@.nx == nx && bz_g@.ny == ny,
                bint_g.wf() && bint_g@.nx == nx && bint_g@.ny == ny,
                jx_g.wf() && jx_g@.nx == nx && jx_g@.ny == ny,
                jy_g.wf() && jy_g@.nx == nx && jy_g@.ny == ny,
                ex0.len() == total,
                ey0.len() == total,
                forall|k: int|
                    0 <= k < t ==> #[trigger] ex_m@.cells[k] == spec_tick_ex(
                        self.geometry,
                        bz_g@.cells,
                        bint_g@.cells,
                        jx_g@.cells,
                        ex0,
                        delta_t as int,
                        k / ny as int,
                        k % ny as int,
                    ),
                forall|k: int| t <= k < total ==> #[trigger] ex_m@.cells[k] == ex0[k],
                forall|k: int|
                    0 <= k < t ==> #[trigger] ey_m@.cells[k] == spec_tick_ey(
                        self.geometry,
                        bz_g@.cells,
                        bint_g@.cells,
                        jy_g@.cells,
                        ey0,
                        delta_t as int,
                        k / ny as int,
                        k % ny as int,
                    ),
                forall|k: int| t <= k < total ==> #[trigger] ey_m@.cells[k] == ey0[k],
            decreases total - t,
        {
            let i: usize = t / ny;
            let j: usize = t % ny;
            proof {
                crate::grid::row_col_of_linear(t as int, nx as int, ny as int);
            }
            let d_magz_dy = self.stencils.evaluate(
                &bz_g,
                i,
                j,
                &StencilType::GradY,
                &DifferenceType::Backward,
            );
            let d_magz_dx = self.stencils.evaluate(
                &bz_g,
                i,
                j,
                &StencilType::GradX,
                &DifferenceType::Backward,
            );
            let d_bint_dy = self.stencils.evaluate(
                &bint_g,
                i,
                j,
                &StencilType::GradY,
                &DifferenceType::Backward,
            );
            let d_bint_dx = self.stencils.evaluate(
                &bint_g,
                i,
                j,
                &StencilType::GradX,
                &DifferenceType::Backward,
            );
            let sigma_x = crate::pml::sigma_at(i, nx, nb);
            let sigma_y = crate::pml::sigma_at(j, ny, nb);
            let jx_here = jx_g.get(i, j);
            let jy_here = jy_g.get(i, j);
            let ex_old = ex_m.get(i, j);
            let ey_old = ey_m.get(i, j);
            let ex1 = fx_add(ex_old, fx_mul(fx_sub(d_magz_dy, jx_here), delta_t));
            let ey1 = fx_add(ey_old, fx_mul(fx_sub(fx_sub(0, d_magz_dx), jy_here), delta_t));
            let pml_x_term = fx_add(fx_sub(0, fx_mul(sigma_y, ex1)), fx_mul(sigma_x, d_bint_dy));
            let pml_y_term = fx_sub(fx_sub(0, fx_mul(sigma_x, ey1)), fx_mul(sigma_y, d_bint_dx));
            let ex2 = fx_add(ex1, fx_mul(pml_x_term, delta_t));
            let ey2 = fx_add(ey1, fx_mul(pml_y_term, delta_t));
            let ghost ex_prev = ex_m@.cells;
            let ghost ey_prev = ey_m@.cells;
            ex_m.set(i, j, ex2);
            ey_m.set(i, j, ey2);
            t += 1;
            proof {
                assert(i as int * ny as int + j as int == t - 1);
                assert forall|k: int| 0 <= k < t implies #[trigger] ex_m@.cells[k] == spec_tick_ex(
                    self.geometry,
                    bz_g@.cells,
                    bint_g@.cells,
                    jx_g@.cells,
                    ex0,
                    delta_t as int,
                    k / ny as int,
                    k % ny as int,
                ) by {
                    if k < t - 1 {
                        assert(ex_m@.cells[k] == ex_prev[k]);
                    } else {
                        assert(ex_m@.cells[k] == ex2);
                    }
                }
                assert forall|k: int| t <= k < total implies #[trigger] ex_m@.cells[k] == ex0[k] by {
                    assert(ex_m@.cells[k] == ex_prev[k]);
                }
                assert forall|k: int| 0 <= k < t implies #[trigger] ey_m@.cells[k] == spec_tick_ey(
                    self.geometry,
                    bz_g@.cells,
                    bint_g@.cells,
                    jy_g@.cells,
                    ey0,
                    delta_t as int,
                    k / ny as int,
                    k % ny as int,
                ) by {
                    if k < t - 1 {
                        assert(ey_m@.cells[k] == ey_prev[k]);
                    } else {
                        assert(ey_m@.cells[k] == ey2);
                    }
                }
                assert forall|k: int| t <= k < total implies #[trigger] ey_m@.cells[k]
                    == ey0[k] by {
                    assert(ey_m@.cells[k] == ey_prev[k]);
                }
            }
        }

        self.elec_x = Some(ex_m);
        self.elec_y = Some(ey_m);
        self.mag_z = Some(bz_g);
        self.mag_z_integral = Some(bint_g);
        self.current_x = Some(jx_g);
        self.current_y = Some(jy_g);
        proof {
            assert forall|a: int, b: int|
                0 <= a < self.geometry.nx && 0 <= b < self.geometry.ny implies #[trigger] self
                .mag_z.unwrap()@.cells[a * self.geometry.ny as int + b] == spec_tick_bz(
                self.geometry,
                ex0,
                ey0,
                bz0,
                bint0,
                delta_t as int,
                a,
                b,
            ) by {
                let k = a * self.geometry.ny as int + b;
                crate::grid::index_in_range(self.mag_z.unwrap()@, a, b);
                vstd::arithmetic::div_mod::lemma_fundamental_div_mod_converse(
                    k,
                    self.geometry.ny as int,
                    a,
                    b,
                );
            }
            assert forall|a: int, b: int|
                0 <= a < self.geometry.nx && 0 <= b < self.geometry.ny implies #[trigger] self
                .mag_z_integral.unwrap()@.cells[a * self.geometry.ny as int + b] == spec_tick_bint(
                self.geometry,
                ex0,
                ey0,
                bz0,
                bint0,
                delta_t as int,
                a,
                b,
            ) by {
                let k = a * self.geometry.ny as int + b;
                crate::grid::index_in_range(self.mag_z_integral.unwrap()@, a, b);
                vstd::arithmetic::div_mod::lemma_fundamental_div_mod_converse(
                    k,
                    self.geometry.ny as int,
                    a,
                    b,
                );
            }
            assert forall|a: int, b: int|
                0 <= a < self.geometry.nx && 0 <= b < self.geometry.ny implies #[trigger] self
                .elec_x.unwrap()@.cells[a * self.geometry.ny as int + b] == spec_tick_ex(
                self.geometry,
                self.mag_z.unwrap()@.cells,
                self.mag_z_integral.unwrap()@.cells,
                self.current_x.unwrap()@.cells,
                ex0,
                delta_t as int,
                a,
                b,
            ) by {
                let k = a * self.geometry.ny as int + b;
                crate::grid::index_in_range(self.elec_x.unwrap()@, a, b);
                vstd::arithmetic::div_mod::lemma_fundamental_div_mod_converse(
                    k,
                    self.geometry.ny as int,
                    a,
                    b,
                );
            }
            assert forall|a: int, b: int|
                0 <= a < self.geometry.nx && 0 <= b < self.geometry.ny implies #[trigger] self
                .elec_y.unwrap()@.cells[a * self.geometry.ny as int + b] == spec_tick_ey(
                self.geometry,
                self.mag_z.unwrap()@.cells,
                self.mag_z_integral.unwrap()@.cells,
                self.current_y.unwrap()@.cells,
                ey0,
                delta_t as int,
                a,
                b,
            ) by {
                let k = a * self.geometry.ny as int + b;
                crate::grid::index_in_range(self.elec_y.unwrap()@, a, b);
                vstd::arithmetic::div_mod::lemma_fundamental_div_mod_converse(
                    k,
                    self.geometry.ny as int,
                    a,
                    b,
                );
            }
        }
        TickOutcome::Stepped
    }

    /// The charge closest to a position, if any lies within `FX_FAR`.
    pub fn closest_charge(&self, x: i64, y: i64) -> (r: Option<Charge>)
        ensures
            r == spec_closest_upto(self.charges@, x as int, y as int, self.charges@.len()).0,
            r is Some ==> self.charges@.len() > 0,
    {
        let mut closest: Option<Charge> = None;
        let mut closest_distance: i64 = FX_FAR;
        let n = self.charges.len();
        let mut t: usize = 0;
        while t < n
            invariant
                n == self.charges@.len(),
                t <= n,
                closest == spec_closest_upto(self.charges@, x as int, y as int, t as nat).0,
                closest_distance == spec_closest_upto(
                    self.charges@,
                    x as int,
                    y as int,
                    t as nat,
                ).1,
            decreases n - t,
        {
            let c = self.charges[t];
            let dx = fx_sub(x, c.x);
            let dy = fx_sub(y, c.y);
            let distance = fx_sqrt(fx_add(fx_mul(dx, dx), fx_mul(dy, dy)));
            if distance < closest_distance {
                closest = Some(c);
                closest_distance = distance;
            }
            t += 1;
        }
        closest
    }
}

/// What one call of `tick` did.
#[derive(Clone, Copy, PartialEq, Eq, Structural, Debug)]
pub enum TickOutcome {
    /// The fields advanced by one timestep.
    Stepped,
    /// The grids are missing or the charge set has drifted from the snapshot;
    /// the caller must solve the constraint and initialize before ticking.
    NeedsInitialization,
}

/// True when a charge's position maps to a cell of the (padded) grid.
pub open spec fn spec_on_grid(g: Geometry, c: Charge) -> bool {
    &&& 0 <= g.spec_cell_x(c.x as int) < g.nx
    &&& 0 <= g.spec_cell_y(c.y as int) < g.ny
}

/// The signed current density a charge contributes along one axis:
/// `sign * strength * charge_normalization * delta / delta_t`.
pub open spec fn spec_axis_density(q: int, cnorm: int, delta: int, dt: int, step: int) -> int {
    let base = spec_fx_div(spec_fx_mul(spec_fx_mul(q, cnorm), delta), dt);
    if step > 0 {
        base
    } else if step < 0 {
        spec_fx_sub(0, base)
    } else {
        0
    }
}

/// Deposit a softened point at each of `count` consecutive cells along the
/// x axis, starting at column `i_min`, all in row `j`.
pub open spec fn spec_line_x(
    cells: Seq<i64>,
    g: Geometry,
    snorm: int,
    i_min: int,
    count: nat,
    j: int,
    value: int,
) -> Seq<i64>
    decreases count,
{
    if count == 0 {
        cells
    } else {
        spec_deposit(
            spec_line_x(cells, g, snorm, i_min, (count - 1) as nat, j, value),
            g.nx as int,
            g.ny as int,
            snorm,
            i_min + count - 1,
            j,
            value,
        )
    }
}

/// Deposit a softened point at each of `count` consecutive cells along the
/// y axis, starting at row `j_min`, all in column `i`.
pub open spec fn spec_line_y(
    cells: Seq<i64>,
    g: Geometry,
    snorm: int,
    j_min: int,
    count: nat,
    i: int,
    value: int,
) -> Seq<i64>
    decreases count,
{
    if count == 0 {
        cells
    } else {
        spec_deposit(
            spec_line_y(cells, g, snorm, j_min, (count - 1) as nat, i, value),
            g.nx as int,
            g.ny as int,
            snorm,
            i,
            j_min + count - 1,
            value,
        )
    }
}

/// The current grids and diagnostics after processing the first t charge
/// pairs: a charge that moved between grid cells deposits a signed current
/// density along the axis-aligned path between its old and new cell (the
/// x leg first, in the old row; then the y leg, in the new column); each
/// range is half open, from the lower cell inclusive to the higher exclusive.
pub open spec fn spec_currents_upto(
    g: Geometry,
    snorm: int,
    cnorm: int,
    now: Seq<Charge>,
    before: Seq<Charge>,
    dt: int,
    t: nat,
) -> (Seq<i64>, Seq<i64>, Seq<DiagEvent>)
    decreases t,
{
    if t == 0 {
        (spec_zeros((g.nx * g.ny) as nat), spec_zeros((g.nx * g.ny) as nat), Seq::empty())
    } else {
        let prev = spec_currents_upto(g, snorm, cnorm, now, before, dt, (t - 1) as nat);
        let c_old = before[t - 1];
        let c_now = now[t - 1];
        if !(spec_on_grid(g, c_old) && spec_on_grid(g, c_now)) {
            (prev.0, prev.1, prev.2.push(DiagEvent::CurrentPathOutOfGrid))
        } else {
            let ie = (g.spec_cell_x(c_old.x as int), g.spec_cell_y(c_old.y as int));
            let inow = (g.spec_cell_x(c_now.x as int), g.spec_cell_y(c_now.y as int));
            if ie == inow {
                prev
            } else {
                let i_min = if ie.0 <= inow.0 {
                    ie.0
                } else {
                    inow.0
                };
                let i_max = if ie.0 <= inow.0 {
                    inow.0
                } else {
                    ie.0
                };
                let j_min = if ie.1 <= inow.1 {
                    ie.1
                } else {
                    inow.1
                };
                let j_max = if ie.1 <= inow.1 {
                    inow.1
                } else {
                    ie.1
                };
                let x_density = spec_axis_density(
                    c_now.charge as int,
                    cnorm,
                    g.spec_delta_x(),
                    dt,
                    inow.0 - ie.0,
                );
                let y_density = spec_axis_density(
                    c_now.charge as int,
                    cnorm,
                    g.spec_delta_y(),
                    dt,
                    inow.1 - ie.1,
                );
                (
                    spec_line_x(prev.0, g, snorm, i_min, (i_max - i_min) as nat, ie.1, x_density),
                    spec_line_y(prev.1, g, snorm, j_min, (j_max - j_min) as nat, inow.0, y_density),
                    prev.2,
                )
            }
        }
    }
}

/// The current grids of a pair of charge lists.
pub open spec fn spec_currents(
    g: Geometry,
    snorm: int,
    cnorm: int,
    now: Seq<Charge>,
    before: Seq<Charge>,
    dt: int,
) -> (Seq<i64>, Seq<i64>, Seq<DiagEvent>) {
    spec_currents_upto(g, snorm, cnorm, now, before, dt, now.len())
}

/// The magnetic field after one leapfrog step at cell (i, j): the curl of E
/// advances it by `dt`, then the absorbing-boundary damping
/// `(-(sx+sy)*Bz - sx*sy*Bz_integral) * dt` is added.
pub open spec fn spec_tick_bz(
    g: Geometry,
    ex: Seq<i64>,
    ey: Seq<i64>,
    bz: Seq<i64>,
    bint: Seq<i64>,
    dt: int,
    i: int,
    j: int,
) -> int {
    let idx = i * g.ny as int + j;
    let curl = spec_fx_sub(
        spec_evaluate(g, ex, i, j, StencilType::GradY, DifferenceType::Forward),
        spec_evaluate(g, ey, i, j, StencilType::GradX, DifferenceType::Forward),
    );
    let b1 = spec_fx_add(bz[idx] as int, spec_fx_mul(curl, dt));
    let sx = crate::pml::spec_sigma(i, g.nx as int, g.nboundary as int);
    let sy = crate::pml::spec_sigma(j, g.ny as int, g.nboundary as int);
    let damp = spec_fx_mul(
        spec_fx_sub(
            spec_fx_sub(0, spec_fx_mul(spec_fx_add(sx, sy), b1)),
            spec_fx_mul(spec_fx_mul(sx, sy), bint[idx] as int),
        ),
        dt,
    );
    spec_fx_add(b1, damp)
}

/// The time integral of the magnetic field after one leapfrog step at cell
/// (i, j): the updated field times `dt` is added.
pub open spec fn spec_tick_bint(
    g: Geometry,
    ex: Seq<i64>,
    ey: Seq<i64>,
    bz: Seq<i64>,
    bint: Seq<i64>,
    dt: int,
    i: int,
    j: int,
) -> int {
    let idx = i * g.ny as int + j;
    spec_fx_add(bint[idx] as int, spec_fx_mul(spec_tick_bz(g, ex, ey, bz, bint, dt, i, j), dt))
}

/// The x component of the electric field after one leapfrog step at cell
/// (i, j), from the already-updated magnetic grids: the curl of B minus the
/// current advances it, then the absorbing-boundary damping
/// `(-sy*Ex + sx*d(Bz_integral)/dy) * dt` is added.
pub open spec fn spec_tick_ex(
    g: Geometry,
    bz: Seq<i64>,
    bint: Seq<i64>,
    jx: Seq<i64>,
    ex: Seq<i64>,
    dt: int,
    i: int,
    j: int,
) -> int {
    let idx = i * g.ny as int + j;
    let d_bz_dy = spec_evaluate(g, bz, i, j, StencilType::GradY, DifferenceType::Backward);
    let e1 = spec_fx_add(ex[idx] as int, spec_fx_mul(spec_fx_sub(d_bz_dy, jx[idx] as int), dt));
    let sx = crate::pml::spec_sigma(i, g.nx as int, g.nboundary as int);
    let sy = crate::pml::spec_sigma(j, g.ny as int, g.nboundary as int);
    let pml_term = spec_fx_add(
        spec_fx_sub(0, spec_fx_mul(sy, e1)),
        spec_fx_mul(
            sx,
            spec_evaluate(g, bint, i, j, StencilType::GradY, DifferenceType::Backward),
        ),
    );
    spec_fx_add(e1, spec_fx_mul(pml_term, dt))
}

/// The y component of the electric field after one leapfrog step at cell
/// (i, j), from the already-updated magnetic grids: minus the curl of B minus
/// the current advances it, then the absorbing-boundary damping
/// `(-sx*Ey - sy*d(Bz_integral)/dx) * dt` is added.
pub open spec fn spec_tick_ey(
    g: Geometry,
    bz: Seq<i64>,
    bint: Seq<i64>,
    jy: Seq<i64>,
    ey: Seq<i64>,
    dt: int,
    i: int,
    j: int,
) -> int {
    let idx = i * g.ny as int + j;
    let d_bz_dx = spec_evaluate(g, bz, i, j, StencilType::GradX, DifferenceType::Backward);
    let e1 = spec_fx_add(
        ey[idx] as int,
        spec_fx_mul(spec_fx_sub(spec_fx_sub(0, d_bz_dx), jy[idx] as int), dt),
    );
    let sx = crate::pml::spec_sigma(i, g.nx as int, g.nboundary as int);
    let sy = crate::pml::spec_sigma(j, g.ny as int, g.nboundary as int);
    let pml_term = spec_fx_sub(
        spec_fx_sub(0, spec_fx_mul(sx, e1)),
        spec_fx_mul(
            sy,
            spec_evaluate(g, bint, i, j, StencilType::GradX, DifferenceType::Backward),
        ),
    );
    spec_fx_add(e1, spec_fx_mul(pml_term, dt))
}

/// Charges that have not moved induce no current: when the charge list
/// matches the snapshot exactly, both current grids stay all zero.
pub proof fn lemma_static_charges_no_current(
    g: Geometry,
    snorm: int,
    cnorm: int,
    charges: Seq<Charge>,
    dt: int,
    t: nat,
)
    ensures
        spec_currents_upto(g, snorm, cnorm, charges, charges, dt, t).0 == spec_zeros(
            (g.nx * g.ny) as nat,
        ),
        spec_currents_upto(g, snorm, cnorm, charges, charges, dt, t).1 == spec_zeros(
            (g.nx * g.ny) as nat,
        ),
    decreases t,
{
    if t > 0 {
        lemma_static_charges_no_current(g, snorm, cnorm, charges, dt, (t - 1) as nat);
    }
}

/// A single charge moved by exactly one grid cell in x deposits, onto
/// all-zero current grids, exactly one softened point on the x current grid —
/// at the old cell, with density `strength * charge_normalization * dx / dt`
/// signed by the direction of motion — and nothing on the y current grid.
pub proof fn lemma_single_cell_move_current(
    g: Geometry,
    snorm: int,
    cnorm: int,
    now: Seq<Charge>,
    before: Seq<Charge>,
    dt: int,
)
    requires
        now.len() == 1,
        before.len() == 1,
        spec_on_grid(g, now[0]),
        spec_on_grid(g, before[0]),
        g.spec_cell_x(now[0].x as int) == g.spec_cell_x(before[0].x as int) + 1,
        g.spec_cell_y(now[0].y as int) == g.spec_cell_y(before[0].y as int),
    ensures
        spec_currents(g, snorm, cnorm, now, before, dt).0 == spec_deposit(
            spec_zeros((g.nx * g.ny) as nat),
            g.nx as int,
            g.ny as int,
            snorm,
            g.spec_cell_x(before[0].x as int),
            g.spec_cell_y(before[0].y as int),
            spec_fx_div(spec_fx_mul(spec_fx_mul(now[0].charge as int, cnorm), g.spec_delta_x()), dt),
        ),
        spec_currents(g, snorm, cnorm, now, before, dt).1 == spec_zeros((g.nx * g.ny) as nat),
        spec_currents(g, snorm, cnorm, now, before, dt).2 == Seq::<DiagEvent>::empty(),
{
    let ie = (g.spec_cell_x(before[0].x as int), g.spec_cell_y(before[0].y as int));
    let zeros = spec_zeros((g.nx * g.ny) as nat);
    let density = spec_axis_density(now[0].charge as int, cnorm, g.spec_delta_x(), dt, 1);
    assert(spec_currents_upto(g, snorm, cnorm, now, before, dt, 0).0 == zeros);
    assert(spec_line_x(zeros, g, snorm, ie.0, 1, ie.1, density) == spec_deposit(
        spec_line_x(zeros, g, snorm, ie.0, 0, ie.1, density),
        g.nx as int,
        g.ny as int,
        snorm,
        ie.0,
        ie.1,
        density,
    ));
    assert(spec_line_y(zeros, g, snorm, ie.1, 0, ie.0 + 1, spec_axis_density(now[0].charge as int, cnorm, g.spec_delta_y(), dt, 0)) == zeros);
}

/// An elementwise copy of a charge list.
fn clone_charges(v: &Vec<Charge>) -> (r: Vec<Charge>)
    ensures
        r@ == v@,
{
    let mut r: Vec<Charge> = Vec::new();
    let mut t: usize = 0;
    while t < v.len()
        invariant
            t <= v@.len(),
            r@ == v@.subrange(0, t as int),
        decreases v@.len() - t,
    {
        r.push(v[t]);
        proof {
            assert(r@ =~= v@.subrange(0, t + 1));
        }
        t += 1;
    }
    proof {
        assert(r@ =~= v@);
    }
    r
}

} // verus!
