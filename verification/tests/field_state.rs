//! The field configuration state machine: deposition, initialization,
//! currents, queries, and the tick outcomes.

use maxwell::charge::Charge;
use maxwell::diag::{DiagEvent, DiagSink};
use maxwell::field::{FieldConfiguration, TickOutcome};
use maxwell::fx::{fx_div, fx_mul, FX_ONE};
use maxwell::grid::Grid;
use maxwell::stencil::{DifferenceType, StencilType};

fn standard_config() -> FieldConfiguration {
    FieldConfiguration::new(10 * FX_ONE, 10 * FX_ONE, 64, 64)
}

fn zero_phi() -> Grid {
    Grid::new(64, 64)
}

fn pattern_phi() -> Grid {
    let mut cells: Vec<i64> = vec![0; 64 * 64];
    for i in 0..64usize {
        for j in 0..64usize {
            cells[i * 64 + j] = (((i * i + 3 * j) % 97) as i64) * 12345678;
        }
    }
    Grid::from_vec(64, 64, &cells)
}

#[test]
fn construction_fixes_geometry_and_normalization() {
    let c = standard_config();
    assert_eq!(c.geometry.nx, 64);
    assert_eq!(c.geometry.ny, 64);
    assert_eq!(c.geometry.nboundary, 8);
    assert_eq!(c.charge_normalization, 395824188358656);
    assert!(c.elec_y.is_none());
}

#[test]
fn charge_set_changes_demand_reinitialization() {
    let mut c = standard_config();
    let mut sink = DiagSink::new();
    assert!(c.needs_initialization());
    c.set_charges(vec![Charge::new(5 * FX_ONE, 5 * FX_ONE, FX_ONE)]);
    assert!(c.initialize_on_constraints(&zero_phi(), &mut sink));
    assert!(!c.needs_initialization());
    // moving a charge does not violate the constraint ...
    c.set_charges(vec![Charge::new(6 * FX_ONE, 5 * FX_ONE, FX_ONE)]);
    assert!(!c.needs_initialization());
    // ... but changing its strength does, and so does changing the count
    c.set_charges(vec![Charge::new(6 * FX_ONE, 5 * FX_ONE, 2 * FX_ONE)]);
    assert!(c.needs_initialization());
    c.set_charges(vec![
        Charge::new(6 * FX_ONE, 5 * FX_ONE, FX_ONE),
        Charge::new(3 * FX_ONE, 5 * FX_ONE, FX_ONE),
    ]);
    assert!(c.needs_initialization());
    c.reset_fields();
    assert!(c.needs_initialization());
}

#[test]
fn deposition_skips_charges_outside_the_domain() {
    let mut c = standard_config();
    let mut sink = DiagSink::new();
    c.set_charges(vec![Charge::new(-FX_ONE, 5 * FX_ONE, FX_ONE)]);
    c.make_cic_grid(&mut sink);
    assert_eq!(sink.events, vec![DiagEvent::ChargeOutOfBounds]);
    let density = c.cic_grid.as_ref().unwrap().export();
    assert!(density.iter().all(|&v| v == 0));
}

#[test]
fn deposition_puts_the_kernel_at_the_charge_cell() {
    let mut c = standard_config();
    let mut sink = DiagSink::new();
    c.set_charges(vec![Charge::new(5 * FX_ONE, 5 * FX_ONE, FX_ONE)]);
    c.make_cic_grid(&mut sink);
    assert_eq!(sink.events.len(), 0);
    let grid = c.cic_grid.as_ref().unwrap();
    // the deposited weight is strength * charge_normalization, softened
    let expected_center = fx_div(fx_mul(FX_ONE, 395824188358656), 107944299384);
    assert_eq!(grid.get(32, 32), expected_center);
    assert_eq!(grid.get(33, 32), grid.get(31, 32));
    assert_eq!(grid.get(20, 20), 0);
}

#[test]
fn initialization_rejects_a_wrong_sized_grid() {
    let mut c = standard_config();
    let mut sink = DiagSink::new();
    let phi = Grid::new(32, 32);
    assert!(!c.initialize_on_constraints(&phi, &mut sink));
    assert_eq!(sink.events, vec![DiagEvent::GridSizeMismatch]);
    assert!(c.needs_initialization());
}

#[test]
fn electric_field_is_the_forward_gradient_of_the_solved_grid() {
    let mut c = standard_config();
    let mut sink = DiagSink::new();
    c.set_charges(vec![Charge::new(5 * FX_ONE, 5 * FX_ONE, FX_ONE)]);
    let mut cells: Vec<i64> = vec![0; 64 * 64];
    for i in 0..64usize {
        for j in 0..64usize {
            cells[i * 64 + j] = (i as i64) * 1000;
        }
    }
    let phi = Grid::from_vec(64, 64, &cells);
    assert!(c.initialize_on_constraints(&phi, &mut sink));
    let s = &c.stencils;
    let ex = c.elec_x.as_ref().unwrap();
    let ey = c.elec_y.as_ref().unwrap();
    let expected = s.evaluate(&phi, 10, 10, &StencilType::GradX, &DifferenceType::Forward);
    assert_eq!(ex.get(10, 10), expected);
    assert_eq!(ex.get(10, 10), 4800);
    assert_eq!(ey.get(10, 10), 0);
    // the magnetic grids and currents start at zero
    assert!(c.mag_z.as_ref().unwrap().export().iter().all(|&v| v == 0));
    assert!(c.current_x.as_ref().unwrap().export().iter().all(|&v| v == 0));
    // and the snapshot now matches the charges
    assert!(!c.needs_initialization());
}

#[test]
fn initialization_is_idempotent() {
    let mut c = standard_config();
    let mut sink = DiagSink::new();
    c.set_charges(vec![
        Charge::new(3 * FX_ONE, 5 * FX_ONE, FX_ONE),
        Charge::new(7 * FX_ONE, 5 * FX_ONE, -FX_ONE),
    ]);
    let phi = zero_phi();
    assert!(c.initialize_on_constraints(&phi, &mut sink));
    let cic1 = c.cic_grid.as_ref().unwrap().export();
    let ex1 = c.elec_x.as_ref().unwrap().export();
    let ey1 = c.elec_y.as_ref().unwrap().export();
    let bz1 = c.mag_z.as_ref().unwrap().export();
    assert!(c.initialize_on_constraints(&phi, &mut sink));
    assert_eq!(cic1, c.cic_grid.as_ref().unwrap().export());
    assert_eq!(ex1, c.elec_x.as_ref().unwrap().export());
    assert_eq!(ey1, c.elec_y.as_ref().unwrap().export());
    assert_eq!(bz1, c.mag_z.as_ref().unwrap().export());
}

#[test]
fn one_cell_move_deposits_current_only_along_the_path() {
    let mut c = standard_config();
    let mut sink = DiagSink::new();
    // place the charge at the centroid of cell (30, 32), then one cell right
    let g = &c.geometry;
    let (x_a, y_a) = g.cell_to_centroid(30, 32);
    let (x_b, _) = g.cell_to_centroid(31, 32);
    c.set_charges(vec![Charge::new(x_a, y_a, FX_ONE)]);
    assert!(c.initialize_on_constraints(&zero_phi(), &mut sink));
    c.set_charges(vec![Charge::new(x_b, y_a, FX_ONE)]);
    assert!(!c.needs_initialization());
    c.make_currents(FX_ONE, &mut sink);
    // expected: exactly one softened deposit on the x grid at the old cell
    let mut expected = Grid::new(64, 64);
    c.stencils.add_softened_point(&mut expected, 30, 32, 82463372543999);
    assert_eq!(c.current_x.as_ref().unwrap().export(), expected.export());
    assert!(c.current_y.as_ref().unwrap().export().iter().all(|&v| v == 0));
    // the deposit centers sit along the x path: the peak is at (30, 32)
    let jx = c.current_x.as_ref().unwrap();
    assert!(jx.get(30, 32) > jx.get(30, 33));
    assert!(jx.get(44, 32) == 0);
}

#[test]
fn a_charge_leaving_the_grid_skips_its_current_with_a_diagnostic() {
    let mut c = standard_config();
    let mut sink = DiagSink::new();
    c.set_charges(vec![Charge::new(5 * FX_ONE, 5 * FX_ONE, FX_ONE)]);
    assert!(c.initialize_on_constraints(&zero_phi(), &mut sink));
    // same count and strength, but the position has left even the padding
    c.set_charges(vec![Charge::new(-50 * FX_ONE, 5 * FX_ONE, FX_ONE)]);
    assert!(!c.needs_initialization());
    let before = sink.len();
    c.make_currents(FX_ONE, &mut sink);
    assert_eq!(sink.events[before], DiagEvent::CurrentPathOutOfGrid);
    assert!(c.current_x.as_ref().unwrap().export().iter().all(|&v| v == 0));
}

#[test]
fn tick_asks_for_initialization_after_a_charge_count_change() {
    let mut c = standard_config();
    let mut sink = DiagSink::new();
    c.set_charges(vec![Charge::new(5 * FX_ONE, 5 * FX_ONE, FX_ONE)]);
    assert!(c.initialize_on_constraints(&pattern_phi(), &mut sink));
    assert_eq!(c.tick(FX_ONE, &mut sink), TickOutcome::Stepped);
    // a second charge appears between ticks: no panic, just a request
    c.set_charges(vec![
        Charge::new(5 * FX_ONE, 5 * FX_ONE, FX_ONE),
        Charge::new(2 * FX_ONE, 2 * FX_ONE, FX_ONE),
    ]);
    assert_eq!(c.tick(FX_ONE, &mut sink), TickOutcome::NeedsInitialization);
    assert!(c.initialize_on_constraints(&pattern_phi(), &mut sink));
    assert_eq!(c.tick(FX_ONE, &mut sink), TickOutcome::Stepped);
    // static charges induce zero current on the tick after initialization
    assert!(c.current_x.as_ref().unwrap().export().iter().all(|&v| v == 0));
    assert!(c.current_y.as_ref().unwrap().export().iter().all(|&v| v == 0));
}

#[test]
fn post_tick_state_matches_a_fresh_initialization_and_tick() {
    let charges = vec![
        Charge::new(5 * FX_ONE, 5 * FX_ONE, FX_ONE),
        Charge::new(2 * FX_ONE, 2 * FX_ONE, FX_ONE),
    ];
    let mut sink = DiagSink::new();
    let mut c1 = standard_config();
    c1.set_charges(vec![Charge::new(5 * FX_ONE, 5 * FX_ONE, FX_ONE)]);
    assert!(c1.initialize_on_constraints(&pattern_phi(), &mut sink));
    assert_eq!(c1.tick(FX_ONE, &mut sink), TickOutcome::Stepped);
    c1.set_charges(charges.clone());
    assert_eq!(c1.tick(FX_ONE, &mut sink), TickOutcome::NeedsInitialization);
    assert!(c1.initialize_on_constraints(&pattern_phi(), &mut sink));
    assert_eq!(c1.tick(FX_ONE, &mut sink), TickOutcome::Stepped);

    let mut c2 = standard_config();
    c2.set_charges(charges);
    assert!(c2.initialize_on_constraints(&pattern_phi(), &mut sink));
    assert_eq!(c2.tick(FX_ONE, &mut sink), TickOutcome::Stepped);

    assert_eq!(
        c1.elec_x.as_ref().unwrap().export(),
        c2.elec_x.as_ref().unwrap().export()
    );
    assert_eq!(
        c1.elec_y.as_ref().unwrap().export(),
        c2.elec_y.as_ref().unwrap().export()
    );
    assert_eq!(
        c1.mag_z.as_ref().unwrap().export(),
        c2.mag_z.as_ref().unwrap().export()
    );
    assert_eq!(
        c1.current_x.as_ref().unwrap().export(),
        c2.current_x.as_ref().unwrap().export()
    );
}

#[test]
fn interpolation_returns_the_cell_value_at_a_centroid() {
    let mut c = standard_config();
    let mut sink = DiagSink::new();
    c.set_charges(vec![Charge::new(5 * FX_ONE, 5 * FX_ONE, FX_ONE)]);
    c.make_cic_grid(&mut sink);
    let (cx, cy) = c.geometry.cell_to_centroid(32, 32);
    let direct = c.cic_grid.as_ref().unwrap().get(32, 32);
    let interpolated = c.evaluate_cic_grid_interpolated(cx, cy, &mut sink);
    assert_eq!(interpolated, direct);
}

#[test]
fn queries_outside_the_domain_return_zero_with_a_diagnostic() {
    let mut c = standard_config();
    let mut sink = DiagSink::new();
    c.set_charges(vec![Charge::new(5 * FX_ONE, 5 * FX_ONE, FX_ONE)]);
    c.make_cic_grid(&mut sink);
    let v = c.evaluate_cic_grid_interpolated(-FX_ONE, 5 * FX_ONE, &mut sink);
    assert_eq!(v, 0);
    assert_eq!(sink.events, vec![DiagEvent::PointOutOfBounds]);
}

#[test]
fn field_queries_before_initialization_degrade_to_zero() {
    let c = standard_config();
    let mut sink = DiagSink::new();
    let (u, v) = c.evaluate_elec_interpolated(5 * FX_ONE, 5 * FX_ONE, &mut sink);
    assert_eq!((u, v), (0, 0));
    assert_eq!(sink.events, vec![DiagEvent::FieldsUninitialized]);
}

#[test]
fn closest_charge_picks_the_nearer_one() {
    let mut c = standard_config();
    c.set_charges(vec![
        Charge::new(3 * FX_ONE, 5 * FX_ONE, FX_ONE),
        Charge::new(7 * FX_ONE, 5 * FX_ONE, -FX_ONE),
    ]);
    let near = c.closest_charge(6 * FX_ONE, 5 * FX_ONE).unwrap();
    assert_eq!(near.x, 7 * FX_ONE);
    let empty = standard_config();
    assert!(empty.closest_charge(0, 0).is_none());
}
