//! The closed-form Coulomb evaluators.

use maxwell::charge::Charge;
use maxwell::diag::DiagSink;
use maxwell::direct::{
    compute_electric_field_dynamic, compute_field_electrostatic_direct,
    compute_field_magnetostatic_direct, compute_potential_electrostatic_direct,
};
use maxwell::field::FieldConfiguration;
use maxwell::fx::FX_ONE;

fn one_charge_config() -> FieldConfiguration {
    let mut c = FieldConfiguration::new(10 * FX_ONE, 10 * FX_ONE, 64, 64);
    c.set_charges(vec![Charge::new(5 * FX_ONE, 5 * FX_ONE, FX_ONE)]);
    c
}

#[test]
fn potential_at_a_charge_is_softened_and_finite() {
    let c = one_charge_config();
    // -20000 / sqrt(5), fixed-point, by the softened Coulomb sum
    assert_eq!(
        compute_potential_electrostatic_direct(&c, 5 * FX_ONE, 5 * FX_ONE),
        -38415355343955
    );
}

#[test]
fn potential_of_an_empty_charge_set_vanishes() {
    let c = FieldConfiguration::new(10 * FX_ONE, 10 * FX_ONE, 64, 64);
    assert_eq!(compute_potential_electrostatic_direct(&c, 3 * FX_ONE, 4 * FX_ONE), 0);
}

#[test]
fn potential_is_symmetric_around_the_charge() {
    let c = one_charge_config();
    let left = compute_potential_electrostatic_direct(&c, 3 * FX_ONE, 5 * FX_ONE);
    let right = compute_potential_electrostatic_direct(&c, 7 * FX_ONE, 5 * FX_ONE);
    let up = compute_potential_electrostatic_direct(&c, 5 * FX_ONE, 7 * FX_ONE);
    assert_eq!(left, right);
    assert_eq!(left, up);
    assert!(left < 0);
}

#[test]
fn field_points_away_from_a_positive_charge() {
    let c = one_charge_config();
    let e = compute_field_electrostatic_direct(&c, 7 * FX_ONE, 5 * FX_ONE);
    assert!(e.u > 0);
    assert_eq!(e.v, 0);
    let w = compute_field_electrostatic_direct(&c, 3 * FX_ONE, 5 * FX_ONE);
    assert_eq!(w.u, -e.u);
}

#[test]
fn magnetostatic_field_is_the_rotated_electrostatic_field() {
    let c = one_charge_config();
    let e = compute_field_electrostatic_direct(&c, 6 * FX_ONE, 7 * FX_ONE);
    let m = compute_field_magnetostatic_direct(&c, 6 * FX_ONE, 7 * FX_ONE);
    assert_eq!(m.u, e.v);
    assert_eq!(m.v, -e.u);
}

#[test]
fn dynamic_field_before_initialization_is_zero() {
    let c = one_charge_config();
    let mut sink = DiagSink::new();
    let p = compute_electric_field_dynamic(&c, 5 * FX_ONE, 5 * FX_ONE, &mut sink);
    assert_eq!((p.u, p.v), (0, 0));
    assert_eq!(sink.events.len(), 1);
}

#[test]
fn identical_charge_sets_give_identical_potentials() {
    let c1 = one_charge_config();
    let c2 = one_charge_config();
    for k in 0..40 {
        let x = k * FX_ONE / 4;
        let y = 10 * FX_ONE - x;
        assert_eq!(
            compute_potential_electrostatic_direct(&c1, x, y),
            compute_potential_electrostatic_direct(&c2, x, y)
        );
        let e1 = compute_field_electrostatic_direct(&c1, x, y);
        let e2 = compute_field_electrostatic_direct(&c2, x, y);
        assert_eq!((e1.u, e1.v), (e2.u, e2.v));
    }
}
