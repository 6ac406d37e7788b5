//! Arrow placement on symmetry-line crossings.

use maxwell::charge::Charge;
use maxwell::diag::DiagSink;
use maxwell::arrows::{
    generate_potential_contours_and_arrow_positions_at_levels, line_crosses_symmetry,
};
use maxwell::field::FieldConfiguration;
use maxwell::fx::FX_ONE;

#[test]
fn a_lone_charge_uses_a_fictitious_horizontal_partner() {
    let mut c = FieldConfiguration::new(10 * FX_ONE, 10 * FX_ONE, 64, 64);
    c.set_charges(vec![Charge::new(5 * FX_ONE, 5 * FX_ONE, FX_ONE)]);
    // the pair's line is horizontal through y = 5; a vertical segment
    // through it crosses at its midpoint
    let p = line_crosses_symmetry(&c, 4 * FX_ONE, 4 * FX_ONE, 4 * FX_ONE, 6 * FX_ONE).unwrap();
    assert_eq!((p.u, p.v), (4 * FX_ONE, 5 * FX_ONE));
    // a segment on one side of the line does not cross it
    assert!(line_crosses_symmetry(&c, 4 * FX_ONE, 6 * FX_ONE, 6 * FX_ONE, 7 * FX_ONE).is_none());
}

#[test]
fn opposite_charges_pair_and_give_an_exact_intersection() {
    let mut c = FieldConfiguration::new(10 * FX_ONE, 10 * FX_ONE, 64, 64);
    c.set_charges(vec![
        Charge::new(3 * FX_ONE, 5 * FX_ONE, FX_ONE),
        Charge::new(7 * FX_ONE, 5 * FX_ONE, -FX_ONE),
    ]);
    let p = line_crosses_symmetry(&c, 5 * FX_ONE, 4 * FX_ONE, 5 * FX_ONE, 6 * FX_ONE).unwrap();
    assert_eq!((p.u, p.v), (5 * FX_ONE, 5 * FX_ONE));
}

#[test]
fn the_crossing_line_is_infinite_beyond_the_charges() {
    // the segment crosses the pair's line far outside the stretch between
    // the charges; an arrow is still placed (the line is not clamped)
    let mut c = FieldConfiguration::new(10 * FX_ONE, 10 * FX_ONE, 64, 64);
    c.set_charges(vec![
        Charge::new(3 * FX_ONE, 5 * FX_ONE, FX_ONE),
        Charge::new(7 * FX_ONE, 5 * FX_ONE, -FX_ONE),
    ]);
    let p = line_crosses_symmetry(&c, 9 * FX_ONE, 4 * FX_ONE, 9 * FX_ONE, 6 * FX_ONE);
    assert!(p.is_some());
    assert_eq!(p.unwrap().v, 5 * FX_ONE);
}

#[test]
fn no_charges_means_no_arrows() {
    let c = FieldConfiguration::new(10 * FX_ONE, 10 * FX_ONE, 64, 64);
    assert!(line_crosses_symmetry(&c, 0, 0, FX_ONE, FX_ONE).is_none());
}

#[test]
fn dipole_contours_carry_arrows_with_debounce() {
    let mut c = FieldConfiguration::new(100 * FX_ONE, 100 * FX_ONE, 64, 64);
    c.set_charges(vec![
        Charge::new(30 * FX_ONE, 50 * FX_ONE, FX_ONE),
        Charge::new(70 * FX_ONE, 50 * FX_ONE, -FX_ONE),
    ]);
    let mut sink = DiagSink::new();
    let (contours, arrows) = generate_potential_contours_and_arrow_positions_at_levels(
        &c,
        vec![-1000 * FX_ONE],
        &mut sink,
    );
    assert!(contours.len() >= 1);
    assert!(arrows.len() >= 1, "a loop around one charge must cross the pair line");
    // every arrow sits on the symmetry line y = 50, up to the step size
    for &(_, ay) in &arrows {
        let dy = (ay - 50 * FX_ONE).abs() as f64 / 4294967296.0;
        assert!(dy < 1.0, "arrow off the symmetry line by {}", dy);
    }
}
