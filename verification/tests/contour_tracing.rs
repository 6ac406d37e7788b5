//! Contour extraction: crossing-point refinement, closed loops, and
//! determinism.

use maxwell::charge::Charge;
use maxwell::diag::DiagSink;
use maxwell::contours::{
    find_crossing_point, generate_potential_contours_at_levels, FX_CROSSING_TOL,
};
use maxwell::direct::compute_potential_electrostatic_direct;
use maxwell::field::FieldConfiguration;
use maxwell::fx::FX_ONE;

fn one_charge_config() -> FieldConfiguration {
    let mut c = FieldConfiguration::new(10 * FX_ONE, 10 * FX_ONE, 64, 64);
    c.set_charges(vec![Charge::new(5 * FX_ONE, 5 * FX_ONE, FX_ONE)]);
    c
}

fn dipole_config() -> FieldConfiguration {
    let mut c = FieldConfiguration::new(100 * FX_ONE, 100 * FX_ONE, 64, 64);
    c.set_charges(vec![
        Charge::new(30 * FX_ONE, 50 * FX_ONE, FX_ONE),
        Charge::new(70 * FX_ONE, 50 * FX_ONE, -FX_ONE),
    ]);
    c
}

#[test]
fn a_point_already_on_the_level_is_returned_unchanged() {
    let c = one_charge_config();
    let mut sink = DiagSink::new();
    let x = 8 * FX_ONE;
    let y = 5 * FX_ONE;
    let level = compute_potential_electrostatic_direct(&c, x, y);
    let r = find_crossing_point(&c, level, x, y, &mut sink);
    assert_eq!(r, (x, y));
    assert_eq!(sink.events.len(), 0);
}

#[test]
fn crossing_search_lands_within_tolerance_of_the_level() {
    let c = one_charge_config();
    let mut sink = DiagSink::new();
    let level = compute_potential_electrostatic_direct(&c, 8 * FX_ONE, 5 * FX_ONE);
    let start = (7 * FX_ONE + FX_ONE / 2, 5 * FX_ONE);
    let (rx, ry) = find_crossing_point(&c, level, start.0, start.1, &mut sink);
    assert_eq!(sink.events.len(), 0, "the search should converge without a diagnostic");
    let p = compute_potential_electrostatic_direct(&c, rx, ry);
    assert!((p - level).abs() <= FX_CROSSING_TOL);
    assert!((rx, ry) != start);
}

#[test]
fn an_unreachable_level_aborts_the_search_with_a_diagnostic() {
    // a single positive charge has a strictly negative potential everywhere,
    // so a positive level can never be crossed
    let c = one_charge_config();
    let mut sink = DiagSink::new();
    let level = 1000 * FX_ONE;
    let start = (3 * FX_ONE, 3 * FX_ONE);
    let r = find_crossing_point(&c, level, start.0, start.1, &mut sink);
    assert_eq!(r, start);
    assert_eq!(sink.events, vec![maxwell::diag::DiagEvent::CrossingSearchAborted]);
}

#[test]
fn a_vanishing_gradient_aborts_the_search_with_a_diagnostic() {
    // two equal charges: the gradient vanishes at their midpoint
    let mut c = FieldConfiguration::new(10 * FX_ONE, 10 * FX_ONE, 64, 64);
    c.set_charges(vec![
        Charge::new(3 * FX_ONE, 5 * FX_ONE, FX_ONE),
        Charge::new(7 * FX_ONE, 5 * FX_ONE, FX_ONE),
    ]);
    let mut sink = DiagSink::new();
    let here = compute_potential_electrostatic_direct(&c, 5 * FX_ONE, 5 * FX_ONE);
    let level = here + 10 * FX_ONE;
    let r = find_crossing_point(&c, level, 5 * FX_ONE, 5 * FX_ONE, &mut sink);
    assert_eq!(r, (5 * FX_ONE, 5 * FX_ONE));
    assert_eq!(sink.events, vec![maxwell::diag::DiagEvent::CrossingSearchAborted]);
}

#[test]
fn dipole_yields_a_closed_loop_inside_the_domain() {
    let c = dipole_config();
    let mut sink = DiagSink::new();
    let level = -1000 * FX_ONE;
    let contours = generate_potential_contours_at_levels(&c, vec![level], &mut sink);
    assert!(contours.len() >= 1, "expected at least one contour");
    let mut found_closed_inside = false;
    for contour in &contours {
        let inside = contour
            .iter()
            .all(|&(x, y)| c.geometry.in_padding_region(x, y));
        let (x0, y0) = contour[0];
        let (x1, y1) = contour[contour.len() - 1];
        let dx = (x1 - x0) as f64 / 4294967296.0;
        let dy = (y1 - y0) as f64 / 4294967296.0;
        let closed = (dx * dx + dy * dy).sqrt() < 1.0;
        if inside && closed {
            found_closed_inside = true;
        }
    }
    assert!(found_closed_inside, "expected a closed loop that never left the padded grid");
}

#[test]
fn contour_points_lie_on_the_level() {
    let c = dipole_config();
    let mut sink = DiagSink::new();
    let level = -1000 * FX_ONE;
    let contours = generate_potential_contours_at_levels(&c, vec![level], &mut sink);
    assert!(contours.len() >= 1);
    for contour in &contours {
        for &(x, y) in contour.iter() {
            let p = compute_potential_electrostatic_direct(&c, x, y);
            let drift = (p - level).abs() as f64 / 4294967296.0;
            assert!(drift <= 0.11, "point drifted {} from the level", drift);
        }
    }
}

#[test]
fn the_contour_cap_stops_extraction_with_a_diagnostic() {
    let c = dipole_config();
    let mut sink = DiagSink::new();
    let mut levels: Vec<i64> = Vec::new();
    for k in 0..60i64 {
        levels.push(-(400 + 12 * k) * FX_ONE);
        levels.push((400 + 12 * k) * FX_ONE);
    }
    let contours = generate_potential_contours_at_levels(&c, levels, &mut sink);
    assert_eq!(contours.len(), 50);
    assert!(sink
        .events
        .iter()
        .any(|&e| e == maxwell::diag::DiagEvent::ContourCapReached));
}

#[test]
fn identical_inputs_give_identical_contours_and_arrows() {
    let mut sink1 = DiagSink::new();
    let mut sink2 = DiagSink::new();
    let c1 = dipole_config();
    let c2 = dipole_config();
    let levels = vec![-1000 * FX_ONE, -2000 * FX_ONE];
    let r1 = generate_potential_contours_at_levels(&c1, levels.clone(), &mut sink1);
    let r2 = generate_potential_contours_at_levels(&c2, levels, &mut sink2);
    assert_eq!(r1, r2);
    assert_eq!(sink1.events, sink2.events);
}
