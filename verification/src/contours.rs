//! Contour extraction: finding points on a level set of the potential and
//! following the level curve from them.

use vstd::prelude::*;
use crate::charge::Charge;
use crate::diag::{DiagEvent, DiagSink};
use crate::direct::{
    compute_field_electrostatic_direct, compute_potential_electrostatic_direct, spec_field,
    spec_potential, Pair,
};
use crate::field::FieldConfiguration;
use crate::fx::{
    abs_i, div_trunc, fx_abs, fx_add, fx_div, fx_mul, fx_signum, fx_sqrt, fx_sub, sat64,
    spec_fx_add, spec_fx_div, spec_fx_mul, spec_fx_sqrt, spec_fx_sub, spec_signum,
};
use crate::fx::{div_trunc_i128, sat_narrow};

verus! {

/// How close a point's potential must come to the target level, fixed-point
/// (one ten-thousandth).
pub const FX_CROSSING_TOL: i64 = 429497;

/// Gradient magnitudes below this floor abort the crossing search,
/// fixed-point (one millionth).
pub const FX_GRADIENT_FLOOR: i64 = 4295;

/// The overshoot factor of the crossing search, fixed-point (three halves).
pub const FX_THREE_HALVES: i64 = 6442450944;

/// The tracer's step size, fixed-point (one half).
pub const FX_STEP: i64 = 2147483648;

/// How far the traced potential may drift from the level before the tracer
/// snaps back onto it, fixed-point (one tenth).
pub const FX_DRIFT: i64 = 429496729;

/// The squared distance under which the trace counts as having closed on its
/// start, fixed-point (one quarter).
pub const FX_FINISH_TOL_SQ: i64 = 1073741824;

/// Cells whose centroid lies within this squared distance of a charge are
/// never used to seed a contour, fixed-point (one hundred).
pub const FX_NEAR_CHARGE_SQ: i64 = 429496729600;

/// A contour is kept only if some point of it lies beyond this squared
/// distance from every charge, fixed-point (one hundred and fifty).
pub const FX_KEEP_CONTOUR_SQ: i64 = 644245094400;

/// The step cap of the crossing search and of its bisection.
pub const CROSSING_STEP_CAP: usize = 200;

/// The step cap of one tracing pass.
pub const TRACE_STEP_CAP: usize = 10000;

/// Steps between recorded contour points.
pub const TRACE_RETURN_EVERY: usize = 10;

/// The least steps before a trace may close on its start.
pub const TRACE_MIN_STEPS: usize = 20;

/// The most contours one extraction returns.
pub const MAX_CONTOURS: usize = 50;

/// True when a traced point's potential sits within the tracer's drift
/// allowance of the level.
pub open spec fn spec_on_level(charges: Seq<Charge>, level: int, p: (i64, i64)) -> bool {
    abs_i(spec_fx_sub(spec_potential(charges, p.0 as int, p.1 as int), level)) <= FX_DRIFT
}

/// The gradient march of the crossing search, run to completion from the
/// given state: walk against the normalized gradient, scaled by
/// `1.5 * (potential - level)`, until the offset's sign flips (false) or the
/// gradient vanishes or the step cap passes (true). The fuel only bounds the
/// recursion; callers pass `CROSSING_STEP_CAP + 2 - step`.
pub open spec fn spec_crossing_march(
    charges: Seq<Charge>,
    level: int,
    sign0: int,
    x: int,
    y: int,
    pot: int,
    step: nat,
    fuel: nat,
) -> (int, int, int, bool)
    decreases fuel,
{
    if spec_signum(spec_fx_sub(pot, level)) != sign0 {
        (x, y, pot, false)
    } else if fuel == 0 {
        (x, y, pot, false)
    } else {
        let uv = spec_field(charges, x, y);
        let r = spec_fx_sqrt(spec_fx_add(spec_fx_mul(uv.0, uv.0), spec_fx_mul(uv.1, uv.1)));
        if r < FX_GRADIENT_FLOOR || step > CROSSING_STEP_CAP {
            (x, y, pot, true)
        } else {
            let un = spec_fx_div(uv.0, spec_fx_mul(r, r));
            let vn = spec_fx_div(uv.1, spec_fx_mul(r, r));
            let x2 = spec_fx_sub(
                x,
                spec_fx_mul(spec_fx_mul(FX_THREE_HALVES as int, spec_fx_sub(pot, level)), un),
            );
            let y2 = spec_fx_sub(
                y,
                spec_fx_mul(spec_fx_mul(FX_THREE_HALVES as int, spec_fx_sub(pot, level)), vn),
            );
            spec_crossing_march(
                charges,
                level,
                sign0,
                x2,
                y2,
                spec_potential(charges, x2, y2),
                step + 1,
                (fuel - 1) as nat,
            )
        }
    }
}

/// The bisection of the crossing search, run to completion from the given
/// brackets: halve toward the level until the offset is within tolerance
/// (false) or the step cap passes (true).
pub open spec fn spec_crossing_bisect(
    charges: Seq<Charge>,
    level: int,
    sign0: int,
    xa: int,
    ya: int,
    xb: int,
    yb: int,
    x: int,
    y: int,
    pot: int,
    step: nat,
    fuel: nat,
) -> (int, int, bool)
    decreases fuel,
{
    if !(sat64(abs_i(spec_fx_sub(pot, level))) > FX_CROSSING_TOL) {
        (x, y, false)
    } else if fuel == 0 {
        (x, y, false)
    } else {
        let xm = sat64(div_trunc(xa + xb, 2));
        let ym = sat64(div_trunc(ya + yb, 2));
        let pm = spec_potential(charges, xm, ym);
        if step + 1 > CROSSING_STEP_CAP {
            (xm, ym, true)
        } else if spec_signum(spec_fx_sub(pm, level)) == sign0 {
            spec_crossing_bisect(
                charges,
                level,
                sign0,
                xm,
                ym,
                xb,
                yb,
                xm,
                ym,
                pm,
                step + 1,
                (fuel - 1) as nat,
            )
        } else {
            spec_crossing_bisect(
                charges,
                level,
                sign0,
                xa,
                ya,
                xm,
                ym,
                xm,
                ym,
                pm,
                step + 1,
                (fuel - 1) as nat,
            )
        }
    }
}

/// The crossing search as one function of its inputs: the refined point and
/// the diagnostics it emits.
pub open spec fn spec_find_crossing(charges: Seq<Charge>, level: int, x0: int, y0: int) -> (
    (int, int),
    Seq<DiagEvent>,
) {
    let pot0 = spec_potential(charges, x0, y0);
    if sat64(abs_i(spec_fx_sub(pot0, level))) < FX_CROSSING_TOL {
        ((x0, y0), Seq::empty())
    } else {
        let sign0 = spec_signum(spec_fx_sub(pot0, level));
        let m = spec_crossing_march(
            charges,
            level,
            sign0,
            x0,
            y0,
            pot0,
            0,
            (CROSSING_STEP_CAP + 2) as nat,
        );
        if m.3 {
            ((x0, y0), seq![DiagEvent::CrossingSearchAborted])
        } else {
            let b = spec_crossing_bisect(
                charges,
                level,
                sign0,
                x0,
                y0,
                m.0,
                m.1,
                m.0,
                m.1,
                m.2,
                0,
                (CROSSING_STEP_CAP + 2) as nat,
            );
            if b.2 {
                ((b.0, b.1), seq![DiagEvent::BisectionCapReached])
            } else {
                ((b.0, b.1), Seq::empty())
            }
        }
    }
}

/// Find a point near (x0, y0) whose potential is within `FX_CROSSING_TOL` of
/// `level`: march along the normalized gradient until the offset's sign
/// flips, then bisect. A point already at the level returns unchanged. When
/// the gradient vanishes or a step cap is hit, the search records a
/// diagnostic and hands back its best estimate (the starting point, for the
/// gradient march).
pub fn find_crossing_point(
    field_configuration: &FieldConfiguration,
    level: i64,
    x0: i64,
    y0: i64,
    sink: &mut DiagSink,
) -> (r: (i64, i64))
    ensures
        abs_i(spec_fx_sub(spec_potential(field_configuration.charges@, x0 as int, y0 as int), level as int))
            < FX_CROSSING_TOL ==> r == (x0, y0) && final(sink).events@ == old(sink).events@,
        final(sink).events@ == old(sink).events@ ==> abs_i(
            spec_fx_sub(
                spec_potential(field_configuration.charges@, r.0 as int, r.1 as int),
                level as int,
            ),
        ) <= FX_CROSSING_TOL,
        final(sink).events@ == old(sink).events@ || final(sink).events@ == old(
            sink,
        ).events@.push(DiagEvent::CrossingSearchAborted) || final(sink).events@ == old(
            sink,
        ).events@.push(DiagEvent::BisectionCapReached),
        final(sink).events@ == old(sink).events@.push(DiagEvent::CrossingSearchAborted) ==> r
            == (x0, y0),
        ({
            let fc = spec_find_crossing(
                field_configuration.charges@,
                level as int,
                x0 as int,
                y0 as int,
            );
            &&& (r.0 as int, r.1 as int) == fc.0
            &&& final(sink).events@ == old(sink).events@ + fc.1
        }),
{
    let mut x = x0;
    let mut y = y0;
    let mut potential = compute_potential_electrostatic_direct(field_configuration, x, y);
    if fx_abs(fx_sub(potential, level)) < FX_CROSSING_TOL {
        proof {
            let p0 = spec_potential(field_configuration.charges@, x0 as int, y0 as int);
            let d = spec_fx_sub(p0, level as int);
            assert(sat64(abs_i(d)) < FX_CROSSING_TOL);
            assert(abs_i(d) <= FX_CROSSING_TOL);
            assert(sink.events@ =~= sink.events@ + Seq::<DiagEvent>::empty());
        }
        return (x0, y0);
    }
    proof {
        assert(abs_i(
            spec_fx_sub(
                spec_potential(field_configuration.charges@, x0 as int, y0 as int),
                level as int,
            ),
        ) >= FX_CROSSING_TOL);
    }
    let potential_offset_sign = fx_signum(fx_sub(potential, level));
    let ghost m_full = spec_crossing_march(
        field_configuration.charges@,
        level as int,
        potential_offset_sign as int,
        x0 as int,
        y0 as int,
        spec_potential(field_configuration.charges@, x0 as int, y0 as int),
        0,
        (CROSSING_STEP_CAP + 2) as nat,
    );
    let mut step: usize = 0;
    while fx_signum(fx_sub(potential, level)) == potential_offset_sign
        invariant_except_break
            step <= CROSSING_STEP_CAP + 1,
            potential == spec_potential(field_configuration.charges@, x as int, y as int),
            sink.events@ == old(sink).events@,
            abs_i(
                spec_fx_sub(
                    spec_potential(field_configuration.charges@, x0 as int, y0 as int),
                    level as int,
                ),
            ) >= FX_CROSSING_TOL,
            potential_offset_sign == spec_signum(
                spec_fx_sub(
                    spec_potential(field_configuration.charges@, x0 as int, y0 as int),
                    level as int,
                ),
            ),
            m_full == spec_crossing_march(
                field_configuration.charges@,
                level as int,
                potential_offset_sign as int,
                x0 as int,
                y0 as int,
                spec_potential(field_configuration.charges@, x0 as int, y0 as int),
                0,
                (CROSSING_STEP_CAP + 2) as nat,
            ),
            m_full == spec_crossing_march(
                field_configuration.charges@,
                level as int,
                potential_offset_sign as int,
                x as int,
                y as int,
                potential as int,
                step as nat,
                (CROSSING_STEP_CAP + 2 - step) as nat,
            ),
        ensures
            potential == spec_potential(field_configuration.charges@, x as int, y as int),
            sink.events@ == old(sink).events@,
            abs_i(
                spec_fx_sub(
                    spec_potential(field_configuration.charges@, x0 as int, y0 as int),
                    level as int,
                ),
            ) >= FX_CROSSING_TOL,
            m_full == (x as int, y as int, potential as int, false),
        decreases CROSSING_STEP_CAP + 2 - step,
    {
        let Pair { u, v } = compute_field_electrostatic_direct(field_configuration, x, y);
        let r = fx_sqrt(fx_add(fx_mul(u, u), fx_mul(v, v)));
        if r < FX_GRADIENT_FLOOR || step > CROSSING_STEP_CAP {
            proof {
                assert(m_full == (x as int, y as int, potential as int, true));
            }
            sink.record(DiagEvent::CrossingSearchAborted);
            proof {
                assert(sink.events@.len() == old(sink).events@.len() + 1);
                assert(sink.events@ =~= old(sink).events@ + seq![
                    DiagEvent::CrossingSearchAborted,
                ]);
                let charges = field_configuration.charges@;
                let pot0 = spec_potential(charges, x0 as int, y0 as int);
                assert(sat64(abs_i(spec_fx_sub(pot0, level as int))) >= FX_CROSSING_TOL);
                let fc = spec_find_crossing(charges, level as int, x0 as int, y0 as int);
                assert(fc.0 == (x0 as int, y0 as int));
                assert(fc.1 =~= seq![DiagEvent::CrossingSearchAborted]);
            }
            return (x0, y0);
        }
        let u_normed = fx_div(u, fx_mul(r, r));
        let v_normed = fx_div(v, fx_mul(r, r));
        x = fx_sub(x, fx_mul(fx_mul(FX_THREE_HALVES, fx_sub(potential, level)), u_normed));
        y = fx_sub(y, fx_mul(fx_mul(FX_THREE_HALVES, fx_sub(potential, level)), v_normed));
        potential = compute_potential_electrostatic_direct(field_configuration, x, y);
        step += 1;
    }
    let ghost b_full = spec_crossing_bisect(
        field_configuration.charges@,
        level as int,
        potential_offset_sign as int,
        x0 as int,
        y0 as int,
        x as int,
        y as int,
        x as int,
        y as int,
        potential as int,
        0,
        (CROSSING_STEP_CAP + 2) as nat,
    );
    proof {
        assert(b_full == spec_crossing_bisect(
            field_configuration.charges@,
            level as int,
            potential_offset_sign as int,
            x0 as int,
            y0 as int,
            m_full.0,
            m_full.1,
            m_full.0,
            m_full.1,
            m_full.2,
            0,
            (CROSSING_STEP_CAP + 2) as nat,
        ));
    }
    let mut xa = x0;
    let mut ya = y0;
    let mut xb = x;
    let mut yb = y;
    let mut step: usize = 0;
    let mut aborted = false;
    while fx_abs(fx_sub(potential, level)) > FX_CROSSING_TOL
        invariant_except_break
            step <= CROSSING_STEP_CAP + 1,
            !aborted,
            potential == spec_potential(field_configuration.charges@, x as int, y as int),
            sink.events@ == old(sink).events@,
            abs_i(
                spec_fx_sub(
                    spec_potential(field_configuration.charges@, x0 as int, y0 as int),
                    level as int,
                ),
            ) >= FX_CROSSING_TOL,
            b_full == spec_crossing_bisect(
                field_configuration.charges@,
                level as int,
                potential_offset_sign as int,
                xa as int,
                ya as int,
                xb as int,
                yb as int,
                x as int,
                y as int,
                potential as int,
                step as nat,
                (CROSSING_STEP_CAP + 2 - step) as nat,
            ),
        ensures
            b_full == (x as int, y as int, aborted),
            abs_i(
                spec_fx_sub(
                    spec_potential(field_configuration.charges@, x0 as int, y0 as int),
                    level as int,
                ),
            ) >= FX_CROSSING_TOL,
            potential == spec_potential(field_configuration.charges@, x as int, y as int),
            !aborted ==> abs_i(
                spec_fx_sub(
                    spec_potential(field_configuration.charges@, x as int, y as int),
                    level as int,
                ),
            ) <= FX_CROSSING_TOL && sink.events@ == old(sink).events@,
            aborted ==> sink.events@ == old(sink).events@.push(DiagEvent::BisectionCapReached),
        decreases CROSSING_STEP_CAP + 2 - step,
    {
        let ghost pre = (xa as int, ya as int, xb as int, yb as int, step as nat);
        x = sat_narrow(div_trunc_i128(xa as i128 + xb as i128, 2));
        y = sat_narrow(div_trunc_i128(ya as i128 + yb as i128, 2));
        potential = compute_potential_electrostatic_direct(field_configuration, x, y);
        if fx_signum(fx_sub(potential, level)) == potential_offset_sign {
            xa = x;
            ya = y;
        } else {
            xb = x;
            yb = y;
        }
        step += 1;
        if step > CROSSING_STEP_CAP {
            proof {
                assert(b_full == (x as int, y as int, true));
            }
            sink.record(DiagEvent::BisectionCapReached);
            aborted = true;
            break;
        }
        proof {
            assert(b_full == spec_crossing_bisect(
                field_configuration.charges@,
                level as int,
                potential_offset_sign as int,
                xa as int,
                ya as int,
                xb as int,
                yb as int,
                x as int,
                y as int,
                potential as int,
                step as nat,
                (CROSSING_STEP_CAP + 2 - step) as nat,
            ));
        }
    }
    proof {
        let charges = field_configuration.charges@;
        let pot0 = spec_potential(charges, x0 as int, y0 as int);
        assert(sat64(abs_i(spec_fx_sub(pot0, level as int))) >= FX_CROSSING_TOL);
        let fc = spec_find_crossing(charges, level as int, x0 as int, y0 as int);
        assert(fc.0 == (x as int, y as int));
        if aborted {
            assert(sink.events@ =~= old(sink).events@ + seq![DiagEvent::BisectionCapReached]);
            assert(sink.events@[old(sink).events@.len() as int]
                == DiagEvent::BisectionCapReached);
        } else {
            assert(sink.events@ =~= old(sink).events@ + Seq::<DiagEvent>::empty());
            assert(sink.events@.len() == old(sink).events@.len());
        }
    }
    (x, y)
}

/// One tracing step from (x, y): the predictor-corrector move tangent to the
/// level curve, snapped back onto the level when the potential drifts too
/// far. Returns the new point and the diagnostics the snap emitted.
pub open spec fn spec_trace_step(
    charges: Seq<Charge>,
    level: int,
    step_size: int,
    x: int,
    y: int,
) -> (int, int, Seq<DiagEvent>) {
    let uv = spec_field(charges, x, y);
    let r = spec_fx_sqrt(spec_fx_add(spec_fx_mul(uv.0, uv.0), spec_fx_mul(uv.1, uv.1)));
    let x1 = spec_fx_sub(x, spec_fx_div(spec_fx_mul(step_size, uv.1), r));
    let y1 = spec_fx_add(y, spec_fx_div(spec_fx_mul(step_size, uv.0), r));
    let uv1 = spec_field(charges, x1, y1);
    let r1 = spec_fx_sqrt(spec_fx_add(spec_fx_mul(uv1.0, uv1.0), spec_fx_mul(uv1.1, uv1.1)));
    let x2 = spec_fx_sub(
        x1,
        spec_fx_div(
            spec_fx_mul(spec_fx_mul(step_size, FX_STEP as int), spec_fx_sub(uv1.1, uv.1)),
            r1,
        ),
    );
    let y2 = spec_fx_add(
        y1,
        spec_fx_div(
            spec_fx_mul(spec_fx_mul(step_size, FX_STEP as int), spec_fx_sub(uv1.0, uv.0)),
            r1,
        ),
    );
    let pot = spec_potential(charges, x2, y2);
    if sat64(abs_i(spec_fx_sub(pot, level))) > FX_DRIFT {
        let fc = spec_find_crossing(charges, level, x2, y2);
        (fc.0.0, fc.0.1, fc.1)
    } else {
        (x2, y2, Seq::empty())
    }
}

/// One tracing pass run to completion from the given state: the recorded
/// polyline, the final point, whether the pass left the padded grid, and the
/// diagnostics it emitted. The fuel only bounds the recursion; callers pass
/// `TRACE_STEP_CAP - step`.
pub open spec fn spec_trace_loop(
    charges: Seq<Charge>,
    g: crate::geometry::Geometry,
    level: int,
    step_size: int,
    x0: int,
    y0: int,
    x: int,
    y: int,
    step: nat,
    contour: Seq<(i64, i64)>,
    fuel: nat,
) -> (Seq<(i64, i64)>, int, int, bool, Seq<DiagEvent>)
    decreases fuel,
{
    if fuel == 0 {
        (contour, x, y, false, Seq::empty())
    } else {
        let s = spec_trace_step(charges, level, step_size, x, y);
        let step2 = step + 1;
        let contour2 = if step2 % (TRACE_RETURN_EVERY as nat) == 0 {
            contour.push((s.0 as i64, s.1 as i64))
        } else {
            contour
        };
        if !g.spec_in_padding_region(s.0, s.1) {
            (contour2, s.0, s.1, true, s.2)
        } else if step2 >= TRACE_STEP_CAP {
            (contour2, s.0, s.1, false, s.2)
        } else {
            let dx0 = spec_fx_sub(s.0, x0);
            let dy0 = spec_fx_sub(s.1, y0);
            if spec_fx_add(spec_fx_mul(dx0, dx0), spec_fx_mul(dy0, dy0)) < FX_FINISH_TOL_SQ
                && step2 > TRACE_MIN_STEPS {
                (contour2, s.0, s.1, false, s.2)
            } else {
                let rest = spec_trace_loop(
                    charges,
                    g,
                    level,
                    step_size,
                    x0,
                    y0,
                    s.0,
                    s.1,
                    step2,
                    contour2,
                    (fuel - 1) as nat,
                );
                (rest.0, rest.1, rest.2, rest.3, s.2 + rest.4)
            }
        }
    }
}

/// One directional tracing pass as a function of its inputs: the polyline
/// (seeded with the start point and closed with the final point), whether it
/// left the padded grid, and the diagnostics it emitted.
pub open spec fn spec_trace(
    charges: Seq<Charge>,
    g: crate::geometry::Geometry,
    level: int,
    x0: i64,
    y0: i64,
    reverse: bool,
) -> (Seq<(i64, i64)>, bool, Seq<DiagEvent>) {
    let step_size: int = if reverse {
        -FX_STEP as int
    } else {
        FX_STEP as int
    };
    let run = spec_trace_loop(
        charges,
        g,
        level,
        step_size,
        x0 as int,
        y0 as int,
        x0 as int,
        y0 as int,
        0,
        seq![(x0, y0)],
        TRACE_STEP_CAP as nat,
    );
    (run.0.push((run.1 as i64, run.2 as i64)), run.3, run.4)
}

/// The squared distance from a position to its closest charge; the largest
/// scalar when no charge is within reach.
/// The squared distance from a position to its closest charge, as a function
/// of the charge set; the largest scalar when no charge is within reach.
pub open spec fn spec_sqdist_closest(charges: Seq<Charge>, x: int, y: int) -> int {
    match crate::field::spec_closest_upto(charges, x, y, charges.len()).0 {
        Some(c) => spec_fx_add(
            spec_fx_mul(spec_fx_sub(x, c.x as int), spec_fx_sub(x, c.x as int)),
            spec_fx_mul(spec_fx_sub(y, c.y as int), spec_fx_sub(y, c.y as int)),
        ),
        None => i64::MAX as int,
    }
}

pub fn squared_distance_to_closest_charge(
    field_configuration: &FieldConfiguration,
    x: i64,
    y: i64,
) -> (r: i64)
    ensures
        r == spec_sqdist_closest(field_configuration.charges@, x as int, y as int),
{
    let closest = field_configuration.closest_charge(x, y);
    match closest {
        Some(c) => {
            let dx = fx_sub(x, c.x);
            let dy = fx_sub(y, c.y);
            fx_add(fx_mul(dx, dx), fx_mul(dy, dy))
        },
        None => i64::MAX,
    }
}

/// Follow the level curve from (x0, y0) in one direction, stepping tangent
/// to the gradient with a predictor-corrector scheme and snapping back onto
/// the level whenever the potential drifts. The pass records every tenth
/// point and stops when the point leaves the padded grid (reported in the
/// second component), closes on its start, or exhausts the step cap.
#[verifier::rlimit(100)]
fn trace_contour_one_direction(
    field_configuration: &FieldConfiguration,
    x0: i64,
    y0: i64,
    level: i64,
    reverse_direction: bool,
    sink: &mut DiagSink,
) -> (r: (Vec<(i64, i64)>, bool))
    requires
        field_configuration.wf(),
    ensures
        r.0@.len() >= 2,
        r.0@[0] == (x0, y0),
        r.1 ==> !field_configuration.geometry.spec_in_padding_region(
            r.0@.last().0 as int,
            r.0@.last().1 as int,
        ),
        final(sink).events@ == old(sink).events@ || final(sink).events@.len() > old(
            sink,
        ).events@.len(),
        final(sink).events@ == old(sink).events@ ==> forall|k: int|
            1 <= k < r.0@.len() ==> spec_on_level(
                field_configuration.charges@,
                level as int,
                #[trigger] r.0@[k],
            ),
        ({
            let tr = spec_trace(
                field_configuration.charges@,
                field_configuration.geometry,
                level as int,
                x0,
                y0,
                reverse_direction,
            );
            &&& r.0@ == tr.0
            &&& r.1 == tr.1
            &&& final(sink).events@ == old(sink).events@ + tr.2
        }),
{
    let step_size: i64 = if reverse_direction {
        -FX_STEP
    } else {
        FX_STEP
    };
    let mut x = x0;
    let mut y = y0;
    let mut contour: Vec<(i64, i64)> = Vec::new();
    contour.push((x, y));
    let mut step: usize = 0;
    let mut left_domain = false;
    let mut clean = true;
    let ghost t_full = spec_trace_loop(
        field_configuration.charges@,
        field_configuration.geometry,
        level as int,
        step_size as int,
        x0 as int,
        y0 as int,
        x0 as int,
        y0 as int,
        0,
        seq![(x0, y0)],
        TRACE_STEP_CAP as nat,
    );
    proof {
        assert(contour@ =~= seq![(x0, y0)]);
    }
    loop
        invariant_except_break
            field_configuration.wf(),
            step < TRACE_STEP_CAP,
            contour@.len() >= 1,
            contour@[0] == (x0, y0),
            !left_domain,
            ({
                let rest = spec_trace_loop(
                    field_configuration.charges@,
                    field_configuration.geometry,
                    level as int,
                    step_size as int,
                    x0 as int,
                    y0 as int,
                    x as int,
                    y as int,
                    step as nat,
                    contour@,
                    (TRACE_STEP_CAP - step) as nat,
                );
                &&& rest.0 == t_full.0
                &&& rest.1 == t_full.1
                &&& rest.2 == t_full.2
                &&& rest.3 == t_full.3
                &&& sink.events@ + rest.4 == old(sink).events@ + t_full.4
            }),
            clean ==> sink.events@ == old(sink).events@,
            !clean ==> sink.events@.len() > old(sink).events@.len(),
            clean ==> forall|k: int|
                1 <= k < contour@.len() ==> spec_on_level(
                    field_configuration.charges@,
                    level as int,
                    #[trigger] contour@[k],
                ),
        ensures
            contour@.len() >= 1,
            contour@[0] == (x0, y0),
            left_domain ==> !field_configuration.geometry.spec_in_padding_region(
                x as int,
                y as int,
            ),
            clean ==> sink.events@ == old(sink).events@,
            !clean ==> sink.events@.len() > old(sink).events@.len(),
            clean ==> spec_on_level(field_configuration.charges@, level as int, (x, y)),
            clean ==> forall|k: int|
                1 <= k < contour@.len() ==> spec_on_level(
                    field_configuration.charges@,
                    level as int,
                    #[trigger] contour@[k],
                ),
            contour@ == t_full.0,
            x as int == t_full.1,
            y as int == t_full.2,
            left_domain == t_full.3,
            sink.events@ == old(sink).events@ + t_full.4,
        decreases TRACE_STEP_CAP - step,
    {
        let ghost pre_x = x as int;
        let ghost pre_y = y as int;
        let ghost pre_step = step as nat;
        let ghost pre_contour = contour@;
        let ghost pre_events = sink.events@;
        let Pair { u, v } = compute_field_electrostatic_direct(field_configuration, x, y);
        let r = fx_sqrt(fx_add(fx_mul(u, u), fx_mul(v, v)));
        x = fx_sub(x, fx_div(fx_mul(step_size, v), r));
        y = fx_add(y, fx_div(fx_mul(step_size, u), r));
        let Pair { u: u1, v: v1 } = compute_field_electrostatic_direct(field_configuration, x, y);
        let r1 = fx_sqrt(fx_add(fx_mul(u1, u1), fx_mul(v1, v1)));
        x = fx_sub(x, fx_div(fx_mul(fx_mul(step_size, FX_STEP), fx_sub(v1, v)), r1));
        y = fx_add(y, fx_div(fx_mul(fx_mul(step_size, FX_STEP), fx_sub(u1, u)), r1));
        let potential = compute_potential_electrostatic_direct(field_configuration, x, y);
        if fx_abs(fx_sub(potential, level)) > FX_DRIFT {
            let before_len = sink.len();
            let snapped = find_crossing_point(field_configuration, level, x, y, sink);
            x = snapped.0;
            y = snapped.1;
            if sink.len() != before_len {
                clean = false;
            }
        }
        proof {
            if clean {
                assert(spec_on_level(field_configuration.charges@, level as int, (x, y)));
            }
            let s = spec_trace_step(
                field_configuration.charges@,
                level as int,
                step_size as int,
                pre_x,
                pre_y,
            );
            assert(s.0 == x as int && s.1 == y as int);
            assert(sink.events@ =~= pre_events + s.2);
        }
        step += 1;
        if step % TRACE_RETURN_EVERY == 0 {
            let ghost prev = contour@;
            contour.push((x, y));
            proof {
                if clean {
                    assert forall|k: int| 1 <= k < contour@.len() implies spec_on_level(
                        field_configuration.charges@,
                        level as int,
                        #[trigger] contour@[k],
                    ) by {
                        if k < prev.len() {
                            assert(contour@[k] == prev[k]);
                        } else {
                            assert(contour@[k] == (x, y));
                        }
                    }
                }
            }
        }
        if !field_configuration.geometry.in_padding_region(x, y) {
            left_domain = true;
            proof {
                let charges = field_configuration.charges@;
                let g = field_configuration.geometry;
                let s = spec_trace_step(charges, level as int, step_size as int, pre_x, pre_y);
                let rest_pre = spec_trace_loop(
                    charges,
                    g,
                    level as int,
                    step_size as int,
                    x0 as int,
                    y0 as int,
                    pre_x,
                    pre_y,
                    pre_step,
                    pre_contour,
                    (TRACE_STEP_CAP - pre_step) as nat,
                );
                assert(rest_pre.0 == contour@ && rest_pre.1 == x as int && rest_pre.2 == y as int
                    && rest_pre.3 == left_domain && rest_pre.4 == s.2);
                assert(sink.events@ == old(sink).events@ + t_full.4);
            }
            break;
        }
        if step >= TRACE_STEP_CAP {
            proof {
                let charges = field_configuration.charges@;
                let g = field_configuration.geometry;
                let s = spec_trace_step(charges, level as int, step_size as int, pre_x, pre_y);
                let rest_pre = spec_trace_loop(
                    charges,
                    g,
                    level as int,
                    step_size as int,
                    x0 as int,
                    y0 as int,
                    pre_x,
                    pre_y,
                    pre_step,
                    pre_contour,
                    (TRACE_STEP_CAP - pre_step) as nat,
                );
                assert(rest_pre.0 == contour@ && rest_pre.1 == x as int && rest_pre.2 == y as int
                    && rest_pre.3 == left_domain && rest_pre.4 == s.2);
                assert(sink.events@ == old(sink).events@ + t_full.4);
            }
            break;
        }
        let dx0 = fx_sub(x, x0);
        let dy0 = fx_sub(y, y0);
        if fx_add(fx_mul(dx0, dx0), fx_mul(dy0, dy0)) < FX_FINISH_TOL_SQ && step > TRACE_MIN_STEPS {
            proof {
                let charges = field_configuration.charges@;
                let g = field_configuration.geometry;
                let s = spec_trace_step(charges, level as int, step_size as int, pre_x, pre_y);
                let rest_pre = spec_trace_loop(
                    charges,
                    g,
                    level as int,
                    step_size as int,
                    x0 as int,
                    y0 as int,
                    pre_x,
                    pre_y,
                    pre_step,
                    pre_contour,
                    (TRACE_STEP_CAP - pre_step) as nat,
                );
                assert(rest_pre.0 == contour@ && rest_pre.1 == x as int && rest_pre.2 == y as int
                    && rest_pre.3 == left_domain && rest_pre.4 == s.2);
                assert(sink.events@ == old(sink).events@ + t_full.4);
            }
            break;
        }
        proof {
            let charges = field_configuration.charges@;
            let g = field_configuration.geometry;
            let s = spec_trace_step(charges, level as int, step_size as int, pre_x, pre_y);
            let rest_pre = spec_trace_loop(
                charges,
                g,
                level as int,
                step_size as int,
                x0 as int,
                y0 as int,
                pre_x,
                pre_y,
                pre_step,
                pre_contour,
                (TRACE_STEP_CAP - pre_step) as nat,
            );
            let rest_now = spec_trace_loop(
                charges,
                g,
                level as int,
                step_size as int,
                x0 as int,
                y0 as int,
                x as int,
                y as int,
                step as nat,
                contour@,
                (TRACE_STEP_CAP - step) as nat,
            );
            assert(rest_pre.0 == rest_now.0 && rest_pre.1 == rest_now.1 && rest_pre.2
                == rest_now.2 && rest_pre.3 == rest_now.3 && rest_pre.4 == s.2 + rest_now.4);
            assert(sink.events@ + rest_now.4 =~= pre_events + (s.2 + rest_now.4));
            assert(pre_events + (s.2 + rest_now.4) =~= pre_events + rest_pre.4);
        }
    }
    let ghost prev = contour@;
    contour.push((x, y));
    proof {
        if clean {
            assert forall|k: int| 1 <= k < contour@.len() implies spec_on_level(
                field_configuration.charges@,
                level as int,
                #[trigger] contour@[k],
            ) by {
                if k < prev.len() {
                    assert(contour@[k] == prev[k]);
                } else {
                    assert(contour@[k] == (x, y));
                }
            }
        }
    }
    (contour, left_domain)
}

/// A full contour through (x0, y0) as a function of its inputs: the forward
/// pass alone when it closes or runs out of steps, or the reverse pass
/// spliced reversed onto its front when it leaves the padded grid; and the
/// diagnostics emitted, forward pass first.
pub open spec fn spec_generate_trace(
    charges: Seq<Charge>,
    g: crate::geometry::Geometry,
    level: int,
    x0: i64,
    y0: i64,
    reverse: bool,
) -> (Seq<(i64, i64)>, Seq<DiagEvent>) {
    let fwd = spec_trace(charges, g, level, x0, y0, reverse);
    if reverse || !fwd.1 {
        (fwd.0, fwd.2)
    } else {
        let rev = spec_trace(charges, g, level, x0, y0, true);
        (rev.0.reverse() + fwd.0, fwd.2 + rev.2)
    }
}

/// Follow the level curve through (x0, y0). A forward trace that runs off
/// the padded grid is supplemented by an independent pass in the opposite
/// direction, spliced reversed onto the front, so an open curve is covered
/// end to end; the reverse pass itself never branches again.
pub fn generate_potential_contours(
    field_configuration: &FieldConfiguration,
    x0: i64,
    y0: i64,
    level: i64,
    reverse_direction: bool,
    sink: &mut DiagSink,
) -> (r: Vec<(i64, i64)>)
    requires
        field_configuration.wf(),
    ensures
        r@.len() >= 2,
        final(sink).events@ == old(sink).events@ || final(sink).events@.len() > old(
            sink,
        ).events@.len(),
        final(sink).events@ == old(sink).events@ ==> forall|k: int|
            0 <= k < r@.len() ==> #[trigger] r@[k] == (x0, y0) || spec_on_level(
                field_configuration.charges@,
                level as int,
                r@[k],
            ),
        ({
            let tr = spec_generate_trace(
                field_configuration.charges@,
                field_configuration.geometry,
                level as int,
                x0,
                y0,
                reverse_direction,
            );
            &&& r@ == tr.0
            &&& final(sink).events@ == old(sink).events@ + tr.1
        }),
{
    let (contour, left_domain) = trace_contour_one_direction(
        field_configuration,
        x0,
        y0,
        level,
        reverse_direction,
        sink,
    );
    if reverse_direction || !left_domain {
        return contour;
    }
    let (reversed_branch, _) = trace_contour_one_direction(
        field_configuration,
        x0,
        y0,
        level,
        true,
        sink,
    );
    let mut out: Vec<(i64, i64)> = Vec::new();
    let mut t: usize = reversed_branch.len();
    while t > 0
        invariant
            t <= reversed_branch@.len(),
            out@.len() == reversed_branch@.len() - t,
            reversed_branch@.len() >= 1,
            reversed_branch@[0] == (x0, y0),
            forall|m: int|
                0 <= m < out@.len() ==> #[trigger] out@[m] == reversed_branch@[reversed_branch@.len()
                    - 1 - m],
            sink.events@ == old(sink).events@ ==> forall|k: int|
                1 <= k < reversed_branch@.len() ==> spec_on_level(
                    field_configuration.charges@,
                    level as int,
                    #[trigger] reversed_branch@[k],
                ),
            sink.events@ == old(sink).events@ ==> forall|k: int|
                0 <= k < out@.len() ==> #[trigger] out@[k] == (x0, y0) || spec_on_level(
                    field_configuration.charges@,
                    level as int,
                    out@[k],
                ),
        decreases t,
    {
        t -= 1;
        out.push(reversed_branch[t]);
    }
    let ghost rev_len = reversed_branch@.len();
    proof {
        assert(out@ =~= reversed_branch@.reverse());
    }
    let mut s: usize = 0;
    while s < contour.len()
        invariant
            s <= contour@.len(),
            out@.len() == reversed_branch@.len() + s,
            contour@.len() >= 2,
            contour@[0] == (x0, y0),
            rev_len == reversed_branch@.len(),
            out@ == reversed_branch@.reverse() + contour@.subrange(0, s as int),
            sink.events@ == old(sink).events@ ==> forall|k: int|
                1 <= k < contour@.len() ==> spec_on_level(
                    field_configuration.charges@,
                    level as int,
                    #[trigger] contour@[k],
                ),
            sink.events@ == old(sink).events@ ==> forall|k: int|
                0 <= k < out@.len() ==> #[trigger] out@[k] == (x0, y0) || spec_on_level(
                    field_configuration.charges@,
                    level as int,
                    out@[k],
                ),
        decreases contour@.len() - s,
    {
        out.push(contour[s]);
        s += 1;
        proof {
            assert(out@ =~= reversed_branch@.reverse() + contour@.subrange(0, s as int));
        }
    }
    proof {
        assert(contour@.subrange(0, contour@.len() as int) =~= contour@);
        assert(out@ =~= reversed_branch@.reverse() + contour@);
        assert(out@.len() >= 2);
    }
    out
}

/// How many cells still carry a level flag.
pub open spec fn count_some(s: Seq<Option<i64>>) -> nat
    decreases s.len(),
{
    if s.len() == 0 {
        0
    } else {
        count_some(s.drop_last()) + if s.last() is Some {
            1nat
        } else {
            0nat
        }
    }
}

/// Clearing a flag can only lower the count; clearing a set flag lowers it
/// by one.
proof fn lemma_count_some_clear(s: Seq<Option<i64>>, i: int)
    requires
        0 <= i < s.len(),
    ensures
        s[i] is Some ==> count_some(s.update(i, None)) == count_some(s) - 1,
        s[i] is None ==> count_some(s.update(i, None)) == count_some(s),
    decreases s.len(),
{
    let su = s.update(i, None);
    if i == s.len() - 1 {
        assert(su.drop_last() =~= s.drop_last());
    } else {
        lemma_count_some_clear(s.drop_last(), i);
        assert(su.drop_last() =~= s.drop_last().update(i, None));
        assert(su.last() == s.last());
    }
}

/// True when the potential at the cell's corners straddles the level: some
/// corner is above it and some corner is not.
pub open spec fn spec_straddles(
    charges: Seq<Charge>,
    g: crate::geometry::Geometry,
    i: int,
    j: int,
    level: int,
) -> bool {
    let p00 = spec_potential(charges, g.spec_corner_x(i), g.spec_corner_y(j));
    let p10 = spec_potential(charges, g.spec_corner_x(i + 1), g.spec_corner_y(j));
    let p01 = spec_potential(charges, g.spec_corner_x(i), g.spec_corner_y(j + 1));
    let p11 = spec_potential(charges, g.spec_corner_x(i + 1), g.spec_corner_y(j + 1));
    let any = p00 > level || p10 > level || p01 > level || p11 > level;
    let all = p00 > level && p10 > level && p01 > level && p11 > level;
    any != all
}

/// The first level of the list the cell straddles, if any.
pub open spec fn spec_first_straddled_level(
    charges: Seq<Charge>,
    g: crate::geometry::Geometry,
    i: int,
    j: int,
    levels: Seq<i64>,
    t: nat,
) -> Option<i64>
    decreases levels.len() - t,
{
    if t >= levels.len() {
        None
    } else if spec_straddles(charges, g, i, j, levels[t as int] as int) {
        Some(levels[t as int])
    } else {
        spec_first_straddled_level(charges, g, i, j, levels, t + 1)
    }
}

/// A straddled level is always one of the requested levels.
proof fn lemma_first_straddled_in_levels(
    charges: Seq<Charge>,
    g: crate::geometry::Geometry,
    i: int,
    j: int,
    levels: Seq<i64>,
    t: nat,
)
    ensures
        match spec_first_straddled_level(charges, g, i, j, levels, t) {
            Some(l) => exists|li: int| 0 <= li < levels.len() && levels[li] == l,
            None => true,
        },
    decreases levels.len() - t,
{
    if t < levels.len() {
        if spec_straddles(charges, g, i, j, levels[t as int] as int) {
            assert(levels[t as int] == levels[t as int]);
        } else {
            lemma_first_straddled_in_levels(charges, g, i, j, levels, t + 1);
        }
    }
}

/// True when every point of a contour lies, within the tracer's drift
/// allowance, on one of the requested levels.
pub open spec fn spec_contour_on_some_level(
    charges: Seq<Charge>,
    levels: Seq<i64>,
    contour: Seq<(i64, i64)>,
) -> bool {
    exists|li: int|
        0 <= li < levels.len() && forall|k: int|
            0 <= k < contour.len() ==> spec_on_level(
                charges,
                #[trigger] levels[li] as int,
                #[trigger] contour[k],
            )
}

/// The level flags of every grid cell: cell (i, j) carries the first level
/// whose level set crosses it.
fn build_crossing_flags(
    field_configuration: &FieldConfiguration,
    levels: &Vec<i64>,
) -> (flags: Vec<Option<i64>>)
    requires
        field_configuration.wf(),
    ensures
        flags@.len() == field_configuration.geometry.nx * field_configuration.geometry.ny,
        forall|k: int|
            0 <= k < flags@.len() ==> #[trigger] flags@[k] == spec_first_straddled_level(
                field_configuration.charges@,
                field_configuration.geometry,
                k / field_configuration.geometry.ny as int,
                k % field_configuration.geometry.ny as int,
                levels@,
                0,
            ),
{
    let nx = field_configuration.geometry.nx;
    let ny = field_configuration.geometry.ny;
    let total: usize = nx * ny;
    let mut flags: Vec<Option<i64>> = Vec::new();
    let mut t: usize = 0;
    while t < total
        invariant
            field_configuration.wf(),
            nx == field_configuration.geometry.nx,
            ny == field_configuration.geometry.ny,
            total == nx * ny,
            t <= total,
            flags@.len() == t,
            forall|k: int|
                0 <= k < t ==> #[trigger] flags@[k] == spec_first_straddled_level(
                    field_configuration.charges@,
                    field_configuration.geometry,
                    k / ny as int,
                    k % ny as int,
                    levels@,
                    0,
                ),
        decreases total - t,
    {
        let i: usize = t / ny;
        let j: usize = t % ny;
        proof {
            crate::grid::row_col_of_linear(t as int, nx as int, ny as int);
        }
        let corners = field_configuration.geometry.cell_to_corners(i, j);
        let p00 = compute_potential_electrostatic_direct(
            field_configuration,
            corners[0].0,
            corners[0].1,
        );
        let p10 = compute_potential_electrostatic_direct(
            field_configuration,
            corners[1].0,
            corners[1].1,
        );
        let p01 = compute_potential_electrostatic_direct(
            field_configuration,
            corners[2].0,
            corners[2].1,
        );
        let p11 = compute_potential_electrostatic_direct(
            field_configuration,
            corners[3].0,
            corners[3].1,
        );
        let mut flag: Option<i64> = None;
        let mut l: usize = 0;
        while l < levels.len()
            invariant_except_break
                l <= levels@.len(),
                flag is None,
                spec_first_straddled_level(
                    field_configuration.charges@,
                    field_configuration.geometry,
                    i as int,
                    j as int,
                    levels@,
                    0,
                ) == spec_first_straddled_level(
                    field_configuration.charges@,
                    field_configuration.geometry,
                    i as int,
                    j as int,
                    levels@,
                    l as nat,
                ),
                p00 == spec_potential(
                    field_configuration.charges@,
                    field_configuration.geometry.spec_corner_x(i as int),
                    field_configuration.geometry.spec_corner_y(j as int),
                ),
                p10 == spec_potential(
                    field_configuration.charges@,
                    field_configuration.geometry.spec_corner_x(i as int + 1),
                    field_configuration.geometry.spec_corner_y(j as int),
                ),
                p01 == spec_potential(
                    field_configuration.charges@,
                    field_configuration.geometry.spec_corner_x(i as int),
                    field_configuration.geometry.spec_corner_y(j as int + 1),
                ),
                p11 == spec_potential(
                    field_configuration.charges@,
                    field_configuration.geometry.spec_corner_x(i as int + 1),
                    field_configuration.geometry.spec_corner_y(j as int + 1),
                ),
            ensures
                flag == spec_first_straddled_level(
                    field_configuration.charges@,
                    field_configuration.geometry,
                    i as int,
                    j as int,
                    levels@,
                    0,
                ),
            decreases levels@.len() - l,
        {
            let level = levels[l];
            let any = p00 > level || p10 > level || p01 > level || p11 > level;
            let all = p00 > level && p10 > level && p01 > level && p11 > level;
            if any != all {
                flag = Some(level);
                break;
            }
            l += 1;
        }
        flags.push(flag);
        t += 1;
    }
    flags
}

/// The first still-flagged cell at or after index t, in row-major order.
pub open spec fn spec_first_flagged(flags: Seq<Option<i64>>, t: nat) -> Option<int>
    decreases flags.len() - t,
{
    if t >= flags.len() {
        None
    } else if flags[t as int] is Some {
        Some(t as int)
    } else {
        spec_first_flagged(flags, t + 1)
    }
}

/// Clear, among the given cells from index q on, every flag still carrying
/// `level`.
pub open spec fn spec_unflag_cells(
    flags: Seq<Option<i64>>,
    level: i64,
    cells: Seq<(usize, usize)>,
    ny: int,
    q: nat,
) -> Seq<Option<i64>>
    decreases cells.len() - q,
{
    if q >= cells.len() {
        flags
    } else {
        let idx = cells[q as int].0 * ny + cells[q as int].1;
        let cleared = if flags[idx] is Some && flags[idx].unwrap() == level {
            flags.update(idx, None)
        } else {
            flags
        };
        spec_unflag_cells(cleared, level, cells, ny, q + 1)
    }
}

/// Walk a contour from point p on: track the largest squared distance to the
/// nearest charge, and unflag the 3-by-3 neighborhood of every point where it
/// still carries the contour's level.
pub open spec fn spec_unflag_scan(
    charges: Seq<Charge>,
    g: crate::geometry::Geometry,
    flags: Seq<Option<i64>>,
    level: i64,
    contour: Seq<(i64, i64)>,
    maxd: int,
    p: nat,
) -> (Seq<Option<i64>>, int)
    decreases contour.len() - p,
{
    if p >= contour.len() {
        (flags, maxd)
    } else {
        let sq = spec_sqdist_closest(charges, contour[p as int].0 as int, contour[p as int].1 as int);
        let maxd2 = if sq > maxd {
            sq
        } else {
            maxd
        };
        let cells = g.spec_surrounding(
            g.spec_cell_x(contour[p as int].0 as int),
            g.spec_cell_y(contour[p as int].1 as int),
            9,
        );
        let cleared = spec_unflag_cells(flags, level, cells, g.ny as int, 0);
        spec_unflag_scan(charges, g, cleared, level, contour, maxd2, p + 1)
    }
}

/// The extraction driver run to completion from the given flags and
/// already-kept contours: seed a trace from the first flagged cell (clearing
/// its flag, and skipping seeds too close to a charge), unflag the cells the
/// contour visited, keep the contour if it escapes the charges' vicinity,
/// and stop at the cap (with a diagnostic) or when no flag remains. The fuel
/// only bounds the recursion; one more than the flag count always suffices.
pub open spec fn spec_contours_loop(
    charges: Seq<Charge>,
    g: crate::geometry::Geometry,
    flags: Seq<Option<i64>>,
    contours: Seq<Seq<(i64, i64)>>,
    fuel: nat,
) -> (Seq<Seq<(i64, i64)>>, Seq<DiagEvent>)
    decreases fuel,
{
    if contours.len() >= MAX_CONTOURS {
        (contours, seq![DiagEvent::ContourCapReached])
    } else {
        match spec_first_flagged(flags, 0) {
            None => (contours, Seq::empty()),
            Some(idx) => {
                if fuel == 0 {
                    (contours, Seq::empty())
                } else {
                    let level = flags[idx].unwrap();
                    let seeded = flags.update(idx, None);
                    let cx = g.spec_centroid_x(idx / g.ny as int);
                    let cy = g.spec_centroid_y(idx % g.ny as int);
                    if spec_sqdist_closest(charges, cx, cy) < FX_NEAR_CHARGE_SQ {
                        spec_contours_loop(charges, g, seeded, contours, (fuel - 1) as nat)
                    } else {
                        let fc = spec_find_crossing(charges, level as int, cx, cy);
                        let tr = spec_generate_trace(
                            charges,
                            g,
                            level as int,
                            fc.0.0 as i64,
                            fc.0.1 as i64,
                            false,
                        );
                        let scan = spec_unflag_scan(charges, g, seeded, level, tr.0, 0, 0);
                        let kept = if scan.1 > FX_KEEP_CONTOUR_SQ {
                            contours.push(tr.0)
                        } else {
                            contours
                        };
                        let rest = spec_contours_loop(charges, g, scan.0, kept, (fuel - 1) as nat);
                        (rest.0, fc.1 + tr.1 + rest.1)
                    }
                }
            },
        }
    }
}

/// Contour extraction as one function of its inputs: the kept contours and
/// the diagnostics emitted, in order.
pub open spec fn spec_contours(
    charges: Seq<Charge>,
    g: crate::geometry::Geometry,
    levels: Seq<i64>,
) -> (Seq<Seq<(i64, i64)>>, Seq<DiagEvent>) {
    if charges.len() == 0 {
        (Seq::empty(), Seq::empty())
    } else {
        let flags0 = Seq::new(
            (g.nx * g.ny) as nat,
            |k: int|
                spec_first_straddled_level(charges, g, k / g.ny as int, k % g.ny as int, levels, 0),
        );
        spec_contours_loop(charges, g, flags0, Seq::empty(), count_some(flags0) + 1)
    }
}

/// Extract up to `MAX_CONTOURS` contours of the potential at the given
/// levels: flag every cell with the first level crossing it, then repeatedly
/// seed a trace from the first flagged cell (skipping seeds too close to a
/// charge), unflag the cells the contour visited, and keep the contour if it
/// escapes the close neighborhood of the charges.
#[verifier::rlimit(100)]
pub fn generate_contours_at_levels(
    field_configuration: &FieldConfiguration,
    levels: Vec<i64>,
    sink: &mut DiagSink,
) -> (contours: Vec<Vec<(i64, i64)>>)
    requires
        field_configuration.wf(),
    ensures
        contours@.len() <= MAX_CONTOURS,
        forall|k: int| 0 <= k < contours@.len() ==> #[trigger] contours@[k]@.len() >= 2,
        final(sink).events@ == old(sink).events@ || final(sink).events@.len() > old(
            sink,
        ).events@.len(),
        final(sink).events@ == old(sink).events@ ==> forall|k: int|
            0 <= k < contours@.len() ==> spec_contour_on_some_level(
                field_configuration.charges@,
                levels@,
                #[trigger] contours@[k]@,
            ),
        ({
            let sc = spec_contours(
                field_configuration.charges@,
                field_configuration.geometry,
                levels@,
            );
            &&& contours@.len() == sc.0.len()
            &&& (forall|k: int| 0 <= k < contours@.len() ==> #[trigger] contours@[k]@ == sc.0[k])
            &&& final(sink).events@ == old(sink).events@ + sc.1
        }),
{
    let nx = field_configuration.geometry.nx;
    let ny = field_configuration.geometry.ny;
    let total: usize = nx * ny;
    let mut flags = build_crossing_flags(field_configuration, &levels);
    let ghost flags0 = Seq::new(
        (field_configuration.geometry.nx * field_configuration.geometry.ny) as nat,
        |k: int|
            spec_first_straddled_level(
                field_configuration.charges@,
                field_configuration.geometry,
                k / field_configuration.geometry.ny as int,
                k % field_configuration.geometry.ny as int,
                levels@,
                0,
            ),
    );
    proof {
        assert(flags@ =~= flags0);
    }
    let mut contours: Vec<Vec<(i64, i64)>> = Vec::new();
    if field_configuration.charges.len() == 0 {
        // With no charges the potential vanishes identically, so no cell's
        // corners can straddle a level from both sides.
        proof {
            assert(sink.events@ =~= old(sink).events@ + Seq::<DiagEvent>::empty());
        }
        return contours;
    }
    let ghost d_full = spec_contours_loop(
        field_configuration.charges@,
        field_configuration.geometry,
        flags@,
        Seq::empty(),
        count_some(flags@) + 1,
    );
    let ghost mut fuel: nat = count_some(flags@) + 1;
    let ghost mut cs: Seq<Seq<(i64, i64)>> = Seq::empty();
    loop
        invariant_except_break
            field_configuration.wf(),
            nx == field_configuration.geometry.nx,
            ny == field_configuration.geometry.ny,
            total == nx * ny,
            flags@.len() == total,
            contours@.len() <= MAX_CONTOURS,
            forall|k: int| 0 <= k < contours@.len() ==> #[trigger] contours@[k]@.len() >= 2,
            forall|k: int|
                0 <= k < flags@.len() && (#[trigger] flags@[k]) is Some ==> flags@[k]
                    == spec_first_straddled_level(
                    field_configuration.charges@,
                    field_configuration.geometry,
                    k / ny as int,
                    k % ny as int,
                    levels@,
                    0,
                ),
            sink.events@ == old(sink).events@ || sink.events@.len() > old(sink).events@.len(),
            sink.events@ == old(sink).events@ ==> forall|k: int|
                0 <= k < contours@.len() ==> spec_contour_on_some_level(
                    field_configuration.charges@,
                    levels@,
                    #[trigger] contours@[k]@,
                ),
            cs.len() == contours@.len(),
            forall|k: int| 0 <= k < cs.len() ==> #[trigger] cs[k] == contours@[k]@,
            fuel >= count_some(flags@) + 1,
            ({
                let rest = spec_contours_loop(
                    field_configuration.charges@,
                    field_configuration.geometry,
                    flags@,
                    cs,
                    fuel,
                );
                &&& rest.0 == d_full.0
                &&& sink.events@ + rest.1 == old(sink).events@ + d_full.1
            }),
        ensures
            contours@.len() <= MAX_CONTOURS,
            forall|k: int| 0 <= k < contours@.len() ==> #[trigger] contours@[k]@.len() >= 2,
            sink.events@ == old(sink).events@ || sink.events@.len() > old(sink).events@.len(),
            sink.events@ == old(sink).events@ ==> forall|k: int|
                0 <= k < contours@.len() ==> spec_contour_on_some_level(
                    field_configuration.charges@,
                    levels@,
                    #[trigger] contours@[k]@,
                ),
            cs.len() == contours@.len(),
            forall|k: int| 0 <= k < cs.len() ==> #[trigger] cs[k] == contours@[k]@,
            cs == d_full.0,
            sink.events@ == old(sink).events@ + d_full.1,
        decreases count_some(flags@),
    {
        if contours.len() >= MAX_CONTOURS {
            let ghost pre_events = sink.events@;
            sink.record(DiagEvent::ContourCapReached);
            proof {
                let rest = spec_contours_loop(
                    field_configuration.charges@,
                    field_configuration.geometry,
                    flags@,
                    cs,
                    fuel,
                );
                assert(rest == (cs, seq![DiagEvent::ContourCapReached]));
                assert(sink.events@ =~= pre_events + seq![DiagEvent::ContourCapReached]);
                assert(sink.events@ =~= old(sink).events@ + d_full.1);
            }
            break;
        }
        let mut found: Option<usize> = None;
        let mut t: usize = 0;
        while t < total
            invariant_except_break
                total == flags@.len(),
                t <= total,
                found is None,
                spec_first_flagged(flags@, 0) == spec_first_flagged(flags@, t as nat),
            ensures
                match found {
                    Some(idx) => idx < total && flags@[idx as int] is Some
                        && spec_first_flagged(flags@, 0) == Some(idx as int),
                    None => spec_first_flagged(flags@, 0) is None,
                },
            decreases total - t,
        {
            if flags[t].is_some() {
                found = Some(t);
                break;
            }
            t += 1;
        }
        if found.is_none() {
            proof {
                let rest = spec_contours_loop(
                    field_configuration.charges@,
                    field_configuration.geometry,
                    flags@,
                    cs,
                    fuel,
                );
                assert(rest == (cs, Seq::<DiagEvent>::empty()));
                assert(sink.events@ =~= sink.events@ + Seq::<DiagEvent>::empty());
            }
            break;
        }
        let idx = found.unwrap();
        let level = flags[idx].unwrap();
        let ghost flags_at_entry = flags@;
        proof {
            lemma_first_straddled_in_levels(
                field_configuration.charges@,
                field_configuration.geometry,
                idx as int / ny as int,
                idx as int % ny as int,
                levels@,
                0,
            );
        }
        flags.set(idx, None);
        proof {
            lemma_count_some_clear(flags_at_entry, idx as int);
            assert forall|k: int|
                0 <= k < flags@.len() && (#[trigger] flags@[k]) is Some implies flags@[k]
                == spec_first_straddled_level(
                field_configuration.charges@,
                field_configuration.geometry,
                k / ny as int,
                k % ny as int,
                levels@,
                0,
            ) by {
                assert(flags@[k] == flags_at_entry[k]);
            }
        }
        let ghost flags1 = flags@;
        let ghost rest_entry = spec_contours_loop(
            field_configuration.charges@,
            field_configuration.geometry,
            flags_at_entry,
            cs,
            fuel,
        );
        let i: usize = idx / ny;
        let j: usize = idx % ny;
        proof {
            crate::grid::row_col_of_linear(idx as int, nx as int, ny as int);
            fuel = (fuel - 1) as nat;
        }
        let (mut x, mut y) = field_configuration.geometry.cell_to_centroid(i, j);
        if squared_distance_to_closest_charge(field_configuration, x, y) < FX_NEAR_CHARGE_SQ {
            proof {
                assert(rest_entry == spec_contours_loop(
                    field_configuration.charges@,
                    field_configuration.geometry,
                    flags@,
                    cs,
                    fuel,
                ));
            }
            continue;
        }
        let ghost cx0 = x as int;
        let ghost cy0 = y as int;
        let ghost sink_before_refine = sink.events@;
        let refined = find_crossing_point(field_configuration, level, x, y, sink);
        x = refined.0;
        y = refined.1;
        let ghost sink_before_trace = sink.events@;
        let contour = generate_potential_contours(field_configuration, x, y, level, false, sink);
        let mut max_squared_distance: i64 = 0;
        let mut p: usize = 0;
        while p < contour.len()
            invariant
                field_configuration.wf(),
                nx == field_configuration.geometry.nx,
                ny == field_configuration.geometry.ny,
                total == nx * ny,
                flags@.len() == total,
                p <= contour@.len(),
                count_some(flags@) <= count_some(flags_at_entry) - 1,
                forall|k: int|
                    0 <= k < flags@.len() && (#[trigger] flags@[k]) is Some ==> flags@[k]
                        == spec_first_straddled_level(
                        field_configuration.charges@,
                        field_configuration.geometry,
                        k / ny as int,
                        k % ny as int,
                        levels@,
                        0,
                    ),
                spec_unflag_scan(
                    field_configuration.charges@,
                    field_configuration.geometry,
                    flags@,
                    level,
                    contour@,
                    max_squared_distance as int,
                    p as nat,
                ) == spec_unflag_scan(
                    field_configuration.charges@,
                    field_configuration.geometry,
                    flags1,
                    level,
                    contour@,
                    0,
                    0,
                ),
            decreases contour@.len() - p,
        {
            let ghost pre_flags_p = flags@;
            let ghost pre_max = max_squared_distance as int;
            let ghost pre_p = p as nat;
            let (px, py) = contour[p];
            let squared_distance = squared_distance_to_closest_charge(
                field_configuration,
                px,
                py,
            );
            if squared_distance > max_squared_distance {
                max_squared_distance = squared_distance;
            }
            let neighbors = field_configuration.geometry.position_to_surrounding_cells(px, py);
            let ghost flags_at_p = flags@;
            let mut q: usize = 0;
            while q < neighbors.len()
                invariant
                    field_configuration.wf(),
                    nx == field_configuration.geometry.nx,
                    ny == field_configuration.geometry.ny,
                    total == nx * ny,
                    flags@.len() == total,
                    q <= neighbors@.len(),
                    forall|m: int|
                        0 <= m < neighbors@.len() ==> #[trigger] neighbors@[m].0 < nx
                            && neighbors@[m].1 < ny,
                    count_some(flags@) <= count_some(flags_at_entry) - 1,
                    forall|k: int|
                        0 <= k < flags@.len() && (#[trigger] flags@[k]) is Some ==> flags@[k]
                            == spec_first_straddled_level(
                            field_configuration.charges@,
                            field_configuration.geometry,
                            k / ny as int,
                            k % ny as int,
                            levels@,
                            0,
                        ),
                    spec_unflag_cells(flags@, level, neighbors@, ny as int, q as nat)
                        == spec_unflag_cells(flags_at_p, level, neighbors@, ny as int, 0),
                decreases neighbors@.len() - q,
            {
                let ghost pre_flags_q = flags@;
                let ghost pre_q = q as nat;
                let (it, jt) = neighbors[q];
                proof {
                    assert(0 <= (it as int) * (ny as int) + (jt as int)
                        && (it as int) * (ny as int) + (jt as int) < (nx as int) * (ny as int))
                        by (nonlinear_arith)
                        requires
                            (it as int) < nx as int,
                            (jt as int) < ny as int,
                            0 <= it as int,
                            0 <= jt as int,
                    ;
                }
                let cell_idx: usize = it * ny + jt;
                let here = flags[cell_idx];
                if here.is_some() && here.unwrap() == level {
                    let ghost before_clear = flags@;
                    flags.set(cell_idx, None);
                    proof {
                        lemma_count_some_clear(before_clear, cell_idx as int);
                        assert forall|k: int|
                            0 <= k < flags@.len() && (#[trigger] flags@[k]) is Some implies flags@[k]
                            == spec_first_straddled_level(
                            field_configuration.charges@,
                            field_configuration.geometry,
                            k / ny as int,
                            k % ny as int,
                            levels@,
                            0,
                        ) by {
                            assert(flags@[k] == before_clear[k]);
                        }
                    }
                }
                q += 1;
                proof {
                    assert(spec_unflag_cells(pre_flags_q, level, neighbors@, ny as int, pre_q)
                        == spec_unflag_cells(flags@, level, neighbors@, ny as int, q as nat));
                }
            }
            p += 1;
            proof {
                assert(spec_unflag_cells(flags@, level, neighbors@, ny as int, neighbors@.len() as nat)
                    == flags@);
                assert(spec_unflag_scan(
                    field_configuration.charges@,
                    field_configuration.geometry,
                    pre_flags_p,
                    level,
                    contour@,
                    pre_max,
                    pre_p,
                ) == spec_unflag_scan(
                    field_configuration.charges@,
                    field_configuration.geometry,
                    flags@,
                    level,
                    contour@,
                    max_squared_distance as int,
                    p as nat,
                ));
            }
        }
        let ghost contours_prev = contours@;
        let ghost contour_view = contour@;
        if max_squared_distance > FX_KEEP_CONTOUR_SQ {
            contours.push(contour);
            proof {
                cs = cs.push(contour_view);
                assert forall|k: int| 0 <= k < cs.len() implies #[trigger] cs[k]
                    == contours@[k]@ by {
                    if k < contours_prev.len() {
                        assert(contours@[k] == contours_prev[k]);
                    } else {
                        assert(cs[k] == contour_view);
                    }
                }
                if sink.events@ == old(sink).events@ {
                    assert(sink_before_refine == old(sink).events@);
                    assert(sink_before_trace == sink_before_refine);
                    let li = choose|li: int|
                        0 <= li < levels@.len() && levels@[li] == level;
                    assert(spec_contour_on_some_level(
                        field_configuration.charges@,
                        levels@,
                        contour@,
                    )) by {
                        assert forall|k: int| 0 <= k < contour@.len() implies spec_on_level(
                            field_configuration.charges@,
                            #[trigger] levels@[li] as int,
                            #[trigger] contour@[k],
                        ) by {
                            if contour@[k] == (x, y) {
                                assert(spec_on_level(
                                    field_configuration.charges@,
                                    level as int,
                                    (x, y),
                                ));
                            }
                        }
                    }
                    assert forall|k: int| 0 <= k < contours@.len() implies
                        spec_contour_on_some_level(
                        field_configuration.charges@,
                        levels@,
                        #[trigger] contours@[k]@,
                    ) by {
                        if k < contours_prev.len() {
                            assert(contours@[k] == contours_prev[k]);
                        } else {
                            assert(contours@[k] == contour);
                        }
                    }
                }
            }
        }
        proof {
            let charges = field_configuration.charges@;
            let g = field_configuration.geometry;
            let fc = spec_find_crossing(charges, level as int, cx0, cy0);
            let tr = spec_generate_trace(charges, g, level as int, fc.0.0 as i64, fc.0.1 as i64, false);
            assert(contour_view == tr.0);
            let scan = spec_unflag_scan(charges, g, flags1, level, tr.0, 0, 0);
            assert(spec_unflag_scan(
                charges,
                g,
                flags@,
                level,
                contour_view,
                max_squared_distance as int,
                contour_view.len() as nat,
            ) == scan);
            assert(flags@ == scan.0 && max_squared_distance as int == scan.1);
            let rest_new = spec_contours_loop(charges, g, flags@, cs, fuel);
            assert(rest_entry.0 == rest_new.0 && rest_entry.1 == (fc.1 + tr.1) + rest_new.1);
            assert(sink.events@ =~= sink_before_refine + (fc.1 + tr.1));
            assert(sink.events@ + rest_new.1 =~= sink_before_refine + ((fc.1 + tr.1)
                + rest_new.1));
        }
    }
    proof {
        let sc = spec_contours(
            field_configuration.charges@,
            field_configuration.geometry,
            levels@,
        );
        assert(sc.0 == d_full.0 && sc.1 == d_full.1);
    }
    contours
}

/// Extract contours of the closed-form electrostatic potential at the given
/// levels.
pub fn generate_potential_contours_at_levels(
    field_configuration: &FieldConfiguration,
    levels: Vec<i64>,
    sink: &mut DiagSink,
) -> (contours: Vec<Vec<(i64, i64)>>)
    requires
        field_configuration.wf(),
    ensures
        contours@.len() <= MAX_CONTOURS,
        forall|k: int| 0 <= k < contours@.len() ==> #[trigger] contours@[k]@.len() >= 2,
        final(sink).events@ == old(sink).events@ ==> forall|k: int|
            0 <= k < contours@.len() ==> spec_contour_on_some_level(
                field_configuration.charges@,
                levels@,
                #[trigger] contours@[k]@,
            ),
        ({
            let sc = spec_contours(
                field_configuration.charges@,
                field_configuration.geometry,
                levels@,
            );
            &&& contours@.len() == sc.0.len()
            &&& (forall|k: int| 0 <= k < contours@.len() ==> #[trigger] contours@[k]@ == sc.0[k])
            &&& final(sink).events@ == old(sink).events@ + sc.1
        }),
{
    generate_contours_at_levels(field_configuration, levels, sink)
}

} // verus!
