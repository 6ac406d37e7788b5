//! Closed-form (grid-free) Coulomb potential and field of the charge set,
//! softened so that no value blows up at a charge's exact position. These are
//! smooth everywhere and feed the contour tracer.

use vstd::prelude::*;
use crate::charge::Charge;
use crate::field::FieldConfiguration;
use crate::diag::DiagSink;
use crate::fx::{
    fx_add, fx_div, fx_mul, fx_sqrt, fx_sub, spec_fx_add, spec_fx_div, spec_fx_mul, spec_fx_sqrt,
    spec_fx_sub,
};

verus! {

/// The overall field scaling constant, fixed-point.
pub const FX_FIELD_SCALING: i64 = 85899345920000;

/// The softening constant added to every squared distance, fixed-point.
pub const FX_SOFTEN: i64 = 21474836480;

/// A pair of scalars: a 2-D vector value.
pub struct Pair {
    /// The x component.
    pub u: i64,
    /// The y component.
    pub v: i64,
}

/// The softened distance from (x, y) to a charge:
/// `sqrt(dx*dx + dy*dy + FX_SOFTEN)`.
pub open spec fn spec_softened_distance(c: Charge, x: int, y: int) -> int {
    let dx = spec_fx_sub(x, c.x as int);
    let dy = spec_fx_sub(y, c.y as int);
    spec_fx_sqrt(
        spec_fx_add(spec_fx_add(spec_fx_mul(dx, dx), spec_fx_mul(dy, dy)), FX_SOFTEN as int),
    )
}

/// The electrostatic potential of the first t charges at (x, y): the sum of
/// `-FX_FIELD_SCALING * strength / softened_distance`.
pub open spec fn spec_potential_upto(charges: Seq<Charge>, x: int, y: int, t: nat) -> int
    decreases t,
{
    if t == 0 {
        0
    } else {
        let c = charges[t - 1];
        spec_fx_sub(
            spec_potential_upto(charges, x, y, (t - 1) as nat),
            spec_fx_div(
                spec_fx_mul(FX_FIELD_SCALING as int, c.charge as int),
                spec_softened_distance(c, x, y),
            ),
        )
    }
}

/// The electrostatic potential of a charge set at (x, y).
pub open spec fn spec_potential(charges: Seq<Charge>, x: int, y: int) -> int {
    spec_potential_upto(charges, x, y, charges.len())
}

/// One axis of the electrostatic field of one charge at (x, y):
/// `FX_FIELD_SCALING * strength * delta / r^3` for the softened distance r.
pub open spec fn spec_field_term(c: Charge, delta: int, r: int) -> int {
    spec_fx_div(
        spec_fx_mul(spec_fx_mul(FX_FIELD_SCALING as int, c.charge as int), delta),
        spec_fx_mul(spec_fx_mul(r, r), r),
    )
}

/// The electrostatic field of the first t charges at (x, y).
pub open spec fn spec_field_upto(charges: Seq<Charge>, x: int, y: int, t: nat) -> (int, int)
    decreases t,
{
    if t == 0 {
        (0, 0)
    } else {
        let prev = spec_field_upto(charges, x, y, (t - 1) as nat);
        let c = charges[t - 1];
        let r = spec_softened_distance(c, x, y);
        (
            spec_fx_add(prev.0, spec_field_term(c, spec_fx_sub(x, c.x as int), r)),
            spec_fx_add(prev.1, spec_field_term(c, spec_fx_sub(y, c.y as int), r)),
        )
    }
}

/// The electrostatic field of a charge set at (x, y).
pub open spec fn spec_field(charges: Seq<Charge>, x: int, y: int) -> (int, int) {
    spec_field_upto(charges, x, y, charges.len())
}

/// The closed-form electrostatic potential at a position: the softened
/// Coulomb sum over the configuration's charges.
pub fn compute_potential_electrostatic_direct(
    field_configuration: &FieldConfiguration,
    x: i64,
    y: i64,
) -> (r: i64)
    ensures
        r == spec_potential(field_configuration.charges@, x as int, y as int),
{
    let mut potential: i64 = 0;
    let n = field_configuration.charges.len();
    let mut t: usize = 0;
    while t < n
        invariant
            n == field_configuration.charges@.len(),
            t <= n,
            potential == spec_potential_upto(
                field_configuration.charges@,
                x as int,
                y as int,
                t as nat,
            ),
        decreases n - t,
    {
        let c = field_configuration.charges[t];
        let dx = fx_sub(x, c.x);
        let dy = fx_sub(y, c.y);
        let r = fx_sqrt(fx_add(fx_add(fx_mul(dx, dx), fx_mul(dy, dy)), FX_SOFTEN));
        potential = fx_sub(potential, fx_div(fx_mul(FX_FIELD_SCALING, c.charge), r));
        t += 1;
    }
    potential
}

/// The closed-form electrostatic field at a position: the softened Coulomb
/// sum over the configuration's charges.
pub fn compute_field_electrostatic_direct(
    field_configuration: &FieldConfiguration,
    x: i64,
    y: i64,
) -> (r: Pair)
    ensures
        r.u == spec_field(field_configuration.charges@, x as int, y as int).0,
        r.v == spec_field(field_configuration.charges@, x as int, y as int).1,
{
    let mut u: i64 = 0;
    let mut v: i64 = 0;
    let n = field_configuration.charges.len();
    let mut t: usize = 0;
    while t < n
        invariant
            n == field_configuration.charges@.len(),
            t <= n,
            u == spec_field_upto(field_configuration.charges@, x as int, y as int, t as nat).0,
            v == spec_field_upto(field_configuration.charges@, x as int, y as int, t as nat).1,
        decreases n - t,
    {
        let c = field_configuration.charges[t];
        let dx = fx_sub(x, c.x);
        let dy = fx_sub(y, c.y);
        let r = fx_sqrt(fx_add(fx_add(fx_mul(dx, dx), fx_mul(dy, dy)), FX_SOFTEN));
        let k = fx_mul(FX_FIELD_SCALING, c.charge);
        let r3 = fx_mul(fx_mul(r, r), r);
        u = fx_add(u, fx_div(fx_mul(k, dx), r3));
        v = fx_add(v, fx_div(fx_mul(k, dy), r3));
        t += 1;
    }
    Pair { u, v }
}

/// The closed-form magnetostatic field at a position: in the plane, the
/// Biot-Savart field is the electrostatic field of the same sources rotated
/// a quarter turn.
pub fn compute_field_magnetostatic_direct(
    field_configuration: &FieldConfiguration,
    x: i64,
    y: i64,
) -> (r: Pair)
    ensures
        r.u == spec_field(field_configuration.charges@, x as int, y as int).1,
        r.v == spec_fx_sub(0, spec_field(field_configuration.charges@, x as int, y as int).0),
{
    let Pair { u, v } = compute_field_electrostatic_direct(field_configuration, x, y);
    Pair { u: v, v: fx_sub(0, u) }
}

/// The dynamic (grid) electric field interpolated at a position.
pub fn compute_electric_field_dynamic(
    field_configuration: &FieldConfiguration,
    x: i64,
    y: i64,
    sink: &mut DiagSink,
) -> (r: Pair)
    requires
        field_configuration.wf(),
    ensures
        field_configuration.spec_initialized() && crate::field::spec_query_in_domain(
            field_configuration.geometry,
            x as int,
            y as int,
        ) ==> {
            &&& r.u == crate::field::spec_interpolate(
                field_configuration.geometry,
                field_configuration.elec_x.unwrap()@.cells,
                x as int,
                y as int,
            )
            &&& r.v == crate::field::spec_interpolate(
                field_configuration.geometry,
                field_configuration.elec_y.unwrap()@.cells,
                x as int,
                y as int,
            )
        },
        !field_configuration.spec_initialized() ==> r.u == 0 && r.v == 0,
{
    let (u, v) = field_configuration.evaluate_elec_interpolated(x, y, sink);
    Pair { u, v }
}

} // verus!
