//! Direction markers: where a contour segment crosses the symmetry line of a
//! charge pair.

use vstd::prelude::*;
use crate::charge::Charge;
use crate::diag::DiagSink;
use crate::direct::Pair;
use crate::field::FieldConfiguration;
use crate::fx::{
    fx_add, fx_div, fx_mul, fx_signum, fx_sub, spec_fx_add, spec_fx_div, spec_fx_mul,
    spec_fx_sub, spec_signum, FX_ONE,
};

verus! {

/// The pairing score's constant term, fixed-point (thirteen tenths).
pub const FX_PAIR_BONUS: i64 = 5583457485;

/// Segments skipped after an arrow before the next may be placed.
pub const ARROW_DEBOUNCE: usize = 10;

/// The signed area test of (x, y) against the infinite line through charge
/// `c` and charge `o`: positive on one side, negative on the other.
pub open spec fn spec_line_side(c: Charge, o: Charge, x: int, y: int) -> int {
    spec_fx_sub(
        spec_fx_mul(spec_fx_sub(x, c.x as int), spec_fx_sub(o.y as int, c.y as int)),
        spec_fx_mul(spec_fx_sub(y, c.y as int), spec_fx_sub(o.x as int, c.x as int)),
    )
}

/// Where the segment (x0, y0)-(x1, y1) crosses the infinite line through the
/// two charges, if its endpoints lie on opposite sides: the point
/// `(x0, y0) + t * (x1 - x0, y1 - y0)` with `t = f0 / (f0 - f1)`.
pub open spec fn spec_segment_line_crossing(
    c: Charge,
    o: Charge,
    x0: int,
    y0: int,
    x1: int,
    y1: int,
) -> Option<(int, int)> {
    let f0 = spec_line_side(c, o, x0, y0);
    let f1 = spec_line_side(c, o, x1, y1);
    if spec_signum(f0) != spec_signum(f1) {
        let t = spec_fx_div(f0, spec_fx_sub(f0, f1));
        Some(
            (
                spec_fx_add(x0, spec_fx_mul(t, spec_fx_sub(x1, x0))),
                spec_fx_add(y0, spec_fx_mul(t, spec_fx_sub(y1, y0))),
            ),
        )
    } else {
        None
    }
}

/// Where the segment crosses the charge pair's line, if it does.
fn crosses_symmetry(c: Charge, o: Charge, x0: i64, y0: i64, x1: i64, y1: i64) -> (r: Option<Pair>)
    ensures
        match r {
            Some(p) => {
                &&& spec_segment_line_crossing(c, o, x0 as int, y0 as int, x1 as int, y1 as int)
                    is Some
                &&& (p.u as int, p.v as int) == spec_segment_line_crossing(
                    c,
                    o,
                    x0 as int,
                    y0 as int,
                    x1 as int,
                    y1 as int,
                ).unwrap()
            },
            None => spec_segment_line_crossing(c, o, x0 as int, y0 as int, x1 as int, y1 as int)
                is None,
        },
{
    let f0 = fx_sub(
        fx_mul(fx_sub(x0, c.x), fx_sub(o.y, c.y)),
        fx_mul(fx_sub(y0, c.y), fx_sub(o.x, c.x)),
    );
    let f1 = fx_sub(
        fx_mul(fx_sub(x1, c.x), fx_sub(o.y, c.y)),
        fx_mul(fx_sub(y1, c.y), fx_sub(o.x, c.x)),
    );
    if fx_signum(f0) != fx_signum(f1) {
        let t = fx_div(f0, fx_sub(f0, f1));
        let x = fx_add(x0, fx_mul(t, fx_sub(x1, x0)));
        let y = fx_add(y0, fx_mul(t, fx_sub(y1, y0)));
        Some(Pair { u: x, v: y })
    } else {
        None
    }
}

/// The pairing score of two charges: `(1.3 - q1*q2) / r^2`, favoring close,
/// oppositely charged pairs.
pub open spec fn spec_pair_score(c: Charge, o: Charge) -> int {
    let dx = spec_fx_sub(c.x as int, o.x as int);
    let dy = spec_fx_sub(c.y as int, o.y as int);
    spec_fx_div(
        spec_fx_sub(FX_PAIR_BONUS as int, spec_fx_mul(c.charge as int, o.charge as int)),
        spec_fx_add(spec_fx_mul(dx, dx), spec_fx_mul(dy, dy)),
    )
}

/// The pairing score of two charges.
fn pair_score(c: Charge, o: Charge) -> (r: i64)
    ensures
        r == spec_pair_score(c, o),
{
    let dx = fx_sub(c.x, o.x);
    let dy = fx_sub(c.y, o.y);
    let r_squared = fx_add(fx_mul(dx, dx), fx_mul(dy, dy));
    fx_div(fx_sub(FX_PAIR_BONUS, fx_mul(c.charge, o.charge)), r_squared)
}

/// The best unpaired partner for a charge, scanning from index j with the
/// best score and candidate so far: the highest-scoring other charge not yet
/// paired and not equal to the charge itself.
pub open spec fn spec_best_partner(
    charges: Seq<Charge>,
    paired: Seq<bool>,
    c: Charge,
    j: nat,
    best_score: int,
    best: Option<(Charge, int)>,
) -> Option<(Charge, int)>
    decreases charges.len() - j,
{
    if j >= charges.len() {
        best
    } else {
        let oc = charges[j as int];
        if !(c == oc || paired[j as int]) && spec_pair_score(c, oc) > best_score {
            spec_best_partner(charges, paired, c, j + 1, spec_pair_score(c, oc), Some((oc, j as int)))
        } else {
            spec_best_partner(charges, paired, c, j + 1, best_score, best)
        }
    }
}

/// The greedy pairing scan from charge i on: pair each unpaired charge with
/// its best partner and return the first paired line the segment crosses.
pub open spec fn spec_pair_scan(
    charges: Seq<Charge>,
    paired: Seq<bool>,
    i: nat,
    x0: int,
    y0: int,
    x1: int,
    y1: int,
) -> Option<(int, int)>
    decreases charges.len() - i,
{
    if i >= charges.len() {
        None
    } else if paired[i as int] {
        spec_pair_scan(charges, paired, i + 1, x0, y0, x1, y1)
    } else {
        let c = charges[i as int];
        match spec_best_partner(charges, paired, c, 0, 0, None) {
            None => spec_pair_scan(charges, paired, i + 1, x0, y0, x1, y1),
            Some((oc, jidx)) => {
                let paired2 = paired.update(i as int, true).update(jidx, true);
                match spec_segment_line_crossing(c, oc, x0, y0, x1, y1) {
                    Some(p) => Some(p),
                    None => spec_pair_scan(charges, paired2, i + 1, x0, y0, x1, y1),
                }
            },
        }
    }
}

/// The symmetry-line crossing test as one function of its inputs: a lone
/// charge is paired with a fictitious partner one unit to its right; any
/// other charge set is paired greedily.
pub open spec fn spec_line_crossing(
    charges: Seq<Charge>,
    x0: int,
    y0: int,
    x1: int,
    y1: int,
) -> Option<(int, int)> {
    if charges.len() == 1 {
        let c = charges[0];
        let o = Charge { x: spec_fx_add(c.x as int, FX_ONE as int) as i64, y: c.y, charge: c.charge };
        spec_segment_line_crossing(c, o, x0, y0, x1, y1)
    } else {
        spec_pair_scan(charges, Seq::new(charges.len(), |k: int| false), 0, x0, y0, x1, y1)
    }
}

/// Whether — and where — the segment (x0, y0)-(x1, y1) crosses a symmetry
/// line of the charge set. Charges are paired greedily by descending score;
/// a lone charge is paired with a fictitious partner one unit to its right.
/// The first paired line the segment crosses wins. Note the crossing test
/// uses the pair's infinite line, not only the stretch between the charges.
pub fn line_crosses_symmetry(
    field_configuration: &FieldConfiguration,
    x0: i64,
    y0: i64,
    x1: i64,
    y1: i64,
) -> (r: Option<Pair>)
    ensures
        field_configuration.charges@.len() == 1 ==> {
            let c = field_configuration.charges@[0];
            let o = Charge {
                x: crate::fx::spec_fx_add(c.x as int, FX_ONE as int) as i64,
                y: c.y,
                charge: c.charge,
            };
            match r {
                Some(p) => (p.u as int, p.v as int) == spec_segment_line_crossing(
                    c,
                    o,
                    x0 as int,
                    y0 as int,
                    x1 as int,
                    y1 as int,
                ).unwrap() && spec_segment_line_crossing(
                    c,
                    o,
                    x0 as int,
                    y0 as int,
                    x1 as int,
                    y1 as int,
                ) is Some,
                None => spec_segment_line_crossing(
                    c,
                    o,
                    x0 as int,
                    y0 as int,
                    x1 as int,
                    y1 as int,
                ) is None,
            }
        },
        field_configuration.charges@.len() == 0 ==> r is None,
        ({
            let lc = spec_line_crossing(
                field_configuration.charges@,
                x0 as int,
                y0 as int,
                x1 as int,
                y1 as int,
            );
            match r {
                Some(p) => lc == Some((p.u as int, p.v as int)),
                None => lc is None,
            }
        }),
        r is Some && field_configuration.charges@.len() != 1 ==> exists|a: int, b: int|
            0 <= a < field_configuration.charges@.len() && 0 <= b
                < field_configuration.charges@.len() && #[trigger] spec_segment_line_crossing(
                field_configuration.charges@[a],
                field_configuration.charges@[b],
                x0 as int,
                y0 as int,
                x1 as int,
                y1 as int,
            ) == Some((r.unwrap().u as int, r.unwrap().v as int)),
{
    let ghost lc = spec_line_crossing(
        field_configuration.charges@,
        x0 as int,
        y0 as int,
        x1 as int,
        y1 as int,
    );
    let n = field_configuration.charges.len();
    if n == 1 {
        let charge = field_configuration.charges[0];
        let other_charge = Charge {
            x: fx_add(charge.x, FX_ONE),
            y: charge.y,
            charge: charge.charge,
        };
        return crosses_symmetry(charge, other_charge, x0, y0, x1, y1);
    }
    let mut charge_already_paired: Vec<bool> = Vec::new();
    let mut k: usize = 0;
    while k < n
        invariant
            n == field_configuration.charges@.len(),
            k <= n,
            charge_already_paired@.len() == k,
            forall|m: int| 0 <= m < k ==> !(#[trigger] charge_already_paired@[m]),
        decreases n - k,
    {
        charge_already_paired.push(false);
        k += 1;
    }
    proof {
        assert(charge_already_paired@ =~= Seq::new(
            field_configuration.charges@.len(),
            |m: int| false,
        ));
    }
    let mut i: usize = 0;
    while i < n
        invariant
            n == field_configuration.charges@.len(),
            n != 1,
            i <= n,
            charge_already_paired@.len() == n,
            lc == spec_line_crossing(
                field_configuration.charges@,
                x0 as int,
                y0 as int,
                x1 as int,
                y1 as int,
            ),
            lc == spec_pair_scan(
                field_configuration.charges@,
                charge_already_paired@,
                i as nat,
                x0 as int,
                y0 as int,
                x1 as int,
                y1 as int,
            ),
        decreases n - i,
    {
        let ghost pre_paired = charge_already_paired@;
        if !charge_already_paired[i] {
            let charge = field_configuration.charges[i];
            let mut best_score: i64 = 0;
            let mut best_other_charge: Option<Charge> = None;
            let mut best_other_charge_index: usize = 0;
            let mut j: usize = 0;
            while j < n
                invariant
                    n == field_configuration.charges@.len(),
                    j <= n,
                    charge_already_paired@.len() == n,
                    charge == field_configuration.charges@[i as int],
                    i < n,
                    best_other_charge is Some ==> best_other_charge_index < n
                        && best_other_charge.unwrap() == field_configuration.charges@[best_other_charge_index as int],
                    spec_best_partner(
                        field_configuration.charges@,
                        charge_already_paired@,
                        charge,
                        j as nat,
                        best_score as int,
                        match best_other_charge {
                            Some(oc) => Some((oc, best_other_charge_index as int)),
                            None => None,
                        },
                    ) == spec_best_partner(
                        field_configuration.charges@,
                        charge_already_paired@,
                        charge,
                        0,
                        0,
                        None::<(Charge, int)>,
                    ),
                decreases n - j,
            {
                let other_charge = field_configuration.charges[j];
                if !(charge == other_charge || charge_already_paired[j]) {
                    let score = pair_score(charge, other_charge);
                    if score > best_score {
                        best_score = score;
                        best_other_charge = Some(other_charge);
                        best_other_charge_index = j;
                    }
                }
                j += 1;
            }
            proof {
                assert(match best_other_charge {
                    Some(oc) => Some((oc, best_other_charge_index as int)),
                    None => None,
                } == spec_best_partner(
                    field_configuration.charges@,
                    charge_already_paired@,
                    charge,
                    0,
                    0,
                    None::<(Charge, int)>,
                ));
            }
            if best_other_charge.is_some() {
                charge_already_paired.set(i, true);
                charge_already_paired.set(best_other_charge_index, true);
                proof {
                    assert(charge_already_paired@ =~= pre_paired.update(i as int, true).update(
                        best_other_charge_index as int,
                        true,
                    ));
                }
                let r = crosses_symmetry(charge, best_other_charge.unwrap(), x0, y0, x1, y1);
                if r.is_some() {
                    proof {
                        assert(charge == field_configuration.charges@[i as int]);
                        assert(spec_segment_line_crossing(
                            field_configuration.charges@[i as int],
                            field_configuration.charges@[best_other_charge_index as int],
                            x0 as int,
                            y0 as int,
                            x1 as int,
                            y1 as int,
                        ) == Some((r.unwrap().u as int, r.unwrap().v as int)));
                        assert(lc == Some((r.unwrap().u as int, r.unwrap().v as int)));
                    }
                    return r;
                }
            }
        }
        i += 1;
    }
    None
}

/// The debounced arrow scan of one contour from segment si on: place an
/// arrow wherever a segment crosses a symmetry line, then suppress the next
/// `ARROW_DEBOUNCE` segments. Returns the arrows and the suppression counter
/// left for the next contour.
pub open spec fn spec_arrows_in_contour(
    charges: Seq<Charge>,
    contour: Seq<(i64, i64)>,
    si: nat,
    debounce: nat,
    arrows: Seq<(i64, i64)>,
) -> (Seq<(i64, i64)>, nat)
    decreases contour.len() - si,
{
    if si + 1 >= contour.len() {
        (arrows, debounce)
    } else if debounce > 0 {
        spec_arrows_in_contour(charges, contour, si + 1, (debounce - 1) as nat, arrows)
    } else {
        match spec_line_crossing(
            charges,
            contour[si as int].0 as int,
            contour[si as int].1 as int,
            contour[si as int + 1].0 as int,
            contour[si as int + 1].1 as int,
        ) {
            Some(p) => spec_arrows_in_contour(
                charges,
                contour,
                si + 1,
                ARROW_DEBOUNCE as nat,
                arrows.push((p.0 as i64, p.1 as i64)),
            ),
            None => spec_arrows_in_contour(charges, contour, si + 1, 0, arrows),
        }
    }
}

/// The debounced arrow scan over a list of contours, in order, with the
/// suppression counter carried across contours.
pub open spec fn spec_arrows(
    charges: Seq<Charge>,
    contours: Seq<Seq<(i64, i64)>>,
    ci: nat,
    debounce: nat,
    arrows: Seq<(i64, i64)>,
) -> Seq<(i64, i64)>
    decreases contours.len() - ci,
{
    if ci >= contours.len() {
        arrows
    } else {
        let s = spec_arrows_in_contour(charges, contours[ci as int], 0, debounce, arrows);
        spec_arrows(charges, contours, ci + 1, s.1, s.0)
    }
}

/// Extract contours at the given levels and annotate them with arrow
/// positions: one wherever a contour segment crosses a paired charges'
/// symmetry line, with the next `ARROW_DEBOUNCE` segments suppressed after
/// each arrow.
pub fn generate_potential_contours_and_arrow_positions_at_levels(
    field_configuration: &FieldConfiguration,
    levels: Vec<i64>,
    sink: &mut DiagSink,
) -> (r: (Vec<Vec<(i64, i64)>>, Vec<(i64, i64)>))
    requires
        field_configuration.wf(),
    ensures
        r.0@.len() <= crate::contours::MAX_CONTOURS,
        forall|k: int| 0 <= k < r.0@.len() ==> #[trigger] r.0@[k]@.len() >= 2,
        final(sink).events@ == old(sink).events@ ==> forall|k: int|
            0 <= k < r.0@.len() ==> crate::contours::spec_contour_on_some_level(
                field_configuration.charges@,
                levels@,
                #[trigger] r.0@[k]@,
            ),
        ({
            let sc = crate::contours::spec_contours(
                field_configuration.charges@,
                field_configuration.geometry,
                levels@,
            );
            &&& r.0@.len() == sc.0.len()
            &&& (forall|k: int| 0 <= k < r.0@.len() ==> #[trigger] r.0@[k]@ == sc.0[k])
            &&& r.1@ == spec_arrows(field_configuration.charges@, sc.0, 0, 0, Seq::empty())
            &&& final(sink).events@ == old(sink).events@ + sc.1
        }),
{
    let ghost levels_view = levels@;
    let contours = crate::contours::generate_contours_at_levels(
        field_configuration,
        levels,
        sink,
    );
    let ghost sc0 = crate::contours::spec_contours(
        field_configuration.charges@,
        field_configuration.geometry,
        levels_view,
    ).0;
    let ghost a_full = spec_arrows(
        field_configuration.charges@,
        sc0,
        0,
        0,
        Seq::<(i64, i64)>::empty(),
    );
    let mut arrows: Vec<(i64, i64)> = Vec::new();
    let mut steps_until_another_arrow_allowed: usize = 0;
    let mut ci: usize = 0;
    while ci < contours.len()
        invariant
            ci <= contours@.len(),
            forall|k: int| 0 <= k < contours@.len() ==> #[trigger] contours@[k]@.len() >= 2,
            contours@.len() == sc0.len(),
            forall|k: int| 0 <= k < contours@.len() ==> #[trigger] contours@[k]@ == sc0[k],
            a_full == spec_arrows(
                field_configuration.charges@,
                sc0,
                ci as nat,
                steps_until_another_arrow_allowed as nat,
                arrows@,
            ),
        decreases contours@.len() - ci,
    {
        let contour = &contours[ci];
        let ghost db0 = steps_until_another_arrow_allowed as nat;
        let ghost ar0 = arrows@;
        let mut si: usize = 0;
        while si < contour.len() - 1
            invariant
                contour@.len() >= 2,
                si <= contour@.len() - 1,
                ci < contours@.len(),
                contour@ == sc0[ci as int],
                spec_arrows_in_contour(
                    field_configuration.charges@,
                    sc0[ci as int],
                    si as nat,
                    steps_until_another_arrow_allowed as nat,
                    arrows@,
                ) == spec_arrows_in_contour(
                    field_configuration.charges@,
                    sc0[ci as int],
                    0,
                    db0,
                    ar0,
                ),
            decreases contour@.len() - si,
        {
            let (x0, y0) = contour[si];
            let (x1, y1) = contour[si + 1];
            if steps_until_another_arrow_allowed > 0 {
                steps_until_another_arrow_allowed -= 1;
            } else {
                match line_crosses_symmetry(field_configuration, x0, y0, x1, y1) {
                    Some(p) => {
                        steps_until_another_arrow_allowed = ARROW_DEBOUNCE;
                        arrows.push((p.u, p.v));
                    },
                    None => (),
                }
            }
            si += 1;
        }
        ci += 1;
        proof {
            assert(a_full == spec_arrows(
                field_configuration.charges@,
                sc0,
                ci as nat,
                steps_until_another_arrow_allowed as nat,
                arrows@,
            ));
        }
    }
    (contours, arrows)
}

} // verus!
