//! Laws of what compressors, elements, burners and coils give, in terms of their ratings and
//! of the share of their power at which controllers let them run.
use vstd::arithmetic::power2::*;
use vstd::prelude::*;

use crate::approx::{
    near, near_clamped, near_itself, near_over, near_rescaled, near_sign, near_times, one_is_tame,
    ratio_is_tame, tame, tame_grows, tame_minus, tame_times, tame_units, within_parts,
};
use crate::control_laws::{
    is_share, lemma_about_not_negative, lemma_clamped_share, lemma_products, lemma_shares,
    ordinary, over_more, times_more,
};
use crate::double::Double;
use crate::gas::GasState;
use crate::heat_pump_wh::{HpOutside, HpState};
use crate::precision::{size, P50};
use crate::products::{
    about, about_cancels, about_grows, about_itself, about_over, about_times, lemma_product_one,
    lemma_scale, product, scale,
};
use crate::resistance::{ResistanceOutside, ResistanceState};
use crate::rounding::P53;
use crate::types::OperatingMode;

verus! {

// ---------------------------------------------------------------------------
// Heat pumps
// ---------------------------------------------------------------------------

/// A part with a duty cycle of its own runs at all four shares together.
proof fn lemma_four_shares(s: HpState, own: Double)
    requires
        is_share(s.duty_cycle),
        is_share(s.dr.load_fraction),
        is_share(s.ctrl_load_fraction),
        is_share(own),
    ensures
        tame(s.component_duty(own), 160),
        about(
            s.component_duty(own),
            seq![
                s.duty_cycle.units(),
                s.dr.load_fraction.units(),
                s.ctrl_load_fraction.units(),
                own.units(),
            ],
            seq![],
            3,
        ),
{
    lemma_shares(s.duty_cycle, s.dr.load_fraction, s.ctrl_load_fraction);
    let d = s.duty_cycle.times(s.dr.load_fraction).times(s.ctrl_load_fraction).clamp(
        Double::zero(),
        Double::one(),
    );
    let three = seq![
        s.duty_cycle.units(),
        s.dr.load_fraction.units(),
        s.ctrl_load_fraction.units(),
    ];
    tame_units(own, 40);
    near_itself(own);
    times_more(d, 120, three, seq![], 2, own, 40, own.units(), 0);
    let four = seq![
        s.duty_cycle.units(),
        s.dr.load_fraction.units(),
        s.ctrl_load_fraction.units(),
        own.units(),
    ];
    assert(three.push(own.units()) =~= four);
    lemma_clamped_share(d.times(own), 160, four, 3);
}

/// The shares at which a part of a heat pump runs.
pub open spec fn runs_at(s: HpState, own: Double) -> Seq<int> {
    seq![
        s.duty_cycle.units(),
        s.dr.load_fraction.units(),
        s.ctrl_load_fraction.units(),
        own.units(),
    ]
}

/// A heat pump and its surroundings with ordinary figures: shares for its duty cycles, and a
/// coefficient of performance above two millionths.
pub open spec fn is_ordinary_pump(s: HpState, outside: HpOutside) -> bool {
    &&& is_share(s.duty_cycle)
    &&& is_share(s.dr.load_fraction)
    &&& is_share(s.ctrl_load_fraction)
    &&& is_share(s.hp_duty_cycle)
    &&& is_share(s.er_duty_cycle)
    &&& ordinary(s.compressor_power_w)
    &&& ordinary(s.backup_element_power_w)
    &&& ordinary(s.backup_efficiency)
    &&& ordinary(s.cop_scale)
    &&& ordinary(outside.cop_curve_value)
    &&& ordinary(outside.capacity_curve_value)
    &&& 500_000 * (outside.cop_curve_value.units() * s.cop_scale.units()) >= scale(2)
}

/// The heat of the compressor is its rated heat times the capacity curve, and its power is
/// that over the coefficient of performance, both at the share at which it runs; a compressor
/// at rest gives and takes nothing.
pub proof fn compressors_follow_their_curves(s: HpState, outside: HpOutside)
    requires
        is_ordinary_pump(s, outside),
    ensures
        ({
            let p = s.performance(outside);
            let heat = seq![s.compressor_power_w.units(), outside.capacity_curve_value.units()]
                + runs_at(s, s.hp_duty_cycle);
            let cop = seq![outside.cop_curve_value.units(), s.cop_scale.units()];
            &&& s.compressor_on ==> about(p.delivered_hp_w, heat, seq![], 7)
            &&& s.compressor_on ==> about(p.compressor_power_w, heat, cop, 7)
            &&& !s.compressor_on ==> p.delivered_hp_w.units() == 0 && p.compressor_power_w.units()
                == 0
            &&& p.fan_parasitic_w == (if s.compressor_on {
                s.fan_power_w
            } else {
                s.parasitic_power_w
            })
            &&& p.cap_mult == outside.capacity_curve_value
        }),
{
    let rated = s.compressor_power_w;
    let cap = outside.capacity_curve_value;
    let curve = outside.cop_curve_value;
    let run = runs_at(s, s.hp_duty_cycle);
    let duty = s.component_duty(s.hp_duty_cycle);
    one_is_tame();
    tame_units(rated, 40);
    tame_units(cap, 40);
    tame_units(curve, 40);
    tame_units(s.cop_scale, 40);
    crate::double_laws::order_agrees_with_value(cap, Double::zero());
    lemma_cop(s, outside);
    let cop = curve.times(s.cop_scale);
    let c = cop.units();
    lemma_four_shares(s, s.hp_duty_cycle);
    about_itself(rated);
    near_itself(cap);
    times_more(rated, 40, seq![rated.units()], seq![], 0, cap, 40, cap.units(), 0);
    let two = seq![rated.units(), cap.units()];
    assert(seq![rated.units()].push(cap.units()) =~= two);
    let full = rated.times(cap);
    // The power, over the coefficient as the curve and the scale give it.
    let cops = seq![curve.units(), s.cop_scale.units()];
    about_over(full, 80, two, seq![], 1, cop, 80, cops, seq![], 1);
    assert(two + Seq::<int>::empty() =~= two);
    assert(Seq::<int>::empty() + cops =~= cops);
    about_times(full.over(cop), 160, two, cops, 3, duty, 160, run, seq![], 3);
    assert(cops + Seq::<int>::empty() =~= cops);
    let power = full.over(cop).times(duty);
    // The heat, over and times the coefficient as it was rounded.
    near_itself(cop);
    over_more(full, 80, two, seq![], 1, cop, 80, c, 0);
    assert(Seq::<int>::empty().push(c) =~= seq![c]);
    about_times(full.over(cop), 160, two, seq![c], 2, duty, 160, run, seq![], 3);
    assert(seq![c] + Seq::<int>::empty() =~= seq![c]);
    times_more(power, 320, two + run, seq![c], 6, cop, 80, c, 0);
    assert(seq![c] =~= Seq::<int>::empty().push(c));
    about_cancels(power.times(cop), two + run, seq![], c, 7);
    if !s.compressor_on {
        assert(s.performance(outside).delivered_hp_w == Double::zero().times(cop));
        crate::double_laws::zero_times(Double::zero(), cop);
        crate::double_laws::lemma_units_zero();
    }
}

/// The coefficient of performance of ordinary figures is not cut off below.
proof fn lemma_cop(s: HpState, outside: HpOutside)
    requires
        is_ordinary_pump(s, outside),
    ensures
        ({
            let cop = outside.cop_curve_value.times(s.cop_scale);
            &&& tame(cop, 80)
            &&& cop.is_finite()
            &&& 0 < cop.units()
            &&& about(
                cop,
                seq![outside.cop_curve_value.units(), s.cop_scale.units()],
                seq![],
                1,
            )
            &&& 0 < product(seq![outside.cop_curve_value.units(), s.cop_scale.units()])
            &&& cop.max(Double::ratio(1, 1_000_000)) == cop
        }),
{
    let curve = outside.cop_curve_value;
    let a = curve.units();
    let b = s.cop_scale.units();
    let cop = curve.times(s.cop_scale);
    tame_units(curve, 40);
    tame_units(s.cop_scale, 40);
    about_itself(curve);
    near_itself(s.cop_scale);
    times_more(curve, 40, seq![a], seq![], 0, s.cop_scale, 40, b, 0);
    assert(seq![a].push(b) =~= seq![a, b]);
    lemma_products(a, b, 0, 0);
    lemma_scale(1, 1);
    lemma_scale(2, 0);
    lemma_product_one(0);
    let h = scale(1);
    assert(seq![a, b].len() == 2);
    tame_units(cop, 80);
    ratio_is_tame(1, 1_000_000);
    let least = Double::ratio(1, 1_000_000);
    tame_units(least, 53);
    let u = cop.units();
    let l = least.units();
    let p = (a * b) * h;
    let q = 1 * scale(2);
    // 500,000 p >= h q, so u q >= q h / 600,000; and l <= h / 900,000.
    assert(500_000 * p >= h * q) by (nonlinear_arith)
        requires
            p == (a * b) * h,
            q == scale(2),
            500_000 * (a * b) >= scale(2),
            h > 0,
    ;
    assert(p > 0) by (nonlinear_arith)
        requires
            500_000 * p >= h * q,
            h > 0,
            q > 0,
    ;
    assert(600_000 * (u * q) >= h * q) by {
        assert(size(u * q - p) * P50 <= 1 * size(p));
    }
    assert(600_000 * u >= h) by (nonlinear_arith)
        requires
            600_000 * (u * q) >= h * q,
            q > 0,
    ;
    assert(900_000 * l <= h) by {
        assert(1 * pow2(1074) == h);
        assert(size(l * 1_000_000 - h) * P50 <= 1 * h);
    }
    crate::double_laws::order_agrees_with_value(cop, least);
    crate::approx::near_sign(cop, p, q, 1);
    assert(a * b > 0) by (nonlinear_arith)
        requires
            p == (a * b) * h,
            p > 0,
            h > 0,
    ;
}

/// The power of the backup element is its rated power at the share at which it runs, and its
/// heat is that times its efficiency; an element at rest gives and takes nothing.
pub proof fn backup_elements_run_at_their_share(s: HpState, outside: HpOutside)
    requires
        is_ordinary_pump(s, outside),
    ensures
        ({
            let p = s.performance(outside);
            let power = seq![s.backup_element_power_w.units()] + runs_at(s, s.er_duty_cycle);
            &&& s.backup_on ==> about(p.backup_power_w, power, seq![], 4)
            &&& s.backup_on ==> about(
                p.delivered_er_w,
                power.push(s.backup_efficiency.units()),
                seq![],
                5,
            )
            &&& !s.backup_on ==> p.backup_power_w.units() == 0 && p.delivered_er_w.units() == 0
        }),
{
    let rated = s.backup_element_power_w;
    let run = runs_at(s, s.er_duty_cycle);
    let duty = s.component_duty(s.er_duty_cycle);
    let eff = s.backup_efficiency;
    one_is_tame();
    tame_units(rated, 40);
    tame_units(eff, 40);
    lemma_four_shares(s, s.er_duty_cycle);
    about_itself(rated);
    near_itself(eff);
    about_times(rated, 40, seq![rated.units()], seq![], 0, duty, 160, run, seq![], 3);
    assert(Seq::<int>::empty() + Seq::<int>::empty() =~= Seq::<int>::empty());
    let power = rated.times(duty);
    times_more(power, 200, seq![rated.units()] + run, seq![], 4, eff, 40, eff.units(), 0);
    if !s.backup_on {
        crate::double_laws::zero_times(Double::zero(), eff);
        crate::double_laws::lemma_units_zero();
    }
}

// ---------------------------------------------------------------------------
// Elements
// ---------------------------------------------------------------------------

/// In steps that are not coarse the elements of a resistance heater run at their rated power
/// times the share that controllers leave them, and not at all when they are off. In coarse
/// steps an element gives what holds the setpoint, but no more than its rated power, at the
/// same share.
pub proof fn elements_run_at_their_share(
    s: ResistanceState,
    mode: OperatingMode,
    coarse: bool,
    outside: ResistanceOutside,
)
    requires
        is_share(s.duty_cycle),
        is_share(s.dr.load_fraction),
        is_share(s.ctrl_load_fraction),
        ordinary(s.upper_element_power_w),
        ordinary(s.lower_element_power_w),
        ordinary(outside.ideal_upper_w),
        ordinary(outside.ideal_lower_w),
        s.max_combined_power_w is None,
    ensures
        ({
            let (upper_w, lower_w) = s.powers(mode, coarse, outside);
            let ideal = coarse && mode == OperatingMode::Heating;
            let run = seq![
                s.duty_cycle.units(),
                s.dr.load_fraction.units(),
                s.ctrl_load_fraction.units(),
            ];
            let upper = s.upper_element_power_w.units();
            let lower = s.lower_element_power_w.units();
            let upper_full = if ideal && outside.ideal_upper_w.units() < upper {
                outside.ideal_upper_w.units()
            } else {
                upper
            };
            let lower_full = if ideal && outside.ideal_lower_w.units() < lower {
                outside.ideal_lower_w.units()
            } else {
                lower
            };
            &&& s.upper_element_on ==> about(upper_w, seq![upper_full] + run, seq![], 6)
            &&& s.lower_element_on ==> about(lower_w, seq![lower_full] + run, seq![], 6)
            &&& !s.upper_element_on ==> upper_w.units() == 0
            &&& !s.lower_element_on ==> lower_w.units() == 0
        }),
{
    one_is_tame();
    if s.upper_element_on {
        lemma_element(s, s.upper_element_power_w, None);
        lemma_element(s, s.upper_element_power_w, Some(outside.ideal_upper_w));
    }
    if s.lower_element_on {
        lemma_element(s, s.lower_element_power_w, None);
        lemma_element(s, s.lower_element_power_w, Some(outside.ideal_lower_w));
    }
}

/// The power of an element that is on.
proof fn lemma_element(s: ResistanceState, rated: Double, ideal: Option<Double>)
    requires
        is_share(s.duty_cycle),
        is_share(s.dr.load_fraction),
        is_share(s.ctrl_load_fraction),
        ordinary(rated),
        ideal is Some ==> ordinary(ideal->0),
    ensures
        ({
            let run = seq![
                s.duty_cycle.units(),
                s.dr.load_fraction.units(),
                s.ctrl_load_fraction.units(),
            ];
            let full = if ideal is Some && ideal->0.units() < rated.units() {
                ideal->0.units()
            } else {
                rated.units()
            };
            about(s.element_power(true, rated, ideal), seq![full] + run, seq![], 6)
        }),
{
    let run = seq![
        s.duty_cycle.units(),
        s.dr.load_fraction.units(),
        s.ctrl_load_fraction.units(),
    ];
    let duty = s.control_duty();
    let r = rated.units();
    one_is_tame();
    tame_units(rated, 40);
    crate::double_laws::order_agrees_with_value(Double::zero(), rated);
    lemma_shares(s.duty_cycle, s.dr.load_fraction, s.ctrl_load_fraction);
    about_itself(rated);
    about_times(rated, 40, seq![r], seq![], 0, duty, 120, run, seq![], 2);
    assert(Seq::<int>::empty() + Seq::<int>::empty() =~= Seq::<int>::empty());
    about_grows(rated.times(duty), seq![r] + run, seq![], 3, 6);
    if ideal is Some {
        let i = ideal->0;
        tame_units(i, 40);
        if r == 0 {
            crate::products::lemma_product_adds(seq![r], run);
            lemma_product_one(0);
            lemma_scale(4, 1);
            assert((seq![r] + run).len() == 4);
            let v = product(run);
            assert(0 * v == 0);
        } else if i.units() < r {
            let ratio = i.over(rated);
            lemma_part_of(i, rated);
            let c = ratio.clamp(Double::zero(), Double::one());
            about_times(rated.times(c), 120, seq![i.units()], seq![], 2, duty, 120, run, seq![], 2);
            about_grows(rated.times(c).times(duty), seq![i.units()] + run, seq![], 5, 6);
        } else {
            crate::control_laws::lemma_at_least_one(i, rated);
            crate::double_laws::times_one(rated);
        }
    }
}

/// A part of a rating, as a share of it, times the rating is that part.
proof fn lemma_part_of(x: Double, rated: Double)
    requires
        ordinary(x),
        ordinary(rated),
        x.units() <= rated.units(),
        0 < rated.units(),
    ensures
        ({
            let c = x.over(rated).clamp(Double::zero(), Double::one());
            &&& tame(rated.times(c), 120)
            &&& about(rated.times(c), seq![x.units()], seq![], 2)
        }),
{
    let a = x.units();
    let r = rated.units();
    let ratio = x.over(rated);
    let c = ratio.clamp(Double::zero(), Double::one());
    tame_units(x, 40);
    tame_units(rated, 40);
    about_itself(x);
    about_itself(rated);
    near_itself(rated);
    over_more(x, 40, seq![a], seq![], 0, rated, 40, r, 0);
    assert(Seq::<int>::empty().push(r) =~= seq![r]);
    lemma_product_one(a);
    lemma_product_one(r);
    lemma_scale(1, 1);
    lemma_scale(2, 0);
    let h = scale(1);
    assert(seq![a].len() == 1 && seq![r].len() == 1);
    assert(0 <= a * scale(2) <= (r * h) * h) by (nonlinear_arith)
        requires
            0 <= a <= r,
            scale(2) == h * h,
            h > 0,
    ;
    near_clamped(ratio, a * scale(2), r * h, 1);
    one_is_tame();
    tame_grows(Double::one(), 0, 80);
    about_times(rated, 40, seq![r], seq![], 0, c, 80, seq![a], seq![r], 1);
    assert(seq![r] + seq![a] =~= seq![r, a]);
    assert(Seq::<int>::empty() + seq![r] =~= seq![r]);
    lemma_products(r, a, 0, 0);
    lemma_products(a, r, 0, 0);
    assert(r * a == a * r) by (nonlinear_arith);
    assert(seq![a].push(r) =~= seq![a, r]);
    assert(seq![r] =~= Seq::<int>::empty().push(r));
    crate::products::about_same(
        rated.times(c),
        seq![r, a],
        seq![r],
        seq![a].push(r),
        Seq::<int>::empty().push(r),
        2,
    );
    about_cancels(rated.times(c), seq![a], seq![], r, 2);
}

// ---------------------------------------------------------------------------
// Burners
// ---------------------------------------------------------------------------

/// In steps that are not coarse a burner that is on burns its rated input at the share that
/// controllers leave it; one that is off burns nothing. What it burns becomes heat by its
/// efficiency, of which a fraction leaves through the flue and the rest goes to the water. The
/// pilot's heat is split the same way whether the burner is on or not.
pub proof fn burners_run_at_their_share(s: GasState, ideal_capacity_w: Double)
    requires
        is_share(s.duty_cycle),
        is_share(s.dr.load_fraction),
        is_share(s.ctrl_load_fraction),
        is_share(s.flue_loss_fraction),
        is_share(s.pilot_fraction_to_tank),
        ordinary(s.burner_input_w),
        ordinary(s.burner_efficiency_constant),
        ordinary(s.pilot_power_w),
        s.burner_efficiency_poly is None,
    ensures
        ({
            let f = s.firing(s.duty(false, ideal_capacity_w));
            let input = seq![
                s.burner_input_w.units(),
                s.duty_cycle.units(),
                s.dr.load_fraction.units(),
                s.ctrl_load_fraction.units(),
            ];
            let heat = input.push(s.burner_efficiency_constant.units());
            let pilot = s.pilot_power_w.units();
            let kept = s.pilot_fraction_to_tank.units();
            &&& s.burner_on ==> {
                &&& about(f.burner_input_w, input, seq![], 3)
                &&& about(f.flue_loss_w, heat.push(s.flue_loss_fraction.units()), seq![], 5)
                &&& f.tank_heat_w.is_finite()
                &&& size(
                    (f.tank_heat_w.units() + f.flue_loss_w.units()) * scale(5) - product(heat)
                        * scale(1),
                ) * P50 <= 5 * (product(heat) * scale(1))
            }
            &&& !s.burner_on ==> {
                &&& f.burner_input_w.units() == 0
                &&& f.flue_loss_w.units() == 0
                &&& f.tank_heat_w.units() == 0
            }
            &&& about(f.pilot_heat_to_water_w, seq![pilot, kept], seq![], 1)
            &&& about(
                f.pilot_heat_to_ambient_w,
                seq![pilot, pow2(1074) - kept],
                seq![],
                2,
            )
        }),
{
    let f = s.firing(s.duty(false, ideal_capacity_w));
    let pilot = s.pilot_power_w;
    let kept = s.pilot_fraction_to_tank;
    one_is_tame();
    tame_units(pilot, 40);
    tame_units(kept, 40);
    tame_grows(Double::one(), 0, 40);
    about_itself(pilot);
    near_itself(kept);
    times_more(pilot, 40, seq![pilot.units()], seq![], 0, kept, 40, kept.units(), 0);
    assert(seq![pilot.units()].push(kept.units()) =~= seq![pilot.units(), kept.units()]);
    tame_minus(Double::one(), kept, 40);
    let rest = Double::one().minus(kept);
    let left = pow2(1074) - kept.units();
    times_more(pilot, 40, seq![pilot.units()], seq![], 0, rest, 92, left, 1);
    assert(seq![pilot.units()].push(left) =~= seq![pilot.units(), left]);
    let eff = s.burner_efficiency_constant;
    tame_units(eff, 40);
    crate::double_laws::order_agrees_with_value(eff, Double::zero());
    assert(eff.max(Double::zero()) == eff);
    let flue = s.flue_loss_fraction;
    tame_units(flue, 40);
    near_itself(flue);
    if s.burner_on {
        let rated = s.burner_input_w;
        let run = seq![
            s.duty_cycle.units(),
            s.dr.load_fraction.units(),
            s.ctrl_load_fraction.units(),
        ];
        let duty = s.control_duty();
        tame_units(rated, 40);
        lemma_shares(s.duty_cycle, s.dr.load_fraction, s.ctrl_load_fraction);
        about_itself(rated);
        about_times(rated, 40, seq![rated.units()], seq![], 0, duty, 120, run, seq![], 2);
        assert(Seq::<int>::empty() + Seq::<int>::empty() =~= Seq::<int>::empty());
        let input = seq![
            rated.units(),
            s.duty_cycle.units(),
            s.dr.load_fraction.units(),
            s.ctrl_load_fraction.units(),
        ];
        assert(seq![rated.units()] + run =~= input);
        near_itself(eff);
        times_more(rated.times(duty), 160, input, seq![], 3, eff, 40, eff.units(), 0);
        let heat = input.push(eff.units());
        let gross = rated.times(duty).times(eff);
        times_more(gross, 200, heat, seq![], 4, flue, 40, flue.units(), 0);
        lemma_flue(gross, flue, heat);
    } else {
        lemma_no_burning(eff, flue);
    }
}

/// What goes through the flue and what goes to the water are the whole.
proof fn lemma_flue(gross: Double, flue: Double, heat: Seq<int>)
    requires
        tame(gross, 200),
        about(gross, heat, seq![], 4),
        heat.len() == 5,
        forall|i: int| 0 <= i < heat.len() ==> heat[i] >= 0,
        is_share(flue),
    ensures
        ({
            let loss = gross.times(flue);
            let kept = gross.minus(loss).max(Double::zero());
            &&& kept.is_finite()
            &&& size((kept.units() + loss.units()) * scale(5) - product(heat) * scale(1)) * P50
                <= 5 * (product(heat) * scale(1))
        }),
{
    let loss = gross.times(flue);
    let diff = gross.minus(loss);
    let kept = diff.max(Double::zero());
    one_is_tame();
    tame_units(gross, 200);
    tame_units(flue, 40);
    lemma_about_not_negative(gross, heat, 4);
    crate::control_laws::lemma_product_not_negative(heat);
    tame_times(gross, 200, flue, 40);
    tame_grows(gross, 200, 240);
    tame_minus(gross, loss, 240);
    crate::double_laws::order_agrees_with_value(Double::zero(), gross);
    crate::double_laws::order_agrees_with_value(Double::zero(), flue);
    crate::double_laws::order_agrees_with_value(flue, Double::one());
    crate::double_laws::share_is_no_more(gross, flue);
    crate::double_laws::order_agrees_with_value(loss, gross);
    crate::double_laws::product_is_nonnegative(gross, flue);
    crate::double_laws::order_agrees_with_value(Double::zero(), loss);
    crate::double_laws::order_agrees_with_value(diff, Double::zero());
    let g = gross.units();
    let exact = g - loss.units();
    assert(0 <= exact <= g);
    near_sign(diff, exact, 1, 1);
    crate::precision::differences_are_close(gross, loss);
    assert(kept.units() == diff.units());
    lemma_product_one(0);
    lemma_scale(5, 1);
    let q = scale(5);
    let p = product(heat) * scale(1);
    assert(p >= 0) by (nonlinear_arith)
        requires
            p == product(heat) * scale(1),
            product(heat) >= 0,
            scale(1) > 0,
    ;
    assert(1 * q == q);
    let total = kept.units() + loss.units();
    assert(size(total - g) * P53 <= g);
    let off = total - g;
    assert(total * q - p == off * q + (g * q - p)) by (nonlinear_arith)
        requires
            off == total - g,
    ;
    crate::precision::lemma_size_of_product(off, q);
    assert(size(off * q) * P53 <= g * q) by (nonlinear_arith)
        requires
            size(off * q) == size(off) * q,
            size(off) * P53 <= g,
            q > 0,
    ;
    assert(size(g * q - p) * P50 <= 4 * p);
}

/// A burner that burns nothing gives nothing.
proof fn lemma_no_burning(eff: Double, flue: Double)
    requires
        eff.is_finite(),
        flue.is_finite(),
    ensures
        ({
            let gross = Double::zero().times(eff);
            let loss = gross.times(flue);
            &&& loss.units() == 0
            &&& gross.minus(loss).max(Double::zero()).units() == 0
        }),
{
    let zero = Double::zero();
    one_is_tame();
    crate::double_laws::zero_times(zero, eff);
    let gross = zero.times(eff);
    crate::double_laws::lemma_units_zero();
    crate::double_laws::zero_times(gross, flue);
    let loss = gross.times(flue);
    crate::approx::tame_minus(gross, loss, 0);
    near_sign(gross.minus(loss), 0, 1, 1);
    crate::double_laws::order_agrees_with_value(gross.minus(loss), zero);
}

/// In coarse steps a burner that is on fires only as much as holds the setpoint: its heat to the
/// water and up the flue is the ideal one, where that is within its capacity, at the share that
/// controllers leave it.
pub proof fn coarse_steps_hold_the_setpoint(s: GasState, ideal_capacity_w: Double)
    requires
        is_share(s.duty_cycle),
        is_share(s.dr.load_fraction),
        is_share(s.ctrl_load_fraction),
        is_share(s.flue_loss_fraction),
        s.flue_loss_fraction.units() < pow2(1074),
        ordinary(s.burner_input_w),
        ordinary(s.burner_efficiency_constant),
        ordinary(ideal_capacity_w),
        0 < s.burner_input_w.units(),
        0 < s.burner_efficiency_constant.units(),
        s.burner_efficiency_poly is None,
        s.burner_on,
        ideal_capacity_w.units() * scale(2) <= s.burner_input_w.units()
            * s.burner_efficiency_constant.units() * (pow2(1074) - s.flue_loss_fraction.units()),
    ensures
        about(
            s.firing(s.duty(true, ideal_capacity_w)).burner_input_w,
            seq![
                ideal_capacity_w.units(),
                s.duty_cycle.units(),
                s.dr.load_fraction.units(),
                s.ctrl_load_fraction.units(),
            ],
            seq![s.burner_efficiency_constant.units(), pow2(1074) - s.flue_loss_fraction.units()],
            8,
        ),
{
    let rated = s.burner_input_w;
    let eff = s.burner_efficiency_constant;
    let flue = s.flue_loss_fraction;
    let ideal = ideal_capacity_w;
    let left = pow2(1074) - flue.units();
    let r = rated.units();
    let e = eff.units();
    let run = seq![
        s.duty_cycle.units(),
        s.dr.load_fraction.units(),
        s.ctrl_load_fraction.units(),
    ];
    one_is_tame();
    tame_grows(Double::one(), 0, 40);
    tame_units(rated, 40);
    tame_units(eff, 40);
    tame_units(flue, 40);
    tame_units(ideal, 40);
    crate::double_laws::order_agrees_with_value(eff, Double::zero());
    crate::double_laws::order_agrees_with_value(Double::zero(), rated);
    tame_minus(Double::one(), flue, 40);
    let rest = Double::one().minus(flue);
    about_itself(eff);
    about_itself(rated);
    about_itself(ideal);
    times_more(eff, 40, seq![e], seq![], 0, rest, 92, left, 1);
    assert(seq![e].push(left) =~= seq![e, left]);
    about_times(rated, 40, seq![r], seq![], 0, eff.times(rest), 132, seq![e, left], seq![], 2);
    let full = rated.times(eff.times(rest));
    assert(seq![r] + seq![e, left] =~= seq![r, e, left]);
    assert(Seq::<int>::empty() + Seq::<int>::empty() =~= Seq::<int>::empty());
    lemma_products(r, e, left, 0);
    assert(r * e * left > 0) by (nonlinear_arith)
        requires
            r > 0,
            e > 0,
            left > 0,
    ;
    lemma_about_not_negative(full, seq![r, e, left], 3);
    crate::double_laws::order_agrees_with_value(Double::zero(), full);
    about_over(ideal, 40, seq![ideal.units()], seq![], 0, full, 172, seq![r, e, left], seq![], 3);
    let ratio = ideal.over(full);
    assert(seq![ideal.units()] + Seq::<int>::empty() =~= seq![ideal.units()]);
    assert(Seq::<int>::empty() + seq![r, e, left] =~= seq![r, e, left]);
    lemma_product_one(ideal.units());
    lemma_scale(1, 1);
    lemma_scale(2, 2);
    lemma_scale(3, 1);
    let h = scale(1);
    assert(seq![ideal.units()].len() == 1 && seq![r, e, left].len() == 3);
    let p = ideal.units() * scale(4);
    let q = (r * e * left) * h;
    assert(0 <= p <= q * h) by (nonlinear_arith)
        requires
            p == ideal.units() * scale(4),
            q == (r * e * left) * h,
            scale(4) == scale(2) * scale(2),
            scale(2) == h * h,
            0 <= ideal.units(),
            ideal.units() * scale(2) <= r * e * left,
            h > 0,
    ;
    near_clamped(ratio, p, q, 4);
    let c = ratio.clamp(Double::zero(), Double::one());
    tame_grows(Double::one(), 0, 212);
    lemma_shares(s.duty_cycle, s.dr.load_fraction, s.ctrl_load_fraction);
    let duty = s.control_duty();
    about_times(c, 212, seq![ideal.units()], seq![r, e, left], 4, duty, 120, run, seq![], 2);
    assert(seq![r, e, left] + Seq::<int>::empty() =~= seq![r, e, left]);
    let top = seq![ideal.units()] + run;
    about_times(rated, 40, seq![r], seq![], 0, c.times(duty), 332, top, seq![r, e, left], 7);
    assert(Seq::<int>::empty() + seq![r, e, left] =~= seq![r, e, left]);
    let x = rated.times(c.times(duty));
    crate::products::lemma_product_adds(seq![r], top);
    crate::products::lemma_product_adds(top, seq![r]);
    assert(top + seq![r] =~= top.push(r));
    assert(product(seq![r]) * product(top) == product(top) * product(seq![r])) by (nonlinear_arith);
    lemma_products(e, left, r, 0);
    assert(e * left * r == r * e * left) by (nonlinear_arith);
    assert(seq![e, left].push(r) =~= seq![e, left, r]);
    crate::products::about_same(
        x,
        seq![r] + top,
        seq![r, e, left],
        top.push(r),
        seq![e, left].push(r),
        8,
    );
    about_cancels(x, top, seq![e, left], r, 8);
    assert(top =~= seq![
        ideal.units(),
        s.duty_cycle.units(),
        s.dr.load_fraction.units(),
        s.ctrl_load_fraction.units(),
    ]);
}

/// The efficiency of a burner with a curve is the curve's at its part load: a constant, a part
/// that goes with the load and one that goes with its square. It is never below zero.
pub proof fn efficiency_curves_are_quadratic(s: GasState, load: Double, c0: Double, c1: Double, c2: Double)
    requires
        s.burner_efficiency_poly == Some(crate::gas::PartLoadCurve { c0, c1, c2 }),
        tame(c0, 40),
        tame(c1, 40),
        tame(c2, 40),
        is_share(load),
    ensures
        ({
            let h = pow2(1074) as int;
            let x = load.units();
            let exact = c0.units() * (h * h) + c1.units() * (x * h) + c2.units() * (x * x);
            let most = size(c0.units() * (h * h)) + size(c1.units() * (x * h)) + size(
                c2.units() * (x * x),
            );
            let eff = s.burner_efficiency(load);
            &&& 0 <= eff.units()
            &&& eff.units() == 0 || within_parts(eff, exact, h * h, most, 4)
            &&& exact * P50 > 4 * most ==> eff.units() > 0
        }),
{
    let h = pow2(1074) as int;
    lemma_pow2_pos(1074);
    let x = load.units();
    one_is_tame();
    tame_units(load, 40);
    tame_units(c0, 40);
    tame_units(c1, 40);
    tame_units(c2, 40);
    near_itself(load);
    near_itself(c0);
    near_itself(c1);
    near_itself(c2);
    let hh = h * h;
    assert(hh > 0) by (nonlinear_arith)
        requires
            hh == h * h,
            h > 0,
    ;
    crate::approx::near_rescaled(c0, c0.units(), 1, 0, c0.units() * hh, hh);
    crate::approx::near_times(c1, 40, c1.units(), 1, 0, load, 40, x, 1, 0);
    let a = c1.times(load);
    let u1 = c1.units();
    assert((u1 * x) * hh == (u1 * (x * h)) * (1 * 1 * h)) by (nonlinear_arith)
        requires
            hh == h * h,
    ;
    crate::approx::near_rescaled(a, u1 * x, 1 * 1 * h, 1, u1 * (x * h), hh);
    crate::approx::near_times(c2, 40, c2.units(), 1, 0, load, 40, x, 1, 0);
    let u2 = c2.units();
    let b = c2.times(load);
    crate::approx::near_times(b, 80, u2 * x, 1 * 1 * h, 1, load, 40, x, 1, 0);
    let c = b.times(load);
    assert(((u2 * x) * x) * hh == (u2 * (x * x)) * (1 * 1 * h * 1 * h)) by (nonlinear_arith)
        requires
            hh == h * h,
    ;
    crate::approx::near_rescaled(c, (u2 * x) * x, 1 * 1 * h * 1 * h, 2, u2 * (x * x), hh);
    let pa = c0.units() * hh;
    let pb = u1 * (x * h);
    let pc = u2 * (x * x);
    crate::approx::parts_of_near(c0, pa, hh, 0);
    crate::approx::parts_of_near(a, pb, hh, 1);
    crate::approx::parts_of_near(c, pc, hh, 2);
    crate::approx::parts_grow(c0, pa, hh, size(pa), 0, size(pa), 1);
    tame_grows(c0, 40, 80);
    crate::approx::tame_plus(c0, a, 80);
    crate::approx::parts_plus(c0, pa, size(pa), a, pb, size(pb), hh, 1);
    tame_grows(c, 120, 132);
    crate::approx::tame_plus(c0.plus(a), c, 132);
    crate::approx::parts_plus(c0.plus(a), pa + pb, size(pa) + size(pb), c, pc, size(pc), hh, 2);
    let sum = c0.plus(a).plus(c);
    let most = size(pa) + size(pb) + size(pc);
    crate::approx::parts_grow(sum, pa + pb + pc, hh, most, 3, most, 4);
    crate::double_laws::order_agrees_with_value(sum, Double::zero());
    let exact = pa + pb + pc;
    if exact * P50 > 4 * most {
        assert(sum.units() * hh > 0);
        assert(sum.units() > 0) by (nonlinear_arith)
            requires
                sum.units() * hh > 0,
                hh > 0,
        ;
    }
}

/// A burner whose efficiency varies has the efficiency of the share at which it runs.
pub proof fn burner_curves_go_by_the_share(s: GasState, duty: Double)
    requires
        s.burner_on,
        ordinary(s.burner_input_w),
        0 < s.burner_input_w.units(),
        ordinary(duty),
    ensures
        ({
            let share = s.part_load_ratio(s.burner_input(duty));
            &&& near(share, duty.units(), 1, 2)
            &&& s.firing(duty) == (GasState {
                burner_efficiency_poly: None,
                burner_efficiency_constant: s.burner_efficiency(share),
                ..s
            }).firing(duty)
        }),
{
    let rated = s.burner_input_w;
    let h = pow2(1074) as int;
    one_is_tame();
    lemma_pow2_pos(1074);
    tame_units(rated, 40);
    tame_units(duty, 40);
    near_itself(rated);
    near_itself(duty);
    crate::double_laws::order_agrees_with_value(Double::zero(), rated);
    let p = rated.units() * duty.units();
    near_times(rated, 40, rated.units(), 1, 0, duty, 40, duty.units(), 1, 0);
    tame_times(rated, 40, duty, 40);
    let input = rated.times(duty);
    near_over(input, 80, p, 1 * 1 * h, 1, rated, 40, rated.units(), 1, 0);
    let share = input.over(rated);
    assert((p * 1 * h) * 1 == duty.units() * (1 * 1 * h * rated.units())) by (nonlinear_arith)
        requires
            p == rated.units() * duty.units(),
    ;
    near_rescaled(
        share,
        p * 1 * h,
        1 * 1 * h * rated.units(),
        2,
        duty.units(),
        1,
    );
    assert(s.part_load_ratio(s.burner_input(duty)) == share);
    let eff = s.burner_efficiency(share);
    assert(eff.max(Double::zero()) == eff);
}

} // verus!
