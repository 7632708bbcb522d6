//! Laws of what a heat pump gives to its zone, and of what a coil takes from its boiler.
use vstd::arithmetic::power2::*;
use vstd::prelude::*;

use crate::approx::{
    near, near_grows, near_itself, near_times, one_is_tame, parts_grow, parts_of_near, parts_plus,
    parts_rescaled, parts_times, ratio_is_tame, tame, tame_grows, tame_minus, tame_plus,
    tame_units, within_parts,
};
use crate::control_laws::{is_share, lemma_products, ordinary, times_more};
use crate::double::Double;
use crate::heat_pump_wh::{HpPerformance, HpState};
use crate::indirect_tank::IndirectState;
use crate::precision::{size, P50};
use crate::products::{about, about_cancels, about_itself, about_over};

verus! {

// ---------------------------------------------------------------------------
// Heat pumps
// ---------------------------------------------------------------------------

/// Figures of a step that a computer can hold with room to spare.
pub open spec fn is_moderate(p: HpPerformance) -> bool {
    &&& tame(p.compressor_power_w, 400)
    &&& tame(p.delivered_hp_w, 400)
    &&& tame(p.backup_power_w, 400)
    &&& tame(p.delivered_er_w, 400)
    &&& tame(p.fan_parasitic_w, 400)
}

/// The sensible heat ratio in units: that of the heat pump in air that is dry enough for
/// water to condense, one in air that is saturated. Between the two lies a hundredth of a
/// tenth of a degree.
pub open spec fn is_sensible_ratio(
    s: HpState,
    dry_bulb_c: Double,
    wet_bulb_c: Double,
    ratio: int,
) -> bool {
    let depression = dry_bulb_c.units() - wet_bulb_c.units();
    ||| 1000 * depression >= 101 * pow2(1074) && ratio == s.shr.units()
    ||| 1000 * depression <= 99 * pow2(1074) && ratio == pow2(1074)
}

/// What a heat pump gives to its zone is what its parts draw and do not deliver: the sensible
/// share of the heat of the compressor less what it delivers, the power of the fan, and that
/// of the backup element less what it delivers. Of this a fraction is lost, and the rest is
/// split between the air and the walls. The latent gain is the other share of the heat of the
/// compressor less what it delivers.
pub proof fn heat_pumps_give_what_they_do_not_deliver(
    s: HpState,
    p: HpPerformance,
    dry_bulb_c: Double,
    wet_bulb_c: Double,
    ratio: int,
)
    requires
        is_moderate(p),
        is_share(s.shr),
        is_share(s.lost_heat_fraction),
        is_share(s.wall_heat_fraction),
        tame(dry_bulb_c, 40),
        tame(wet_bulb_c, 40),
        is_sensible_ratio(s, dry_bulb_c, wet_bulb_c, ratio),
    ensures
        ({
            let g = s.gains(p, dry_bulb_c, wet_bulb_c);
            let h = pow2(1074) as int;
            let taken = p.compressor_power_w.units() - p.delivered_hp_w.units();
            let wasted = p.backup_power_w.units() - p.delivered_er_w.units();
            let fan = p.fan_parasitic_w.units();
            let kept = h - s.lost_heat_fraction.units();
            let wall = s.wall_heat_fraction.units();
            let gain = taken * ratio + fan * h + wasted * h;
            let most = size(taken * ratio) + size(fan * h) + size(wasted * h);
            &&& within_parts(
                g.sensible_to_zone_w,
                gain * kept * (h - wall),
                h * h * h,
                most * size(kept) * size(h - wall),
                8,
            )
            &&& within_parts(
                g.sensible_to_wall_w,
                gain * kept * wall,
                h * h * h,
                most * size(kept) * size(wall),
                8,
            )
            &&& near(g.latent_gain_w, taken * (h - ratio) * kept, h * h, 6)
        }),
{
    let h = pow2(1074) as int;
    lemma_pow2_pos(1074);
    one_is_tame();
    tame_grows(Double::one(), 0, 40);
    tame_units(s.shr, 40);
    tame_units(s.lost_heat_fraction, 40);
    tame_units(s.wall_heat_fraction, 40);
    lemma_depression(dry_bulb_c, wet_bulb_c);
    let shr = if dry_bulb_c.minus(wet_bulb_c).gt(Double::ratio(1, 10)) {
        s.shr
    } else {
        Double::one()
    };
    assert(shr.units() == ratio && tame(shr, 40));
    near_itself(shr);
    tame_minus(p.compressor_power_w, p.delivered_hp_w, 400);
    tame_minus(p.backup_power_w, p.delivered_er_w, 400);
    tame_minus(Double::one(), s.lost_heat_fraction, 40);
    tame_minus(Double::one(), s.wall_heat_fraction, 40);
    tame_minus(Double::one(), shr, 40);
    let waste = p.compressor_power_w.minus(p.delivered_hp_w);
    let er_waste = p.backup_power_w.minus(p.delivered_er_w);
    let keep = Double::one().minus(s.lost_heat_fraction);
    let split = Double::one().minus(s.wall_heat_fraction);
    let dry = Double::one().minus(shr);
    let taken = p.compressor_power_w.units() - p.delivered_hp_w.units();
    let wasted = p.backup_power_w.units() - p.delivered_er_w.units();
    let fan = p.fan_parasitic_w.units();
    let kept = h - s.lost_heat_fraction.units();
    let wall = s.wall_heat_fraction.units();
    tame_units(p.fan_parasitic_w, 400);
    lemma_sensible(waste, taken, shr, ratio, p.fan_parasitic_w, er_waste, wasted, keep, kept);
    let total = waste.times(shr).plus(p.fan_parasitic_w).plus(er_waste).times(keep);
    let gain = taken * ratio + fan * h + wasted * h;
    let most = size(taken * ratio) + size(fan * h) + size(wasted * h);
    parts_times(
        total,
        688,
        gain * kept,
        h * h,
        most * size(kept),
        6,
        split,
        92,
        h - wall,
        1,
        1,
    );
    near_itself(s.wall_heat_fraction);
    parts_times(
        total,
        688,
        gain * kept,
        h * h,
        most * size(kept),
        6,
        s.wall_heat_fraction,
        40,
        wall,
        1,
        0,
    );
    let wall_gain = total.times(s.wall_heat_fraction);
    assert(most * size(kept) * size(wall) >= 0) by (nonlinear_arith)
        requires
            most >= 0,
            size(kept) >= 0,
            size(wall) >= 0,
    ;
    parts_grow(
        wall_gain,
        gain * kept * wall,
        h * h * 1 * h,
        most * size(kept) * size(wall),
        7,
        most * size(kept) * size(wall),
        8,
    );
    near_times(waste, 452, taken, 1, 1, dry, 92, h - ratio, 1, 1);
    near_times(waste.times(dry), 544, taken * (h - ratio), 1 * 1 * h, 3, keep, 92, kept, 1, 1);
    near_grows(
        waste.times(dry).times(keep),
        taken * (h - ratio) * kept,
        1 * 1 * h * 1 * h,
        5,
        6,
    );
}

/// The sum of the sensible gains, before it is split.
proof fn lemma_sensible(
    waste: Double,
    taken: int,
    shr: Double,
    ratio: int,
    fan: Double,
    er_waste: Double,
    wasted: int,
    keep: Double,
    kept: int,
)
    requires
        tame(waste, 452),
        near(waste, taken, 1, 1),
        tame(shr, 40),
        near(shr, ratio, 1, 0),
        tame(fan, 400),
        tame(er_waste, 452),
        near(er_waste, wasted, 1, 1),
        tame(keep, 92),
        near(keep, kept, 1, 1),
    ensures
        ({
            let h = pow2(1074) as int;
            let total = waste.times(shr).plus(fan).plus(er_waste).times(keep);
            let gain = taken * ratio + fan.units() * h + wasted * h;
            let most = size(taken * ratio) + size(fan.units() * h) + size(wasted * h);
            &&& tame(total, 688)
            &&& within_parts(total, gain * kept, h * h, most * size(kept), 6)
        }),
{
    let h = pow2(1074) as int;
    lemma_pow2_pos(1074);
    near_times(waste, 452, taken, 1, 1, shr, 40, ratio, 1, 0);
    let a = waste.times(shr);
    assert(1 * 1 * h == h);
    parts_of_near(a, taken * ratio, h, 2);
    tame_units(fan, 400);
    near_itself(fan);
    parts_of_near(fan, fan.units(), 1, 0);
    parts_rescaled(fan, fan.units(), 1, size(fan.units()), 0, h);
    crate::precision::lemma_size_of_product(fan.units(), h);
    parts_grow(fan, fan.units() * h, h, size(fan.units() * h), 0, size(fan.units() * h), 2);
    tame_grows(fan, 400, 492);
    tame_plus(a, fan, 492);
    parts_plus(
        a,
        taken * ratio,
        size(taken * ratio),
        fan,
        fan.units() * h,
        size(fan.units() * h),
        h,
        2,
    );
    let b = a.plus(fan);
    parts_of_near(er_waste, wasted, 1, 1);
    parts_rescaled(er_waste, wasted, 1, size(wasted), 1, h);
    crate::precision::lemma_size_of_product(wasted, h);
    parts_grow(er_waste, wasted * h, h, size(wasted * h), 1, size(wasted * h), 3);
    tame_grows(er_waste, 452, 544);
    tame_plus(b, er_waste, 544);
    parts_plus(
        b,
        taken * ratio + fan.units() * h,
        size(taken * ratio) + size(fan.units() * h),
        er_waste,
        wasted * h,
        size(wasted * h),
        h,
        3,
    );
    let c = b.plus(er_waste);
    let gain = taken * ratio + fan.units() * h + wasted * h;
    let most = size(taken * ratio) + size(fan.units() * h) + size(wasted * h);
    parts_times(c, 596, gain, h, most, 4, keep, 92, kept, 1, 1);
    assert(h * 1 * h == h * h);
}

/// Whether the air is saturated.
proof fn lemma_depression(dry_bulb_c: Double, wet_bulb_c: Double)
    requires
        tame(dry_bulb_c, 40),
        tame(wet_bulb_c, 40),
    ensures
        1000 * (dry_bulb_c.units() - wet_bulb_c.units()) >= 101 * pow2(1074)
            ==> dry_bulb_c.minus(wet_bulb_c).gt(Double::ratio(1, 10)),
        1000 * (dry_bulb_c.units() - wet_bulb_c.units()) <= 99 * pow2(1074)
            ==> !dry_bulb_c.minus(wet_bulb_c).gt(Double::ratio(1, 10)),
{
    let d = dry_bulb_c.minus(wet_bulb_c);
    let t = Double::ratio(1, 10);
    let h = pow2(1074) as int;
    lemma_pow2_pos(1074);
    tame_minus(dry_bulb_c, wet_bulb_c, 40);
    ratio_is_tame(1, 10);
    tame_units(t, 53);
    crate::double_laws::order_agrees_with_value(t, d);
    let e = dry_bulb_c.units() - wet_bulb_c.units();
    assert(size(d.units() * 1 - e) * P50 <= 1 * size(e));
    assert(1 * pow2(1074) == h);
    assert(size(t.units() * 10 - h) * P50 <= 1 * size(h));
}

// ---------------------------------------------------------------------------
// Coils
// ---------------------------------------------------------------------------

/// A coil that is on transfers its conductance times how much warmer the boiler water is than
/// the tank at the coil, at the share that controllers leave it; none where the difference is
/// half a degree or less, or the coil is off.
pub proof fn coils_transfer_by_the_difference(
    s: IndirectState,
    boiler_supply_c: Double,
    bottom_temp_c: Double,
)
    requires
        tame(boiler_supply_c, 40),
        tame(bottom_temp_c, 40),
        ordinary(s.hx_ua_w_per_k),
        is_share(s.duty_cycle),
        is_share(s.dr.load_fraction),
        is_share(s.ctrl_load_fraction),
    ensures
        ({
            let hx_power_w = s.hx_power(boiler_supply_c, bottom_temp_c);
            let warmer = boiler_supply_c.units() - bottom_temp_c.units();
            let h = pow2(1074) as int;
            &&& s.heating_on && 1000 * warmer >= 501 * h ==> about(
                hx_power_w,
                seq![
                    s.hx_ua_w_per_k.units(),
                    warmer,
                    s.duty_cycle.units(),
                    s.dr.load_fraction.units(),
                    s.ctrl_load_fraction.units(),
                ],
                seq![],
                5,
            )
            &&& !s.heating_on || 1000 * warmer <= 499 * h ==> hx_power_w == Double::zero()
        }),
{
    let h = pow2(1074) as int;
    lemma_pow2_pos(1074);
    one_is_tame();
    let ua = s.hx_ua_w_per_k;
    let warmer = boiler_supply_c.units() - bottom_temp_c.units();
    tame_units(ua, 40);
    tame_units(s.duty_cycle, 40);
    tame_units(s.dr.load_fraction, 40);
    tame_units(s.ctrl_load_fraction, 40);
    tame_minus(boiler_supply_c, bottom_temp_c, 40);
    let d = boiler_supply_c.minus(bottom_temp_c);
    let delta = d.max(Double::zero());
    let half = Double::ratio(1, 2);
    ratio_is_tame(1, 2);
    tame_units(half, 53);
    crate::double_laws::order_agrees_with_value(d, Double::zero());
    crate::double_laws::order_agrees_with_value(half, delta);
    assert(size(d.units() * 1 - warmer) * P50 <= 1 * size(warmer));
    assert(1 * pow2(1074) == h);
    assert(size(half.units() * 2 - h) * P50 <= 1 * size(h));
    if s.heating_on && 1000 * warmer >= 501 * h {
        assert(delta == d);
        about_itself(ua);
        near_itself(s.duty_cycle);
        near_itself(s.dr.load_fraction);
        near_itself(s.ctrl_load_fraction);
        times_more(ua, 40, seq![ua.units()], seq![], 0, delta, 92, warmer, 1);
        let a = seq![ua.units()].push(warmer);
        let x = ua.times(delta);
        times_more(x, 132, a, seq![], 2, s.duty_cycle, 40, s.duty_cycle.units(), 0);
        let b = a.push(s.duty_cycle.units());
        let y = x.times(s.duty_cycle);
        let lf = s.dr.load_fraction;
        times_more(y, 172, b, seq![], 3, lf, 40, lf.units(), 0);
        let c = b.push(lf.units());
        let z = y.times(lf);
        let cf = s.ctrl_load_fraction;
        times_more(z, 212, c, seq![], 4, cf, 40, cf.units(), 0);
        assert(c.push(cf.units()) =~= seq![
            ua.units(),
            warmer,
            s.duty_cycle.units(),
            lf.units(),
            cf.units(),
        ]);
    }
}

/// The boiler water goes back colder than it came by what the coil took from it: the flow times
/// its heat times the drop is the power of the coil. It goes back neither below freezing nor
/// warmer than it came.
pub proof fn boiler_water_gives_the_heat_of_the_coil(
    s: IndirectState,
    boiler_supply_c: Double,
    hx_power_w: Double,
    cp_j_kg_k: Double,
    dt_s: Double,
)
    requires
        tame(boiler_supply_c, 40),
        tame(hx_power_w, 400),
        0 <= hx_power_w.units(),
        ordinary(cp_j_kg_k),
        0 < cp_j_kg_k.units(),
        ordinary(s.boiler_loop_flow_rate_kg_s),
        0 < s.boiler_loop_flow_rate_kg_s.units(),
        ordinary(dt_s),
        // The step takes a hundredth of a second or more.
        100 * dt_s.units() >= pow2(1074),
    ensures
        exists|drop: Double|
            #![trigger boiler_supply_c.minus(drop)]
            {
                let left = boiler_supply_c.minus(drop);
                let back = s.boiler_return_c(boiler_supply_c, hx_power_w, cp_j_kg_k, dt_s);
                &&& about(
                    drop,
                    seq![hx_power_w.units()],
                    seq![s.boiler_loop_flow_rate_kg_s.units(), cp_j_kg_k.units()],
                    4,
                )
                &&& left.is_finite() && 0 <= left.units() <= boiler_supply_c.units() ==> back.units()
                    == left.units()
                &&& left.is_finite() && left.units() < 0 && 0 <= boiler_supply_c.units() ==> back.units()
                    == 0
            },
{
    let flow = s.boiler_loop_flow_rate_kg_s;
    let h = pow2(1074) as int;
    lemma_pow2_pos(1074);
    one_is_tame();
    tame_units(boiler_supply_c, 40);
    tame_units(hx_power_w, 400);
    tame_units(cp_j_kg_k, 40);
    tame_units(flow, 40);
    tame_units(dt_s, 40);
    ratio_is_tame(1, 1_000_000);
    let least = Double::ratio(1, 1_000_000);
    tame_units(least, 53);
    assert(size(least.units() * 1_000_000 - h) * P50 <= 1 * size(h)) by {
        assert(1 * pow2(1074) == h);
    }
    crate::double_laws::order_agrees_with_value(dt_s, least);
    assert(dt_s.max(least) == dt_s);
    let q = hx_power_w.units();
    let t = dt_s.units();
    let f = flow.units();
    let c = cp_j_kg_k.units();
    about_itself(hx_power_w);
    about_itself(flow);
    near_itself(dt_s);
    near_itself(cp_j_kg_k);
    times_more(hx_power_w, 400, seq![q], seq![], 0, dt_s, 40, t, 0);
    let heat = hx_power_w.times(dt_s);
    times_more(flow, 40, seq![f], seq![], 0, cp_j_kg_k, 40, c, 0);
    times_more(flow.times(cp_j_kg_k), 80, seq![f].push(c), seq![], 1, dt_s, 40, t, 0);
    let fct = seq![f].push(c).push(t);
    let water = flow.times(cp_j_kg_k).times(dt_s);
    assert(fct =~= seq![f, c, t]);
    lemma_products(f, c, t, 0);
    assert(f * c * t > 0) by (nonlinear_arith)
        requires
            f > 0,
            c > 0,
            t > 0,
    ;
    about_over(heat, 440, seq![q].push(t), seq![], 1, water, 120, fct, seq![], 2);
    let drop = heat.over(water);
    assert(seq![q].push(t) + Seq::<int>::empty() =~= seq![q].push(t));
    assert(Seq::<int>::empty() + fct =~= seq![f, c].push(t));
    about_cancels(drop, seq![q], seq![f, c], t, 4);
    let left = boiler_supply_c.minus(drop);
    if left.is_finite() {
        crate::double_laws::order_agrees_with_value(left, Double::zero());
        crate::double_laws::order_agrees_with_value(
            boiler_supply_c,
            left.max(Double::zero()),
        );
    }
    assert(s.boiler_return_c(boiler_supply_c, hx_power_w, cp_j_kg_k, dt_s) == left.max(
        Double::zero(),
    ).min(boiler_supply_c));
}

} // verus!
