//! Laws of the mixing valve: how much water of the tank goes into a draw, and what heat a
//! draw misses.
use vstd::arithmetic::power2::*;
use vstd::prelude::*;

use crate::approx::{
    near, near_clamped, near_grows, near_itself, near_min, near_over, near_plus, near_rescaled,
    near_sign, near_times, one_is_tame, ratio_is_tame, tame, tame_grows, tame_minus, tame_plus,
    tame_times, tame_units, whole_is_tame,
};
use crate::control_laws::{ordinary, over_more};
use crate::double::Double;
use crate::draws::HEAT_OF_WATER;
use crate::precision::{size, P50};
use crate::products::{about, about_one, lemma_product_one, lemma_scale, scale};
use crate::tank::{TankModel, TemperedDrawConfig};

verus! {

// ---------------------------------------------------------------------------
// Exact volumes
// ---------------------------------------------------------------------------

/// The tank water in a draw of `flow / per` over `seconds`: all of it, or as much as warms
/// mains water to the target when the rest of the draw is mains water. A fraction, in units.
pub open spec fn part(
    flow: int,
    per: int,
    seconds: int,
    target: int,
    outlet: int,
    mains: int,
    blended: bool,
) -> (int, int) {
    if blended {
        (flow * seconds * (target - mains), (outlet - mains) * per)
    } else {
        (flow * seconds, per)
    }
}

/// The sum of two fractions.
pub open spec fn together(a: (int, int), b: (int, int)) -> (int, int) {
    (a.0 * b.1 + b.0 * a.1, a.1 * b.1)
}

/// The water that a tempered step takes from a tank: what goes into the hot draw, blended
/// only where both the setpoint and the outlet are above its target, and what goes into the
/// fixture draw, blended where the outlet is above its target; but no more than there is.
/// The flows are `tempered / per` and `hot / per`.
pub open spec fn water_taken(
    tank: TankModel,
    tempered: int,
    hot: int,
    per: int,
    mains_temp_c: Double,
    tmv: TemperedDrawConfig,
    seconds: Double,
) -> (int, int) {
    let outlet = tank.node_temps_c[0].units();
    let both = together(
        part(
            hot,
            per,
            seconds.units(),
            tmv.hot_draw_temp_c.units(),
            outlet,
            mains_temp_c.units(),
            tmv.setpoint_temp_c.units() > tmv.hot_draw_temp_c.units() && outlet
                > tmv.hot_draw_temp_c.units(),
        ),
        part(
            tempered,
            per,
            seconds.units(),
            tmv.tempered_draw_temp_c.units(),
            outlet,
            mains_temp_c.units(),
            outlet > tmv.tempered_draw_temp_c.units(),
        ),
    );
    if both.0 <= tank.total_volume_m3.units() * both.1 {
        both
    } else {
        (tank.total_volume_m3.units(), 1)
    }
}

/// The heat that a fixture draw of `tempered / per` misses, as a number of units over `per`.
pub open spec fn heat_missed(tempered: int, outlet: int, target: int) -> int {
    HEAT_OF_WATER * (tempered * (if target > outlet {
        target - outlet
    } else {
        0
    }))
}

/// A step of ordinary length with a mixing valve whose targets are no colder than the mains
/// water, and a tank at least a millionth of a degree warmer than that water.
pub open spec fn is_blend(
    tank: TankModel,
    mains_temp_c: Double,
    tmv: TemperedDrawConfig,
    seconds: Double,
) -> bool {
    let outlet_c = tank.node_temps_c[0];
    &&& ordinary(seconds)
    &&& tame(mains_temp_c, 40)
    &&& tame(outlet_c, 40)
    &&& tame(tmv.tempered_draw_temp_c, 40)
    &&& tame(tmv.hot_draw_temp_c, 40)
    &&& tmv.setpoint_temp_c.is_finite()
    &&& mains_temp_c.units() <= tmv.tempered_draw_temp_c.units()
    &&& mains_temp_c.units() <= tmv.hot_draw_temp_c.units()
    &&& 1_000_000 * (outlet_c.units() - mains_temp_c.units()) >= pow2(1074)
    &&& ordinary(tank.total_volume_m3)
}

/// A flow of `exact / per`, within a rounding.
pub open spec fn is_flow(flow: Double, exact: int, per: int) -> bool {
    &&& tame(flow, 80)
    &&& 0 <= exact
    &&& near(flow, exact * pow2(1074), per, 1)
}

/// An ordinary number is the flow that it is.
pub proof fn lemma_own_flow(flow: Double)
    requires
        ordinary(flow),
    ensures
        is_flow(flow, flow.units(), pow2(1074) as int),
{
    let h = pow2(1074) as int;
    lemma_pow2_pos(1074);
    tame_units(flow, 40);
    tame_grows(flow, 40, 80);
    near_itself(flow);
    near_grows(flow, flow.units(), 1, 0, 1);
    assert(flow.units() * h == (flow.units() * h) * 1);
    near_rescaled(flow, flow.units(), 1, 1, flow.units() * h, h);
}

/// A mass flow over a density.
pub proof fn lemma_volume_flow(mass: Double, density: Double)
    requires
        ordinary(mass),
        ordinary(density),
        0 < density.units(),
    ensures
        is_flow(mass.over(density), mass.units(), density.units()),
{
    tame_units(mass, 40);
    tame_units(density, 40);
    near_itself(mass);
    near_itself(density);
    let m = mass.units();
    let d = density.units();
    near_over(mass, 40, m, 1, 0, density, 40, d, 1, 0);
    assert(m * 1 * pow2(1074) == m * pow2(1074));
    assert(1 * d == d);
}

// ---------------------------------------------------------------------------
// The share of a blend
// ---------------------------------------------------------------------------

/// A share of outlet water, with the rest mains water, makes the target temperature.
pub proof fn blends_come_out_at_their_target(target_c: Double, outlet_c: Double, mains_c: Double)
    requires
        tame(target_c, 40),
        tame(outlet_c, 40),
        tame(mains_c, 40),
        mains_c.units() <= target_c.units() <= outlet_c.units(),
        1_000_000 * (outlet_c.units() - mains_c.units()) >= pow2(1074),
    ensures
        about(
            crate::tank::blend_ratio(target_c, outlet_c, mains_c),
            seq![target_c.units() - mains_c.units()],
            seq![outlet_c.units() - mains_c.units()],
            3,
        ),
        tame(crate::tank::blend_ratio(target_c, outlet_c, mains_c), 184),
{
    let a = target_c.minus(mains_c);
    let b = outlet_c.minus(mains_c);
    let p = target_c.units() - mains_c.units();
    let q = outlet_c.units() - mains_c.units();
    let least = Double::ratio(1, 1_000_000_000);
    let h = pow2(1074) as int;
    lemma_pow2_pos(1074);
    tame_units(target_c, 40);
    tame_units(outlet_c, 40);
    tame_units(mains_c, 40);
    tame_minus(target_c, mains_c, 40);
    tame_minus(outlet_c, mains_c, 40);
    ratio_is_tame(1, 1_000_000_000);
    assert(b.units() >= least.units()) by {
        assert(size(b.units() - q) * P50 <= q);
        let l = least.units();
        assert(1 * pow2(1074) == h);
        assert(size(l * 1_000_000_000 - h) * P50 <= 1 * h);
    }
    crate::double_laws::order_agrees_with_value(b, least);
    assert(b.max(least) == b);
    about_one(a, p, 1);
    over_more(a, 92, seq![p], seq![], 1, b, 92, q, 1);
    assert(Seq::<int>::empty().push(q) =~= seq![q]);
    lemma_product_one(p);
    lemma_product_one(q);
    lemma_scale(1, 1);
    lemma_scale(2, 0);
    assert(seq![p].len() == 1 && seq![q].len() == 1);
    let ratio = a.over(b);
    assert(0 <= p * scale(2) <= (q * scale(1)) * h) by (nonlinear_arith)
        requires
            0 <= p <= q,
            scale(2) == scale(1) * scale(1),
            scale(1) == h,
            h > 0,
    ;
    near_clamped(ratio, p * scale(2), q * scale(1), 3);
    one_is_tame();
    tame_grows(Double::one(), 0, 184);
}

// ---------------------------------------------------------------------------
// Volumes
// ---------------------------------------------------------------------------

/// The water of an unblended draw.
proof fn lemma_whole_draw(flow: Double, exact: int, per: int, seconds: Double)
    requires
        is_flow(flow, exact, per),
        ordinary(seconds),
    ensures
        tame(flow.times(seconds), 120),
        near(flow.times(seconds), exact * seconds.units(), per, 2),
        0 <= exact * seconds.units(),
{
    let h = pow2(1074) as int;
    let s = seconds.units();
    tame_units(seconds, 40);
    near_itself(seconds);
    near_times(flow, 80, exact * h, per, 1, seconds, 40, s, 1, 0);
    let x = flow.times(seconds);
    assert(((exact * h) * s) * per == (exact * s) * (per * 1 * h)) by (nonlinear_arith);
    near_rescaled(x, (exact * h) * s, per * 1 * h, 2, exact * s, per);
    assert(exact * s >= 0) by (nonlinear_arith)
        requires
            exact >= 0,
            s >= 0,
    ;
}

/// The tank water of a blended draw.
proof fn lemma_blended_draw(
    flow: Double,
    exact: int,
    per: int,
    seconds: Double,
    target_c: Double,
    outlet_c: Double,
    mains_c: Double,
)
    requires
        is_flow(flow, exact, per),
        ordinary(seconds),
        tame(target_c, 40),
        tame(outlet_c, 40),
        tame(mains_c, 40),
        mains_c.units() <= target_c.units() <= outlet_c.units(),
        1_000_000 * (outlet_c.units() - mains_c.units()) >= pow2(1074),
    ensures
        ({
            let x = flow.times(seconds).times(
                crate::tank::blend_ratio(target_c, outlet_c, mains_c),
            );
            let (p, q) = part(
                exact,
                per,
                seconds.units(),
                target_c.units(),
                outlet_c.units(),
                mains_c.units(),
                true,
            );
            &&& tame(x, 304)
            &&& near(x, p, q, 6)
            &&& 0 <= p
        }),
{
    lemma_whole_draw(flow, exact, per, seconds);
    blends_come_out_at_their_target(target_c, outlet_c, mains_c);
    let r = crate::tank::blend_ratio(target_c, outlet_c, mains_c);
    let s = seconds.units();
    let c = target_c.units() - mains_c.units();
    let d = outlet_c.units() - mains_c.units();
    lemma_product_one(c);
    lemma_product_one(d);
    lemma_scale(1, 1);
    lemma_pow2_pos(1074);
    assert(seq![c].len() == 1 && seq![d].len() == 1);
    let h = scale(1);
    assert((c * (h * h)) * d == (c * h) * (d * h)) by (nonlinear_arith);
    near_rescaled(r, c * (h * h), d * h, 3, c * h, d);
    let whole = flow.times(seconds);
    near_times(whole, 120, exact * s, per, 2, r, 184, c * h, d, 3);
    let x = whole.times(r);
    let p = exact * s * c;
    assert(((exact * s) * (c * h)) * (d * per) == p * (per * d * h)) by {
        let v = exact * s;
        assert((v * (c * h)) * (d * per) == (v * c) * (per * d * h)) by (nonlinear_arith);
    }
    assert(d * per > 0) by (nonlinear_arith)
        requires
            d > 0,
            per > 0,
    ;
    near_rescaled(x, (exact * s) * (c * h), per * d * h, 6, p, d * per);
    assert(p >= 0) by (nonlinear_arith)
        requires
            p == exact * s * c,
            exact * s >= 0,
            c >= 0,
    ;
}

/// What a tempered step takes, of flows that are known within a rounding.
pub(crate) proof fn lemma_taken(
    tank: TankModel,
    tempered_flow_m3_s: Double,
    hot_flow_m3_s: Double,
    tempered: int,
    hot: int,
    per: int,
    mains_temp_c: Double,
    tmv: TemperedDrawConfig,
    seconds: Double,
)
    requires
        is_blend(tank, mains_temp_c, tmv, seconds),
        is_flow(tempered_flow_m3_s, tempered, per),
        is_flow(hot_flow_m3_s, hot, per),
    ensures
        ({
            let taken = tank.tempered_draw(
                tempered_flow_m3_s,
                hot_flow_m3_s,
                mains_temp_c,
                tmv,
                seconds,
            );
            let (p, q) = water_taken(tank, tempered, hot, per, mains_temp_c, tmv, seconds);
            &&& near(taken, p, q, 7)
            &&& 0 <= p
            &&& tame(taken, 356)
        }),
{
    let outlet_c = tank.node_temps_c[0];
    let h = pow2(1074) as int;
    lemma_pow2_pos(1074);
    one_is_tame();
    tame_units(outlet_c, 40);
    tame_units(tmv.tempered_draw_temp_c, 40);
    tame_units(tmv.hot_draw_temp_c, 40);
    tame_units(tank.total_volume_m3, 40);
    assert(tempered * h >= 0 && (tempered * h == 0 <==> tempered == 0)) by (nonlinear_arith)
        requires
            tempered >= 0,
            h > 0,
    ;
    near_sign(tempered_flow_m3_s, tempered * h, per, 1);
    crate::double_laws::order_agrees_with_value(tmv.hot_draw_temp_c, tmv.setpoint_temp_c);
    crate::double_laws::order_agrees_with_value(outlet_c, tmv.hot_draw_temp_c);
    crate::double_laws::order_agrees_with_value(outlet_c, tmv.tempered_draw_temp_c);
    crate::double_laws::order_agrees_with_value(Double::zero(), tempered_flow_m3_s);
    let blend_hot = tmv.setpoint_temp_c.units() > tmv.hot_draw_temp_c.units()
        && outlet_c.units() > tmv.hot_draw_temp_c.units();
    let blend_tempered = outlet_c.units() > tmv.tempered_draw_temp_c.units();
    let x = crate::tank::hot_draw_volume(hot_flow_m3_s, tmv, outlet_c, mains_temp_c, seconds);
    let y = crate::tank::tempered_draw_volume(
        tempered_flow_m3_s,
        tmv,
        outlet_c,
        mains_temp_c,
        seconds,
    );
    let a = part(
        hot,
        per,
        seconds.units(),
        tmv.hot_draw_temp_c.units(),
        outlet_c.units(),
        mains_temp_c.units(),
        blend_hot,
    );
    let b = part(
        tempered,
        per,
        seconds.units(),
        tmv.tempered_draw_temp_c.units(),
        outlet_c.units(),
        mains_temp_c.units(),
        blend_tempered,
    );
    lemma_whole_draw(hot_flow_m3_s, hot, per, seconds);
    lemma_whole_draw(tempered_flow_m3_s, tempered, per, seconds);
    if blend_hot {
        lemma_blended_draw(
            hot_flow_m3_s,
            hot,
            per,
            seconds,
            tmv.hot_draw_temp_c,
            outlet_c,
            mains_temp_c,
        );
    } else {
        near_grows(x, a.0, a.1, 2, 6);
        tame_grows(x, 120, 304);
    }
    if tempered == 0 {
        assert(y == Double::zero());
        tame_grows(y, 0, 304);
        assert(b.0 == 0 && b.1 > 0) by {
            let s = seconds.units();
            let c = tmv.tempered_draw_temp_c.units() - mains_temp_c.units();
            assert(tempered * s == 0 && (tempered * s) * c == 0) by (nonlinear_arith)
                requires
                    tempered == 0,
            ;
            let d = outlet_c.units() - mains_temp_c.units();
            assert(d * per > 0) by (nonlinear_arith)
                requires
                    d > 0,
                    per > 0,
            ;
        }
        let v = b.1;
        assert(0 * v == 0);
    } else if blend_tempered {
        lemma_blended_draw(
            tempered_flow_m3_s,
            tempered,
            per,
            seconds,
            tmv.tempered_draw_temp_c,
            outlet_c,
            mains_temp_c,
        );
    } else {
        near_grows(y, b.0, b.1, 2, 6);
        tame_grows(y, 120, 304);
    }
    tame_plus(x, y, 304);
    near_plus(x, a.0, a.1, y, b.0, b.1, 6);
    let both = together(a, b);
    let total = tank.total_volume_m3;
    near_itself(total);
    near_grows(total, total.units(), 1, 0, 7);
    assert(both.0 >= 0) by (nonlinear_arith)
        requires
            both.0 == a.0 * b.1 + b.0 * a.1,
            a.0 >= 0,
            b.0 >= 0,
            a.1 > 0,
            b.1 > 0,
    ;
    assert(both.0 * 1 == both.0);
    near_min(x.plus(y), both.0, both.1, total, total.units(), 1, 7);
    tame_grows(total, 40, 356);
}

/// A tempered step takes the water of its hot draw and that of its fixture draw together,
/// within rounding, but no more than there is.
pub proof fn tempered_steps_take_both_draws(
    tank: TankModel,
    tempered_flow_m3_s: Double,
    hot_flow_m3_s: Double,
    mains_temp_c: Double,
    tmv: TemperedDrawConfig,
    seconds: Double,
)
    requires
        is_blend(tank, mains_temp_c, tmv, seconds),
        ordinary(tempered_flow_m3_s),
        ordinary(hot_flow_m3_s),
    ensures
        ({
            let taken = tank.tempered_draw(
                tempered_flow_m3_s,
                hot_flow_m3_s,
                mains_temp_c,
                tmv,
                seconds,
            );
            let (p, q) = water_taken(
                tank,
                tempered_flow_m3_s.units(),
                hot_flow_m3_s.units(),
                pow2(1074) as int,
                mains_temp_c,
                tmv,
                seconds,
            );
            near(taken, p, q, 7)
        }),
{
    lemma_own_flow(tempered_flow_m3_s);
    lemma_own_flow(hot_flow_m3_s);
    lemma_taken(
        tank,
        tempered_flow_m3_s,
        hot_flow_m3_s,
        tempered_flow_m3_s.units(),
        hot_flow_m3_s.units(),
        pow2(1074) as int,
        mains_temp_c,
        tmv,
        seconds,
    );
}

/// Where the outlet is no warmer than either target nothing is blended: both flows over the
/// time, together.
pub proof fn lemma_unblended(
    tank: TankModel,
    tempered: int,
    hot: int,
    per: int,
    mains_temp_c: Double,
    tmv: TemperedDrawConfig,
    seconds: Double,
    x: Double,
    weight: int,
    den: int,
    e: int,
)
    requires
        tank.node_temps_c[0].units() <= tmv.tempered_draw_temp_c.units(),
        tank.node_temps_c[0].units() <= tmv.hot_draw_temp_c.units(),
        0 < per,
        0 < den,
        ({
            let (p, q) = water_taken(tank, tempered, hot, per, mains_temp_c, tmv, seconds);
            near(x, weight * p, q * den, e)
        }),
    ensures
        ({
            let flow = tempered + hot;
            let total = tank.total_volume_m3.units();
            &&& flow * seconds.units() <= total * per ==> near(
                x,
                weight * (flow * seconds.units()),
                per * den,
                e,
            )
            &&& flow * seconds.units() > total * per ==> near(x, weight * total, 1 * den, e)
        }),
{
    let s = seconds.units();
    let a = hot * s;
    let b = tempered * s;
    let total = tank.total_volume_m3.units();
    let f = (tempered + hot) * s;
    assert(f == a + b) by (nonlinear_arith)
        requires
            f == (tempered + hot) * s,
            a == hot * s,
            b == tempered * s,
    ;
    assert(a * per + b * per == f * per) by (nonlinear_arith)
        requires
            f == a + b,
    ;
    assert(total * (per * per) == (total * per) * per) by (nonlinear_arith);
    assert(f <= total * per <==> f * per <= (total * per) * per) by (nonlinear_arith)
        requires
            per > 0,
    ;
    if f <= total * per {
        assert((weight * (f * per)) * (per * den) == (weight * f) * (per * per * den))
            by (nonlinear_arith);
        assert(per * den > 0) by (nonlinear_arith)
            requires
                per > 0,
                den > 0,
        ;
        near_rescaled(x, weight * (f * per), per * per * den, e, weight * f, per * den);
    }
}

/// Where the outlet is no warmer than either target, nothing is blended: a tempered step
/// takes both flows over its time, within rounding, but no more than there is.
pub proof fn cool_tanks_give_both_flows(
    tank: TankModel,
    tempered_flow_m3_s: Double,
    hot_flow_m3_s: Double,
    mains_temp_c: Double,
    tmv: TemperedDrawConfig,
    seconds: Double,
)
    requires
        is_blend(tank, mains_temp_c, tmv, seconds),
        ordinary(tempered_flow_m3_s),
        ordinary(hot_flow_m3_s),
        tank.node_temps_c[0].units() <= tmv.tempered_draw_temp_c.units(),
        tank.node_temps_c[0].units() <= tmv.hot_draw_temp_c.units(),
    ensures
        ({
            let taken = tank.tempered_draw(
                tempered_flow_m3_s,
                hot_flow_m3_s,
                mains_temp_c,
                tmv,
                seconds,
            );
            let flow = tempered_flow_m3_s.units() + hot_flow_m3_s.units();
            let total = tank.total_volume_m3.units();
            let h = pow2(1074) as int;
            &&& flow * seconds.units() <= total * h ==> near(taken, flow * seconds.units(), h, 7)
            &&& flow * seconds.units() > total * h ==> near(taken, total, 1, 7)
        }),
{
    let h = pow2(1074) as int;
    lemma_pow2_pos(1074);
    tempered_steps_take_both_draws(
        tank,
        tempered_flow_m3_s,
        hot_flow_m3_s,
        mains_temp_c,
        tmv,
        seconds,
    );
    let taken = tank.tempered_draw(tempered_flow_m3_s, hot_flow_m3_s, mains_temp_c, tmv, seconds);
    let (p, q) = water_taken(
        tank,
        tempered_flow_m3_s.units(),
        hot_flow_m3_s.units(),
        h,
        mains_temp_c,
        tmv,
        seconds,
    );
    assert(1 * p == p && q * 1 == q);
    lemma_unblended(
        tank,
        tempered_flow_m3_s.units(),
        hot_flow_m3_s.units(),
        h,
        mains_temp_c,
        tmv,
        seconds,
        taken,
        1,
        1,
        7,
    );
    let f = (tempered_flow_m3_s.units() + hot_flow_m3_s.units()) * seconds.units();
    let total = tank.total_volume_m3.units();
    assert(1 * f == f && h * 1 == h && 1 * total == total && 1 * 1 == 1);
}

// ---------------------------------------------------------------------------
// What a step reports of its draw
// ---------------------------------------------------------------------------

/// The heat of water is exact and tame.
proof fn lemma_warmth()
    ensures
        ({
            let r = crate::tank::water_density().times(crate::tank::water_specific_heat());
            &&& tame(r, 106)
            &&& near(r, HEAT_OF_WATER * pow2(1074), 1, 0)
        }),
{
    whole_is_tame(1000);
    whole_is_tame(4183);
    tame_times(Double::whole(1000), 53, Double::whole(4183), 53);
    crate::draws::lemma_heat_of_water();
    near_itself(crate::tank::water_density().times(crate::tank::water_specific_heat()));
}

/// The mains water that a draw lets in brings its heat: that of water at the mains
/// temperature, over the volume drawn.
proof fn lemma_mains_heat(mains_temp_c: Double, d: Double, p: int, q: int, e: int)
    requires
        tame(mains_temp_c, 40),
        tame(d, 356),
        near(d, p, q, e),
        0 <= e <= 10,
    ensures
        near(
            crate::tank::water_density().times(crate::tank::water_specific_heat()).times(
                mains_temp_c,
            ).times(d),
            HEAT_OF_WATER * (mains_temp_c.units() * p),
            q * pow2(1074),
            e + 2,
        ),
{
    let h = pow2(1074) as int;
    lemma_pow2_pos(1074);
    lemma_warmth();
    tame_units(mains_temp_c, 40);
    near_itself(mains_temp_c);
    let warmth = crate::tank::water_density().times(crate::tank::water_specific_heat());
    let t = mains_temp_c.units();
    near_times(warmth, 106, HEAT_OF_WATER * h, 1, 0, mains_temp_c, 40, t, 1, 0);
    let per = warmth.times(mains_temp_c);
    let a = (HEAT_OF_WATER * h) * t;
    let b = 1 * 1 * h;
    near_times(per, 146, a, b, 1, d, 356, p, q, e);
    let k = HEAT_OF_WATER as int;
    assert((a * p) * (q * h) == (k * (t * p)) * (b * q * h)) by {
        let v = q * h;
        assert(a * p == (k * (t * p)) * h) by (nonlinear_arith)
            requires
                a == (k * h) * t,
        ;
        assert(b * q * h == h * v) by (nonlinear_arith)
            requires
                b == 1 * 1 * h,
                v == q * h,
        ;
        assert(((k * (t * p)) * h) * v == (k * (t * p)) * (h * v)) by (nonlinear_arith);
    }
    assert(q * h > 0) by (nonlinear_arith)
        requires
            q > 0,
            h > 0,
    ;
    near_rescaled(per.times(d), a * p, b * q * h, e + 2, k * (t * p), q * h);
}

/// What a step reports of a draw of flows that are known within a rounding.
pub proof fn lemma_report(
    tank: TankModel,
    ambient_temp_c: Double,
    tempered_flow_m3_s: Double,
    hot_flow_m3_s: Double,
    tempered: int,
    hot: int,
    per: int,
    mains_temp_c: Double,
    injections: Seq<(usize, Double)>,
    tmv: TemperedDrawConfig,
    seconds: Double,
)
    requires
        is_blend(tank, mains_temp_c, tmv, seconds),
        is_flow(tempered_flow_m3_s, tempered, per),
        is_flow(hot_flow_m3_s, hot, per),
        tank.stepped_tempered(
            ambient_temp_c,
            tempered_flow_m3_s,
            hot_flow_m3_s,
            mains_temp_c,
            injections,
            tmv,
            seconds,
        ).1 is Ok,
    ensures
        ({
            let draw = tank.stepped_tempered(
                ambient_temp_c,
                tempered_flow_m3_s,
                hot_flow_m3_s,
                mains_temp_c,
                injections,
                tmv,
                seconds,
            ).1->Ok_0;
            let (p, q) = water_taken(tank, tempered, hot, per, mains_temp_c, tmv, seconds);
            &&& near(
                draw.energy_in_j,
                (HEAT_OF_WATER * mains_temp_c.units()) * p,
                q * pow2(1074),
                9,
            )
            &&& draw.outlet_temp_c == tank.node_temps_c[0]
            &&& near(
                draw.unmet_load_w,
                heat_missed(
                    tempered,
                    tank.node_temps_c[0].units(),
                    tmv.tempered_draw_temp_c.units(),
                ),
                per,
                5,
            )
        }),
{
    lemma_taken(
        tank,
        tempered_flow_m3_s,
        hot_flow_m3_s,
        tempered,
        hot,
        per,
        mains_temp_c,
        tmv,
        seconds,
    );
    let d = tank.tempered_draw(tempered_flow_m3_s, hot_flow_m3_s, mains_temp_c, tmv, seconds);
    let (p, q) = water_taken(tank, tempered, hot, per, mains_temp_c, tmv, seconds);
    one_is_tame();
    lemma_pow2_pos(1074);
    near_sign(d, p, q, 7);
    crate::double_laws::order_agrees_with_value(d, Double::zero());
    let t = mains_temp_c.units();
    let k = HEAT_OF_WATER as int;
    assert(k * (t * p) == (k * t) * p) by (nonlinear_arith);
    if d.same(Double::zero()) {
        assert((k * t) * 0 == 0);
        assert(Double::zero().units() * (q * pow2(1074)) == 0);
        assert(q * pow2(1074) > 0) by (nonlinear_arith)
            requires
                q > 0,
                pow2(1074) > 0,
        ;
    } else {
        lemma_mains_heat(mains_temp_c, d, p, q, 7);
    }
    lemma_unmet(tempered_flow_m3_s, tempered, per, tmv, tank.node_temps_c[0]);
}

/// What a tempered step reports of its draw: the heat that comes with the mains water is that
/// of the water taken, the outlet is the top of the tank before the step, and the unmet load
/// is the heat that the fixture draw misses to its target.
pub proof fn tempered_steps_report_their_draw(
    tank: TankModel,
    ambient_temp_c: Double,
    tempered_flow_m3_s: Double,
    hot_flow_m3_s: Double,
    mains_temp_c: Double,
    injections: Seq<(usize, Double)>,
    tmv: TemperedDrawConfig,
    seconds: Double,
)
    requires
        is_blend(tank, mains_temp_c, tmv, seconds),
        ordinary(tempered_flow_m3_s),
        ordinary(hot_flow_m3_s),
        tank.stepped_tempered(
            ambient_temp_c,
            tempered_flow_m3_s,
            hot_flow_m3_s,
            mains_temp_c,
            injections,
            tmv,
            seconds,
        ).1 is Ok,
    ensures
        ({
            let draw = tank.stepped_tempered(
                ambient_temp_c,
                tempered_flow_m3_s,
                hot_flow_m3_s,
                mains_temp_c,
                injections,
                tmv,
                seconds,
            ).1->Ok_0;
            let h = pow2(1074) as int;
            let (p, q) = water_taken(
                tank,
                tempered_flow_m3_s.units(),
                hot_flow_m3_s.units(),
                h,
                mains_temp_c,
                tmv,
                seconds,
            );
            &&& near(draw.energy_in_j, (HEAT_OF_WATER * mains_temp_c.units()) * p, q * h, 9)
            &&& draw.outlet_temp_c == tank.node_temps_c[0]
            &&& near(
                draw.unmet_load_w,
                heat_missed(
                    tempered_flow_m3_s.units(),
                    tank.node_temps_c[0].units(),
                    tmv.tempered_draw_temp_c.units(),
                ),
                h,
                5,
            )
        }),
{
    lemma_own_flow(tempered_flow_m3_s);
    lemma_own_flow(hot_flow_m3_s);
    lemma_report(
        tank,
        ambient_temp_c,
        tempered_flow_m3_s,
        hot_flow_m3_s,
        tempered_flow_m3_s.units(),
        hot_flow_m3_s.units(),
        pow2(1074) as int,
        mains_temp_c,
        injections,
        tmv,
        seconds,
    );
}

/// The heat that a fixture draw misses.
proof fn lemma_unmet(flow: Double, exact: int, per: int, tmv: TemperedDrawConfig, outlet_c: Double)
    requires
        is_flow(flow, exact, per),
        tame(outlet_c, 40),
        tame(tmv.tempered_draw_temp_c, 40),
    ensures
        near(
            crate::tank::unmet_load(flow, tmv, outlet_c),
            heat_missed(exact, outlet_c.units(), tmv.tempered_draw_temp_c.units()),
            per,
            5,
        ),
{
    let target_c = tmv.tempered_draw_temp_c;
    let r = crate::tank::unmet_load(flow, tmv, outlet_c);
    let h = pow2(1074) as int;
    let k = HEAT_OF_WATER as int;
    lemma_pow2_pos(1074);
    one_is_tame();
    tame_units(flow, 80);
    tame_units(outlet_c, 40);
    tame_units(target_c, 40);
    assert(exact * h >= 0 && (exact * h == 0 <==> exact == 0)) by (nonlinear_arith)
        requires
            exact >= 0,
            h > 0,
    ;
    near_sign(flow, exact * h, per, 1);
    crate::double_laws::order_agrees_with_value(Double::zero(), flow);
    let missing = if target_c.units() > outlet_c.units() {
        target_c.units() - outlet_c.units()
    } else {
        0
    };
    if exact == 0 {
        assert(0 * missing == 0);
        assert(0 * per == 0);
    } else {
        tame_minus(target_c, outlet_c, 40);
        let gap = target_c.minus(outlet_c);
        let deficit = gap.max(Double::zero());
        crate::double_laws::order_agrees_with_value(gap, Double::zero());
        let difference = target_c.units() - outlet_c.units();
        assert(near(deficit, missing, 1, 1) && tame(deficit, 92)) by {
            if difference >= 0 {
                near_sign(gap, difference, 1, 1);
            } else {
                assert(gap.units() <= 0) by {
                    assert(size(gap.units() * 1 - difference) * P50 <= 1 * size(difference));
                }
                tame_grows(Double::zero(), 0, 92);
                if gap.units() == 0 {
                    assert(deficit.units() == 0);
                } else {
                    assert(deficit == Double::zero());
                }
            }
        }
        whole_is_tame(1000);
        whole_is_tame(4183);
        near_times(flow, 80, exact * h, per, 1, Double::whole(1000), 53, 1000 * h, 1, 0);
        let mass = flow.times(Double::whole(1000));
        assert(((exact * h) * (1000 * h)) * per == ((1000 * exact) * h) * (per * 1 * h))
            by (nonlinear_arith);
        near_rescaled(
            mass,
            (exact * h) * (1000 * h),
            per * 1 * h,
            2,
            (1000 * exact) * h,
            per,
        );
        near_times(mass, 133, (1000 * exact) * h, per, 2, Double::whole(4183), 53, 4183 * h, 1, 0);
        let rate = mass.times(Double::whole(4183));
        assert((((1000 * exact) * h) * (4183 * h)) * per == ((k * exact) * h) * (per * 1 * h))
            by (nonlinear_arith)
            requires
                k == 4_183_000,
        ;
        near_rescaled(
            rate,
            ((1000 * exact) * h) * (4183 * h),
            per * 1 * h,
            3,
            (k * exact) * h,
            per,
        );
        near_times(rate, 186, (k * exact) * h, per, 3, deficit, 92, missing, 1, 1);
        assert((((k * exact) * h) * missing) * per == (k * (exact * missing)) * (per * 1 * h))
            by (nonlinear_arith);
        near_rescaled(
            r,
            ((k * exact) * h) * missing,
            per * 1 * h,
            5,
            k * (exact * missing),
            per,
        );
    }
}

} // verus!
