//! Laws of what a step finds around a heater: its zone, its schedules, its loops and its time.
use vstd::arithmetic::power2::*;
use vstd::prelude::*;

use crate::approx::{
    near, near_grows, near_itself, near_plus, near_rescaled, near_sign, one_is_tame, tame,
    tame_grows, tame_minus, tame_over, tame_plus, tame_units, whole_is_tame,
};
use crate::control_laws::{is_share, ordinary};
use crate::double::Double;
use crate::gas::{GasOutside, GasWH};
use crate::rounding::P53;
use crate::shared::ScheduleReadings;
use crate::tank::DrawResult;
use crate::time::{Duration, TimeStep};
use crate::types::{EnvironmentState, FluidAccumulator, OperatingMode, ZoneState};

verus! {

// ---------------------------------------------------------------------------
// Zones
// ---------------------------------------------------------------------------

proof fn lemma_first_zone(zones: Seq<ZoneState>, id: u16, from: int, first: int)
    requires
        0 <= from <= first <= zones.len(),
        forall|i: int| from <= i < first ==> #[trigger] zones[i].id != id,
        first < zones.len() ==> zones[first].id == id,
    ensures
        crate::shared::zone_at(zones, id, from) == (if first < zones.len() {
            Some(zones[first])
        } else {
            None
        }),
    decreases first - from,
{
    if from < first {
        lemma_first_zone(zones, id, from + 1, first);
    }
}

/// Around a heater it is as warm and as humid as in the first zone with its number.
pub proof fn heaters_stand_in_their_zone(env: &EnvironmentState, id: u16, first: int)
    requires
        0 <= first < env.zones@.len(),
        env.zones@[first].id == id,
        forall|i: int| 0 <= i < first ==> #[trigger] env.zones@[i].id != id,
    ensures
        crate::shared::ambient(env, Some(id)) == env.zones@[first].temperature_c,
        crate::heat_pump_wh::wet_bulb(env, Some(id)) == env.zones@[first].wet_bulb_c,
{
    lemma_first_zone(env.zones@, id, 0, first);
}

/// Around a heater that has no zone, or whose zone is not there, it is as warm as outdoors.
pub proof fn other_heaters_stand_outdoors(env: &EnvironmentState, zone: Option<u16>)
    requires
        zone is Some ==> forall|i: int|
            0 <= i < env.zones@.len() ==> #[trigger] env.zones@[i].id != zone->0,
    ensures
        crate::shared::ambient(env, zone) == env.outdoor_temp_c,
        crate::heat_pump_wh::wet_bulb(env, zone) == env.outdoor_temp_c,
{
    if let Some(id) = zone {
        lemma_first_zone(env.zones@, id, 0, env.zones@.len() as int);
    }
}

// ---------------------------------------------------------------------------
// Schedules and loops
// ---------------------------------------------------------------------------

/// What is scheduled comes first, if it is a finite number: the mains temperature as it is, the
/// draw unless it is negative, which counts as none. Without it the draw is the configured one,
/// and the mains temperature the published one, or else the configured one.
pub proof fn schedules_come_first(
    env: &EnvironmentState,
    fallback_c: Double,
    fallback_kg_s: Double,
    readings: ScheduleReadings,
)
    ensures
        ({
            let (mains_c, draw_kg_s) = crate::shared::storage_step_inputs(
                env,
                fallback_c,
                fallback_kg_s,
                readings,
            );
            &&& readings.mains_temp_c is Some && readings.mains_temp_c->0.is_finite() ==> mains_c
                == readings.mains_temp_c->0
            &&& readings.mains_temp_c is None || !readings.mains_temp_c->0.is_finite()
                ==> mains_c == crate::shared::mains_temp(env, fallback_c)
            &&& readings.draw_rate_kg_s is Some && readings.draw_rate_kg_s->0.is_finite() && 0
                <= readings.draw_rate_kg_s->0.units() ==> draw_kg_s == readings.draw_rate_kg_s->0
            &&& readings.draw_rate_kg_s is Some && readings.draw_rate_kg_s->0.is_finite()
                && readings.draw_rate_kg_s->0.units() < 0 ==> draw_kg_s == Double::zero()
            &&& readings.draw_rate_kg_s is None || !readings.draw_rate_kg_s->0.is_finite()
                ==> draw_kg_s == fallback_kg_s
        }),
{
    one_is_tame();
    if let Some(v) = readings.draw_rate_kg_s {
        if v.is_finite() {
            crate::double_laws::order_agrees_with_value(v, Double::zero());
        }
    }
}

/// The published mains temperature is the first value of the first domain for it, if that is a
/// finite number.
pub proof fn mains_water_is_as_published(
    env: &EnvironmentState,
    fallback_c: Double,
    first: int,
    published_c: Double,
)
    requires
        0 <= first < env.custom_domains@.len(),
        env.custom_domains@[first].domain_id == crate::shared::MAINS_WATER_DOMAIN_ID,
        forall|i: int|
            0 <= i < first ==> #[trigger] env.custom_domains@[i].domain_id
                != crate::shared::MAINS_WATER_DOMAIN_ID,
        env.custom_domains@[first].payload is Some,
        env.custom_domains@[first].payload->0@.len() > 0,
        env.custom_domains@[first].payload->0@[0] == published_c,
    ensures
        crate::shared::mains_temp(env, fallback_c) == (if published_c.is_finite() {
            published_c
        } else {
            fallback_c
        }),
{
    lemma_first_domain(env, 0, first);
}

proof fn lemma_first_domain(env: &EnvironmentState, from: int, first: int)
    requires
        0 <= from <= first < env.custom_domains@.len(),
        env.custom_domains@[first].domain_id == crate::shared::MAINS_WATER_DOMAIN_ID,
        forall|i: int|
            from <= i < first ==> #[trigger] env.custom_domains@[i].domain_id
                != crate::shared::MAINS_WATER_DOMAIN_ID,
        env.custom_domains@[first].payload is Some,
        env.custom_domains@[first].payload->0@.len() > 0,
    ensures
        crate::shared::domain_value(
            env.custom_domains@,
            crate::shared::MAINS_WATER_DOMAIN_ID,
            from,
        ) == Some(env.custom_domains@[first].payload->0@[0]),
    decreases first - from,
{
    if from < first {
        lemma_first_domain(env, from + 1, first);
    }
}

/// The boiler water is as warm as the first loop with its number has it; without such a loop it
/// counts as freezing.
pub proof fn boiler_water_comes_from_its_loop(
    fluid: Seq<FluidAccumulator>,
    boiler_loop_id: u16,
    first: int,
)
    requires
        0 <= first <= fluid.len(),
        first < fluid.len() ==> fluid[first].loop_id == boiler_loop_id,
        forall|i: int| 0 <= i < first ==> #[trigger] fluid[i].loop_id != boiler_loop_id,
    ensures
        crate::indirect_tank::boiler_supply(fluid, boiler_loop_id) == (if first < fluid.len() {
            fluid[first].mean_supply_temp_c
        } else {
            Double::zero()
        }),
{
    lemma_boiler_loop(fluid, boiler_loop_id, 0, first);
}

proof fn lemma_boiler_loop(fluid: Seq<FluidAccumulator>, id: u16, from: int, first: int)
    requires
        0 <= from <= first <= fluid.len(),
        first < fluid.len() ==> fluid[first].loop_id == id,
        forall|i: int| from <= i < first ==> #[trigger] fluid[i].loop_id != id,
    ensures
        crate::shared::loop_at(fluid, id, from) == (if first < fluid.len() {
            Some(fluid[first])
        } else {
            None
        }),
    decreases first - from,
{
    if from < first {
        lemma_boiler_loop(fluid, id, from + 1, first);
    }
}

// ---------------------------------------------------------------------------
// Losses
// ---------------------------------------------------------------------------

/// What a gas heater gives to its zone is the share of the loss of its tank that stays there,
/// which goes by how much warmer the tank is than its surroundings, and the heat of its pilot
/// that does not reach the water. A tank that is colder loses nothing.
pub proof fn gas_heaters_warm_their_zone(
    heater: &GasWH,
    env: &EnvironmentState,
    mode: OperatingMode,
    outside: GasOutside,
    fluid: Seq<FluidAccumulator>,
    readings: ScheduleReadings,
    draw: DrawResult,
    average_c: Double,
)
    requires
        average_c == crate::shared::weighted_average(
            heater.tank@.node_temps_c,
            heater.tank@.node_volumes_m3,
        ),
        tame(average_c, 40),
        tame(crate::shared::ambient(env, heater.descriptor.zone), 40),
        ordinary(heater.tank@.ua_w_per_k),
        is_share(heater.state.skin_loss_fraction),
        tame(heater.step_firing(env, outside).pilot_heat_to_ambient_w, 172),
        0 <= heater.step_firing(env, outside).pilot_heat_to_ambient_w.units(),
    ensures
        ({
            let f = heater.step_figures(env, mode, outside, fluid, readings, draw);
            let h = pow2(1074) as int;
            let difference = average_c.units() - crate::shared::ambient(
                env,
                heater.descriptor.zone,
            ).units();
            let warmer = if difference > 0 {
                difference
            } else {
                0
            };
            let loss = heater.tank@.ua_w_per_k.units() * warmer
                * heater.state.skin_loss_fraction.units();
            near(
                f.skin_loss_to_zone_w,
                loss + f.firing.pilot_heat_to_ambient_w.units() * (h * h),
                h * h,
                4,
            )
        }),
{
    let h = pow2(1074) as int;
    lemma_pow2_pos(1074);
    one_is_tame();
    let ambient_c = crate::shared::ambient(env, heater.descriptor.zone);
    let ua = heater.tank@.ua_w_per_k;
    let frac = heater.state.skin_loss_fraction;
    let pilot = heater.step_firing(env, outside).pilot_heat_to_ambient_w;
    tame_units(average_c, 40);
    tame_units(ambient_c, 40);
    tame_units(ua, 40);
    tame_units(frac, 40);
    tame_units(pilot, 172);
    tame_minus(average_c, ambient_c, 40);
    let gap = average_c.minus(ambient_c);
    let difference = average_c.units() - ambient_c.units();
    let warmer = if difference > 0 {
        difference
    } else {
        0
    };
    let excess = gap.max(Double::zero());
    crate::double_laws::order_agrees_with_value(gap, Double::zero());
    assert(near(excess, warmer, 1, 1) && tame(excess, 92)) by {
        if difference >= 0 {
            near_sign(gap, difference, 1, 1);
        } else {
            assert(gap.units() <= 0) by {
                assert(crate::precision::size(gap.units() * 1 - difference) * crate::precision::P50
                    <= 1 * crate::precision::size(difference));
            }
            tame_grows(Double::zero(), 0, 92);
            if gap.units() == 0 {
                assert(excess.units() == 0);
            } else {
                assert(excess == Double::zero());
            }
        }
    }
    near_itself(ua);
    near_itself(frac);
    crate::approx::near_times(ua, 40, ua.units(), 1, 0, excess, 92, warmer, 1, 1);
    let standby = ua.times(excess);
    crate::approx::near_times(
        standby,
        132,
        ua.units() * warmer,
        1 * 1 * h,
        2,
        frac,
        40,
        frac.units(),
        1,
        0,
    );
    let kept = standby.times(frac);
    let loss = ua.units() * warmer * frac.units();
    assert(1 * 1 * h * 1 * h == h * h);
    let hh = h * h;
    assert(hh > 0) by (nonlinear_arith)
        requires
            hh == h * h,
            h > 0,
    ;
    assert(loss >= 0) by (nonlinear_arith)
        requires
            loss == ua.units() * warmer * frac.units(),
            ua.units() >= 0,
            warmer >= 0,
            frac.units() >= 0,
    ;
    near_itself(pilot);
    near_grows(pilot, pilot.units(), 1, 0, 3);
    tame_plus(kept, pilot, 172);
    near_plus(kept, loss, hh, pilot, pilot.units(), 1, 3);
    assert(loss * 1 + pilot.units() * hh == loss + pilot.units() * hh);
    assert(hh * 1 == hh);
}

// ---------------------------------------------------------------------------
// Time
// ---------------------------------------------------------------------------

/// A span is its whole seconds and its nanoseconds together, within rounding.
pub proof fn spans_are_in_seconds(d: Duration)
    requires
        d.secs < 0x10_0000_0000_0000,
        d.nanos < 1_000_000_000,
    ensures
        near(
            d.as_secs(),
            (d.secs * 1_000_000_000 + d.nanos) * pow2(1074),
            1_000_000_000,
            2,
        ),
{
    let h = pow2(1074) as int;
    lemma_pow2_pos(1074);
    let g = Double::whole(1_000_000_000);
    let n = Double::whole(d.nanos as u64);
    let s = Double::whole(d.secs);
    whole_is_tame(1_000_000_000);
    whole_is_tame(d.nanos as u64);
    whole_is_tame(d.secs);
    let gh = 1_000_000_000 * h;
    let nh = d.nanos * h;
    assert(gh > 0);
    crate::approx::near_over(n, 53, nh, 1, 0, g, 53, gh, 1, 0);
    let part = n.over(g);
    assert((nh * 1 * h) * 1_000_000_000 == nh * (1 * gh)) by (nonlinear_arith)
        requires
            gh == 1_000_000_000 * h,
    ;
    near_rescaled(part, nh * 1 * h, 1 * gh, 1, nh, 1_000_000_000);
    let sh = d.secs * h;
    assert(sh >= 0 && nh >= 0) by (nonlinear_arith)
        requires
            sh == d.secs * h,
            nh == d.nanos * h,
            h > 0,
            d.secs >= 0,
            d.nanos >= 0,
    ;
    near_grows(s, sh, 1, 0, 1);
    tame_grows(s, 53, 106);
    tame_plus(s, part, 106);
    near_plus(s, sh, 1, part, nh, 1_000_000_000, 1);
    assert((d.secs * 1_000_000_000 + d.nanos) * h == sh * 1_000_000_000 + nh * 1)
        by (nonlinear_arith)
        requires
            sh == d.secs * h,
            nh == d.nanos * h,
    ;
    assert(1 * 1_000_000_000 == 1_000_000_000);
}

/// The length of a step is its whole milliseconds, within rounding; a negative step has none. A
/// step is coarse from five minutes on.
pub proof fn steps_are_in_milliseconds(t: TimeStep, millis: int)
    requires
        t.wf(),
        0 <= millis < P53,
        millis * 1_000_000 <= t.total_nanos() < (millis + 1) * 1_000_000,
    ensures
        near(t.length_s(), millis * pow2(1074), 1000, 1),
        t.is_coarse() <==> millis >= 300_000,
{
    let h = pow2(1074) as int;
    lemma_pow2_pos(1074);
    let n = t.total_nanos();
    assert(n / 1_000_000 == millis);
    let x = Double::whole(millis as u64);
    let k = Double::whole(1000);
    whole_is_tame(millis as u64);
    whole_is_tame(1000);
    let mh = millis * h;
    crate::approx::near_over(x, 53, mh, 1, 0, k, 53, 1000 * h, 1, 0);
    assert((mh * 1 * h) * 1000 == mh * (1 * (1000 * h))) by (nonlinear_arith);
    near_rescaled(x.over(k), mh * 1 * h, 1 * (1000 * h), 1, mh, 1000);
}

/// A negative step takes no time, and is not coarse.
pub proof fn negative_steps_take_no_time(t: TimeStep)
    requires
        t.wf(),
        t.total_nanos() < 0,
    ensures
        t.length_s().units() == 0,
        !t.is_coarse(),
{
    let h = pow2(1074) as int;
    lemma_pow2_pos(1074);
    one_is_tame();
    whole_is_tame(0);
    whole_is_tame(1000);
    assert(0 * pow2(1074) == 0);
    tame_over(Double::whole(0), 53, Double::whole(1000), 53);
    let r = Double::whole(0).over(Double::whole(1000));
    let u = r.units();
    assert(u * (1000 * h) == 0) by {
        let w = u * (1000 * h);
        assert(0 * h == 0);
        assert(crate::precision::size(w - 0) * crate::rounding::P52 <= 0);
    }
    assert(u == 0) by (nonlinear_arith)
        requires
            u * (1000 * h) == 0,
            h > 0,
    ;
}

} // verus!
