//! Laws of what runs with time: the clocks of a compressor, a demand response, a setpoint that
//! moves at a rate; and of what a step refuses.
use vstd::arithmetic::power2::*;
use vstd::prelude::*;

use crate::approx::{
    near, near_itself, near_times, one_is_tame, ratio_is_tame, tame, tame_grows, tame_minus,
    tame_plus, tame_sum, tame_units,
};
use crate::control_laws::ordinary;
use crate::double::Double;
use crate::error::{Fault, HaresError};
use crate::heat_pump_wh::HpState;
use crate::precision::{size, P50};
use crate::resistance::ResistanceState;
use crate::shared::{DemandResponse, ScheduleReadings};
use crate::tank::{TankModel, TemperedDrawConfig};
use crate::tankless::TanklessWH;
use crate::types::{EnvironmentState, PortContribution, ThermalCategory};

verus! {

// ---------------------------------------------------------------------------
// Clocks
// ---------------------------------------------------------------------------

/// The clock of a compressor that runs, or of one that rests, counts the time of the step on top
/// of what it had; the other one stops. Nothing else changes.
pub proof fn compressor_clocks_count(s: HpState, dt_s: Double)
    requires
        ordinary(dt_s),
        s.compressor_on_since_s is Some ==> ordinary(s.compressor_on_since_s->0),
        s.compressor_off_since_s is Some ==> ordinary(s.compressor_off_since_s->0),
    ensures
        ({
            let after = s.timed(dt_s);
            let on = match s.compressor_on_since_s {
                Some(t) => t.units(),
                None => 0,
            };
            let off = match s.compressor_off_since_s {
                Some(t) => t.units(),
                None => 0,
            };
            &&& after == (HpState {
                compressor_on_since_s: after.compressor_on_since_s,
                compressor_off_since_s: after.compressor_off_since_s,
                ..s
            })
            &&& s.compressor_on ==> {
                &&& after.compressor_on_since_s is Some
                &&& near(after.compressor_on_since_s->0, on + dt_s.units(), 1, 1)
                &&& after.compressor_off_since_s is None
            }
            &&& !s.compressor_on ==> {
                &&& after.compressor_off_since_s is Some
                &&& near(after.compressor_off_since_s->0, off + dt_s.units(), 1, 1)
                &&& after.compressor_on_since_s is None
            }
        }),
{
    one_is_tame();
    tame_grows(Double::zero(), 0, 40);
    tame_sum(Double::zero(), dt_s, 40);
    if let Some(t) = s.compressor_on_since_s {
        tame_sum(t, dt_s, 40);
    }
    if let Some(t) = s.compressor_off_since_s {
        tame_sum(t, dt_s, 40);
    }
}

/// A compressor that rests may start again once its clock has reached its least time of rest,
/// and one that runs may stop once its clock has reached its least time of running.
pub proof fn clocks_run_out(since_s: Double, time_s: Double)
    requires
        since_s.is_finite(),
        time_s.is_finite(),
    ensures
        crate::heat_pump_wh::elapsed(Some(since_s), time_s) <==> since_s.units() >= time_s.units(),
        crate::heat_pump_wh::elapsed(None, time_s),
{
    crate::double_laws::order_agrees_with_value(time_s, since_s);
}

/// What is left of the time of a demand response falls by the time of the step; once none is
/// left operation is normal. One without a time goes on.
pub proof fn demand_responses_count_down(dr: DemandResponse, dt_s: Double)
    requires
        tame(dt_s, 40),
        dr.duration_remaining_s is Some ==> tame(dr.duration_remaining_s->0, 40),
    ensures
        ({
            let after = dr.after(dt_s);
            match dr.duration_remaining_s {
                None => after == dr,
                Some(left) => if left.units() <= dt_s.units() {
                    after == DemandResponse::normal()
                } else {
                    &&& after == (DemandResponse {
                        duration_remaining_s: after.duration_remaining_s,
                        ..dr
                    })
                    &&& after.duration_remaining_s is Some
                    &&& near(
                        after.duration_remaining_s->0,
                        left.units() - dt_s.units(),
                        1,
                        1,
                    )
                },
            }
        }),
{
    one_is_tame();
    if let Some(left) = dr.duration_remaining_s {
        tame_minus(left, dt_s, 40);
        let next = left.minus(dt_s);
        let exact = left.units() - dt_s.units();
        crate::double_laws::order_agrees_with_value(next, Double::zero());
        assert(size(next.units() * 1 - exact) * P50 <= 1 * size(exact));
    }
}

/// How far a setpoint moves in a step: to its target, where that is within reach, else by the
/// rate times the time towards it.
pub open spec fn moves_towards(before: Double, target: Double, reach: Double, after: Double) -> bool {
    let low = before.minus(reach);
    let high = before.plus(reach);
    &&& low.units() <= target.units() <= high.units() ==> after == target
    &&& target.units() > high.units() ==> after == high
    &&& target.units() < low.units() ==> after == low
}

/// A setpoint that moves at a rate moves towards its target by no more than the rate times the
/// time of the step; one that does not stays. The time of a demand response runs on beside it.
pub proof fn setpoints_move_at_their_rate(
    r: ResistanceState,
    hp: HpState,
    dt_s: Double,
    rate: Double,
)
    requires
        ordinary(dt_s),
        ordinary(rate),
        r.setpoint_ramp_rate_c_per_s == Some(rate),
        hp.setpoint_ramp_rate_c_per_s == Some(rate),
        tame(r.setpoint_c, 40),
        tame(r.target_setpoint_c, 40),
        tame(hp.setpoint_c, 40),
        tame(hp.target_setpoint_c, 40),
    ensures
        exists|reach: Double|
            #![trigger r.setpoint_c.plus(reach)]
            {
                &&& near(reach, rate.units() * dt_s.units(), pow2(1074) as int, 1)
                &&& moves_towards(
                    r.setpoint_c,
                    r.target_setpoint_c,
                    reach,
                    r.later(dt_s).setpoint_c,
                )
                &&& moves_towards(
                    hp.setpoint_c,
                    hp.target_setpoint_c,
                    reach,
                    hp.later(dt_s).setpoint_c,
                )
            },
        r.later(dt_s) == (ResistanceState {
            setpoint_c: r.later(dt_s).setpoint_c,
            dr: r.dr.after(dt_s),
            ..r
        }),
        hp.later(dt_s) == (HpState {
            setpoint_c: hp.later(dt_s).setpoint_c,
            dr: hp.dr.after(dt_s),
            ..hp
        }),
{
    let reach = rate.times(dt_s);
    tame_units(rate, 40);
    tame_units(dt_s, 40);
    near_itself(rate);
    near_itself(dt_s);
    near_times(rate, 40, rate.units(), 1, 0, dt_s, 40, dt_s.units(), 1, 0);
    assert(1 * 1 * pow2(1074) == pow2(1074));
    assert(rate.units() * dt_s.units() >= 0) by (nonlinear_arith)
        requires
            rate.units() >= 0,
            dt_s.units() >= 0,
    ;
    crate::approx::near_sign(reach, rate.units() * dt_s.units(), pow2(1074) as int, 1);
    lemma_clamped_move(r.setpoint_c, r.target_setpoint_c, reach);
    lemma_clamped_move(hp.setpoint_c, hp.target_setpoint_c, reach);
    let high = r.setpoint_c.plus(reach);
}

proof fn lemma_clamped_move(before: Double, target: Double, reach: Double)
    requires
        tame(before, 40),
        tame(target, 40),
        tame(reach, 80),
        0 <= reach.units(),
    ensures
        moves_towards(
            before,
            target,
            reach,
            target.clamp(before.minus(reach), before.plus(reach)),
        ),
{
    one_is_tame();
    tame_units(before, 40);
    tame_units(reach, 80);
    crate::double_laws::order_agrees_with_value(Double::zero(), reach);
    crate::double_laws::steps_are_ordered(before, reach);
    tame_grows(before, 40, 80);
    tame_plus(before, reach, 80);
    tame_minus(before, reach, 80);
    tame_units(target, 40);
    let low = before.minus(reach);
    let high = before.plus(reach);
    crate::double_laws::order_agrees_with_value(target, low);
    crate::double_laws::order_agrees_with_value(high, target);
    crate::double_laws::order_agrees_with_value(high, low);
    crate::double_laws::order_agrees_with_value(low, before);
    crate::double_laws::order_agrees_with_value(before, high);
}

/// A setpoint without a rate stays where it is.
pub proof fn setpoints_without_a_rate_stay(r: ResistanceState, hp: HpState, dt_s: Double)
    requires
        r.setpoint_ramp_rate_c_per_s is None,
        hp.setpoint_ramp_rate_c_per_s is None,
    ensures
        r.later(dt_s) == (ResistanceState { dr: r.dr.after(dt_s), ..r }),
        hp.later(dt_s) == (HpState { dr: hp.dr.after(dt_s), ..hp }),
{
}

// ---------------------------------------------------------------------------
// Inputs
// ---------------------------------------------------------------------------

/// The inlet of a tankless heater is as warm as scheduled, or as published, or as the weather
/// has it, or as configured: the first of these that is a finite number.
pub proof fn inlets_are_as_warm_as_known(
    heater: &TanklessWH,
    env: &EnvironmentState,
    readings: ScheduleReadings,
)
    ensures
        ({
            let (inlet_c, draw_kg_s) = heater.step_inputs(env, readings);
            let weather_c = match env.mains_temp_c {
                Some(v) if v.is_finite() => v,
                _ => heater.state.inlet_temp_c,
            };
            &&& readings.mains_temp_c is Some && readings.mains_temp_c->0.is_finite() ==> inlet_c
                == readings.mains_temp_c->0
            &&& readings.mains_temp_c is None ==> inlet_c == crate::shared::mains_temp(
                env,
                weather_c,
            )
        }),
{
}

/// What a tank loses through its skin goes to its zone in full, from a milliwatt on; nothing goes
/// to no zone.
pub proof fn jacket_losses_reach_the_zone(zone: u16, loss_w: Double)
    requires
        tame(loss_w, 400),
    ensures
        1_000_000 * loss_w.units() >= 1001 * pow2(1074) ==> crate::storage::jacket_loss(
            Some(zone),
            loss_w,
        ) == Some(
            PortContribution::Thermal {
                zone,
                sensible_gain_w: loss_w,
                latent_gain_w: Double::zero(),
                category: ThermalCategory::JacketLoss,
            },
        ),
        0 <= loss_w.units() && 1_000_000 * loss_w.units() <= 999 * pow2(1074)
            ==> crate::storage::jacket_loss(Some(zone), loss_w) is None,
        crate::storage::jacket_loss(None, loss_w) is None,
{
    let h = pow2(1074) as int;
    lemma_pow2_pos(1074);
    tame_units(loss_w, 400);
    ratio_is_tame(1, 1000);
    let least = Double::ratio(1, 1000);
    tame_units(least, 53);
    assert(1 * pow2(1074) == h);
    assert(size(least.units() * 1000 - h) * P50 <= 1 * size(h));
    if 0 <= loss_w.units() {
        crate::double_laws::lemma_units_zero();
        assert(loss_w.abs().units() == loss_w.units()) by {
            crate::double_laws::lemma_signed_mag(loss_w.mag());
        }
        crate::double_laws::order_agrees_with_value(least, loss_w.abs());
    }
}

// ---------------------------------------------------------------------------
// Refusals
// ---------------------------------------------------------------------------

/// A step refuses surroundings or mains water whose temperature is no finite number, a draw that
/// is negative or no finite number, and one of more water than there is, in this order, and
/// leaves the tank as it was. It refuses nothing else before it begins.
pub proof fn steps_refuse_what_cannot_be(
    tank: TankModel,
    ambient_c: Double,
    draw_m3: Double,
    mains_c: Double,
    injections: Seq<(usize, Double)>,
    seconds: Double,
)
    requires
        tank.total_volume_m3.is_finite(),
    ensures
        ({
            let (after, result) = tank.stepped(ambient_c, draw_m3, mains_c, injections, seconds);
            let refused = |fault: Fault|
                result == Err::<crate::tank::DrawResult, HaresError>(HaresError::Equipment(fault))
                    && after == tank;
            if !ambient_c.is_finite() {
                refused(Fault::NotFinite { field: "ambient_temp_c", index: None })
            } else if !mains_c.is_finite() {
                refused(Fault::NotFinite { field: "mains_temp_c", index: None })
            } else if !draw_m3.is_finite() || draw_m3.units() < 0 {
                refused(
                    Fault::Negative { field: "draw_volume_m3", index: None, value: draw_m3 },
                )
            } else if draw_m3.units() > tank.total_volume_m3.units() {
                refused(
                    Fault::DrawExceedsTank {
                        draw_volume_m3: draw_m3,
                        total_volume_m3: tank.total_volume_m3,
                    },
                )
            } else {
                injections.len() == 0 ==> result is Ok
            }
        }),
{
    one_is_tame();
    if draw_m3.is_finite() {
        crate::double_laws::order_agrees_with_value(Double::zero(), draw_m3);
        crate::double_laws::order_agrees_with_value(tank.total_volume_m3, draw_m3);
    }
}

/// A step with a mixing valve refuses the same, and flows that are negative or no finite numbers;
/// but a draw of more water than there is takes all there is.
pub proof fn tempered_steps_refuse_what_cannot_be(
    tank: TankModel,
    ambient_c: Double,
    tempered: Double,
    hot: Double,
    mains_c: Double,
    injections: Seq<(usize, Double)>,
    tmv: TemperedDrawConfig,
    seconds: Double,
)
    ensures
        ({
            let (after, result) = tank.stepped_tempered(
                ambient_c,
                tempered,
                hot,
                mains_c,
                injections,
                tmv,
                seconds,
            );
            let refused = |fault: Fault|
                result == Err::<crate::tank::DrawResult, HaresError>(HaresError::Equipment(fault))
                    && after == tank;
            if !ambient_c.is_finite() {
                refused(Fault::NotFinite { field: "ambient_temp_c", index: None })
            } else if !mains_c.is_finite() {
                refused(Fault::NotFinite { field: "mains_temp_c", index: None })
            } else if !tempered.is_finite() || tempered.units() < 0 {
                refused(
                    Fault::Negative { field: "tempered_flow_m3_s", index: None, value: tempered },
                )
            } else if !hot.is_finite() || hot.units() < 0 {
                refused(Fault::Negative { field: "hot_flow_m3_s", index: None, value: hot })
            } else {
                injections.len() == 0 ==> result is Ok
            }
        }),
{
    one_is_tame();
    if tempered.is_finite() {
        crate::double_laws::order_agrees_with_value(Double::zero(), tempered);
    }
    if hot.is_finite() {
        crate::double_laws::order_agrees_with_value(Double::zero(), hot);
    }
}

} // verus!
