//! Laws of what a tankless heater delivers, and of what it takes for that.
use vstd::arithmetic::power2::*;
use vstd::prelude::*;

use crate::approx::{
    near, near_itself, near_min, near_sign, one_is_tame, tame, tame_minus, tame_sum, tame_units,
    whole_is_tame, MOST,
};
use crate::control_laws::{is_share, lemma_shares, ordinary, over_more, times_more, whole_units};
use crate::double::Double;
use crate::products::{about, about_grows, about_itself, about_one, about_times, product, scale};
use crate::shared::ScheduleReadings;
use crate::tankless::{TanklessDelivery, TanklessOutside, TanklessState, TanklessWH};
use crate::time::Duration;
use crate::types::{
    ActivePower, EnvironmentState, FluidAccumulator, FuelPower, FuelType, OperatingMode,
    PortContribution,
};

verus! {

// ---------------------------------------------------------------------------
// Input
// ---------------------------------------------------------------------------

/// What an electric tankless unit takes in a step is all electric power: its thermal output
/// over its efficiency, so no less than the heat where the efficiency is at most one.
pub proof fn electric_units_take_power(
    heater: &TanklessWH,
    env: &EnvironmentState,
    mode: OperatingMode,
    outside: TanklessOutside,
    fluid: Seq<FluidAccumulator>,
    readings: ScheduleReadings,
    dt: Duration,
)
    requires
        heater.state.fuel_type == FuelType::Electric,
    ensures
        ({
            let d = heater.step_delivery(env, mode, outside, fluid, readings, dt);
            let efficiency = heater.state.efficiency_factor;
            &&& d.electric_w == d.fuel_input_w
            &&& d.electric_w == d.thermal_output_w.over(efficiency)
            &&& tame(d.thermal_output_w, 400) && tame(efficiency, 40) && 0 < efficiency.units()
                ==> about(
                d.electric_w,
                seq![d.thermal_output_w.units()],
                seq![efficiency.units()],
                1,
            )
            &&& d.thermal_output_w.is_finite() && d.electric_w.is_finite() && 0
                <= d.thermal_output_w.units() && 0 < efficiency.units() <= pow2(1074)
                && efficiency.is_finite() ==> d.electric_w.units() >= d.thermal_output_w.units()
        }),
{
    let d = heater.step_delivery(env, mode, outside, fluid, readings, dt);
    let efficiency = heater.state.efficiency_factor;
    lemma_input(d.thermal_output_w, efficiency);
}

/// What a unit that burns fuel takes in a step: its thermal output over its efficiency as
/// fuel, and the power of its ignition controller while its bus is energized.
pub proof fn fuel_units_take_fuel(
    heater: &TanklessWH,
    env: &EnvironmentState,
    mode: OperatingMode,
    outside: TanklessOutside,
    fluid: Seq<FluidAccumulator>,
    readings: ScheduleReadings,
    dt: Duration,
)
    requires
        heater.state.fuel_type != FuelType::Electric,
    ensures
        ({
            let d = heater.step_delivery(env, mode, outside, fluid, readings, dt);
            let efficiency = heater.state.efficiency_factor;
            &&& d.electric_w == (if env.bus_energized {
                heater.state.parasitic_power_w
            } else {
                Double::zero()
            })
            &&& tame(d.thermal_output_w, 400) && tame(efficiency, 40) && 0 < efficiency.units()
                ==> about(
                d.fuel_input_w,
                seq![d.thermal_output_w.units()],
                seq![efficiency.units()],
                1,
            )
            &&& d.thermal_output_w.is_finite() && d.fuel_input_w.is_finite() && 0
                <= d.thermal_output_w.units() && 0 < efficiency.units() <= pow2(1074)
                && efficiency.is_finite() ==> d.fuel_input_w.units()
                >= d.thermal_output_w.units()
        }),
{
    let d = heater.step_delivery(env, mode, outside, fluid, readings, dt);
    lemma_input(d.thermal_output_w, heater.state.efficiency_factor);
}

proof fn lemma_input(output: Double, efficiency: Double)
    ensures
        tame(output, 400) && tame(efficiency, 40) && 0 < efficiency.units() ==> about(
            output.over(efficiency),
            seq![output.units()],
            seq![efficiency.units()],
            1,
        ),
        output.is_finite() && output.over(efficiency).is_finite() && 0 <= output.units() && 0
            < efficiency.units() <= pow2(1074) && efficiency.is_finite() ==> output.over(
            efficiency,
        ).units() >= output.units(),
{
    if tame(output, 400) && tame(efficiency, 40) && 0 < efficiency.units() {
        tame_units(output, 400);
        tame_units(efficiency, 40);
        about_itself(output);
        near_itself(efficiency);
        over_more(
            output,
            400,
            seq![output.units()],
            seq![],
            0,
            efficiency,
            40,
            efficiency.units(),
            0,
        );
        assert(Seq::<int>::empty().push(efficiency.units()) =~= seq![efficiency.units()]);
    }
    if output.is_finite() && output.over(efficiency).is_finite() && 0 <= output.units() && 0
        < efficiency.units() <= pow2(1074) && efficiency.is_finite() {
        reveal(Double::spec_over);
        crate::double_laws::lemma_units_zero();
        let h = pow2(1074);
        let ux = crate::rounding::mag_units(output.mag());
        let uy = crate::rounding::mag_units(efficiency.mag());
        assert(ux * uy <= (ux * h) * 1) by (nonlinear_arith)
            requires
                uy <= h,
                ux >= 0,
        ;
        crate::double_laws::rounding_is_monotone(ux, 1, ux * h, uy);
        crate::double_laws::rounding_inverts_decoding(output.mag(), 1);
        assert(ux * 1 == ux);
        let m = crate::rounding::round_mag(ux * h, uy);
        crate::double_laws::lemma_signed_mag(m);
        crate::double_laws::lemma_mag_units_le(output.mag(), m);
        if output.mag() > 0 {
            crate::magnitude::lemma_mag_units_increase(0, output.mag());
        } else {
            assert(ux * h == 0) by (nonlinear_arith)
                requires
                    ux == 0,
            ;
            crate::magnitude::lemma_round_mag_zero(uy);
            crate::double_laws::lemma_signed_mag(0);
        }
    }
}

/// The ports and the report of an electric unit carry the power of a delivery, and no fuel.
pub proof fn electric_power_is_reported(
    heater: &TanklessWH,
    d: TanklessDelivery,
    reactive_kvar: Double,
    reported_mode: OperatingMode,
)
    requires
        heater.state.fuel_type == FuelType::Electric,
        tame(d.electric_w, 400),
        0 < d.electric_w.units(),
    ensures
        heater.step_contributions(d, reactive_kvar) == seq![
            PortContribution::Electrical {
                active_power: ActivePower::Watts(d.electric_w),
                reactive_power_kvar: reactive_kvar,
            },
        ],
        ({
            let report = heater.state.finished(d, reactive_kvar, reported_mode).core_output;
            &&& report.electric_kw is Some
            &&& about(
                report.electric_kw->0,
                seq![d.electric_w.units()],
                seq![whole_units(1000)],
                1,
            )
            &&& report.fuel is None
            &&& report.reactive_power_kvar == Some(reactive_kvar)
        }),
{
    lemma_reported_power(d.electric_w);
    one_is_tame();
    tame_units(d.electric_w, 400);
    crate::double_laws::order_agrees_with_value(Double::zero(), d.electric_w);
}

/// A power in kilowatts is a thousandth of that in watts.
pub proof fn lemma_reported_power(power_w: Double)
    requires
        tame(power_w, 400),
        0 <= power_w.units(),
    ensures
        about(
            power_w.over(Double::whole(1000)).max(Double::zero()),
            seq![power_w.units()],
            seq![whole_units(1000)],
            1,
        ),
        about(
            power_w.over(Double::whole(1000)),
            seq![power_w.units()],
            seq![whole_units(1000)],
            1,
        ),
{
    let h = pow2(1074) as int;
    lemma_pow2_pos(1074);
    whole_is_tame(1000);
    tame_units(power_w, 400);
    about_itself(power_w);
    over_more(power_w, 400, seq![power_w.units()], seq![], 0, Double::whole(1000), 53, 1000 * h, 0);
    assert(Seq::<int>::empty().push(1000 * h) =~= seq![1000 * h]);
    let kw = power_w.over(Double::whole(1000));
    crate::products::lemma_product_one(power_w.units());
    crate::products::lemma_product_one(1000 * h);
    crate::products::lemma_scale(1, 1);
    crate::products::lemma_scale(2, 0);
    let p = power_w.units() * scale(2);
    assert(p >= 0) by (nonlinear_arith)
        requires
            p == power_w.units() * scale(2),
            power_w.units() >= 0,
            scale(2) > 0,
    ;
    assert(seq![1000 * h].len() == 1 && seq![power_w.units()].len() == 1);
    near_sign(kw, p, (1000 * h) * scale(1), 1);
    one_is_tame();
    crate::double_laws::order_agrees_with_value(kw, Double::zero());
}

/// The ports and the report of a unit that burns fuel carry the fuel of a delivery and the
/// power of the ignition controller.
pub proof fn fuel_is_reported(
    heater: &TanklessWH,
    d: TanklessDelivery,
    reactive_kvar: Double,
    reported_mode: OperatingMode,
)
    requires
        heater.state.fuel_type != FuelType::Electric,
        d.fuel_input_w.is_finite(),
        0 < d.fuel_input_w.units(),
        tame(d.electric_w, 400),
        0 <= d.electric_w.units(),
    ensures
        heater.step_contributions(d, reactive_kvar) == seq![
            PortContribution::Fuel {
                fuel_type: heater.state.fuel_type,
                consumption_w: d.fuel_input_w,
            },
            PortContribution::Electrical {
                active_power: ActivePower::Watts(d.electric_w),
                reactive_power_kvar: reactive_kvar,
            },
        ],
        ({
            let report = heater.state.finished(d, reactive_kvar, reported_mode).core_output;
            &&& report.fuel == Some(
                FuelPower { fuel_type: heater.state.fuel_type, consumption_w: d.fuel_input_w },
            )
            &&& report.electric_kw is Some
            &&& about(
                report.electric_kw->0,
                seq![d.electric_w.units()],
                seq![whole_units(1000)],
                1,
            )
        }),
{
    lemma_reported_power(d.electric_w);
    one_is_tame();
    crate::double_laws::order_agrees_with_value(Double::zero(), d.fuel_input_w);
    crate::double_laws::order_agrees_with_value(d.fuel_input_w, Double::zero());
    assert(heater.step_contributions(d, reactive_kvar) =~= seq![
        PortContribution::Fuel {
            fuel_type: heater.state.fuel_type,
            consumption_w: d.fuel_input_w,
        },
        PortContribution::Electrical {
            active_power: ActivePower::Watts(d.electric_w),
            reactive_power_kvar: reactive_kvar,
        },
    ]);
}

// ---------------------------------------------------------------------------
// Output
// ---------------------------------------------------------------------------

/// The flow that appliances ask for: that of the first loop for it, if there is one.
pub open spec fn asks_for(fluid: Seq<FluidAccumulator>, flow_kg_s: Double) -> bool {
    ||| {
        &&& flow_kg_s == Double::zero()
        &&& forall|i: int|
            0 <= i < fluid.len() ==> #[trigger] fluid[i].loop_id != crate::shared::DHW_DEMAND_LOOP
    }
    ||| exists|first: int|
        #![trigger fluid[first]]
        {
            &&& 0 <= first < fluid.len()
            &&& fluid[first].loop_id == crate::shared::DHW_DEMAND_LOOP
            &&& fluid[first].total_flow_kg_s == flow_kg_s
            &&& forall|i: int|
                0 <= i < first ==> #[trigger] fluid[i].loop_id
                    != crate::shared::DHW_DEMAND_LOOP
        }
}

proof fn lemma_first_loop(fluid: Seq<FluidAccumulator>, from: int, first: int)
    requires
        0 <= from <= first <= fluid.len(),
        forall|i: int|
            from <= i < first ==> #[trigger] fluid[i].loop_id != crate::shared::DHW_DEMAND_LOOP,
        first < fluid.len() ==> fluid[first].loop_id == crate::shared::DHW_DEMAND_LOOP,
    ensures
        crate::shared::loop_at(fluid, crate::shared::DHW_DEMAND_LOOP, from) == (if first
            < fluid.len() {
            Some(fluid[first])
        } else {
            None
        }),
    decreases first - from,
{
    if from < first {
        lemma_first_loop(fluid, from + 1, first);
    }
}

/// What appliances ask for is what a step finds.
pub proof fn lemma_asked(fluid: Seq<FluidAccumulator>, flow_kg_s: Double)
    requires
        asks_for(fluid, flow_kg_s),
        ordinary(flow_kg_s),
    ensures
        crate::shared::dhw_demand(fluid) == flow_kg_s,
{
    one_is_tame();
    tame_units(flow_kg_s, 40);
    crate::double_laws::order_agrees_with_value(flow_kg_s, Double::zero());
    if forall|i: int|
        0 <= i < fluid.len() ==> #[trigger] fluid[i].loop_id != crate::shared::DHW_DEMAND_LOOP {
        lemma_first_loop(fluid, 0, fluid.len() as int);
    } else {
        let first = choose|first: int|
            #![trigger fluid[first]]
            {
                &&& 0 <= first < fluid.len()
                &&& fluid[first].loop_id == crate::shared::DHW_DEMAND_LOOP
                &&& fluid[first].total_flow_kg_s == flow_kg_s
                &&& forall|i: int|
                    0 <= i < first ==> #[trigger] fluid[i].loop_id
                        != crate::shared::DHW_DEMAND_LOOP
            };
        lemma_first_loop(fluid, 0, first);
    }
}

/// The flow that is scheduled, or else configured.
pub open spec fn is_scheduled(
    readings: ScheduleReadings,
    configured_kg_s: Double,
    flow_kg_s: Double,
) -> bool {
    match readings.draw_rate_kg_s {
        Some(v) => flow_kg_s == v,
        None => flow_kg_s == configured_kg_s,
    }
}

/// The draw of a step is the scheduled flow and what appliances ask for, together, and the
/// water drawn is that flow over the step.
pub proof fn tankless_draws_add_up(
    heater: &TanklessWH,
    env: &EnvironmentState,
    mode: OperatingMode,
    outside: TanklessOutside,
    fluid: Seq<FluidAccumulator>,
    readings: ScheduleReadings,
    dt: Duration,
    scheduled: Double,
    asked: Double,
)
    requires
        is_scheduled(readings, heater.state.draw_flow_rate_kg_s, scheduled),
        asks_for(fluid, asked),
        ordinary(scheduled),
        ordinary(asked),
        ordinary(dt.as_secs()),
        ordinary(outside.water_density_kg_m3),
        0 < outside.water_density_kg_m3.units(),
    ensures
        ({
            let d = heater.step_delivery(env, mode, outside, fluid, readings, dt);
            &&& near(d.total_draw_kg_s, scheduled.units() + asked.units(), 1, 1)
            &&& about(
                d.draw_volume_l,
                seq![
                    scheduled.units() + asked.units(),
                    dt.as_secs().units(),
                    whole_units(1000),
                ],
                seq![outside.water_density_kg_m3.units()],
                4,
            )
        }),
{
    lemma_total_draw(fluid, readings, heater.state.draw_flow_rate_kg_s, scheduled, asked);
    let h = pow2(1074) as int;
    let total = scheduled.plus(asked);
    let flow = scheduled.units() + asked.units();
    let secs = dt.as_secs();
    let density = outside.water_density_kg_m3;
    tame_units(secs, 40);
    tame_units(density, 40);
    about_one(total, flow, 1);
    near_itself(secs);
    near_itself(density);
    whole_is_tame(1000);
    times_more(total, 41, seq![flow], seq![], 1, secs, 40, secs.units(), 0);
    assert(seq![flow].push(secs.units()) =~= seq![flow, secs.units()]);
    let mass = total.times(secs);
    over_more(mass, 81, seq![flow, secs.units()], seq![], 2, density, 40, density.units(), 0);
    assert(Seq::<int>::empty().push(density.units()) =~= seq![density.units()]);
    times_more(
        mass.over(density),
        121,
        seq![flow, secs.units()],
        seq![density.units()],
        3,
        Double::whole(1000),
        53,
        1000 * h,
        0,
    );
    assert(seq![flow, secs.units()].push(1000 * h) =~= seq![flow, secs.units(), 1000 * h]);
}

/// The draw of a step.
pub proof fn lemma_total_draw(
    fluid: Seq<FluidAccumulator>,
    readings: ScheduleReadings,
    configured_kg_s: Double,
    scheduled: Double,
    asked: Double,
)
    requires
        is_scheduled(readings, configured_kg_s, scheduled),
        asks_for(fluid, asked),
        ordinary(scheduled),
        ordinary(asked),
    ensures
        crate::shared::dhw_demand(fluid) == asked,
        (match crate::shared::if_finite(readings.draw_rate_kg_s) {
            Some(v) => v.max(Double::zero()),
            None => configured_kg_s,
        }) == scheduled,
        tame(scheduled.plus(asked), 41),
        near(scheduled.plus(asked), scheduled.units() + asked.units(), 1, 1),
        0 <= scheduled.plus(asked).units(),
{
    lemma_asked(fluid, asked);
    one_is_tame();
    tame_units(scheduled, 40);
    crate::double_laws::order_agrees_with_value(scheduled, Double::zero());
    tame_sum(scheduled, asked, 40);
    near_sign(scheduled.plus(asked), scheduled.units() + asked.units(), 1, 1);
}

/// What a heater that fires gives to the water: what warms the draw to the setpoint, but no
/// more than its rated power, at the share of its power at which controllers let it run.
///
/// Within its capacity the water leaves at the setpoint. Beyond it the water leaves as much
/// warmer than it came as the rated power makes it.
pub proof fn tankless_heats_its_draw(
    heater: &TanklessWH,
    env: &EnvironmentState,
    outside: TanklessOutside,
    fluid: Seq<FluidAccumulator>,
    readings: ScheduleReadings,
    dt: Duration,
    scheduled: Double,
    asked: Double,
    inlet_c: Double,
)
    requires
        is_scheduled(readings, heater.state.draw_flow_rate_kg_s, scheduled),
        asks_for(fluid, asked),
        readings.mains_temp_c == Some(inlet_c),
        ordinary(scheduled),
        ordinary(asked),
        tame(inlet_c, 40),
        tame(heater.state.setpoint_c.plus(heater.state.dr.setpoint_offset_c), 40),
        // The sum of the setpoint and what the grid asks for needs no rounding.
        heater.state.setpoint_c.plus(heater.state.dr.setpoint_offset_c).units()
            == heater.state.setpoint_c.units() + heater.state.dr.setpoint_offset_c.units(),
        inlet_c.units() <= heater.state.setpoint_c.units()
            + heater.state.dr.setpoint_offset_c.units(),
        is_share(heater.state.duty_cycle),
        is_share(heater.state.dr.load_fraction),
        is_share(heater.state.ctrl_load_fraction),
        ordinary(outside.cp_j_kg_k),
        0 < outside.cp_j_kg_k.units(),
        ordinary(heater.state.rated_thermal_power_w),
        heater.state.power_limit_w is None,
        scheduled.plus(asked).gt(heater.state.min_flow_kg_s),
        0 < scheduled.units() + asked.units(),
    ensures
        ({
            let s = heater.state;
            let d = heater.step_delivery(
                env,
                OperatingMode::Heating,
                outside,
                fluid,
                readings,
                dt,
            );
            let flow = scheduled.units() + asked.units();
            let cp = outside.cp_j_kg_k.units();
            let target = s.setpoint_c.units() + s.dr.setpoint_offset_c.units();
            let rise = target - inlet_c.units();
            let rated = s.rated_thermal_power_w.units();
            let run = seq![
                s.duty_cycle.units(),
                s.dr.load_fraction.units(),
                s.ctrl_load_fraction.units(),
            ];
            &&& d.inlet_temp_c == inlet_c
            &&& flow * cp * rise <= rated * scale(2) ==> about(
                d.thermal_output_w,
                seq![flow, cp, rise] + run,
                seq![],
                9,
            )
            &&& flow * cp * rise >= rated * scale(2) ==> about(
                d.thermal_output_w,
                seq![rated] + run,
                seq![],
                9,
            )
            &&& {
                ||| {
                    &&& d.outlet_temp_c.units() == target
                    &&& about(d.thermal_output_w, seq![flow, cp, rise] + run, seq![], 9)
                }
                ||| {
                    &&& about(d.thermal_output_w, seq![rated] + run, seq![], 9)
                    &&& exists|warmer: Double|
                        #![trigger inlet_c.plus(warmer)]
                        {
                            &&& d.outlet_temp_c == inlet_c.plus(warmer)
                            &&& about(warmer, seq![rated], seq![flow, cp], 3)
                        }
                }
            }
        }),
{
    let s = heater.state;
    let flow = scheduled.units() + asked.units();
    let cp = outside.cp_j_kg_k;
    let target_c = s.setpoint_c.plus(s.dr.setpoint_offset_c);
    let rise = target_c.units() - inlet_c.units();
    let rated = s.rated_thermal_power_w;
    let run = seq![s.duty_cycle.units(), s.dr.load_fraction.units(), s.ctrl_load_fraction.units()];
    let total = scheduled.plus(asked);
    lemma_total_draw(fluid, readings, s.draw_flow_rate_kg_s, scheduled, asked);
    tame_units(inlet_c, 40);
    tame_units(target_c, 40);
    tame_units(cp, 40);
    tame_units(rated, 40);
    one_is_tame();
    tame_minus(target_c, inlet_c, 40);
    let delta = target_c.minus(inlet_c);
    near_sign(delta, rise, 1, 1);
    crate::double_laws::order_agrees_with_value(delta, Double::zero());
    assert(delta.max(Double::zero()) == delta);
    about_one(total, flow, 1);
    near_itself(cp);
    times_more(total, 41, seq![flow], seq![], 1, cp, 40, cp.units(), 0);
    assert(seq![flow].push(cp.units()) =~= seq![flow, cp.units()]);
    let rate = total.times(cp);
    times_more(rate, 81, seq![flow, cp.units()], seq![], 2, delta, 92, rise, 1);
    assert(seq![flow, cp.units()].push(rise) =~= seq![flow, cp.units(), rise]);
    lemma_shares(s.duty_cycle, s.dr.load_fraction, s.ctrl_load_fraction);
    let duty = s.duty();
    about_times(
        rate.times(delta),
        173,
        seq![flow, cp.units(), rise],
        seq![],
        4,
        duty,
        120,
        run,
        seq![],
        2,
    );
    about_itself(rated);
    about_times(rated, 40, seq![rated.units()], seq![], 0, duty, 120, run, seq![], 2);
    assert(Seq::<int>::empty() + Seq::<int>::empty() =~= Seq::<int>::empty());
    let demand = rate.times(delta).times(duty);
    let capacity = rated.times(duty);
    let heat = seq![flow, cp.units(), rise] + run;
    let most = seq![rated.units()] + run;
    about_grows(demand, heat, seq![], 7, 9);
    about_grows(capacity, most, seq![], 3, 9);
    crate::double_laws::order_agrees_with_value(demand, capacity);
    crate::double_laws::order_agrees_with_value(capacity, demand);
    lemma_smaller_product(demand, flow, cp.units(), rise, capacity, rated.units(), run, 9);
    over_more_by_two(rated, total, cp, flow);
    let warmer = rated.over(rate);
    assert(about(warmer, seq![rated.units()], seq![flow, cp.units()], 3));
    let d = heater.step_delivery(env, OperatingMode::Heating, outside, fluid, readings, dt);
    if !demand.le(capacity) {
        assert(d.outlet_temp_c == inlet_c.plus(warmer));
    }
}

/// A number over a product.
proof fn over_more_by_two(x: Double, total: Double, y: Double, flow: int)
    requires
        ordinary(x),
        tame(total, 41),
        near(total, flow, 1, 1),
        0 < flow,
        ordinary(y),
        0 < y.units(),
    ensures
        about(x.over(total.times(y)), seq![x.units()], seq![flow, y.units()], 3),
{
    tame_units(x, 40);
    tame_units(y, 40);
    about_one(total, flow, 1);
    near_itself(y);
    times_more(total, 41, seq![flow], seq![], 1, y, 40, y.units(), 0);
    assert(seq![flow].push(y.units()) =~= seq![flow, y.units()]);
    about_itself(x);
    crate::control_laws::lemma_products(flow, y.units(), 0, 0);
    assert(flow * y.units() > 0) by (nonlinear_arith)
        requires
            flow > 0,
            y.units() > 0,
    ;
    crate::products::about_over(
        x,
        40,
        seq![x.units()],
        seq![],
        0,
        total.times(y),
        81,
        seq![flow, y.units()],
        seq![],
        2,
    );
    assert(seq![x.units()] + Seq::<int>::empty() =~= seq![x.units()]);
    assert(Seq::<int>::empty() + seq![flow, y.units()] =~= seq![flow, y.units()]);
}

/// The smaller of two products with a common part.
proof fn lemma_smaller_product(
    x: Double,
    a: int,
    b: int,
    c: int,
    y: Double,
    d: int,
    run: Seq<int>,
    e: int,
)
    requires
        about(x, seq![a, b, c] + run, seq![], e),
        about(y, seq![d] + run, seq![], e),
        0 <= a,
        0 <= b,
        0 <= c,
        0 <= d,
        run.len() == 3,
        forall|i: int| 0 <= i < run.len() ==> run[i] >= 0,
        0 <= e <= MOST,
    ensures
        a * b * c <= d * scale(2) ==> about(x.min(y), seq![a, b, c] + run, seq![], e),
        a * b * c >= d * scale(2) ==> about(x.min(y), seq![d] + run, seq![], e),
{
    let r = product(run);
    let f = a * b * c;
    crate::control_laws::lemma_products(a, b, c, 0);
    crate::control_laws::lemma_products(d, 0, 0, 0);
    crate::products::lemma_product_adds(seq![a, b, c], run);
    crate::products::lemma_product_adds(seq![d], run);
    crate::control_laws::lemma_product_not_negative(run);
    crate::products::lemma_scale(4, 2);
    crate::products::lemma_scale(2, 0);
    crate::products::lemma_scale(1, 0);
    assert((seq![a, b, c] + run).len() == 6 && (seq![d] + run).len() == 4);
    let h = scale(1);
    let p1 = (f * r) * h;
    let p2 = (d * r) * h;
    assert(f >= 0) by (nonlinear_arith)
        requires
            f == a * b * c,
            a >= 0,
            b >= 0,
            c >= 0,
    ;
    assert(p1 >= 0 && p2 >= 0) by (nonlinear_arith)
        requires
            p1 == (f * r) * h,
            p2 == (d * r) * h,
            f >= 0,
            d >= 0,
            r >= 0,
            h > 0,
    ;
    near_min(x, p1, 1 * scale(6), y, p2, 1 * scale(4), e);
    let t = r * h;
    let w = scale(4);
    assert(p1 * w == f * (t * w)) by (nonlinear_arith)
        requires
            p1 == (f * r) * h,
            t == r * h,
    ;
    let z = scale(2);
    assert(p2 * (w * z) == (d * z) * (t * w)) by (nonlinear_arith)
        requires
            p2 == (d * r) * h,
            t == r * h,
    ;
    let m = t * w;
    assert(m >= 0) by (nonlinear_arith)
        requires
            m == t * w,
            t == r * h,
            r >= 0,
            h > 0,
            w > 0,
    ;
    assert(f <= d * z ==> f * m <= (d * z) * m) by (nonlinear_arith)
        requires
            m >= 0,
    ;
    assert(f >= d * z ==> f * m >= (d * z) * m) by (nonlinear_arith)
        requires
            m >= 0,
    ;
    crate::products::lemma_product_one(0);
}

/// A tankless heater that is on but has too little flow to fire holds its water at the setpoint.
pub proof fn idle_heaters_hold_the_setpoint(
    s: TanklessState,
    draw_kg_s: Double,
    inlet_temp_c: Double,
    cp_j_kg_k: Double,
)
    requires
        draw_kg_s.is_finite(),
        s.min_flow_kg_s.is_finite(),
        draw_kg_s.units() <= s.min_flow_kg_s.units(),
        s.setpoint_c.is_finite(),
        s.dr.setpoint_offset_c.is_finite(),
        s.setpoint_c.plus(s.dr.setpoint_offset_c).is_finite(),
    ensures
        ({
            let (output_w, outlet_c) = s.output(
                OperatingMode::Heating,
                draw_kg_s,
                inlet_temp_c,
                cp_j_kg_k,
            );
            &&& output_w.units() == 0
            &&& near(outlet_c, s.setpoint_c.units() + s.dr.setpoint_offset_c.units(), 1, 1)
        }),
{
    crate::double_laws::lemma_units_zero();
    crate::double_laws::order_agrees_with_value(s.min_flow_kg_s, draw_kg_s);
    crate::approx::near_sum(s.setpoint_c, s.dr.setpoint_offset_c);
}

/// What a tankless heater records is what it delivered, and under which mode.
pub proof fn tankless_records_its_delivery(
    s: TanklessState,
    d: TanklessDelivery,
    reactive_kvar: Double,
    mode: OperatingMode,
)
    ensures
        ({
            let after = s.finished(d, reactive_kvar, mode);
            let recorded = after.telemetry;
            &&& recorded.outlet_temp_c == d.outlet_temp_c
            &&& recorded.thermal_output_w == d.thermal_output_w
            &&& recorded.fuel_input_w == d.fuel_input_w
            &&& recorded.draw_flow_rate_kg_s == d.total_draw_kg_s
            &&& recorded.reactive_power_kvar == reactive_kvar
            &&& mode == OperatingMode::Heating ==> recorded.operating_mode.units() == pow2(1074)
            &&& mode != OperatingMode::Heating ==> recorded.operating_mode.units() == 0
            &&& s.fuel_type == FuelType::Electric ==> recorded.parasitic_electric_w.units() == 0
            &&& s.fuel_type != FuelType::Electric && d.electric_w.is_finite() && 0
                <= d.electric_w.units() ==> recorded.parasitic_electric_w.units()
                == d.electric_w.units()
            &&& after.core_output.operating_mode == Some(mode)
            &&& after.core_output.reactive_power_kvar == Some(reactive_kvar)
        }),
{
    one_is_tame();
    if d.electric_w.is_finite() {
        crate::double_laws::order_agrees_with_value(d.electric_w, Double::zero());
    }
}

/// A delivery takes energy exactly where it takes fuel or power.
pub proof fn deliveries_take_energy(d: TanklessDelivery)
    requires
        d.fuel_input_w.is_finite(),
        ordinary(d.electric_w),
        0 <= d.electric_w.units(),
    ensures
        TanklessWH::takes_energy(d) <==> 0 < d.fuel_input_w.units() || 0 < d.electric_w.units(),
{
    one_is_tame();
    crate::double_laws::order_agrees_with_value(Double::zero(), d.fuel_input_w);
    crate::input_laws::lemma_over_whole(d.electric_w, 1000);
    let kw = d.electric_w.over(Double::whole(1000));
    near_sign(kw, d.electric_w.units(), 1000, 1);
    crate::double_laws::order_agrees_with_value(Double::zero(), kw);
    crate::double_laws::order_agrees_with_value(kw, Double::zero());
}

} // verus!
