//! Laws of what a step reports: its figures, what it gives to the ports, and what it records.
use vstd::arithmetic::power2::*;
use vstd::prelude::*;

use crate::approx::{
    near, near_grows, near_itself, near_rescaled, near_sign, near_times, one_is_tame, parts_grow,
    parts_of_near, parts_plus, parts_times, tame, tame_grows, tame_plus, tame_sum, tame_units,
    whole_is_tame, within_parts,
};
use crate::control_laws::{ordinary, whole_units};
use crate::delivery_laws::lemma_reported_power;
use crate::double::Double;
use crate::gas::{GasFigures, GasOutside, GasState, GasWH};
use crate::heat_pump_wh::{HeatPumpWH, HpFigures, HpOutside, HpState};
use crate::indirect_tank::{IndirectFigures, IndirectState, IndirectTank};
use crate::precision::size;
use crate::products::about;
use crate::resistance::{ResistanceFigures, ResistanceOutside, ResistanceState, ResistanceWH};
use crate::shared::ScheduleReadings;
use crate::tank::DrawResult;
use crate::types::{
    ActivePower, EnvironmentState, FluidAccumulator, FuelPower, OperatingMode, PortContribution,
    ThermalCategory,
};
use crate::zip::WaterHeaterZip;

verus! {

// ---------------------------------------------------------------------------
// Voltage
// ---------------------------------------------------------------------------

/// Multiplication does not depend on the order of its operands.
proof fn lemma_times_commutes(x: Double, y: Double)
    requires
        x.is_finite(),
        y.is_finite(),
    ensures
        x.times(y) == y.times(x),
{
    reveal(Double::spec_times);
    let a = crate::rounding::mag_units(x.mag());
    let b = crate::rounding::mag_units(y.mag());
    assert(a * b == b * a) by (nonlinear_arith);
}

/// The exact multiplier of a load at a voltage over the reference voltage, times the square of
/// the reference voltage: that of a constant impedance goes with the square of the voltage,
/// that of a constant current with the voltage, and that of a constant power stays.
pub open spec fn multiplier(z: int, i: int, p: int, v: int, v0: int) -> int {
    z * (v * v) + i * (v * v0) + p * (v0 * v0)
}

/// The parts of which [`multiplier`] is the sum, in their sizes.
pub open spec fn multiplier_size(z: int, i: int, p: int, v: int, v0: int) -> int {
    size(z * (v * v)) + size(i * (v * v0)) + size(p * (v0 * v0))
}

/// The polynomial of a voltage is the multiplier.
proof fn lemma_polynomial(z: Double, i: Double, p: Double, voltage: Double, v0: Double)
    requires
        tame(z, 40),
        tame(i, 40),
        tame(p, 40),
        ordinary(voltage),
        ordinary(v0),
        0 < v0.units(),
    ensures
        ({
            let x = WaterHeaterZip::polynomial(z, i, p, voltage.over(v0));
            let a = multiplier(z.units(), i.units(), p.units(), voltage.units(), v0.units());
            let m = multiplier_size(
                z.units(),
                i.units(),
                p.units(),
                voltage.units(),
                v0.units(),
            );
            &&& tame(x, 304)
            &&& within_parts(x, a, v0.units() * v0.units(), m, 7)
        }),
{
    let h = pow2(1074) as int;
    lemma_pow2_pos(1074);
    let r = voltage.over(v0);
    let u = voltage.units();
    let w = v0.units();
    tame_units(voltage, 40);
    tame_units(v0, 40);
    tame_units(z, 40);
    tame_units(i, 40);
    tame_units(p, 40);
    near_itself(voltage);
    near_itself(v0);
    near_itself(z);
    near_itself(i);
    near_itself(p);
    crate::approx::near_over(voltage, 40, u, 1, 0, v0, 40, w, 1, 0);
    assert(near(r, u * h, w, 1)) by {
        assert(u * 1 * h == u * h && 1 * w == w);
    }
    let zu = z.units();
    let iu = i.units();
    let pu = p.units();
    near_times(z, 40, zu, 1, 0, r, 80, u * h, w, 1);
    let a1 = z.times(r);
    assert((zu * (u * h)) * w == (zu * u) * (1 * w * h)) by (nonlinear_arith);
    near_rescaled(a1, zu * (u * h), 1 * w * h, 2, zu * u, w);
    near_times(a1, 120, zu * u, w, 2, r, 80, u * h, w, 1);
    let a2 = a1.times(r);
    let ww = w * w;
    assert(ww > 0) by (nonlinear_arith)
        requires
            ww == w * w,
            w > 0,
    ;
    assert(((zu * u) * (u * h)) * ww == (zu * (u * u)) * (w * w * h)) by {
        let v = zu * u;
        assert((v * (u * h)) * ww == (v * u) * (ww * h)) by (nonlinear_arith);
        assert(v * u == zu * (u * u)) by (nonlinear_arith)
            requires
                v == zu * u,
        ;
    }
    near_rescaled(a2, (zu * u) * (u * h), w * w * h, 4, zu * (u * u), ww);
    near_times(i, 40, iu, 1, 0, r, 80, u * h, w, 1);
    let b1 = i.times(r);
    assert((iu * (u * h)) * ww == (iu * (u * w)) * (1 * w * h)) by {
        let v = u * h;
        assert((iu * v) * ww == (iu * w) * (v * w)) by (nonlinear_arith)
            requires
                ww == w * w,
        ;
        assert((iu * w) * (v * w) == (iu * (u * w)) * (w * h)) by (nonlinear_arith)
            requires
                v == u * h,
        ;
    }
    near_rescaled(b1, iu * (u * h), 1 * w * h, 2, iu * (u * w), ww);
    assert(pu * ww == (pu * ww) * 1);
    near_rescaled(p, pu, 1, 0, pu * ww, ww);
    let pa = zu * (u * u);
    let pb = iu * (u * w);
    let pc = pu * ww;
    parts_of_near(a2, pa, ww, 4);
    parts_of_near(b1, pb, ww, 2);
    parts_of_near(p, pc, ww, 0);
    parts_grow(b1, pb, ww, size(pb), 2, size(pb), 4);
    parts_grow(p, pc, ww, size(pc), 0, size(pc), 5);
    tame_grows(b1, 120, 200);
    tame_plus(a2, b1, 200);
    parts_plus(a2, pa, size(pa), b1, pb, size(pb), ww, 4);
    tame_grows(p, 40, 252);
    tame_plus(a2.plus(b1), p, 252);
    parts_plus(a2.plus(b1), pa + pb, size(pa) + size(pb), p, pc, size(pc), ww, 5);
    let m = size(pa) + size(pb) + size(pc);
    parts_grow(a2.plus(b1).plus(p), pa + pb + pc, ww, m, 6, m, 7);
}

/// The power of a load at a voltage is its rated power times the multiplier of the voltage, and
/// its reactive power a thousandth of that times the power factor and the multiplier of the
/// reactive fractions.
pub proof fn loads_follow_the_voltage(zip: WaterHeaterZip, rated_w: Double, voltage_pu: Double)
    requires
        tame(zip.z, 40),
        tame(zip.i, 40),
        tame(zip.p, 40),
        tame(zip.zq, 40),
        tame(zip.iq, 40),
        tame(zip.pq, 40),
        tame(zip.pf, 40),
        ordinary(zip.v0),
        0 < zip.v0.units(),
        ordinary(voltage_pu),
        0 < voltage_pu.units(),
        tame(rated_w, 100),
        rated_w.units() != 0,
    ensures
        ({
            let (power_w, reactive_kvar) = zip.apply(rated_w, voltage_pu);
            let h = pow2(1074) as int;
            let v = voltage_pu.units();
            let v0 = zip.v0.units();
            &&& within_parts(
                power_w,
                multiplier(zip.z.units(), zip.i.units(), zip.p.units(), v, v0) * rated_w.units(),
                v0 * v0 * 1 * h,
                multiplier_size(zip.z.units(), zip.i.units(), zip.p.units(), v, v0) * size(
                    rated_w.units(),
                ),
                8,
            )
            &&& within_parts(
                reactive_kvar,
                multiplier(zip.zq.units(), zip.iq.units(), zip.pq.units(), v, v0) * (
                power_w.units() * zip.pf.units()),
                v0 * v0 * (1000 * h) * h,
                multiplier_size(zip.zq.units(), zip.iq.units(), zip.pq.units(), v, v0) * size(
                    power_w.units() * zip.pf.units(),
                ),
                10,
            )
        }),
{
    let h = pow2(1074) as int;
    lemma_pow2_pos(1074);
    one_is_tame();
    tame_units(rated_w, 100);
    tame_units(voltage_pu, 40);
    crate::double_laws::order_agrees_with_value(rated_w, Double::zero());
    crate::double_laws::order_agrees_with_value(voltage_pu, Double::zero());
    lemma_polynomial(zip.z, zip.i, zip.p, voltage_pu, zip.v0);
    lemma_polynomial(zip.zq, zip.iq, zip.pq, voltage_pu, zip.v0);
    let v = voltage_pu.units();
    let v0 = zip.v0.units();
    let r = voltage_pu.over(zip.v0);
    let x = WaterHeaterZip::polynomial(zip.z, zip.i, zip.p, r);
    let y = WaterHeaterZip::polynomial(zip.zq, zip.iq, zip.pq, r);
    let a = multiplier(zip.z.units(), zip.i.units(), zip.p.units(), v, v0);
    let m = multiplier_size(zip.z.units(), zip.i.units(), zip.p.units(), v, v0);
    near_itself(rated_w);
    parts_times(x, 304, a, v0 * v0, m, 7, rated_w, 100, rated_w.units(), 1, 0);
    lemma_times_commutes(x, rated_w);
    let power = rated_w.times(x);
    tame_units(power, 404);
    let u = power.units();
    let k = Double::whole(1000);
    whole_is_tame(1000);
    near_itself(power);
    crate::approx::near_over(power, 404, u, 1, 0, k, 53, 1000 * h, 1, 0);
    let kw = power.over(k);
    assert(u * 1 * h == u * h && 1 * (1000 * h) == 1000 * h);
    assert((u * h) * 1000 == u * (1000 * h)) by (nonlinear_arith);
    near_rescaled(kw, u * h, 1000 * h, 1, u, 1000);
    tame_units(zip.pf, 40);
    near_itself(zip.pf);
    near_times(kw, 457, u, 1000, 1, zip.pf, 40, zip.pf.units(), 1, 0);
    let kvar = kw.times(zip.pf);
    assert(1000 * 1 * h == 1000 * h);
    let b = multiplier(zip.zq.units(), zip.iq.units(), zip.pq.units(), v, v0);
    let n = multiplier_size(zip.zq.units(), zip.iq.units(), zip.pq.units(), v, v0);
    tame_units(kvar, 497);
    tame_units(y, 304);
    parts_times(
        y,
        304,
        b,
        v0 * v0,
        n,
        7,
        kvar,
        497,
        u * zip.pf.units(),
        1000 * h,
        2,
    );
    lemma_times_commutes(y, kvar);
}

// ---------------------------------------------------------------------------
// Figures
// ---------------------------------------------------------------------------

/// The power that a resistance heater draws is that of both its elements together, as the
/// voltage has it.
pub proof fn resistance_draws_for_both_elements(
    heater: &ResistanceWH,
    env: &EnvironmentState,
    mode: OperatingMode,
    outside: ResistanceOutside,
    fluid: Seq<FluidAccumulator>,
    readings: ScheduleReadings,
    draw: DrawResult,
)
    requires
        ({
            let (upper_w, lower_w) = heater.step_powers(env, mode, outside);
            &&& tame(upper_w, 200)
            &&& tame(lower_w, 200)
            &&& 0 <= upper_w.units()
            &&& 0 <= lower_w.units()
        }),
    ensures
        ({
            let f = heater.step_figures(env, mode, outside, fluid, readings, draw);
            &&& f.mode == mode
            &&& f.draw == draw
            &&& exists|rated_w: Double|
                #![trigger heater.state.zip.apply(rated_w, env.voltage_pu)]
                {
                    &&& near(rated_w, f.upper_power_w.units() + f.lower_power_w.units(), 1, 1)
                    &&& (f.electric_power_w, f.reactive_power_kvar) == heater.state.zip.apply(
                        rated_w,
                        env.voltage_pu,
                    )
                }
        }),
{
    let (upper_w, lower_w) = heater.step_powers(env, mode, outside);
    tame_sum(upper_w, lower_w, 200);
    let f = heater.step_figures(env, mode, outside, fluid, readings, draw);
    assert((f.electric_power_w, f.reactive_power_kvar) == heater.state.zip.apply(
        upper_w.plus(lower_w),
        env.voltage_pu,
    ));
}

/// The power that a heat pump draws is that of its compressor, its backup element and its fan
/// or standby electronics together, as the voltage has it.
pub proof fn heat_pump_draws_for_all_its_parts(
    heater: &HeatPumpWH,
    env: &EnvironmentState,
    mode: OperatingMode,
    outside: HpOutside,
    fluid: Seq<FluidAccumulator>,
    draw: DrawResult,
)
    requires
        ({
            let p = heater.state.performance(outside);
            &&& tame(p.compressor_power_w, 200)
            &&& tame(p.backup_power_w, 200)
            &&& tame(p.fan_parasitic_w, 201)
            &&& 0 <= p.compressor_power_w.units()
            &&& 0 <= p.backup_power_w.units()
            &&& 0 <= p.fan_parasitic_w.units()
        }),
    ensures
        ({
            let f = heater.step_figures(env, mode, outside, fluid, draw);
            let p = f.performance;
            &&& f.mode == mode
            &&& f.draw == draw
            &&& exists|rated_w: Double|
                #![trigger heater.state.zip.apply(rated_w, env.voltage_pu)]
                {
                    &&& near(
                        rated_w,
                        p.compressor_power_w.units() + p.backup_power_w.units()
                            + p.fan_parasitic_w.units(),
                        1,
                        2,
                    )
                    &&& (f.electric_power_w, f.reactive_power_kvar) == heater.state.zip.apply(
                        rated_w,
                        env.voltage_pu,
                    )
                }
        }),
{
    let p = heater.state.performance(outside);
    tame_sum(p.compressor_power_w, p.backup_power_w, 200);
    let two = p.compressor_power_w.plus(p.backup_power_w);
    let exact = p.compressor_power_w.units() + p.backup_power_w.units();
    near_sign(two, exact, 1, 1);
    tame_sum(two, p.fan_parasitic_w, 201);
    let rated_w = two.plus(p.fan_parasitic_w);
    tame_units(p.fan_parasitic_w, 201);
    near_itself(p.fan_parasitic_w);
    near_grows(p.fan_parasitic_w, p.fan_parasitic_w.units(), 1, 0, 1);
    crate::approx::near_plus(
        two,
        exact,
        1,
        p.fan_parasitic_w,
        p.fan_parasitic_w.units(),
        1,
        1,
    );
    let f = heater.step_figures(env, mode, outside, fluid, draw);
    assert((f.electric_power_w, f.reactive_power_kvar) == heater.state.zip.apply(
        rated_w,
        env.voltage_pu,
    ));
    assert(exact * 1 + p.fan_parasitic_w.units() * 1 == exact + p.fan_parasitic_w.units());
}

/// The fuel of a gas heater is that of its burner and its pilot together, and its fan draws its
/// rated power while the burner is on, as the voltage has it.
pub proof fn gas_burns_for_burner_and_pilot(
    heater: &GasWH,
    env: &EnvironmentState,
    mode: OperatingMode,
    outside: GasOutside,
    fluid: Seq<FluidAccumulator>,
    readings: ScheduleReadings,
    draw: DrawResult,
)
    requires
        tame(heater.step_firing(env, outside).burner_input_w, 200),
        tame(heater.state.pilot_power_w, 200),
        0 <= heater.step_firing(env, outside).burner_input_w.units(),
        0 <= heater.state.pilot_power_w.units(),
    ensures
        ({
            let f = heater.step_figures(env, mode, outside, fluid, readings, draw);
            &&& f.mode == mode
            &&& f.draw == draw
            &&& near(
                f.fuel_input_w,
                f.firing.burner_input_w.units() + heater.state.pilot_power_w.units(),
                1,
                1,
            )
            &&& (f.fan_electric_w, f.fan_reactive_kvar) == (if heater.state.burner_on {
                heater.state.zip.apply(heater.state.fan_power_w, env.voltage_pu)
            } else {
                (Double::zero(), Double::zero())
            })
        }),
{
    one_is_tame();
    crate::double_laws::order_agrees_with_value(Double::zero(), Double::zero());
    tame_sum(heater.step_firing(env, outside).burner_input_w, heater.state.pilot_power_w, 200);
}

// ---------------------------------------------------------------------------
// Ports
// ---------------------------------------------------------------------------

/// A contribution where something is above zero.
pub open spec fn given(amount: Double, contribution: PortContribution) -> Seq<PortContribution> {
    if amount.gt(Double::zero()) {
        seq![contribution]
    } else {
        seq![]
    }
}

/// What a resistance heater gives to the ports is the power that it reports, and the water that
/// it reports at the temperatures that it reports.
pub proof fn resistance_ports_carry_the_figures(heater: &ResistanceWH, f: ResistanceFigures)
    ensures
        heater.step_contributions(f) == given(
            f.electric_power_w,
            PortContribution::Electrical {
                active_power: ActivePower::Watts(f.electric_power_w),
                reactive_power_kvar: f.reactive_power_kvar,
            },
        ) + given(
            f.total_draw_kg_s,
            PortContribution::Fluid {
                loop_id: heater.state.loop_id,
                flow_rate_kg_s: f.total_draw_kg_s,
                supply_temp_c: f.draw.outlet_temp_c,
                return_temp_c: f.mains_temp_c,
            },
        ),
{
}

/// What a gas heater gives to the ports is the fuel, the power of the fan and the water that it
/// reports, and to its zone, if it has one, the loss that it reports.
pub proof fn gas_ports_carry_the_figures(heater: &GasWH, f: GasFigures, zone: u16)
    requires
        heater.descriptor.zone == Some(zone),
    ensures
        heater.step_contributions(f) == given(
            f.fuel_input_w,
            PortContribution::Fuel {
                fuel_type: heater.state.fuel_type,
                consumption_w: f.fuel_input_w,
            },
        ) + given(
            f.fan_electric_w,
            PortContribution::Electrical {
                active_power: ActivePower::Watts(f.fan_electric_w),
                reactive_power_kvar: f.fan_reactive_kvar,
            },
        ) + given(
            f.total_draw_kg_s,
            PortContribution::Fluid {
                loop_id: heater.state.loop_id,
                flow_rate_kg_s: f.total_draw_kg_s,
                supply_temp_c: f.draw.outlet_temp_c,
                return_temp_c: f.mains_temp_c,
            },
        ) + given(
            f.skin_loss_to_zone_w,
            PortContribution::Thermal {
                zone,
                sensible_gain_w: f.skin_loss_to_zone_w,
                latent_gain_w: Double::zero(),
                category: ThermalCategory::JacketLoss,
            },
        ),
{
}

/// What an indirect tank gives to the ports is the water that goes back to the boiler, while the
/// coil gives heat, and the water that it reports.
pub proof fn indirect_ports_carry_the_figures(heater: &IndirectTank, f: IndirectFigures)
    ensures
        heater.step_contributions(f) == given(
            f.hx_power_w,
            PortContribution::Fluid {
                loop_id: heater.state.boiler_loop_id,
                flow_rate_kg_s: heater.state.boiler_loop_flow_rate_kg_s,
                supply_temp_c: f.boiler_supply_c,
                return_temp_c: f.boiler_return_c,
            },
        ) + given(
            f.total_draw_kg_s,
            PortContribution::Fluid {
                loop_id: crate::shared::DHW_DEMAND_LOOP,
                flow_rate_kg_s: f.total_draw_kg_s,
                supply_temp_c: f.draw.outlet_temp_c,
                return_temp_c: f.mains_temp_c,
            },
        ),
{
}

/// What a heat pump in a zone gives to the ports while it draws power and its gains are not
/// nothing: the power that it reports, in kilowatts, and the gains that it reports. The water
/// goes to its loop.
pub proof fn heat_pump_ports_carry_the_figures(heater: &HeatPumpWH, f: HpFigures, zone: u16)
    requires
        heater.descriptor.zone == Some(zone),
        tame(f.electric_power_w, 400),
        0 < f.electric_power_w.units(),
        !f.gains.sensible_to_zone_w.same(Double::zero()),
        !f.gains.sensible_to_wall_w.same(Double::zero()),
    ensures
        ({
            let list = heater.step_contributions(f);
            &&& list.len() == 3
            &&& list[0] matches PortContribution::Electrical {
                active_power: ActivePower::Kilowatts(power_kw),
                reactive_power_kvar,
            } && reactive_power_kvar == f.reactive_power_kvar && about(
                power_kw,
                seq![f.electric_power_w.units()],
                seq![whole_units(1000)],
                1,
            )
            &&& list[1] == (PortContribution::Thermal {
                zone,
                sensible_gain_w: f.gains.sensible_to_zone_w,
                latent_gain_w: f.gains.latent_gain_w,
                category: ThermalCategory::HvacDehumidification,
            })
            &&& list[2] == (PortContribution::Thermal {
                zone,
                sensible_gain_w: f.gains.sensible_to_wall_w,
                latent_gain_w: Double::zero(),
                category: ThermalCategory::JacketLoss,
            })
        }),
        f.total_draw_kg_s.gt(Double::zero()) ==> heater.step_fluid(f) == Some(
            PortContribution::Fluid {
                loop_id: heater.state.loop_id,
                flow_rate_kg_s: f.total_draw_kg_s,
                supply_temp_c: f.draw.outlet_temp_c,
                return_temp_c: heater.state.mains_temp_c,
            },
        ),
        !f.total_draw_kg_s.gt(Double::zero()) ==> heater.step_fluid(f) is None,
{
    one_is_tame();
    tame_units(f.electric_power_w, 400);
    crate::double_laws::order_agrees_with_value(Double::zero(), f.electric_power_w);
    lemma_reported_power(f.electric_power_w);
}

// ---------------------------------------------------------------------------
// Records
// ---------------------------------------------------------------------------

/// A power in kilowatts, of one in watts.
pub open spec fn in_kilowatts(power_kw: Double, power_w: Double) -> bool {
    about(power_kw, seq![power_w.units()], seq![whole_units(1000)], 1)
}

/// What a resistance heater records of a step are its figures, the power in watts and in
/// kilowatts; its load is all its own again.
pub proof fn resistance_records_its_figures(s: ResistanceState, f: ResistanceFigures, avg_c: Double)
    requires
        tame(f.electric_power_w, 400),
        0 <= f.electric_power_w.units(),
    ensures
        ({
            let after = s.finished(f, avg_c);
            let t = after.telemetry;
            &&& after.ctrl_load_fraction == Double::one()
            &&& after == (ResistanceState {
                ctrl_load_fraction: after.ctrl_load_fraction,
                telemetry: t,
                core_output: after.core_output,
                ..s
            })
            &&& t.tank_avg_temp_c == avg_c
            &&& t.upper_element_power_w == f.upper_power_w
            &&& t.lower_element_power_w == f.lower_power_w
            &&& t.electric_power_w == f.electric_power_w
            &&& in_kilowatts(t.electric_kw, f.electric_power_w)
            &&& in_kilowatts(t.element_kw, f.electric_power_w)
            &&& t.draw_flow_rate_kg_s == f.total_draw_kg_s
            &&& t.unmet_load_w == f.draw.unmet_load_w
            &&& t.outlet_temp_c == f.draw.outlet_temp_c
            &&& after.core_output.electric_kw is Some
            &&& in_kilowatts(after.core_output.electric_kw->0, f.electric_power_w)
            &&& after.core_output.fuel is None
            &&& after.core_output.operating_mode == Some(f.mode)
        }),
{
    lemma_reported_power(f.electric_power_w);
}

/// What a gas heater records of a step are its figures, the fuel in watts and in kilowatts; its
/// load is all its own again.
pub proof fn gas_records_its_figures(s: GasState, f: GasFigures, avg_c: Double)
    requires
        tame(f.fuel_input_w, 400),
        0 <= f.fuel_input_w.units(),
        tame(f.fan_electric_w, 400),
        0 <= f.fan_electric_w.units(),
        tame(s.pilot_power_w, 400),
        0 <= s.pilot_power_w.units(),
    ensures
        ({
            let after = s.finished(f, avg_c);
            let t = after.telemetry;
            &&& after.ctrl_load_fraction == Double::one()
            &&& after == (GasState {
                ctrl_load_fraction: after.ctrl_load_fraction,
                telemetry: t,
                core_output: after.core_output,
                ..s
            })
            &&& t.tank_avg_temp_c == avg_c
            &&& t.burner_power_w == f.firing.burner_input_w
            &&& t.pilot_power_w == s.pilot_power_w
            &&& t.fuel_input_w == f.fuel_input_w
            &&& in_kilowatts(t.fuel_input_kw, f.fuel_input_w)
            &&& in_kilowatts(t.pilot_kw, s.pilot_power_w)
            &&& t.flue_loss_w == f.firing.flue_loss_w
            &&& t.skin_loss_w == f.skin_loss_to_zone_w
            &&& t.fan_electric_w == f.fan_electric_w
            &&& t.draw_flow_rate_kg_s == f.total_draw_kg_s
            &&& t.unmet_load_w == f.draw.unmet_load_w
            &&& t.outlet_temp_c == f.draw.outlet_temp_c
            &&& t.pilot_heat_to_water_w == f.firing.pilot_heat_to_water_w
            &&& t.pilot_heat_to_ambient_w == f.firing.pilot_heat_to_ambient_w
            &&& after.core_output.electric_kw is Some
            &&& in_kilowatts(after.core_output.electric_kw->0, f.fan_electric_w)
            &&& after.core_output.fuel == Some(
                FuelPower { fuel_type: s.fuel_type, consumption_w: f.fuel_input_w },
            )
            &&& after.core_output.operating_mode == Some(f.mode)
        }),
{
    one_is_tame();
    tame_units(f.fuel_input_w, 400);
    crate::double_laws::order_agrees_with_value(f.fuel_input_w, Double::zero());
    lemma_reported_power(f.fuel_input_w);
    lemma_reported_power(f.fan_electric_w);
    lemma_reported_power(s.pilot_power_w);
}

/// What a heat pump records of a step are its figures, the powers in watts and in kilowatts; its
/// load is all its own again.
pub proof fn heat_pump_records_its_figures(s: HpState, f: HpFigures, avg_c: Double)
    requires
        tame(f.electric_power_w, 400),
        0 <= f.electric_power_w.units(),
        tame(f.performance.compressor_power_w, 400),
        0 <= f.performance.compressor_power_w.units(),
        tame(f.performance.backup_power_w, 400),
        0 <= f.performance.backup_power_w.units(),
        tame(f.performance.delivered_hp_w, 400),
    ensures
        ({
            let after = s.finished(f, avg_c);
            let t = after.telemetry;
            let p = f.performance;
            &&& after.ctrl_load_fraction == Double::one()
            &&& after == (HpState {
                ctrl_load_fraction: after.ctrl_load_fraction,
                telemetry: t,
                core_output: after.core_output,
                ..s
            })
            &&& t.tank_avg_temp_c == avg_c
            &&& t.cop == p.cop
            &&& t.cap_mult == p.cap_mult
            &&& t.compressor_power_w == p.compressor_power_w
            &&& t.backup_element_power_w == p.backup_power_w
            &&& in_kilowatts(t.electric_kw, f.electric_power_w)
            &&& in_kilowatts(t.compressor_kw, p.compressor_power_w)
            &&& in_kilowatts(t.element_kw, p.backup_power_w)
            &&& near(
                t.zone_heat_extraction_w,
                p.delivered_hp_w.units() - p.compressor_power_w.units(),
                1,
                1,
            )
            &&& t.draw_flow_rate_kg_s == f.total_draw_kg_s
            &&& t.wall_sensible_gain_w == f.gains.sensible_to_wall_w
            &&& t.unmet_load_w == f.draw.unmet_load_w
            &&& after.core_output.electric_kw is Some
            &&& in_kilowatts(after.core_output.electric_kw->0, f.electric_power_w)
            &&& after.core_output.fuel is None
            &&& after.core_output.operating_mode == Some(f.mode)
        }),
{
    lemma_reported_power(f.electric_power_w);
    lemma_reported_power(f.performance.compressor_power_w);
    lemma_reported_power(f.performance.backup_power_w);
    crate::approx::tame_minus(f.performance.delivered_hp_w, f.performance.compressor_power_w, 400);
}

/// What an indirect tank records of a step are its figures; its load is all its own again.
pub proof fn indirect_records_its_figures(s: IndirectState, f: IndirectFigures, avg_c: Double)
    requires
        f.hx_power_w.is_finite(),
        0 <= f.hx_power_w.units(),
    ensures
        ({
            let after = s.finished(f, avg_c);
            let t = after.telemetry;
            &&& after.ctrl_load_fraction == Double::one()
            &&& after == (IndirectState {
                ctrl_load_fraction: after.ctrl_load_fraction,
                telemetry: t,
                core_output: after.core_output,
                ..s
            })
            &&& t.tank_avg_temp_c == avg_c
            &&& t.electric_power_w == f.hx_power_w
            &&& t.electric_kw == Double::zero()
            &&& t.draw_flow_rate_kg_s == f.total_draw_kg_s
            &&& t.unmet_load_w == f.draw.unmet_load_w
            &&& t.outlet_temp_c == f.draw.outlet_temp_c
            &&& after.core_output.electric_kw is None
            &&& after.core_output.fuel is None
            &&& after.core_output.thermal_output_w == Some(f.hx_power_w)
            &&& after.core_output.operating_mode == Some(f.mode)
        }),
{
    one_is_tame();
    crate::double_laws::order_agrees_with_value(f.hx_power_w, Double::zero());
}

} // verus!
