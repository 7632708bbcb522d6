//! What holds of every water heater, whatever it is asked to do.
use vstd::arithmetic::power2::*;
use vstd::prelude::*;

use crate::double::Double;
use crate::gas::{GasState, GasWH, GasWhState};
use crate::heat_pump_wh::{
    elapsed, ElementHpControlMode, HeatPumpWH, HpOutside, HpPerformance, HpState, HpwhState,
};
use crate::indirect_tank::{IndirectState, IndirectTank, IndirectTankState};
use crate::resistance::{ElementPriorityMode, ResistanceState, ResistanceWH, ResistanceWhState};
use crate::rounding::{P52, P53};
use crate::shared::{hysteresis_call, DemandResponse};
use crate::tank::TankModel;
use crate::tankless::TanklessState;
use crate::types::{ControlSignal, DRLevel, FuelType, OperatingMode};
use crate::zip::WaterHeaterZip;

verus! {

// ---------------------------------------------------------------------------
// Safety
// ---------------------------------------------------------------------------

/// A tank that is too hot, or whose temperature is no number, is not heated, whatever the
/// thermostat or an override says.
pub proof fn overheated_tanks_are_not_heated(
    gas: GasState,
    resistance: ResistanceState,
    hp: HpState,
    indirect: IndirectState,
    dt_s: Double,
    temp_c: Double,
    other_temp_c: Double,
)
    ensures
        gas.controlled(dt_s, true, temp_c).mode() == OperatingMode::Off,
        resistance.later(dt_s).switched(true, temp_c, other_temp_c).mode() == OperatingMode::Off,
        hp.later(dt_s).switched(true, temp_c, other_temp_c).mode() == OperatingMode::Off,
        indirect.switched(dt_s, true, temp_c).mode() == OperatingMode::Off,
{
}

/// One hot node is enough: a tank is too hot if any node whose temperature is a number
/// is above the limit.
pub proof fn any_hot_node_trips_the_cutout(temps: Seq<Double>, node: int, max_tank_temp_c: Double)
    requires
        0 <= node < temps.len(),
        temps[node].gt(max_tank_temp_c),
    ensures
        crate::shared::overheated(temps, max_tank_temp_c),
{
    lemma_hottest_is_at_least(temps, node);
}

proof fn lemma_hottest_is_at_least(temps: Seq<Double>, node: int)
    requires
        0 <= node < temps.len(),
        !temps[node].is_nan(),
    ensures
        temps[node].le(crate::shared::hottest(temps)),
    decreases temps.len(),
{
    if temps.len() > 1 {
        let above = temps.drop_last();
        if node < temps.len() - 1 {
            assert(above[node] == temps[node]);
            lemma_hottest_is_at_least(above, node);
        }
    }
}

/// A tank all of whose nodes are at or below the limit is not too hot.
pub proof fn cool_tanks_do_not_trip(temps: Seq<Double>, max_tank_temp_c: Double)
    requires
        temps.len() > 0,
        forall|i: int|
            0 <= i < temps.len() ==> (#[trigger] temps[i]).is_finite() && temps[i].le(
                max_tank_temp_c,
            ),
    ensures
        !crate::shared::overheated(temps, max_tank_temp_c),
    decreases temps.len(),
{
    if temps.len() > 1 {
        let above = temps.drop_last();
        assert forall|i: int| 0 <= i < above.len() implies (#[trigger] above[i]).is_finite()
            && above[i].le(max_tank_temp_c) by {
            assert(above[i] == temps[i]);
        }
        cool_tanks_do_not_trip(above, max_tank_temp_c);
        assert(temps.last() == temps[temps.len() - 1]);
    } else {
        assert(crate::shared::hottest(temps) == temps[0]);
    }
}

/// No heater runs once the grid has asked it to shed its load until further notice.
pub proof fn emergencies_stop_every_heater(
    gas: GasState,
    resistance: ResistanceState,
    hp: HpState,
    indirect: IndirectState,
    tankless: TanklessState,
    dt_s: Double,
    overheated: bool,
    temp_c: Double,
    other_temp_c: Double,
    bus_energized: bool,
)
    ensures
        ({
            let signal = ControlSignal::DemandResponse {
                level: DRLevel::GridEmergency,
                duration_s: None,
            };
            &&& gas.applied(signal).0.controlled(dt_s, overheated, temp_c).mode()
                == OperatingMode::Off
            &&& resistance.applied(signal).0.later(dt_s).switched(
                overheated,
                temp_c,
                other_temp_c,
            ).mode() == OperatingMode::Off
            &&& hp.applied(signal).0.later(dt_s).switched(overheated, temp_c, other_temp_c).mode()
                == OperatingMode::Off
            &&& indirect.applied(signal).0.switched(dt_s, overheated, temp_c).mode()
                == OperatingMode::Off
            &&& (TanklessState {
                dr: tankless.applied(signal).0.dr.after(dt_s),
                ..tankless.applied(signal).0
            }).mode(bus_energized) == OperatingMode::Off
        }),
{
}

/// No heater runs while it is overridden to be off.
pub proof fn overrides_stop_every_heater(
    gas: GasState,
    resistance: ResistanceState,
    hp: HpState,
    indirect: IndirectState,
    tankless: TanklessState,
    dt_s: Double,
    overheated: bool,
    temp_c: Double,
    other_temp_c: Double,
    bus_energized: bool,
)
    ensures
        ({
            let signal = ControlSignal::ModeOverride { mode: OperatingMode::Off };
            &&& gas.applied(signal).0.controlled(dt_s, overheated, temp_c).mode()
                == OperatingMode::Off
            &&& resistance.applied(signal).0.later(dt_s).switched(
                overheated,
                temp_c,
                other_temp_c,
            ).mode() == OperatingMode::Off
            &&& hp.applied(signal).0.later(dt_s).switched(overheated, temp_c, other_temp_c).mode()
                == OperatingMode::Off
            &&& indirect.applied(signal).0.switched(dt_s, overheated, temp_c).mode()
                == OperatingMode::Off
            &&& (TanklessState {
                dr: tankless.applied(signal).0.dr.after(dt_s),
                ..tankless.applied(signal).0
            }).mode(bus_energized) == OperatingMode::Off
        }),
{
}

/// A duty cycle of nothing stops every heater but a heat pump whose compressor is inside
/// its minimum running time.
pub proof fn empty_duty_cycles_stop_heaters(
    gas: GasState,
    resistance: ResistanceState,
    hp: HpState,
    indirect: IndirectState,
    tankless: TanklessState,
    dt_s: Double,
    overheated: bool,
    temp_c: Double,
    other_temp_c: Double,
    bus_energized: bool,
)
    ensures
        ({
            let signal = ControlSignal::DutyCycle {
                on_fraction: Double::zero(),
                component: None,
            };
            &&& gas.applied(signal).0.controlled(dt_s, overheated, temp_c).mode()
                == OperatingMode::Off
            &&& resistance.applied(signal).0.later(dt_s).switched(
                overheated,
                temp_c,
                other_temp_c,
            ).mode() == OperatingMode::Off
            &&& !hp.compressor_on || elapsed(hp.compressor_on_since_s, hp.min_on_time_s)
                ==> hp.applied(signal).0.later(dt_s).switched(
                overheated,
                temp_c,
                other_temp_c,
            ).mode() == OperatingMode::Off
            &&& indirect.applied(signal).0.switched(dt_s, overheated, temp_c).mode()
                == OperatingMode::Off
            &&& (TanklessState {
                dr: tankless.applied(signal).0.dr.after(dt_s),
                ..tankless.applied(signal).0
            }).mode(bus_energized) == OperatingMode::Off
        }),
{
}

// ---------------------------------------------------------------------------
// Demand response and control signals
// ---------------------------------------------------------------------------

/// A demand response for a time ends when that time is up, and operation is normal again.
pub proof fn demand_responses_end(level: DRLevel, duration_s: Double, dt_s: Double)
    ensures
        duration_s.minus(dt_s).le(Double::zero()) ==> DemandResponse::at(
            level,
            Some(duration_s),
        ).after(dt_s) == DemandResponse::normal(),
        !duration_s.minus(dt_s).le(Double::zero()) ==> DemandResponse::at(
            level,
            Some(duration_s),
        ).after(dt_s) == DemandResponse::at(level, Some(duration_s.minus(dt_s))),
        DemandResponse::at(level, None).after(dt_s) == DemandResponse::at(level, None),
{
}

/// A load fraction leaves a demand response alone, and a demand response leaves the load
/// fraction alone.
pub proof fn load_fraction_and_demand_response_are_apart(
    gas: GasState,
    resistance: ResistanceState,
    hp: HpState,
    indirect: IndirectState,
    tankless: TanklessState,
    fraction: Double,
    level: DRLevel,
    duration_s: Option<Double>,
)
    ensures
        ({
            let load = ControlSignal::LoadFraction { fraction };
            let dr = ControlSignal::DemandResponse { level, duration_s };
            &&& gas.applied(load).0.dr == gas.dr
            &&& gas.applied(dr).0.ctrl_load_fraction == gas.ctrl_load_fraction
            &&& resistance.applied(load).0.dr == resistance.dr
            &&& resistance.applied(dr).0.ctrl_load_fraction == resistance.ctrl_load_fraction
            &&& hp.applied(load).0.dr == hp.dr
            &&& hp.applied(dr).0.ctrl_load_fraction == hp.ctrl_load_fraction
            &&& indirect.applied(load).0.dr == indirect.dr
            &&& indirect.applied(dr).0.ctrl_load_fraction == indirect.ctrl_load_fraction
            &&& tankless.applied(load).0.dr == tankless.dr
            &&& tankless.applied(dr).0.ctrl_load_fraction == tankless.ctrl_load_fraction
        }),
{
}

/// A duty cycle that is no fraction is refused, and changes nothing.
pub proof fn bad_duty_cycles_change_nothing(
    gas: GasState,
    resistance: ResistanceState,
    hp: HpState,
    indirect: IndirectState,
    tankless: TanklessState,
    on_fraction: Double,
)
    requires
        !(on_fraction.is_finite() && Double::zero().le(on_fraction) && on_fraction.le(
            Double::one(),
        )),
    ensures
        ({
            let signal = ControlSignal::DutyCycle { on_fraction, component: None };
            &&& gas.applied(signal).0 == gas && gas.applied(signal).1 is Some
            &&& resistance.applied(signal).0 == resistance && resistance.applied(signal).1 is Some
            &&& hp.applied(signal).0 == hp && hp.applied(signal).1 is Some
            &&& indirect.applied(signal).0 == indirect && indirect.applied(signal).1 is Some
            &&& tankless.applied(signal).0 == tankless && tankless.applied(signal).1 is Some
        }),
{
}

/// A thermostat turns on at the floor of its deadband or below, and off at the setpoint
/// or above; in between it stays as it is.
pub proof fn thermostats_have_hysteresis(sensor_c: Double, setpoint_c: Double, deadband_c: Double)
    requires
        setpoint_c.is_finite(),
        deadband_c.ge(Double::zero()),
        !sensor_c.is_nan(),
    ensures
        sensor_c.ge(setpoint_c) ==> !hysteresis_call(sensor_c, setpoint_c, deadband_c, true),
        sensor_c.lt(setpoint_c) && sensor_c.le(setpoint_c.minus(deadband_c)) ==> hysteresis_call(
            sensor_c,
            setpoint_c,
            deadband_c,
            false,
        ) && hysteresis_call(sensor_c, setpoint_c, deadband_c, true),
        sensor_c.lt(setpoint_c) && sensor_c.gt(setpoint_c.minus(deadband_c)) ==> forall|on: bool|
            hysteresis_call(sensor_c, setpoint_c, deadband_c, on) == on,
{
    crate::double_laws::steps_are_ordered(setpoint_c, deadband_c);
}

// ---------------------------------------------------------------------------
// Resistance elements
// ---------------------------------------------------------------------------

/// The elements of a master and a slave never heat together.
pub proof fn master_and_slave_never_heat_together(
    s: ResistanceState,
    overheated: bool,
    upper_temp_c: Double,
    lower_temp_c: Double,
)
    requires
        s.element_priority == ElementPriorityMode::MasterSlave,
    ensures
        ({
            let after = s.switched(overheated, upper_temp_c, lower_temp_c);
            !(after.upper_element_on && after.lower_element_on)
        }),
{
}

/// Where the power of both elements together is limited, the upper one comes first: it
/// keeps its power if that is within the limit, and else gets the limit. The lower one
/// keeps its power if both fit under the limit, and else gets what the upper one leaves.
pub proof fn the_upper_element_comes_first(s: ResistanceState, upper_w: Double, lower_w: Double)
    ensures
        s.element_priority == ElementPriorityMode::MasterSlave || s.max_combined_power_w is None
            ==> s.capped_upper(upper_w) == upper_w && s.capped_lower(upper_w, lower_w) == lower_w,
        s.element_priority == ElementPriorityMode::Simultaneous ==> (
        s.max_combined_power_w matches Some(max_w) ==> {
            let upper = s.capped_upper(upper_w);
            let lower = s.capped_lower(upper, lower_w);
            &&& upper == if upper_w.gt(max_w) {
                max_w.max(Double::zero())
            } else {
                upper_w
            }
            &&& lower == if upper.plus(lower_w).gt(max_w) {
                max_w.minus(upper).max(Double::zero())
            } else {
                lower_w
            }
        }),
{
}

// ---------------------------------------------------------------------------
// Heat pump
// ---------------------------------------------------------------------------

/// Where the compressor and the backup element exclude each other, they never run
/// together unless an override asks for both.
pub proof fn exclusive_parts_never_run_together(
    s: HpState,
    overheated: bool,
    control_temp_c: Double,
    ambient_c: Double,
)
    requires
        s.element_hp_control == ElementHpControlMode::MutuallyExclusive,
        s.mode_override != Some(OperatingMode::HeatingHPAndER),
    ensures
        ({
            let after = s.switched(overheated, control_temp_c, ambient_c);
            !(after.compressor_on && after.backup_on)
        }),
{
}

/// A heater without a backup element in use never turns it on.
pub proof fn heat_pump_only_never_uses_backup(
    s: HpState,
    overheated: bool,
    control_temp_c: Double,
    ambient_c: Double,
)
    requires
        s.hp_only_mode,
    ensures
        !s.switched(overheated, control_temp_c, ambient_c).backup_on,
{
}

/// Outside its range of ambient temperatures the compressor does not run.
pub proof fn compressor_keeps_to_its_range(
    s: HpState,
    overheated: bool,
    control_temp_c: Double,
    ambient_c: Double,
)
    requires
        !s.ambient_in_range(ambient_c),
    ensures
        !s.switched(overheated, control_temp_c, ambient_c).compressor_on,
{
}

/// A compressor that has not rested long enough does not start.
pub proof fn compressor_rests(
    s: HpState,
    overheated: bool,
    control_temp_c: Double,
    ambient_c: Double,
)
    requires
        !s.compressor_on,
        !elapsed(s.compressor_off_since_s, s.min_off_time_s),
    ensures
        !s.switched(overheated, control_temp_c, ambient_c).compressor_on,
{
}

/// A compressor that has not run long enough keeps running, unless the tank is too hot,
/// the load is shed, the air leaves its range, or an override takes over.
pub proof fn compressor_runs_its_time(s: HpState, control_temp_c: Double, ambient_c: Double)
    requires
        s.compressor_on,
        !elapsed(s.compressor_on_since_s, s.min_on_time_s),
        !s.dr.load_fraction.le(Double::zero()),
        s.ambient_in_range(ambient_c),
        s.mode_override is None,
    ensures
        s.switched(false, control_temp_c, ambient_c).compressor_on,
{
}

/// While the compressor runs one clock runs, and while it rests the other.
pub proof fn one_clock_runs(s: HpState, dt_s: Double)
    ensures
        s.timed(dt_s).compressor_on == s.compressor_on,
        s.timed(dt_s).compressor_on_since_s is Some == s.compressor_on,
        s.timed(dt_s).compressor_off_since_s is Some == !s.compressor_on,
{
}

/// The coefficient of performance that is reported lies between 0 and 8, as long as the
/// curve gives a number.
pub proof fn reported_cop_is_physical(s: HpState, outside: HpOutside)
    requires
        !outside.cop_curve_value.times(s.cop_scale).is_nan(),
    ensures
        s.performance(outside).cop.ge(Double::zero()),
        s.performance(outside).cop.le(Double::whole(8)),
        s.performance(outside).cop.is_finite(),
{
    crate::double_laws::whole_is_small(8);
    crate::double_laws::bounded_is_positive(Double::whole(8), 0);
}

/// A heater at rest takes nothing but its standby power.
pub proof fn resting_heat_pump_takes_standby_power(s: HpState, outside: HpOutside)
    requires
        !s.compressor_on,
        !s.backup_on,
        s.parasitic_power_w.is_finite(),
        s.parasitic_power_w.gt(Double::zero()),
    ensures
        s.performance(outside).rated_electric_w() == s.parasitic_power_w,
        s.performance(outside).compressor_power_w == Double::zero(),
        s.performance(outside).backup_power_w == Double::zero(),
{
    crate::double_laws::sum_of_zeros(Double::zero(), Double::zero());
    crate::double_laws::plus_zero(
        Double::zero().plus(Double::zero()),
        s.parasitic_power_w,
    );
}

// ---------------------------------------------------------------------------
// Tankless
// ---------------------------------------------------------------------------

/// A tankless heater that is off lets the water through as it is, and burns nothing.
pub proof fn water_passes_through_when_off(
    s: TanklessState,
    mode: OperatingMode,
    draw_kg_s: Double,
    inlet_temp_c: Double,
    cp_j_kg_k: Double,
)
    requires
        mode != OperatingMode::Heating,
    ensures
        s.output(mode, draw_kg_s, inlet_temp_c, cp_j_kg_k) == (Double::zero(), inlet_temp_c),
{
}

/// A flow that is not above the least one fires no burner.
pub proof fn small_flows_do_not_fire(
    s: TanklessState,
    mode: OperatingMode,
    draw_kg_s: Double,
    inlet_temp_c: Double,
    cp_j_kg_k: Double,
)
    requires
        draw_kg_s.le(s.min_flow_kg_s),
    ensures
        s.output(mode, draw_kg_s, inlet_temp_c, cp_j_kg_k).0 == Double::zero(),
{
}

/// A tankless heater gives no more heat than its capacity at its duty, and takes no more
/// than that over its efficiency.
pub proof fn tankless_keeps_to_its_capacity(
    s: TanklessState,
    mode: OperatingMode,
    draw_kg_s: Double,
    inlet_temp_c: Double,
    cp_j_kg_k: Double,
)
    requires
        s.effective_max_w().times(s.duty()).is_finite(),
        s.effective_max_w().times(s.duty()).ge(Double::zero()),
        s.efficiency_factor.is_finite(),
        s.efficiency_factor.gt(Double::zero()),
        draw_kg_s.times(cp_j_kg_k).times(
            s.effective_setpoint_c().minus(inlet_temp_c).max(Double::zero()),
        ).times(s.duty()).ge(Double::zero()),
    ensures
        ({
            let heat_w = s.output(mode, draw_kg_s, inlet_temp_c, cp_j_kg_k).0;
            let capacity_w = s.effective_max_w().times(s.duty());
            &&& heat_w.le(capacity_w)
            &&& heat_w.over(s.efficiency_factor).le(capacity_w.over(s.efficiency_factor))
        }),
{
    let heat_w = s.output(mode, draw_kg_s, inlet_temp_c, cp_j_kg_k).0;
    crate::double_laws::quotients_keep_order(
        heat_w,
        s.effective_max_w().times(s.duty()),
        s.efficiency_factor,
    );
}

/// On a dead bus an electric unit does not fire, and a unit that burns fuel draws no
/// power.
pub proof fn outages_cut_the_power(s: TanklessState, fuel_input_w: Double)
    ensures
        s.fuel_type == FuelType::Electric ==> s.mode(false) == OperatingMode::Off,
        s.fuel_type != FuelType::Electric ==> s.mode(false) == s.mode(true),
        s.fuel_type != FuelType::Electric ==> s.electric_w(fuel_input_w, false) == Double::zero(),
{
}

/// A power limit is for one step: after it the heater has its rated power again.
pub proof fn power_limits_last_one_step(
    s: TanklessState,
    d: crate::tankless::TanklessDelivery,
    reactive_kvar: Double,
    mode: OperatingMode,
)
    ensures
        s.finished(d, reactive_kvar, mode).power_limit_w is None,
        s.finished(d, reactive_kvar, mode).effective_max_w() == s.rated_thermal_power_w,
        s.finished(d, reactive_kvar, mode).ctrl_load_fraction == Double::one(),
{
}

// ---------------------------------------------------------------------------
// What is saved comes back
// ---------------------------------------------------------------------------

/// A gas heater that loads what it saved has the control settings that it had.
pub proof fn gas_round_trip(heater: GasWH, saved: GasWhState)
    requires
        heater.saved_as(saved),
    ensures
        heater.state.with_saved_control(saved) == heater.state,
        heater.tank@.with_temps(saved.tank_state.node_temps_c@) == heater.tank@,
{
}

/// A resistance heater that loads what it saved has the control settings that it had.
pub proof fn resistance_round_trip(heater: ResistanceWH, saved: ResistanceWhState)
    requires
        heater.saved_as(saved),
    ensures
        heater.state.with_saved_control(saved) == heater.state,
        heater.tank@.with_temps(saved.tank_state.node_temps_c@) == heater.tank@,
{
}

/// A heat pump heater that loads what it saved has the control settings that it had.
pub proof fn heat_pump_round_trip(heater: HeatPumpWH, saved: HpwhState)
    requires
        heater.saved_as(saved),
    ensures
        heater.state.with_saved_control(saved) == heater.state,
        heater.tank@.with_temps(saved.tank_state.node_temps_c@) == heater.tank@,
{
}

/// An indirect tank that loads what it saved has all the settings that it had.
pub proof fn indirect_round_trip(heater: IndirectTank, saved: IndirectTankState)
    requires
        heater.saved_as(saved),
    ensures
        heater.state.with_saved(saved) == (IndirectState {
            core_output: crate::types::CoreOutput::empty(),
            ..heater.state
        }),
        heater.tank@.with_temps(saved.tank_state.node_temps_c@) == heater.tank@,
{
}

/// A tankless heater that loads what it saved has the settings and the figures that it
/// had, but for the mode, which follows from its output, and the figures that every
/// heater reports, which start anew.
pub proof fn tankless_round_trip(s: TanklessState)
    ensures
        s.with_saved(s.saved()) == (TanklessState {
            telemetry: crate::tankless::TanklessTelemetry {
                operating_mode: if s.telemetry.thermal_output_w.gt(Double::zero()) {
                    Double::one()
                } else {
                    Double::zero()
                },
                ..s.telemetry
            },
            core_output: crate::types::CoreOutput::empty(),
            ..s
        }),
        s.with_saved(s.saved()).saved() == s.saved(),
{
}

/// What one gas heater saves, another one takes over: `loaded`, which had the state `other`
/// before it loaded, would save the same.
pub proof fn gas_checkpoints_carry_over(
    saved: GasWhState,
    other: GasState,
    tank: TankModel,
    loaded: GasWH,
)
    requires
        loaded.state == other.with_saved(saved),
        loaded.tank@ == tank.with_temps(saved.tank_state.node_temps_c@),
    ensures
        loaded.saved_as(saved),
{
}

/// What one resistance heater saves, another one takes over: `loaded`, which had the state `other`
/// before it loaded, would save the same.
pub proof fn resistance_checkpoints_carry_over(
    saved: ResistanceWhState,
    other: ResistanceState,
    tank: TankModel,
    loaded: ResistanceWH,
)
    requires
        loaded.state == other.with_saved(saved),
        loaded.tank@ == tank.with_temps(saved.tank_state.node_temps_c@),
    ensures
        loaded.saved_as(saved),
{
}

/// What one heat pump heater saves, another one takes over: `loaded`, which had the state `other`
/// before it loaded, would save the same.
pub proof fn heat_pump_checkpoints_carry_over(
    saved: HpwhState,
    other: HpState,
    tank: TankModel,
    loaded: HeatPumpWH,
)
    requires
        loaded.state == other.with_saved(saved),
        loaded.tank@ == tank.with_temps(saved.tank_state.node_temps_c@),
    ensures
        loaded.saved_as(saved),
{
}

/// What one indirect tank saves, another one takes over: `loaded`, which had the state `other`
/// before it loaded, would save the same.
pub proof fn indirect_checkpoints_carry_over(
    saved: IndirectTankState,
    other: IndirectState,
    tank: TankModel,
    loaded: IndirectTank,
)
    requires
        loaded.state == other.with_saved(saved),
        loaded.tank@ == tank.with_temps(saved.tank_state.node_temps_c@),
    ensures
        loaded.saved_as(saved),
{
}

/// What one tankless heater saves, another one takes over, but for its power limit.
pub proof fn tankless_checkpoints_carry_over(from: TanklessState, to: TanklessState)
    ensures
        to.with_saved(from.saved()).saved() == from.saved(),
        to.with_saved(from.saved()).power_limit_w == to.power_limit_w,
{
}

// ---------------------------------------------------------------------------
// Setpoints that move at a rate
// ---------------------------------------------------------------------------

/// A resistance heater whose setpoint and target are finite can move its setpoint in a step
/// of any length; neither time nor a control signal changes that.
pub proof fn resistance_setpoints_keep_moving(
    s: ResistanceState,
    dt_s: Double,
    overheated: bool,
    upper_temp_c: Double,
    lower_temp_c: Double,
    signal: ControlSignal,
)
    requires
        s.ramps_finitely(),
        crate::tank::is_nonnegative(dt_s),
    ensures
        s.can_ramp(dt_s),
        s.later(dt_s).switched(overheated, upper_temp_c, lower_temp_c).ramps_finitely(),
        s.applied(signal).0.ramps_finitely(),
{
    if let Some(rate) = s.setpoint_ramp_rate_c_per_s {
        crate::shared::finite_setpoints_can_move(s.setpoint_c, s.target_setpoint_c, rate, dt_s);
    }
}

/// A heat pump heater whose setpoint and target are finite can move its setpoint in a step
/// of any length; neither time nor a control signal changes that.
pub proof fn heat_pump_setpoints_keep_moving(
    s: HpState,
    dt_s: Double,
    overheated: bool,
    control_temp_c: Double,
    ambient_c: Double,
    signal: ControlSignal,
)
    requires
        s.ramps_finitely(),
        crate::tank::is_nonnegative(dt_s),
    ensures
        s.can_ramp(dt_s),
        s.later(dt_s).switched(overheated, control_temp_c, ambient_c).ramps_finitely(),
        s.applied(signal).0.ramps_finitely(),
{
    if let Some(rate) = s.setpoint_ramp_rate_c_per_s {
        crate::shared::finite_setpoints_can_move(s.setpoint_c, s.target_setpoint_c, rate, dt_s);
    }
}

// ---------------------------------------------------------------------------
// Conservation
// ---------------------------------------------------------------------------

/// The heat of a standing pilot goes to the water and to the zone, and nowhere else: the
/// two shares add up to it but for one part in `2^52` and the smallest positive number.
pub proof fn pilot_heat_is_conserved(gas: GasState, duty: Double)
    requires
        gas.pilot_power_w.is_finite(),
        gas.pilot_power_w.ge(Double::zero()),
        gas.pilot_fraction_to_tank.ge(Double::zero()),
        gas.pilot_fraction_to_tank.le(Double::one()),
    ensures
        ({
            let firing = gas.firing(duty);
            let sum = firing.pilot_heat_to_water_w.units()
                + firing.pilot_heat_to_ambient_w.units();
            &&& firing.pilot_heat_to_water_w.is_finite()
            &&& firing.pilot_heat_to_ambient_w.is_finite()
            &&& crate::precision::size(sum - gas.pilot_power_w.units()) * P53 <= 2
                * gas.pilot_power_w.units() + P53
        }),
{
    crate::double_laws::lemma_units_zero();
    crate::double_laws::order_agrees_with_value(Double::zero(), gas.pilot_power_w);
    crate::precision::shares_add_up(gas.pilot_power_w, gas.pilot_fraction_to_tank);
}

/// Where both elements may run at once, they keep to their limit together, but for two parts
/// in `2^53`, whatever the power of each.
pub proof fn elements_keep_to_their_limit(
    r: ResistanceState,
    max_w: Double,
    upper_w: Double,
    lower_w: Double,
)
    requires
        r.element_priority == ElementPriorityMode::Simultaneous,
        r.max_combined_power_w == Some(max_w),
        max_w.is_finite(),
        max_w.ge(Double::zero()),
        upper_w.is_finite(),
        lower_w.is_finite(),
        upper_w.ge(Double::zero()),
        lower_w.ge(Double::zero()),
    ensures
        ({
            let upper = r.capped_upper(upper_w);
            let lower = r.capped_lower(upper, lower_w);
            &&& upper.is_finite()
            &&& upper.ge(Double::zero())
            &&& upper.le(max_w)
            &&& lower.is_finite()
            &&& lower.ge(Double::zero())
            &&& (upper.units() + lower.units()) * P53 <= max_w.units() * P53 + 2
                * max_w.units()
        }),
{
    let zero = Double::zero();
    let upper = r.capped_upper(upper_w);
    crate::double_laws::lemma_units_zero();
    crate::double_laws::order_agrees_with_value(upper_w, max_w);
    crate::double_laws::order_agrees_with_value(zero, upper);
    crate::double_laws::order_agrees_with_value(zero, lower_w);
    crate::double_laws::order_agrees_with_value(upper, max_w);
    let sum = upper.plus(lower_w);
    if sum.gt(max_w) {
        crate::draws::lemma_moved_edge(max_w, upper);
        crate::double_laws::order_agrees_with_value(zero, max_w.minus(upper));
    } else {
        crate::double_laws::steps_are_ordered(upper, lower_w);
        assert(sum.is_finite());
        crate::double_laws::order_agrees_with_value(sum, max_w);
        crate::precision::sums_are_close(upper, lower_w);
    }
}

/// The heat that a heat pump takes from its zone is what it delivers less what its
/// compressor draws: the power of the compressor times the coefficient of performance less
/// one, but for three parts in `2^53` and the smallest positive number. The coefficient is
/// the one that is reported where it lies between a millionth and 8.
pub proof fn heat_pumps_balance(hp: HpState, outside: HpOutside)
    requires
        ({
            let p = hp.performance(outside);
            &&& p.delivered_hp_w.is_finite()
            &&& p.zone_heat_extraction_w().is_finite()
        }),
    ensures
        ({
            let p = hp.performance(outside);
            let cop = outside.cop_curve_value.times(hp.cop_scale).max(Double::ratio(1, 1_000_000));
            let one = pow2(1074);
            let power = p.compressor_power_w.units();
            crate::precision::size(
                p.zone_heat_extraction_w().units() * one - power * (cop.units() - one),
            ) * P53 <= 3 * crate::precision::size(power * cop.units()) + crate::precision::size(
                power,
            ) * one + one * P53
        }),
        ({
            let raw = outside.cop_curve_value.times(hp.cop_scale);
            raw.ge(Double::ratio(1, 1_000_000)) && raw.le(Double::whole(8)) ==> hp.performance(
                outside,
            ).cop == raw.max(Double::ratio(1, 1_000_000))
        }),
{
    crate::double_laws::ratio_is_moderate(1, 1_000_000);
    let p = hp.performance(outside);
    let cop = outside.cop_curve_value.times(hp.cop_scale).max(Double::ratio(1, 1_000_000));
    let delivered = p.delivered_hp_w;
    let drawn = p.compressor_power_w;
    crate::double_laws::lemma_product_of_finite(drawn, cop);
    crate::precision::products_are_close(drawn, cop);
    crate::precision::differences_are_close(delivered, drawn);
    lemma_extraction(
        p.zone_heat_extraction_w().units(),
        delivered.units(),
        drawn.units(),
        cop.units(),
        pow2(1074) as int,
    );
}

proof fn lemma_extraction(x: int, delivered: int, power: int, cop: int, s: int)
    requires
        0 <= s,
        crate::precision::size(delivered * s - power * cop) * P53 <= crate::precision::size(
            power * cop,
        ) + s * P52,
        crate::precision::size(x - (delivered - power)) * P53 <= crate::precision::size(
            delivered - power,
        ),
    ensures
        crate::precision::size(x * s - power * (cop - s)) * P53 <= 3 * crate::precision::size(
            power * cop,
        ) + crate::precision::size(power) * s + s * P53,
{
    let y = delivered - power;
    crate::precision::lemma_size_of_product(x - y, s);
    crate::precision::lemma_size_of_product(y, s);
    crate::precision::lemma_size_of_product(power, s);
    assert((x - y) * s == x * s - y * s && y * s == delivered * s - power * s && power * (cop - s)
        == power * cop - power * s) by (nonlinear_arith)
        requires
            y == delivered - power,
    ;
    assert(crate::precision::size((x - y) * s) * P53 <= crate::precision::size(y * s))
        by (nonlinear_arith)
        requires
            crate::precision::size((x - y) * s) == crate::precision::size(x - y) * s,
            crate::precision::size(y * s) == crate::precision::size(y) * s,
            crate::precision::size(x - y) * P53 <= crate::precision::size(y),
            s >= 0,
    ;
}

/// What a heat pump heater gives to its zone is split between the air and the walls, and
/// nothing is lost: the two add up to the whole but for one part in `2^52` and the smallest
/// positive number.
pub proof fn wall_split_keeps_heat(
    hp: HpState,
    p: HpPerformance,
    dry_bulb_c: Double,
    wet_bulb_c: Double,
)
    requires
        hp.wall_heat_fraction.ge(Double::zero()),
        hp.wall_heat_fraction.le(Double::one()),
        (HpState { wall_heat_fraction: Double::zero(), ..hp }).gains(
            p,
            dry_bulb_c,
            wet_bulb_c,
        ).sensible_to_zone_w.is_finite(),
    ensures
        ({
            let gains = hp.gains(p, dry_bulb_c, wet_bulb_c);
            let whole = (HpState { wall_heat_fraction: Double::zero(), ..hp }).gains(
                p,
                dry_bulb_c,
                wet_bulb_c,
            ).sensible_to_zone_w.units();
            crate::precision::size(
                gains.sensible_to_wall_w.units() + gains.sensible_to_zone_w.units() - whole,
            ) * P53 <= 2 * crate::precision::size(whole) + P53
        }),
{
    let shr = if dry_bulb_c.minus(wet_bulb_c).gt(Double::ratio(1, 10)) {
        hp.shr
    } else {
        Double::one()
    };
    let gain = p.compressor_power_w.minus(p.delivered_hp_w).times(shr).plus(
        p.fan_parasitic_w,
    ).plus(p.backup_power_w.minus(p.delivered_er_w)).times(
        Double::one().minus(hp.lost_heat_fraction),
    );
    crate::precision::lemma_one_units();
    lemma_pow2_pos(1074);
    crate::precision::lemma_less_zero(Double::one());
    crate::double_laws::lemma_product_of_finite(gain, Double::one());
    crate::double_laws::times_one(gain);
    crate::precision::shares_add_up(gain, hp.wall_heat_fraction);
}

// ---------------------------------------------------------------------------
// Electric loads
// ---------------------------------------------------------------------------

/// Without voltage a load draws nothing.
pub proof fn outages_draw_nothing(zip: WaterHeaterZip, rated_w: Double)
    ensures
        zip.apply(rated_w, Double::zero()) == (Double::zero(), Double::zero()),
{
}

/// A load of constant power draws its rated power at any voltage, and no reactive power.
pub proof fn constant_power_is_constant(rated_w: Double, voltage_pu: Double)
    requires
        rated_w.is_finite(),
        voltage_pu.is_finite(),
        !voltage_pu.same(Double::zero()),
    ensures
        ({
            let (p, q) = WaterHeaterZip::constant_power().apply(rated_w, voltage_pu);
            &&& p.same(rated_w)
            &&& q.same(Double::zero())
        }),
{
    if !rated_w.same(Double::zero()) {
        let v = voltage_pu.over(Double::one());
        crate::double_laws::over_one(voltage_pu);
        let zv = Double::zero().times(v);
        crate::double_laws::zero_times(Double::zero(), v);
        crate::double_laws::zero_times(zv, v);
        let sum = zv.times(v).plus(zv);
        crate::double_laws::sum_of_zeros(zv.times(v), zv);
        crate::double_laws::plus_zero(sum, Double::one());
        crate::double_laws::times_one(rated_w);
        let kw = rated_w.over(Double::whole(1000));
        crate::double_laws::whole_is_small(1000);
        crate::double_laws::over_at_least_one_is_finite(rated_w, Double::whole(1000));
        crate::double_laws::times_zero(kw, Double::zero());
        crate::double_laws::zero_times(kw.times(Double::zero()), Double::one());
    }
}

} // verus!
