//! Laws of thermostats: where their sensors are, and when they turn a heater on and off.
use vstd::arithmetic::power2::*;
use vstd::prelude::*;

use crate::approx::{
    near, near_itself, near_rescaled, near_times, parts_of_near, parts_plus, ratio_is_tame, tame,
    tame_minus, tame_plus, tame_units, within_parts,
};
use crate::double::Double;
use crate::gas::GasState;
use crate::heat_pump_wh::HpState;
use crate::hpwh_compressor::ElementHpControlMode;
use crate::indirect_tank::IndirectState;
use crate::precision::{size, P50};
use crate::resistance::{ElementPriorityMode, ResistanceState};
use crate::types::OperatingMode;

verus! {

// ---------------------------------------------------------------------------
// Sensors
// ---------------------------------------------------------------------------

/// The thermostat of a heat pump goes by three quarters of the upper node and a quarter of the
/// lower one.
pub proof fn heat_pumps_weigh_two_nodes(upper_c: Double, lower_c: Double)
    requires
        tame(upper_c, 40),
        tame(lower_c, 40),
    ensures
        within_parts(
            crate::heat_pump_wh::composite_temp_c(upper_c, lower_c),
            3 * upper_c.units() + lower_c.units(),
            4,
            size(3 * upper_c.units()) + size(lower_c.units()),
            3,
        ),
{
    let h = pow2(1074) as int;
    lemma_pow2_pos(1074);
    let u = upper_c.units();
    let l = lower_c.units();
    ratio_is_tame(3, 4);
    ratio_is_tame(1, 4);
    tame_units(upper_c, 40);
    tame_units(lower_c, 40);
    near_itself(upper_c);
    near_itself(lower_c);
    let a = Double::ratio(3, 4).times(upper_c);
    let b = Double::ratio(1, 4).times(lower_c);
    near_times(Double::ratio(3, 4), 53, 3 * h, 4, 1, upper_c, 40, u, 1, 0);
    assert(((3 * h) * u) * 4 == (3 * u) * (4 * 1 * h)) by (nonlinear_arith);
    near_rescaled(a, (3 * h) * u, 4 * 1 * h, 2, 3 * u, 4);
    near_times(Double::ratio(1, 4), 53, 1 * h, 4, 1, lower_c, 40, l, 1, 0);
    assert(((1 * h) * l) * 4 == l * (4 * 1 * h)) by (nonlinear_arith);
    near_rescaled(b, (1 * h) * l, 4 * 1 * h, 2, l, 4);
    parts_of_near(a, 3 * u, 4, 2);
    parts_of_near(b, l, 4, 2);
    tame_plus(a, b, 93);
    parts_plus(a, 3 * u, size(3 * u), b, l, size(l), 4, 2);
}

/// The mean of two temperatures.
proof fn lemma_mean(a: Double, b: Double)
    requires
        tame(a, 40),
        tame(b, 40),
    ensures
        near(a.plus(b).times(Double::ratio(1, 2)), a.units() + b.units(), 2, 3),
{
    let h = pow2(1074) as int;
    lemma_pow2_pos(1074);
    tame_units(a, 40);
    tame_units(b, 40);
    tame_plus(a, b, 40);
    crate::approx::near_sum(a, b);
    ratio_is_tame(1, 2);
    let s = a.units() + b.units();
    near_times(a.plus(b), 92, s, 1, 1, Double::ratio(1, 2), 53, 1 * h, 2, 1);
    assert((s * (1 * h)) * 2 == s * (1 * 2 * h)) by (nonlinear_arith);
    near_rescaled(
        a.plus(b).times(Double::ratio(1, 2)),
        s * (1 * h),
        1 * 2 * h,
        3,
        s,
        2,
    );
}

/// The lower thermostat of a resistance heater goes by the mean of its node and the one above,
/// in a tank of three nodes or more.
pub proof fn lower_thermostats_average(temps: Seq<Double>, lower_node: int)
    requires
        0 < lower_node < temps.len(),
        3 <= temps.len(),
        tame(temps[lower_node], 40),
        tame(temps[lower_node - 1], 40),
    ensures
        near(
            crate::resistance::lower_sensor(temps, lower_node),
            temps[lower_node].units() + temps[lower_node - 1].units(),
            2,
            3,
        ),
{
    lemma_mean(temps[lower_node], temps[lower_node - 1]);
}

/// The thermostat of an indirect tank goes by the mean of its two lowest nodes, in a tank of
/// three nodes or more.
pub proof fn coils_go_by_the_lowest_nodes(temps: Seq<Double>)
    requires
        3 <= temps.len(),
        tame(temps[temps.len() - 1], 40),
        tame(temps[temps.len() - 2], 40),
    ensures
        near(
            crate::indirect_tank::bottom_temp(temps),
            temps[temps.len() - 1].units() + temps[temps.len() - 2].units(),
            2,
            3,
        ),
{
    lemma_mean(temps[temps.len() - 1], temps[temps.len() - 2]);
}

// ---------------------------------------------------------------------------
// Calls
// ---------------------------------------------------------------------------

/// Whether a thermostat calls, by what it did before: one that was on calls below the target;
/// one that was off calls at the target less the deadband or below, and not above that by more
/// than a rounding.
pub open spec fn calls(
    sensor_c: Double,
    target_c: Double,
    deadband_c: Double,
    before: bool,
    now: bool,
) -> bool {
    let floor = target_c.units() - deadband_c.units();
    &&& before ==> (now <==> sensor_c.units() < target_c.units())
    &&& !before && sensor_c.units() <= floor ==> now
    &&& !before && (sensor_c.units() - floor) * P50 > size(floor) ==> !now
}

/// Temperatures that a thermostat can go by.
pub open spec fn is_sensible(sensor_c: Double, target_c: Double, deadband_c: Double) -> bool {
    &&& tame(sensor_c, 40)
    &&& tame(target_c, 40)
    &&& tame(deadband_c, 40)
}

/// The target of a thermostat: the setpoint and what the grid asks for, together.
pub open spec fn is_target(target_c: Double, setpoint_c: Double, offset_c: Double) -> bool {
    near(target_c, setpoint_c.units() + offset_c.units(), 1, 1)
}

pub(crate) proof fn lemma_calls(sensor_c: Double, target_c: Double, deadband_c: Double, before: bool)
    requires
        is_sensible(sensor_c, target_c, deadband_c),
    ensures
        calls(
            sensor_c,
            target_c,
            deadband_c,
            before,
            crate::shared::hysteresis_call(sensor_c, target_c, deadband_c, before),
        ),
{
    tame_units(sensor_c, 40);
    tame_units(target_c, 40);
    tame_units(deadband_c, 40);
    tame_minus(target_c, deadband_c, 40);
    let floor = target_c.minus(deadband_c);
    let exact = target_c.units() - deadband_c.units();
    crate::double_laws::order_agrees_with_value(sensor_c, target_c);
    crate::double_laws::order_agrees_with_value(sensor_c, floor);
    assert(size(floor.units() * 1 - exact) * P50 <= 1 * size(exact));
    if sensor_c.units() <= exact {
        lemma_floor(sensor_c, target_c, deadband_c);
    }
}

/// What is no more than an exact difference is no more than the difference as rounded.
proof fn lemma_floor(x: Double, a: Double, b: Double)
    requires
        x.is_finite(),
        a.is_finite(),
        b.is_finite(),
        a.minus(b).is_finite(),
        x.units() <= a.units() - b.units(),
    ensures
        x.units() <= a.minus(b).units(),
{
    reveal(Double::spec_plus);
    crate::double_laws::lemma_signed_mag(b.mag());
    assert(b.negate().units() == -b.units());
    let e = a.units() - b.units();
    crate::double_laws::rounding_keeps_order(
        x.units(),
        e,
        false,
        a.negative() && b.negate().negative(),
    );
    crate::double_laws::rounding_keeps_finite(x, false);
    crate::double_laws::order_agrees_with_value(x, a.minus(b));
}

/// A gas heater that nothing sheds, switches off or overheats fires as its thermostat calls, and
/// nothing else about it changes.
pub proof fn burners_fire_as_called(s: GasState, dt_s: Double, burner_temp_c: Double)
    requires
        s.dr.duration_remaining_s is None,
        !s.dr.load_fraction.le(Double::zero()),
        !s.duty_cycle.le(Double::zero()),
        s.mode_override != Some(OperatingMode::Off),
        s.setpoint_c.is_finite(),
        s.dr.setpoint_offset_c.is_finite(),
        is_sensible(burner_temp_c, s.setpoint_c.plus(s.dr.setpoint_offset_c), s.deadband_c),
    ensures
        ({
            let after = s.controlled(dt_s, false, burner_temp_c);
            &&& after == (GasState { burner_on: after.burner_on, ..s })
            &&& exists|target_c: Double|
                #![trigger calls(
                    burner_temp_c,
                    target_c,
                    s.deadband_c,
                    s.burner_on,
                    after.burner_on,
                )]
                {
                    &&& is_target(target_c, s.setpoint_c, s.dr.setpoint_offset_c)
                    &&& calls(
                        burner_temp_c,
                        target_c,
                        s.deadband_c,
                        s.burner_on,
                        after.burner_on,
                    )
                }
        }),
{
    let target_c = s.setpoint_c.plus(s.dr.setpoint_offset_c);
    tame_units(target_c, 40);
    crate::approx::near_sum(s.setpoint_c, s.dr.setpoint_offset_c);
    lemma_calls(burner_temp_c, target_c, s.deadband_c, s.burner_on);
    let after = s.controlled(dt_s, false, burner_temp_c);
    assert(calls(burner_temp_c, target_c, s.deadband_c, s.burner_on, after.burner_on));
}

/// An indirect tank that nothing sheds, switches off or overheats heats as its thermostat calls,
/// and nothing else about it changes.
pub proof fn coils_heat_as_called(s: IndirectState, dt_s: Double, bottom_temp_c: Double)
    requires
        s.dr.duration_remaining_s is None,
        !s.dr.load_fraction.le(Double::zero()),
        !s.duty_cycle.le(Double::zero()),
        s.mode_override != Some(OperatingMode::Off),
        s.setpoint_c.is_finite(),
        s.dr.setpoint_offset_c.is_finite(),
        is_sensible(bottom_temp_c, s.setpoint_c.plus(s.dr.setpoint_offset_c), s.deadband_c),
    ensures
        ({
            let after = s.switched(dt_s, false, bottom_temp_c);
            &&& after == (IndirectState { heating_on: after.heating_on, ..s })
            &&& exists|target_c: Double|
                #![trigger calls(
                    bottom_temp_c,
                    target_c,
                    s.deadband_c,
                    s.heating_on,
                    after.heating_on,
                )]
                {
                    &&& is_target(target_c, s.setpoint_c, s.dr.setpoint_offset_c)
                    &&& calls(
                        bottom_temp_c,
                        target_c,
                        s.deadband_c,
                        s.heating_on,
                        after.heating_on,
                    )
                }
        }),
{
    let target_c = s.setpoint_c.plus(s.dr.setpoint_offset_c);
    tame_units(target_c, 40);
    crate::approx::near_sum(s.setpoint_c, s.dr.setpoint_offset_c);
    lemma_calls(bottom_temp_c, target_c, s.deadband_c, s.heating_on);
    let after = s.switched(dt_s, false, bottom_temp_c);
    assert(calls(bottom_temp_c, target_c, s.deadband_c, s.heating_on, after.heating_on));
}

/// The elements of a resistance heater that nothing sheds, switches off or overheats heat as
/// their thermostats call, each by its own; but a master that heats locks out its slave.
pub proof fn elements_heat_as_called(s: ResistanceState, upper_c: Double, lower_c: Double)
    requires
        !s.dr.load_fraction.le(Double::zero()),
        !s.duty_cycle.le(Double::zero()),
        s.mode_override != Some(OperatingMode::Off),
        s.setpoint_c.is_finite(),
        s.dr.setpoint_offset_c.is_finite(),
        is_sensible(upper_c, s.setpoint_c.plus(s.dr.setpoint_offset_c), s.deadband_c),
        is_sensible(lower_c, s.setpoint_c.plus(s.dr.setpoint_offset_c), s.deadband_c),
    ensures
        ({
            let after = s.switched(false, upper_c, lower_c);
            let target_c = s.setpoint_c.plus(s.dr.setpoint_offset_c);
            &&& is_target(target_c, s.setpoint_c, s.dr.setpoint_offset_c)
            &&& after == (ResistanceState {
                upper_element_on: after.upper_element_on,
                lower_element_on: after.lower_element_on,
                ..s
            })
            &&& calls(
                upper_c,
                target_c,
                s.deadband_c,
                s.upper_element_on,
                after.upper_element_on,
            )
            &&& if after.upper_element_on && s.element_priority
                == ElementPriorityMode::MasterSlave {
                !after.lower_element_on
            } else {
                calls(lower_c, target_c, s.deadband_c, s.lower_element_on, after.lower_element_on)
            }
        }),
{
    let target_c = s.setpoint_c.plus(s.dr.setpoint_offset_c);
    tame_units(target_c, 40);
    crate::approx::near_sum(s.setpoint_c, s.dr.setpoint_offset_c);
    lemma_calls(upper_c, target_c, s.deadband_c, s.upper_element_on);
    lemma_calls(lower_c, target_c, s.deadband_c, s.lower_element_on);
}

/// How a heat pump under automatic control starts from rest, once its compressor has rested: in
/// air that suits the compressor, the compressor starts as the thermostat calls, and the backup
/// element joins it only where both may run, in a tank colder than the target by its offset. In
/// other air the backup element starts in its place, unless it is barred.
pub proof fn heat_pumps_start_as_called(s: HpState, control_c: Double, ambient_c: Double)
    requires
        !s.compressor_on,
        !s.backup_on,
        s.compressor_off_since_s is None,
        s.compressor_on_since_s is None,
        s.mode_override is None,
        s.duty_cycle.gt(Double::zero()),
        !s.dr.load_fraction.le(Double::zero()),
        s.setpoint_c.is_finite(),
        s.dr.setpoint_offset_c.is_finite(),
        is_sensible(control_c, s.setpoint_c.plus(s.dr.setpoint_offset_c), s.deadband_c),
        is_sensible(
            control_c,
            s.setpoint_c.plus(s.dr.setpoint_offset_c),
            s.backup_enable_offset_c,
        ),
        ambient_c.is_finite(),
        s.min_ambient_temp_c.is_finite(),
        s.max_ambient_temp_c.is_finite(),
    ensures
        ({
            let after = s.switched(false, control_c, ambient_c);
            let target_c = s.setpoint_c.plus(s.dr.setpoint_offset_c);
            let suits = s.min_ambient_temp_c.units() <= ambient_c.units()
                <= s.max_ambient_temp_c.units();
            &&& is_target(target_c, s.setpoint_c, s.dr.setpoint_offset_c)
            &&& after == (HpState {
                compressor_on: after.compressor_on,
                backup_on: after.backup_on,
                ..s
            })
            &&& suits ==> calls(control_c, target_c, s.deadband_c, false, after.compressor_on)
            &&& suits && (s.element_hp_control == ElementHpControlMode::MutuallyExclusive
                || s.hp_only_mode) ==> !after.backup_on
            &&& suits && s.element_hp_control == ElementHpControlMode::Simultaneous
                && !s.hp_only_mode ==> {
                &&& after.backup_on ==> after.compressor_on
                &&& after.compressor_on ==> calls(
                    control_c,
                    target_c,
                    s.backup_enable_offset_c,
                    false,
                    after.backup_on,
                )
            }
            &&& !suits ==> !after.compressor_on
            &&& !suits && !s.hp_only_mode ==> calls(
                control_c,
                target_c,
                s.deadband_c,
                false,
                after.backup_on,
            )
            &&& !suits && s.hp_only_mode ==> !after.backup_on
        }),
{
    let target_c = s.setpoint_c.plus(s.dr.setpoint_offset_c);
    tame_units(target_c, 40);
    crate::approx::near_sum(s.setpoint_c, s.dr.setpoint_offset_c);
    lemma_calls(control_c, target_c, s.deadband_c, false);
    lemma_calls(control_c, target_c, s.backup_enable_offset_c, false);
    crate::double_laws::order_agrees_with_value(s.min_ambient_temp_c, ambient_c);
    crate::double_laws::order_agrees_with_value(ambient_c, s.max_ambient_temp_c);
}

/// How a heat pump under automatic control stops, once its compressor has run its time: in air
/// that suits the compressor it runs on below the target, and stops there.
pub proof fn heat_pumps_stop_at_the_target(s: HpState, control_c: Double, ambient_c: Double)
    requires
        s.compressor_on,
        s.compressor_on_since_s is None,
        s.compressor_off_since_s is None,
        s.mode_override is None,
        s.duty_cycle.gt(Double::zero()),
        !s.dr.load_fraction.le(Double::zero()),
        s.setpoint_c.is_finite(),
        s.dr.setpoint_offset_c.is_finite(),
        is_sensible(control_c, s.setpoint_c.plus(s.dr.setpoint_offset_c), s.deadband_c),
        ambient_c.is_finite(),
        s.min_ambient_temp_c.is_finite(),
        s.max_ambient_temp_c.is_finite(),
        s.min_ambient_temp_c.units() <= ambient_c.units() <= s.max_ambient_temp_c.units(),
    ensures
        ({
            let after = s.switched(false, control_c, ambient_c);
            let target_c = s.setpoint_c.plus(s.dr.setpoint_offset_c);
            &&& is_target(target_c, s.setpoint_c, s.dr.setpoint_offset_c)
            &&& after.compressor_on <==> control_c.units() < target_c.units()
        }),
{
    let target_c = s.setpoint_c.plus(s.dr.setpoint_offset_c);
    tame_units(target_c, 40);
    crate::approx::near_sum(s.setpoint_c, s.dr.setpoint_offset_c);
    lemma_calls(control_c, target_c, s.deadband_c, true);
    crate::double_laws::order_agrees_with_value(s.min_ambient_temp_c, ambient_c);
    crate::double_laws::order_agrees_with_value(ambient_c, s.max_ambient_temp_c);
}

} // verus!
