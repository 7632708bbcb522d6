//! Laws of what controllers ask for: that it takes effect, and what the levels of a demand
//! response come to.
use vstd::arithmetic::power2::*;
use vstd::prelude::*;

use crate::approx::{near, one_is_tame, ratio_is_tame, whole_is_tame};
use crate::double::Double;
use crate::error::ControlFault;
use crate::gas::GasState;
use crate::heat_pump_wh::HpState;
use crate::indirect_tank::IndirectState;
use crate::resistance::ResistanceState;
use crate::shared::DemandResponse;
use crate::tankless::TanklessState;
use crate::types::{ControlSignal, DRLevel, DutyCycleComponent, OperatingMode};

verus! {

/// How a share and a number beyond it compare with zero and one.
proof fn lemma_requested(share: Double, beyond: Double)
    requires
        share.is_finite(),
        beyond.is_finite(),
        0 <= share.units() <= pow2(1074),
    ensures
        Double::zero().le(share),
        share.le(Double::one()),
        share.clamp(Double::zero(), Double::one()) == share,
        beyond.units() > pow2(1074) ==> beyond.clamp(Double::zero(), Double::one())
            == Double::one(),
        beyond.units() < 0 ==> beyond.clamp(Double::zero(), Double::one()) == Double::zero(),
        Double::zero().units() == 0,
        Double::zero().is_finite(),
{
    one_is_tame();
    crate::double_laws::order_agrees_with_value(Double::zero(), share);
    crate::double_laws::order_agrees_with_value(share, Double::zero());
    crate::double_laws::order_agrees_with_value(share, Double::one());
    crate::double_laws::order_agrees_with_value(Double::one(), share);
    crate::double_laws::order_agrees_with_value(beyond, Double::zero());
    crate::double_laws::order_agrees_with_value(Double::one(), beyond);
    crate::double_laws::order_agrees_with_value(Double::one(), Double::zero());
}

/// What a controller asks of a gas heater takes effect, and changes nothing else: a duty cycle or a
/// load from nothing to all, a mode, a setpoint, a deadband. A load beyond these is cut off there.
pub proof fn gas_requests_take_effect(
    s: GasState,
    share: Double,
    component: Option<DutyCycleComponent>,
    mode: OperatingMode,
    setpoint: Double,
    other: Option<Double>,
    deadband: Double,
    beyond: Double,
)
    requires
        share.is_finite(),
        0 <= share.units() <= pow2(1074),
        setpoint.is_finite(),
        deadband.is_finite(),
        0 <= deadband.units(),
        beyond.is_finite(),
    ensures
        ({
            &&& s.applied(ControlSignal::DutyCycle { on_fraction: share, component }) == (
                GasState { duty_cycle: share, ..s },
                None::<ControlFault>,
            )
            &&& s.applied(ControlSignal::LoadFraction { fraction: share }) == (
                GasState { ctrl_load_fraction: share, ..s },
                None::<ControlFault>,
            )
            &&& beyond.units() > pow2(1074) ==> s.applied(
                ControlSignal::LoadFraction { fraction: beyond },
            ) == (GasState { ctrl_load_fraction: Double::one(), ..s }, None::<ControlFault>)
            &&& beyond.units() < 0 ==> s.applied(
                ControlSignal::LoadFraction { fraction: beyond },
            ) == (GasState { ctrl_load_fraction: Double::zero(), ..s }, None::<ControlFault>)
            &&& s.applied(ControlSignal::ModeOverride { mode }) == (
                GasState { mode_override: Some(mode), ..s },
                None::<ControlFault>,
            )
            &&& s.applied(
                ControlSignal::ThermalSetpoint {
                    heating_setpoint_c: Some(setpoint),
                    cooling_setpoint_c: other,
                    deadband_c: None,
                },
            ) == (GasState { setpoint_c: setpoint, ..s }, None::<ControlFault>)
            &&& s.applied(
                ControlSignal::ThermalSetpoint {
                    heating_setpoint_c: None,
                    cooling_setpoint_c: Some(setpoint),
                    deadband_c: None,
                },
            ) == (GasState { setpoint_c: setpoint, ..s }, None::<ControlFault>)
            &&& s.applied(
                ControlSignal::ThermalSetpoint {
                    heating_setpoint_c: Some(setpoint),
                    cooling_setpoint_c: other,
                    deadband_c: Some(deadband),
                },
            ) == (GasState { setpoint_c: setpoint, deadband_c: deadband, ..s }, None::<ControlFault>)
            &&& s.applied(ControlSignal::Other) == (s, None::<ControlFault>)
        }),
{
    lemma_requested(share, beyond);
    crate::double_laws::order_agrees_with_value(Double::zero(), deadband);
}

/// What a controller asks of a resistance heater whose setpoint
/// moves at once takes effect, and changes nothing else: a duty cycle or a
/// load from nothing to all, a mode, a setpoint, a deadband. A load beyond these is cut off there.
pub proof fn resistance_requests_take_effect(
    s: ResistanceState,
    share: Double,
    component: Option<DutyCycleComponent>,
    mode: OperatingMode,
    setpoint: Double,
    other: Option<Double>,
    deadband: Double,
    beyond: Double,
)
    requires
        share.is_finite(),
        0 <= share.units() <= pow2(1074),
        setpoint.is_finite(),
        deadband.is_finite(),
        0 <= deadband.units(),
        beyond.is_finite(),
        s.setpoint_ramp_rate_c_per_s is None,
    ensures
        ({
            &&& s.applied(ControlSignal::DutyCycle { on_fraction: share, component }) == (
                ResistanceState { duty_cycle: share, ..s },
                None::<ControlFault>,
            )
            &&& s.applied(ControlSignal::LoadFraction { fraction: share }) == (
                ResistanceState { ctrl_load_fraction: share, ..s },
                None::<ControlFault>,
            )
            &&& beyond.units() > pow2(1074) ==> s.applied(
                ControlSignal::LoadFraction { fraction: beyond },
            ) == (ResistanceState { ctrl_load_fraction: Double::one(), ..s }, None::<ControlFault>)
            &&& beyond.units() < 0 ==> s.applied(
                ControlSignal::LoadFraction { fraction: beyond },
            ) == (ResistanceState { ctrl_load_fraction: Double::zero(), ..s }, None::<ControlFault>)
            &&& s.applied(ControlSignal::ModeOverride { mode }) == (
                ResistanceState { mode_override: Some(mode), ..s },
                None::<ControlFault>,
            )
            &&& s.applied(
                ControlSignal::ThermalSetpoint {
                    heating_setpoint_c: Some(setpoint),
                    cooling_setpoint_c: other,
                    deadband_c: None,
                },
            ) == (ResistanceState { setpoint_c: setpoint, target_setpoint_c: setpoint, ..s }, None::<ControlFault>)
            &&& s.applied(
                ControlSignal::ThermalSetpoint {
                    heating_setpoint_c: None,
                    cooling_setpoint_c: Some(setpoint),
                    deadband_c: None,
                },
            ) == (ResistanceState { setpoint_c: setpoint, target_setpoint_c: setpoint, ..s }, None::<ControlFault>)
            &&& s.applied(
                ControlSignal::ThermalSetpoint {
                    heating_setpoint_c: Some(setpoint),
                    cooling_setpoint_c: other,
                    deadband_c: Some(deadband),
                },
            ) == (ResistanceState { setpoint_c: setpoint, target_setpoint_c: setpoint, deadband_c: deadband, ..s }, None::<ControlFault>)
            &&& s.applied(ControlSignal::Other) == (s, None::<ControlFault>)
        }),
{
    lemma_requested(share, beyond);
    crate::double_laws::order_agrees_with_value(Double::zero(), deadband);
}

/// What a controller asks of a heat pump whose setpoint moves
/// at once takes effect, and changes nothing else: a duty cycle or a
/// load from nothing to all, a mode, a setpoint, a deadband. A load beyond these is cut off there.
pub proof fn heat_pump_requests_take_effect(
    s: HpState,
    share: Double,
    component: Option<DutyCycleComponent>,
    mode: OperatingMode,
    setpoint: Double,
    other: Option<Double>,
    deadband: Double,
    beyond: Double,
)
    requires
        share.is_finite(),
        0 <= share.units() <= pow2(1074),
        setpoint.is_finite(),
        deadband.is_finite(),
        0 <= deadband.units(),
        beyond.is_finite(),
        s.setpoint_ramp_rate_c_per_s is None,
    ensures
        ({
            &&& s.applied(ControlSignal::DutyCycle { on_fraction: share, component }) == (
                match component {
                    Some(DutyCycleComponent::Compressor) => HpState { hp_duty_cycle: share, ..s },
                    Some(DutyCycleComponent::BackupElement) => HpState { er_duty_cycle: share, ..s },
                    None => HpState { duty_cycle: share, ..s },
                },
                None::<ControlFault>,
            )
            &&& s.applied(ControlSignal::LoadFraction { fraction: share }) == (
                HpState { ctrl_load_fraction: share, ..s },
                None::<ControlFault>,
            )
            &&& beyond.units() > pow2(1074) ==> s.applied(
                ControlSignal::LoadFraction { fraction: beyond },
            ) == (HpState { ctrl_load_fraction: Double::one(), ..s }, None::<ControlFault>)
            &&& beyond.units() < 0 ==> s.applied(
                ControlSignal::LoadFraction { fraction: beyond },
            ) == (HpState { ctrl_load_fraction: Double::zero(), ..s }, None::<ControlFault>)
            &&& s.applied(ControlSignal::ModeOverride { mode }) == (
                HpState { mode_override: Some(mode), ..s },
                None::<ControlFault>,
            )
            &&& s.applied(
                ControlSignal::ThermalSetpoint {
                    heating_setpoint_c: Some(setpoint),
                    cooling_setpoint_c: other,
                    deadband_c: None,
                },
            ) == (HpState { setpoint_c: setpoint, target_setpoint_c: setpoint, ..s }, None::<ControlFault>)
            &&& s.applied(
                ControlSignal::ThermalSetpoint {
                    heating_setpoint_c: None,
                    cooling_setpoint_c: Some(setpoint),
                    deadband_c: None,
                },
            ) == (HpState { setpoint_c: setpoint, target_setpoint_c: setpoint, ..s }, None::<ControlFault>)
            &&& s.applied(
                ControlSignal::ThermalSetpoint {
                    heating_setpoint_c: Some(setpoint),
                    cooling_setpoint_c: other,
                    deadband_c: Some(deadband),
                },
            ) == (HpState { setpoint_c: setpoint, target_setpoint_c: setpoint, deadband_c: deadband, ..s }, None::<ControlFault>)
            &&& s.applied(ControlSignal::Other) == (s, None::<ControlFault>)
        }),
{
    lemma_requested(share, beyond);
    crate::double_laws::order_agrees_with_value(Double::zero(), deadband);
}

/// What a controller asks of an indirect tank takes effect, and changes nothing else: a duty cycle or a
/// load from nothing to all, a mode, a setpoint, a deadband. A load beyond these is cut off there.
pub proof fn indirect_requests_take_effect(
    s: IndirectState,
    share: Double,
    component: Option<DutyCycleComponent>,
    mode: OperatingMode,
    setpoint: Double,
    other: Option<Double>,
    deadband: Double,
    beyond: Double,
)
    requires
        share.is_finite(),
        0 <= share.units() <= pow2(1074),
        setpoint.is_finite(),
        deadband.is_finite(),
        0 < deadband.units(),
        beyond.is_finite(),
    ensures
        ({
            &&& s.applied(ControlSignal::DutyCycle { on_fraction: share, component }) == (
                IndirectState { duty_cycle: share, ..s },
                None::<ControlFault>,
            )
            &&& s.applied(ControlSignal::LoadFraction { fraction: share }) == (
                IndirectState { ctrl_load_fraction: share, ..s },
                None::<ControlFault>,
            )
            &&& beyond.units() > pow2(1074) ==> s.applied(
                ControlSignal::LoadFraction { fraction: beyond },
            ) == (IndirectState { ctrl_load_fraction: Double::one(), ..s }, None::<ControlFault>)
            &&& beyond.units() < 0 ==> s.applied(
                ControlSignal::LoadFraction { fraction: beyond },
            ) == (IndirectState { ctrl_load_fraction: Double::zero(), ..s }, None::<ControlFault>)
            &&& s.applied(ControlSignal::ModeOverride { mode }) == (
                IndirectState { mode_override: Some(mode), ..s },
                None::<ControlFault>,
            )
            &&& s.applied(
                ControlSignal::ThermalSetpoint {
                    heating_setpoint_c: Some(setpoint),
                    cooling_setpoint_c: other,
                    deadband_c: None,
                },
            ) == (IndirectState { setpoint_c: setpoint, target_setpoint_c: setpoint, ..s }, None::<ControlFault>)
            &&& s.applied(
                ControlSignal::ThermalSetpoint {
                    heating_setpoint_c: None,
                    cooling_setpoint_c: Some(setpoint),
                    deadband_c: None,
                },
            ) == (s, None::<ControlFault>)
            &&& s.applied(
                ControlSignal::ThermalSetpoint {
                    heating_setpoint_c: Some(setpoint),
                    cooling_setpoint_c: other,
                    deadband_c: Some(deadband),
                },
            ) == (IndirectState { setpoint_c: setpoint, target_setpoint_c: setpoint, deadband_c: deadband, ..s }, None::<ControlFault>)
            &&& s.applied(ControlSignal::Other) == (s, None::<ControlFault>)
        }),
{
    lemma_requested(share, beyond);
    crate::double_laws::order_agrees_with_value(Double::zero(), deadband);
}

/// What a controller asks of a tankless heater takes effect, and changes nothing else: a duty cycle or a
/// load from nothing to all, a mode, a setpoint. A load beyond these is cut off there.
pub proof fn tankless_requests_take_effect(
    s: TanklessState,
    share: Double,
    component: Option<DutyCycleComponent>,
    mode: OperatingMode,
    setpoint: Double,
    other: Option<Double>,
    deadband: Double,
    beyond: Double,
)
    requires
        share.is_finite(),
        0 <= share.units() <= pow2(1074),
        setpoint.is_finite(),
        deadband.is_finite(),
        0 <= deadband.units(),
        beyond.is_finite(),
    ensures
        ({
            &&& s.applied(ControlSignal::DutyCycle { on_fraction: share, component }) == (
                TanklessState { duty_cycle: share, ..s },
                None::<ControlFault>,
            )
            &&& s.applied(ControlSignal::LoadFraction { fraction: share }) == (
                TanklessState { ctrl_load_fraction: share, ..s },
                None::<ControlFault>,
            )
            &&& beyond.units() > pow2(1074) ==> s.applied(
                ControlSignal::LoadFraction { fraction: beyond },
            ) == (TanklessState { ctrl_load_fraction: Double::one(), ..s }, None::<ControlFault>)
            &&& beyond.units() < 0 ==> s.applied(
                ControlSignal::LoadFraction { fraction: beyond },
            ) == (TanklessState { ctrl_load_fraction: Double::zero(), ..s }, None::<ControlFault>)
            &&& s.applied(ControlSignal::ModeOverride { mode }) == (
                TanklessState { mode_override: Some(mode), ..s },
                None::<ControlFault>,
            )
            &&& s.applied(
                ControlSignal::ThermalSetpoint {
                    heating_setpoint_c: Some(setpoint),
                    cooling_setpoint_c: other,
                    deadband_c: None,
                },
            ) == (TanklessState { setpoint_c: setpoint, ..s }, None::<ControlFault>)
            &&& s.applied(
                ControlSignal::ThermalSetpoint {
                    heating_setpoint_c: None,
                    cooling_setpoint_c: Some(setpoint),
                    deadband_c: None,
                },
            ) == (TanklessState { setpoint_c: setpoint, ..s }, None::<ControlFault>)
            &&& s.applied(ControlSignal::Other) == (s, None::<ControlFault>)
        }),
{
    lemma_requested(share, beyond);
    crate::double_laws::order_agrees_with_value(Double::zero(), deadband);
}

/// A demand response holds its level for its time. The levels lower the setpoint by nothing,
/// three, six, ten and nothing degrees, and leave all, all, eight tenths, half and none of the
/// load.
pub proof fn demand_response_levels(level: DRLevel, duration_s: Option<Double>)
    ensures
        ({
            let dr = DemandResponse::at(level, duration_s);
            let h = pow2(1074) as int;
            &&& dr.level == level
            &&& dr.duration_remaining_s == duration_s
            &&& dr.setpoint_offset_c.is_finite()
            &&& dr.setpoint_offset_c.units() == (match level {
                DRLevel::Normal => 0,
                DRLevel::Moderate => -3 * h,
                DRLevel::High => -6 * h,
                DRLevel::Critical => -10 * h,
                DRLevel::GridEmergency => 0,
            })
            &&& match level {
                DRLevel::Normal => dr.load_fraction.units() == h,
                DRLevel::Moderate => dr.load_fraction.units() == h,
                DRLevel::High => near(dr.load_fraction, 8 * h, 10, 1),
                DRLevel::Critical => near(dr.load_fraction, 1 * h, 2, 1),
                DRLevel::GridEmergency => dr.load_fraction.units() == 0,
            }
        }),
{
    one_is_tame();
    whole_is_tame(3);
    whole_is_tame(6);
    whole_is_tame(10);
    ratio_is_tame(8, 10);
    ratio_is_tame(1, 2);
    lemma_negated(Double::whole(3));
    lemma_negated(Double::whole(6));
    lemma_negated(Double::whole(10));
}

proof fn lemma_negated(x: Double)
    requires
        x.is_finite(),
    ensures
        x.negate().is_finite(),
        x.negate().units() == -x.units(),
{
    crate::double_laws::lemma_signed_mag(x.mag());
}

/// The signal of a demand response sets its level and its time in every heater, and nothing else.
pub proof fn demand_responses_reach_every_heater(
    gas: GasState,
    resistance: ResistanceState,
    hp: HpState,
    indirect: IndirectState,
    tankless: TanklessState,
    level: DRLevel,
    duration_s: Option<Double>,
)
    ensures
        ({
            let signal = ControlSignal::DemandResponse { level, duration_s };
            let dr = DemandResponse::at(level, duration_s);
            &&& gas.applied(signal) == (GasState { dr, ..gas }, None::<ControlFault>)
            &&& resistance.applied(signal) == (
                ResistanceState { dr, ..resistance },
                None::<ControlFault>,
            )
            &&& hp.applied(signal) == (HpState { dr, ..hp }, None::<ControlFault>)
            &&& indirect.applied(signal) == (
                IndirectState { dr, ..indirect },
                None::<ControlFault>,
            )
            &&& tankless.applied(signal) == (
                TanklessState { dr, ..tankless },
                None::<ControlFault>,
            )
        }),
{
}

} // verus!
