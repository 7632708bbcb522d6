//! Heat pump water heater model.
use vstd::prelude::*;

use crate::config::{is_text, parse_usize, EquipmentConfig};
use crate::defaults::default_tank;
use crate::double::Double;
use crate::error::{ControlFault, HaresError, Result};
use crate::hpwh_compressor::{
    build_heat_injections, capacity_curve, class_coeffs, cop_curve, cop_scale_for,
    default_backup_efficiency, default_backup_element_power_w, default_backup_enable_offset_c,
    default_capacity_coeffs, default_compressor_power_w, default_condenser_weights,
    default_cop_coeffs, default_deadband_c, default_fan_power_w, default_max_ambient_temp_c,
    default_min_ambient_temp_c, default_min_on_time_s, default_parasitic_power_w, default_shr,
    is_low_power, BiquadraticCurve, LowPowerCoeffs,
};
use crate::registry::{EquipmentRegistry, HeaterKind, Registration};
use crate::shared::{
    ambient_temp_c, default_fixture_temp_c, default_max_tank_temp_c, default_setpoint_c,
    find_zone, hysteresis_call, is_overheated, or_default, power_w_to_kw,
    can_move, ramp_limited_setpoint, read_dhw_demand_kg_s, weighted_average_tank_temp, DemandResponse,
    DHW_DEMAND_LOOP,
};
use crate::storage::{
    build_typed_tank, node_count, node_index, push_when, typed_node_count,
};
use crate::tank::{DrawResult, StratifiedTank, StratifiedTankState, TemperedDrawConfig};
use crate::time::Duration;
use crate::types::{
    push_node_fields, ActivePower, ControlCapabilities, ControlSignal, CoreCapabilities,
    CoreOutput, DutyCycleComponent, EnvironmentState, EquipmentDescriptor, FluidAccumulator,
    FuelType, OperatingMode, PortContribution, PortDeclaration, TelemetryField, TelemetryKey,
    ThermalCategory,
};
use crate::wh_config::HeatPumpWaterHeaterConfig;
use crate::zip::WaterHeaterZip;

pub use crate::hpwh_compressor::ElementHpControlMode;

verus! {

/// The figures that the heater records.
#[derive(Debug, Clone, Copy, PartialEq, Eq, Structural)]
pub struct HpTelemetry {
    pub tank_avg_temp_c: Double,
    pub cop: Double,
    pub cap_mult: Double,
    pub electric_kw: Double,
    pub compressor_kw: Double,
    pub element_kw: Double,
    pub compressor_power_w: Double,
    pub backup_element_power_w: Double,
    pub zone_heat_extraction_w: Double,
    pub draw_flow_rate_kg_s: Double,
    pub operating_mode: Double,
    pub wall_sensible_gain_w: Double,
    pub unmet_load_w: Double,
}

impl HpTelemetry {
    /// Nothing recorded yet.
    #[verifier::allow_in_spec]
    pub fn empty() -> HpTelemetry
        returns
            (
            HpTelemetry {
                tank_avg_temp_c: Double::zero(),
                cop: Double::zero(),
                cap_mult: Double::one(),
                electric_kw: Double::zero(),
                compressor_kw: Double::zero(),
                element_kw: Double::zero(),
                compressor_power_w: Double::zero(),
                backup_element_power_w: Double::zero(),
                zone_heat_extraction_w: Double::zero(),
                draw_flow_rate_kg_s: Double::zero(),
                operating_mode: Double::zero(),
                wall_sensible_gain_w: Double::zero(),
                unmet_load_w: Double::zero(),
            }
            ),
    {
        HpTelemetry {
            tank_avg_temp_c: Double::zero(),
            cop: Double::zero(),
            cap_mult: Double::one(),
            electric_kw: Double::zero(),
            compressor_kw: Double::zero(),
            element_kw: Double::zero(),
            compressor_power_w: Double::zero(),
            backup_element_power_w: Double::zero(),
            zone_heat_extraction_w: Double::zero(),
            draw_flow_rate_kg_s: Double::zero(),
            operating_mode: Double::zero(),
            wall_sensible_gain_w: Double::zero(),
            unmet_load_w: Double::zero(),
        }
    }
}

/// The settings of the heater, and what it is doing.
#[derive(Debug, Clone, Copy)]
pub struct HpState {
    pub thermostat_node: usize,
    /// The node with three quarters of the weight in the control temperature.
    pub thermostat_upper_node: usize,
    pub condenser_node: usize,
    pub setpoint_c: Double,
    /// Where the setpoint is moving to.
    pub target_setpoint_c: Double,
    /// How fast the setpoint moves; at once if `None`.
    pub setpoint_ramp_rate_c_per_s: Option<Double>,
    pub deadband_c: Double,
    pub duty_cycle: Double,
    /// Duty cycle of the compressor alone.
    pub hp_duty_cycle: Double,
    /// Duty cycle of the backup element alone.
    pub er_duty_cycle: Double,
    pub mode_override: Option<OperatingMode>,
    pub compressor_on: bool,
    pub backup_on: bool,
    /// Heat that the heat pump delivers at rated conditions.
    pub compressor_power_w: Double,
    pub backup_element_power_w: Double,
    pub backup_enable_offset_c: Double,
    pub backup_efficiency: Double,
    pub cop_curve: BiquadraticCurve,
    /// Factor that brings the curve to the rated coefficient of performance.
    pub cop_scale: Double,
    /// Delivery temperature of the mixing valve for hot draws; the setpoint if `None`.
    pub tempering_valve_setpoint_c: Option<Double>,
    pub fixture_delivery_temp_c: Double,
    pub capacity_curve: BiquadraticCurve,
    pub min_ambient_temp_c: Double,
    pub max_ambient_temp_c: Double,
    pub max_tank_temp_c: Double,
    pub shr: Double,
    /// Share of the waste heat that leaves the building.
    pub lost_heat_fraction: Double,
    pub fan_power_w: Double,
    pub parasitic_power_w: Double,
    /// How long the compressor has been running; `None` while it rests.
    pub compressor_on_since_s: Option<Double>,
    /// How long the compressor has been resting; `None` while it runs.
    pub compressor_off_since_s: Option<Double>,
    pub min_on_time_s: Double,
    pub min_off_time_s: Double,
    /// The backup element is out of use.
    pub hp_only_mode: bool,
    /// Share of the sensible heat that goes to the walls rather than the air.
    pub wall_heat_fraction: Double,
    pub element_hp_control: ElementHpControlMode,
    pub loop_id: u16,
    pub mains_temp_c: Double,
    pub draw_flow_rate_kg_s: Double,
    pub zip: WaterHeaterZip,
    pub dr: DemandResponse,
    /// Load fraction asked for by a controller; for one step only.
    pub ctrl_load_fraction: Double,
    pub telemetry: HpTelemetry,
    pub core_output: CoreOutput,
}

/// What only the outside can tell about a step.
#[derive(Debug, Clone, Copy, PartialEq, Eq, Structural)]
pub struct HpOutside {
    /// The density of water at the temperature of the top node [kg/m³].
    pub water_density_kg_m3: Double,
    /// The value of the COP curve at [`HeatPumpWH::curve_inputs`].
    pub cop_curve_value: Double,
    /// The value of the capacity curve at [`HeatPumpWH::curve_inputs`].
    pub capacity_curve_value: Double,
}

/// What the heat pump and the backup element do in a step.
#[derive(Debug, Clone, Copy, PartialEq, Eq, Structural)]
pub struct HpPerformance {
    /// The coefficient of performance as reported: between 0 and 8.
    pub cop: Double,
    pub cap_mult: Double,
    pub compressor_power_w: Double,
    pub backup_power_w: Double,
    pub delivered_hp_w: Double,
    pub delivered_er_w: Double,
    /// The power of the fan or of the standby electronics.
    pub fan_parasitic_w: Double,
}

impl HpPerformance {
    /// The heat that both give to the tank.
    #[verifier::allow_in_spec]
    pub fn delivered_w(self) -> Double
        returns
            self.delivered_hp_w.plus(self.delivered_er_w),
    {
        self.delivered_hp_w.plus(self.delivered_er_w)
    }

    /// The power at rated voltage.
    #[verifier::allow_in_spec]
    pub fn rated_electric_w(self) -> Double
        returns
            self.compressor_power_w.plus(self.backup_power_w).plus(self.fan_parasitic_w),
    {
        self.compressor_power_w.plus(self.backup_power_w).plus(self.fan_parasitic_w)
    }

    /// The heat moved from the zone to the tank.
    #[verifier::allow_in_spec]
    pub fn zone_heat_extraction_w(self) -> Double
        returns
            self.delivered_hp_w.minus(self.compressor_power_w),
    {
        self.delivered_hp_w.minus(self.compressor_power_w)
    }
}

/// What the heater gives to its zone in a step, besides the loss of its tank.
#[derive(Debug, Clone, Copy, PartialEq, Eq, Structural)]
pub struct HpGains {
    pub sensible_to_zone_w: Double,
    pub sensible_to_wall_w: Double,
    pub latent_gain_w: Double,
}

/// What a step came to.
#[derive(Debug, Clone, Copy, PartialEq, Eq, Structural)]
pub struct HpFigures {
    pub mode: OperatingMode,
    pub performance: HpPerformance,
    pub gains: HpGains,
    pub electric_power_w: Double,
    pub reactive_power_kvar: Double,
    pub total_draw_kg_s: Double,
    pub draw: DrawResult,
}

/// A setting, if it is above zero.
#[verifier::allow_in_spec]
pub fn if_positive(value: Option<Double>) -> Option<Double>
    returns
        (match value {
            Some(v) if v.gt(Double::zero()) => Some(v),
            _ => None,
        }),
{
    match value {
        Some(v) => if v.gt(Double::zero()) {
            Some(v)
        } else {
            None
        },
        None => None,
    }
}

/// What a heater with a compressor and a backup element is doing.
#[verifier::allow_in_spec]
pub fn mode_of(compressor_on: bool, backup_on: bool) -> OperatingMode
    returns
        (if compressor_on {
            if backup_on {
                OperatingMode::HeatingHPAndER
            } else {
                OperatingMode::HeatPumpWH
            }
        } else if backup_on {
            OperatingMode::BackupElement
        } else {
            OperatingMode::Off
        }),
{
    if compressor_on {
        if backup_on {
            OperatingMode::HeatingHPAndER
        } else {
            OperatingMode::HeatPumpWH
        }
    } else if backup_on {
        OperatingMode::BackupElement
    } else {
        OperatingMode::Off
    }
}

/// The number under which a mode is recorded.
#[verifier::allow_in_spec]
pub fn mode_number(mode: OperatingMode) -> Double
    returns
        (match mode {
            OperatingMode::HeatPumpWH => Double::one(),
            OperatingMode::BackupElement => Double::whole(2),
            OperatingMode::HeatingHPAndER => Double::whole(3),
            _ => Double::zero(),
        }),
{
    match mode {
        OperatingMode::HeatPumpWH => Double::one(),
        OperatingMode::BackupElement => Double::whole(2),
        OperatingMode::HeatingHPAndER => Double::whole(3),
        _ => Double::zero(),
    }
}

/// Whether a clock that may not be running has reached a time.
#[verifier::allow_in_spec]
pub fn elapsed(since_s: Option<Double>, time_s: Double) -> bool
    returns
        (match since_s {
            Some(t) => t.ge(time_s),
            None => true,
        }),
{
    match since_s {
        Some(t) => t.ge(time_s),
        None => true,
    }
}

/// The temperature that the thermostat goes by: three quarters of the upper node and a
/// quarter of the lower one.
#[verifier::allow_in_spec]
pub fn composite_temp_c(upper_temp_c: Double, lower_temp_c: Double) -> Double
    returns
        Double::ratio(3, 4).times(upper_temp_c).plus(Double::ratio(1, 4).times(lower_temp_c)),
{
    Double::ratio(3, 4).times(upper_temp_c).plus(Double::ratio(1, 4).times(lower_temp_c))
}

impl HpState {
    /// The setpoint with what the grid asks for.
    #[verifier::allow_in_spec]
    pub fn effective_setpoint_c(self) -> Double
        returns
            self.setpoint_c.plus(self.dr.setpoint_offset_c),
    {
        self.setpoint_c.plus(self.dr.setpoint_offset_c)
    }

    /// Whether the setpoint can move for `dt_s` seconds.
    #[verifier::allow_in_spec]
    pub fn can_ramp(self, dt_s: Double) -> bool
        returns
            can_move(self.setpoint_c, self.setpoint_ramp_rate_c_per_s, dt_s),
    {
        can_move(self.setpoint_c, self.setpoint_ramp_rate_c_per_s, dt_s)
    }

    /// Where the setpoint moves at a rate, both it and its target are finite.
    pub open spec fn ramps_finitely(self) -> bool {
        self.setpoint_ramp_rate_c_per_s is Some ==> {
            &&& crate::tank::is_nonnegative(self.setpoint_ramp_rate_c_per_s->0)
            &&& self.setpoint_c.is_finite()
            &&& self.target_setpoint_c.is_finite()
        }
    }

    /// The state `dt_s` seconds later: the setpoint has moved towards its target, and the
    /// time of a demand response has run on.
    pub open spec fn spec_later(self, dt_s: Double) -> HpState {
        HpState {
            setpoint_c: match self.setpoint_ramp_rate_c_per_s {
                Some(rate) => ramp_limited_setpoint(
                    self.setpoint_c,
                    self.target_setpoint_c,
                    rate,
                    dt_s,
                ),
                None => self.setpoint_c,
            },
            dr: self.dr.after(dt_s),
            ..self
        }
    }

    #[verifier::when_used_as_spec(spec_later)]
    pub fn later(self, dt_s: Double) -> (r: HpState)
        requires
            self.can_ramp(dt_s),
        ensures
            r == self.later(dt_s),
    {
        let setpoint_c: Double = match self.setpoint_ramp_rate_c_per_s {
            Some(rate) => ramp_limited_setpoint(
                self.setpoint_c,
                self.target_setpoint_c,
                rate,
                dt_s,
            ),
            None => self.setpoint_c,
        };
        HpState { setpoint_c, dr: self.dr.after(dt_s), ..self }
    }

    /// Whether the thermostat calls for heat, and a duty cycle allows it.
    #[verifier::allow_in_spec]
    pub fn call_for_heat(self, control_temp_c: Double) -> bool
        returns
            hysteresis_call(
                control_temp_c,
                self.effective_setpoint_c(),
                self.deadband_c,
                self.compressor_on || self.backup_on,
            ) && self.duty_cycle.gt(Double::zero()),
    {
        hysteresis_call(
            control_temp_c,
            self.effective_setpoint_c(),
            self.deadband_c,
            self.compressor_on || self.backup_on,
        ) && self.duty_cycle.gt(Double::zero())
    }

    /// Whether the air is neither too cold nor too warm for the compressor.
    #[verifier::allow_in_spec]
    pub fn ambient_in_range(self, ambient_c: Double) -> bool
        returns
            ambient_c.ge(self.min_ambient_temp_c) && ambient_c.le(self.max_ambient_temp_c),
    {
        ambient_c.ge(self.min_ambient_temp_c) && ambient_c.le(self.max_ambient_temp_c)
    }

    /// Whether the tank is so cold that the backup element is wanted.
    #[verifier::allow_in_spec]
    pub fn below_backup_threshold(self, control_temp_c: Double) -> bool
        returns
            control_temp_c.le(self.effective_setpoint_c().minus(self.backup_enable_offset_c)),
    {
        control_temp_c.le(self.effective_setpoint_c().minus(self.backup_enable_offset_c))
    }

    /// The compressor and the backup element under automatic control.
    pub open spec fn spec_automatic(self, control_temp_c: Double, ambient_c: Double) -> (
        bool,
        bool,
    ) {
        let call = self.call_for_heat(control_temp_c);
        let wants_backup = call && self.below_backup_threshold(control_temp_c)
            && !self.hp_only_mode;
        let may_start = elapsed(self.compressor_off_since_s, self.min_off_time_s);
        let may_stop = elapsed(self.compressor_on_since_s, self.min_on_time_s);
        if !self.ambient_in_range(ambient_c) {
            (false, call && !self.hp_only_mode)
        } else if self.element_hp_control == ElementHpControlMode::Simultaneous {
            ((call && may_start) || (self.compressor_on && !may_stop), wants_backup)
        } else if self.compressor_on {
            (call || !may_stop, false)
        } else if self.backup_on {
            (false, wants_backup)
        } else {
            (call && may_start, false)
        }
    }

    #[verifier::when_used_as_spec(spec_automatic)]
    pub fn automatic(self, control_temp_c: Double, ambient_c: Double) -> (r: (bool, bool))
        ensures
            r == self.automatic(control_temp_c, ambient_c),
    {
        let call: bool = self.call_for_heat(control_temp_c);
        let wants_backup: bool = call && self.below_backup_threshold(control_temp_c)
            && !self.hp_only_mode;
        let may_start: bool = elapsed(self.compressor_off_since_s, self.min_off_time_s);
        let may_stop: bool = elapsed(self.compressor_on_since_s, self.min_on_time_s);
        if !self.ambient_in_range(ambient_c) {
            (false, call && !self.hp_only_mode)
        } else if self.element_hp_control == ElementHpControlMode::Simultaneous {
            ((call && may_start) || (self.compressor_on && !may_stop), wants_backup)
        } else if self.compressor_on {
            (call || !may_stop, false)
        } else if self.backup_on {
            (false, wants_backup)
        } else {
            (call && may_start, false)
        }
    }

    /// The compressor and the backup element, as an override or the automatic control
    /// has them.
    pub open spec fn spec_commanded(self, control_temp_c: Double, ambient_c: Double) -> (
        bool,
        bool,
    ) {
        let call = self.call_for_heat(control_temp_c);
        let compressor = call && self.ambient_in_range(ambient_c) && elapsed(
            self.compressor_off_since_s,
            self.min_off_time_s,
        );
        let backup = call && !self.hp_only_mode;
        match self.mode_override {
            Some(OperatingMode::Off) => (false, false),
            Some(OperatingMode::HeatPumpWH) | Some(OperatingMode::HeatingHP) => (
                compressor,
                false,
            ),
            Some(OperatingMode::BackupElement) | Some(OperatingMode::HeatingER) => (
                false,
                backup,
            ),
            Some(OperatingMode::HeatingHPAndER) => (compressor, backup),
            _ => self.automatic(control_temp_c, ambient_c),
        }
    }

    #[verifier::when_used_as_spec(spec_commanded)]
    pub fn commanded(self, control_temp_c: Double, ambient_c: Double) -> (r: (bool, bool))
        ensures
            r == self.commanded(control_temp_c, ambient_c),
    {
        let call: bool = self.call_for_heat(control_temp_c);
        let compressor: bool = call && self.ambient_in_range(ambient_c) && elapsed(
            self.compressor_off_since_s,
            self.min_off_time_s,
        );
        let backup: bool = call && !self.hp_only_mode;
        match self.mode_override {
            Some(OperatingMode::Off) => (false, false),
            Some(OperatingMode::HeatPumpWH) => (compressor, false),
            Some(OperatingMode::HeatingHP) => (compressor, false),
            Some(OperatingMode::BackupElement) => (false, backup),
            Some(OperatingMode::HeatingER) => (false, backup),
            Some(OperatingMode::HeatingHPAndER) => (compressor, backup),
            _ => self.automatic(control_temp_c, ambient_c),
        }
    }

    /// The compressor and the backup element in a step: both off in a tank that is too
    /// hot, or where the grid sheds the load.
    pub open spec fn spec_switched(
        self,
        overheated: bool,
        control_temp_c: Double,
        ambient_c: Double,
    ) -> HpState {
        if overheated || self.dr.load_fraction.le(Double::zero()) {
            HpState { compressor_on: false, backup_on: false, ..self }
        } else {
            let (compressor_on, backup_on) = self.commanded(control_temp_c, ambient_c);
            HpState { compressor_on, backup_on, ..self }
        }
    }

    #[verifier::when_used_as_spec(spec_switched)]
    pub fn switched(self, overheated: bool, control_temp_c: Double, ambient_c: Double) -> (r:
        HpState)
        ensures
            r == self.switched(overheated, control_temp_c, ambient_c),
    {
        if overheated || self.dr.load_fraction.le(Double::zero()) {
            return HpState { compressor_on: false, backup_on: false, ..self };
        }
        let (compressor_on, backup_on) = self.commanded(control_temp_c, ambient_c);
        HpState { compressor_on, backup_on, ..self }
    }

    /// What the heater is doing.
    #[verifier::allow_in_spec]
    pub fn mode(self) -> OperatingMode
        returns
            mode_of(self.compressor_on, self.backup_on),
    {
        mode_of(self.compressor_on, self.backup_on)
    }

    /// The state with the clocks of the compressor moved on.
    pub open spec fn spec_timed(self, dt_s: Double) -> HpState {
        if self.compressor_on {
            HpState {
                compressor_on_since_s: Some(
                    or_default(self.compressor_on_since_s, Double::zero()).plus(dt_s),
                ),
                compressor_off_since_s: None,
                ..self
            }
        } else {
            HpState {
                compressor_on_since_s: None,
                compressor_off_since_s: Some(
                    or_default(self.compressor_off_since_s, Double::zero()).plus(dt_s),
                ),
                ..self
            }
        }
    }

    #[verifier::when_used_as_spec(spec_timed)]
    pub fn timed(self, dt_s: Double) -> (r: HpState)
        ensures
            r == self.timed(dt_s),
    {
        if self.compressor_on {
            HpState {
                compressor_on_since_s: Some(
                    or_default(self.compressor_on_since_s, Double::zero()).plus(dt_s),
                ),
                compressor_off_since_s: None,
                ..self
            }
        } else {
            HpState {
                compressor_on_since_s: None,
                compressor_off_since_s: Some(
                    or_default(self.compressor_off_since_s, Double::zero()).plus(dt_s),
                ),
                ..self
            }
        }
    }

    /// The share of its power at which controllers let a part run that has a duty cycle
    /// of its own.
    #[verifier::allow_in_spec]
    pub fn component_duty(self, component_duty_cycle: Double) -> Double
        returns
            self.duty_cycle.times(self.dr.load_fraction).times(self.ctrl_load_fraction).clamp(
                Double::zero(),
                Double::one(),
            ).times(component_duty_cycle).clamp(Double::zero(), Double::one()),
    {
        self.duty_cycle.times(self.dr.load_fraction).times(self.ctrl_load_fraction).clamp(
            Double::zero(),
            Double::one(),
        ).times(component_duty_cycle).clamp(Double::zero(), Double::one())
    }

    /// What the heat pump and the backup element do in a step. The heat of the heat pump
    /// follows the capacity curve, and its power the coefficient of performance.
    pub open spec fn spec_performance(self, outside: HpOutside) -> HpPerformance {
        let cop_raw = outside.cop_curve_value.times(self.cop_scale);
        let cop_for_physics = cop_raw.max(Double::ratio(1, 1_000_000));
        let cap_mult = outside.capacity_curve_value.max(Double::zero());
        let compressor_power_w = if self.compressor_on {
            self.compressor_power_w.times(cap_mult).over(cop_for_physics).times(
                self.component_duty(self.hp_duty_cycle),
            )
        } else {
            Double::zero()
        };
        let backup_power_w = if self.backup_on {
            self.backup_element_power_w.times(self.component_duty(self.er_duty_cycle))
        } else {
            Double::zero()
        };
        HpPerformance {
            cop: cop_raw.clamp(Double::zero(), Double::whole(8)),
            cap_mult,
            compressor_power_w,
            backup_power_w,
            delivered_hp_w: compressor_power_w.times(cop_for_physics),
            delivered_er_w: backup_power_w.times(self.backup_efficiency),
            fan_parasitic_w: if self.compressor_on {
                self.fan_power_w
            } else {
                self.parasitic_power_w
            },
        }
    }

    #[verifier::when_used_as_spec(spec_performance)]
    pub fn performance(self, outside: HpOutside) -> (r: HpPerformance)
        ensures
            r == self.performance(outside),
    {
        let cop_raw: Double = outside.cop_curve_value.times(self.cop_scale);
        let cop_for_physics: Double = cop_raw.max(Double::ratio(1, 1_000_000));
        let cap_mult: Double = outside.capacity_curve_value.max(Double::zero());
        let compressor_power_w: Double = if self.compressor_on {
            self.compressor_power_w.times(cap_mult).over(cop_for_physics).times(
                self.component_duty(self.hp_duty_cycle),
            )
        } else {
            Double::zero()
        };
        let backup_power_w: Double = if self.backup_on {
            self.backup_element_power_w.times(self.component_duty(self.er_duty_cycle))
        } else {
            Double::zero()
        };
        proof {
            crate::double_laws::whole_is_small(8);
        }
        HpPerformance {
            cop: cop_raw.clamp(Double::zero(), Double::whole(8)),
            cap_mult,
            compressor_power_w,
            backup_power_w,
            delivered_hp_w: compressor_power_w.times(cop_for_physics),
            delivered_er_w: backup_power_w.times(self.backup_efficiency),
            fan_parasitic_w: if self.compressor_on {
                self.fan_power_w
            } else {
                self.parasitic_power_w
            },
        }
    }

    /// What the heater gives to its zone, besides the loss of its tank: the power that
    /// does not reach the water, less what the evaporator takes from the air. In air that
    /// is saturated nothing condenses.
    pub open spec fn spec_gains(
        self,
        p: HpPerformance,
        dry_bulb_c: Double,
        wet_bulb_c: Double,
    ) -> HpGains {
        let shr = if dry_bulb_c.minus(wet_bulb_c).gt(Double::ratio(1, 10)) {
            self.shr
        } else {
            Double::one()
        };
        let hp_waste_w = p.compressor_power_w.minus(p.delivered_hp_w);
        let er_waste_w = p.backup_power_w.minus(p.delivered_er_w);
        let keep_fraction = Double::one().minus(self.lost_heat_fraction);
        let sensible_gain_w = hp_waste_w.times(shr).plus(p.fan_parasitic_w).plus(
            er_waste_w,
        ).times(keep_fraction);
        HpGains {
            sensible_to_zone_w: sensible_gain_w.times(
                Double::one().minus(self.wall_heat_fraction),
            ),
            sensible_to_wall_w: sensible_gain_w.times(self.wall_heat_fraction),
            latent_gain_w: hp_waste_w.times(Double::one().minus(shr)).times(keep_fraction),
        }
    }

    #[verifier::when_used_as_spec(spec_gains)]
    pub fn gains(self, p: HpPerformance, dry_bulb_c: Double, wet_bulb_c: Double) -> (r: HpGains)
        ensures
            r == self.gains(p, dry_bulb_c, wet_bulb_c),
    {
        let shr: Double = if dry_bulb_c.minus(wet_bulb_c).gt(Double::ratio(1, 10)) {
            self.shr
        } else {
            Double::one()
        };
        let hp_waste_w: Double = p.compressor_power_w.minus(p.delivered_hp_w);
        let er_waste_w: Double = p.backup_power_w.minus(p.delivered_er_w);
        let keep_fraction: Double = Double::one().minus(self.lost_heat_fraction);
        let sensible_gain_w: Double = hp_waste_w.times(shr).plus(p.fan_parasitic_w).plus(
            er_waste_w,
        ).times(keep_fraction);
        HpGains {
            sensible_to_zone_w: sensible_gain_w.times(
                Double::one().minus(self.wall_heat_fraction),
            ),
            sensible_to_wall_w: sensible_gain_w.times(self.wall_heat_fraction),
            latent_gain_w: hp_waste_w.times(Double::one().minus(shr)).times(keep_fraction),
        }
    }

    /// The mixing valve.
    #[verifier::allow_in_spec]
    pub fn tmv(self) -> TemperedDrawConfig
        returns
            (TemperedDrawConfig {
                tempered_draw_temp_c: self.fixture_delivery_temp_c,
                hot_draw_temp_c: or_default(self.tempering_valve_setpoint_c, self.setpoint_c),
                setpoint_temp_c: self.setpoint_c,
            }),
    {
        TemperedDrawConfig {
            tempered_draw_temp_c: self.fixture_delivery_temp_c,
            hot_draw_temp_c: or_default(self.tempering_valve_setpoint_c, self.setpoint_c),
            setpoint_temp_c: self.setpoint_c,
        }
    }

    pub open spec fn spec_finished(self, f: HpFigures, tank_avg_temp_c: Double) -> HpState {
        HpState {
            ctrl_load_fraction: Double::one(),
            telemetry: HpTelemetry {
                tank_avg_temp_c,
                cop: f.performance.cop,
                cap_mult: f.performance.cap_mult,
                electric_kw: power_w_to_kw(f.electric_power_w),
                compressor_kw: power_w_to_kw(f.performance.compressor_power_w),
                element_kw: power_w_to_kw(f.performance.backup_power_w),
                compressor_power_w: f.performance.compressor_power_w,
                backup_element_power_w: f.performance.backup_power_w,
                zone_heat_extraction_w: f.performance.zone_heat_extraction_w(),
                draw_flow_rate_kg_s: f.total_draw_kg_s,
                operating_mode: mode_number(f.mode),
                wall_sensible_gain_w: f.gains.sensible_to_wall_w,
                unmet_load_w: f.draw.unmet_load_w,
            },
            core_output: CoreOutput {
                electric_kw: Some(power_w_to_kw(f.electric_power_w).max(Double::zero())),
                reactive_power_kvar: None,
                fuel: None,
                thermal_output_w: None,
                operating_mode: Some(f.mode),
            },
            ..self
        }
    }

    /// The state after a step has been reported: its figures are recorded, and what a
    /// controller asked for one step is over.
    #[verifier::when_used_as_spec(spec_finished)]
    pub fn finished(self, f: HpFigures, tank_avg_temp_c: Double) -> (r: HpState)
        ensures
            r == self.finished(f, tank_avg_temp_c),
    {
        HpState {
            ctrl_load_fraction: Double::one(),
            telemetry: HpTelemetry {
                tank_avg_temp_c,
                cop: f.performance.cop,
                cap_mult: f.performance.cap_mult,
                electric_kw: power_w_to_kw(f.electric_power_w),
                compressor_kw: power_w_to_kw(f.performance.compressor_power_w),
                element_kw: power_w_to_kw(f.performance.backup_power_w),
                compressor_power_w: f.performance.compressor_power_w,
                backup_element_power_w: f.performance.backup_power_w,
                zone_heat_extraction_w: f.performance.zone_heat_extraction_w(),
                draw_flow_rate_kg_s: f.total_draw_kg_s,
                operating_mode: mode_number(f.mode),
                wall_sensible_gain_w: f.gains.sensible_to_wall_w,
                unmet_load_w: f.draw.unmet_load_w,
            },
            core_output: CoreOutput {
                electric_kw: Some(power_w_to_kw(f.electric_power_w).max(Double::zero())),
                reactive_power_kvar: None,
                fuel: None,
                thermal_output_w: None,
                operating_mode: Some(f.mode),
            },
            ..self
        }
    }

    /// The state after a setpoint request, and the fault in it. The setpoint moves at once
    /// unless it moves at a rate.
    pub open spec fn with_setpoint(self, setpoint: Option<Double>, deadband: Option<Double>) -> (
        HpState,
        Option<ControlFault>,
    ) {
        if setpoint is Some && !setpoint->0.is_finite() {
            (self, Some(ControlFault::Setpoint { value: setpoint->0 }))
        } else {
            let moved = HpState {
                target_setpoint_c: or_default(setpoint, self.target_setpoint_c),
                setpoint_c: if self.setpoint_ramp_rate_c_per_s is None {
                    or_default(setpoint, self.setpoint_c)
                } else {
                    self.setpoint_c
                },
                ..self
            };
            match deadband {
                Some(db) if !(db.is_finite() && db.ge(Double::zero())) => (
                    moved,
                    Some(ControlFault::Deadband { value: db }),
                ),
                Some(db) => (HpState { deadband_c: db, ..moved }, None),
                None => (moved, None),
            }
        }
    }

    /// The state after a control signal, and the fault in it.
    pub open spec fn applied(self, signal: ControlSignal) -> (HpState, Option<ControlFault>) {
        match signal {
            ControlSignal::ThermalSetpoint { heating_setpoint_c, cooling_setpoint_c, deadband_c } =>
                self.with_setpoint(
                if heating_setpoint_c is Some {
                    heating_setpoint_c
                } else {
                    cooling_setpoint_c
                },
                deadband_c,
            ),
            ControlSignal::DutyCycle { on_fraction, component } => if on_fraction.is_finite()
                && Double::zero().le(on_fraction) && on_fraction.le(Double::one()) {
                (
                    match component {
                        Some(DutyCycleComponent::Compressor) => HpState {
                            hp_duty_cycle: on_fraction,
                            ..self
                        },
                        Some(DutyCycleComponent::BackupElement) => HpState {
                            er_duty_cycle: on_fraction,
                            ..self
                        },
                        None => HpState { duty_cycle: on_fraction, ..self },
                    },
                    None,
                )
            } else {
                (
                    self,
                    Some(ControlFault::DutyCycle { equipment: "HeatPumpWH", value: on_fraction }),
                )
            },
            ControlSignal::ModeOverride { mode } => (
                HpState { mode_override: Some(mode), ..self },
                None,
            ),
            ControlSignal::LoadFraction { fraction } => (
                HpState {
                    ctrl_load_fraction: fraction.clamp(Double::zero(), Double::one()),
                    ..self
                },
                None,
            ),
            ControlSignal::PowerLimit { max_power_kw } => {
                let rated_w = self.compressor_power_w.plus(self.backup_element_power_w);
                if rated_w.gt(Double::zero()) {
                    (
                        HpState {
                            ctrl_load_fraction: self.ctrl_load_fraction.min(
                                max_power_kw.times(Double::whole(1000)).over(rated_w).clamp(
                                    Double::zero(),
                                    Double::one(),
                                ),
                            ),
                            ..self
                        },
                        None,
                    )
                } else {
                    (self, None)
                }
            },
            ControlSignal::DemandResponse { level, duration_s } => (
                HpState { dr: DemandResponse::at(level, duration_s), ..self },
                None,
            ),
            ControlSignal::Other => (self, None),
        }
    }

    /// The state once the heater is placed: its nodes and its setpoint are those of a
    /// configuration.
    pub open spec fn placed(self, c: &HeatPumpWaterHeaterConfig) -> HpState {
        let n = typed_node_count(c.tank_nodes);
        let setpoint_c = or_default(c.setpoint_c, default_setpoint_c());
        HpState {
            loop_id: match c.loop_id {
                Some(id) => id,
                None => self.loop_id,
            },
            thermostat_node: (n - 1) as usize,
            thermostat_upper_node: 0,
            condenser_node: n / 2,
            setpoint_c,
            deadband_c: or_default(c.deadband_c, default_deadband_c()),
            setpoint_ramp_rate_c_per_s: None,
            target_setpoint_c: setpoint_c,
            ..self
        }
    }

    /// The placed state with the other settings of a configuration, in operation for the
    /// first time.
    pub open spec fn configured(
        self,
        c: &HeatPumpWaterHeaterConfig,
        low_power_coeffs: LowPowerCoeffs,
        cop_at_reference: Double,
        mains_temp_c: Double,
    ) -> HpState {
        let low_power = is_low_power(c.low_power_hpwh, c.uniform_energy_factor);
        HpState {
            duty_cycle: Double::one(),
            hp_duty_cycle: Double::one(),
            er_duty_cycle: Double::one(),
            mode_override: None,
            compressor_on: false,
            backup_on: false,
            compressor_power_w: or_default(c.compressor_power_w, default_compressor_power_w()),
            backup_element_power_w: or_default(
                c.backup_element_power_w,
                default_backup_element_power_w(),
            ).max(Double::zero()),
            backup_enable_offset_c: or_default(
                c.backup_enable_offset_c,
                default_backup_enable_offset_c(),
            ),
            backup_efficiency: or_default(c.backup_efficiency, default_backup_efficiency()),
            cop_curve: configured_cop_curve(c, low_power_coeffs),
            cop_scale: cop_scale_for(c.cop, c.performance_adjustment, cop_at_reference),
            tempering_valve_setpoint_c: if_positive(c.tempering_valve_setpoint_c),
            fixture_delivery_temp_c: or_default(
                c.fixture_delivery_temp_c,
                default_fixture_temp_c(),
            ),
            capacity_curve: configured_capacity_curve(c, low_power_coeffs),
            min_ambient_temp_c: or_default(c.min_ambient_temp_c, default_min_ambient_temp_c(low_power)),
            max_ambient_temp_c: or_default(c.max_ambient_temp_c, default_max_ambient_temp_c(low_power)),
            max_tank_temp_c: or_default(c.max_tank_temp_c, default_max_tank_temp_c()),
            shr: or_default(c.shr, default_shr()),
            lost_heat_fraction: or_default(c.lost_heat_fraction, Double::zero()),
            fan_power_w: or_default(c.fan_power_w, default_fan_power_w()),
            parasitic_power_w: or_default(c.parasitic_power_w, default_parasitic_power_w()),
            compressor_on_since_s: None,
            compressor_off_since_s: None,
            min_on_time_s: or_default(c.min_on_time_s, default_min_on_time_s()),
            min_off_time_s: or_default(c.min_off_time_s, Double::zero()),
            hp_only_mode: match c.hp_only_mode {
                Some(only) => only,
                None => false,
            },
            wall_heat_fraction: configured_wall_heat_fraction(c),
            element_hp_control: configured_control_mode(c),
            mains_temp_c,
            draw_flow_rate_kg_s: or_default(c.draw_flow_rate_kg_s, Double::zero()),
            zip: WaterHeaterZip::constant_power(),
            dr: DemandResponse::normal(),
            ctrl_load_fraction: Double::one(),
            telemetry: HpTelemetry::empty(),
            core_output: CoreOutput::empty(),
            ..self
        }
    }

    /// The state with the control settings of a saved one.
    pub open spec fn with_saved_control(self, saved: HpwhState) -> HpState {
        HpState {
            setpoint_c: saved.setpoint_c,
            target_setpoint_c: saved.target_setpoint_c,
            deadband_c: saved.deadband_c,
            compressor_on: saved.compressor_on,
            backup_on: saved.backup_on,
            duty_cycle: saved.duty_cycle,
            hp_duty_cycle: saved.hp_duty_cycle,
            er_duty_cycle: saved.er_duty_cycle,
            mode_override: saved.mode_override,
            element_hp_control: saved.element_hp_control,
            compressor_on_since_s: saved.compressor_on_since_s,
            compressor_off_since_s: saved.compressor_off_since_s,
            min_on_time_s: saved.min_on_time_s,
            min_off_time_s: saved.min_off_time_s,
            dr: saved.dr,
            ..self
        }
    }

    /// The state with all of a saved one.
    pub open spec fn with_saved(self, saved: HpwhState) -> HpState {
        HpState {
            telemetry: loaded_telemetry(saved),
            core_output: CoreOutput::empty(),
            ..self.with_saved_control(saved)
        }
    }
}

/// The figures of a saved state.
pub open spec fn loaded_telemetry(saved: HpwhState) -> HpTelemetry {
    HpTelemetry {
        tank_avg_temp_c: saved.tank_avg_temp_c,
        cop: saved.cop,
        cap_mult: saved.cap_mult,
        electric_kw: saved.electric_kw,
        compressor_kw: power_w_to_kw(saved.compressor_power_w),
        element_kw: power_w_to_kw(saved.backup_element_power_w),
        compressor_power_w: saved.compressor_power_w,
        backup_element_power_w: saved.backup_element_power_w,
        zone_heat_extraction_w: saved.zone_heat_extraction_w,
        draw_flow_rate_kg_s: saved.draw_flow_rate_kg_s,
        operating_mode: mode_number(mode_of(saved.compressor_on, saved.backup_on)),
        wall_sensible_gain_w: saved.wall_sensible_gain_w,
        unmet_load_w: saved.unmet_load_w,
    }
}

/// Whether a configuration lets the compressor and the backup element run together.
pub open spec fn configured_control_mode(c: &HeatPumpWaterHeaterConfig) -> ElementHpControlMode {
    if crate::config::text_is(c.element_hp_control_mode, "Simultaneous"@)
        || crate::config::text_is(c.element_hp_control_mode, "simultaneous"@) {
        ElementHpControlMode::Simultaneous
    } else {
        ElementHpControlMode::MutuallyExclusive
    }
}

/// The curve of the coefficient of performance of a configuration: with coefficients of its
/// own, or else with those of its class.
#[verifier::allow_in_spec]
pub fn configured_cop_curve(
    c: &HeatPumpWaterHeaterConfig,
    low_power_coeffs: LowPowerCoeffs,
) -> BiquadraticCurve
    returns
        cop_curve(
            match c.cop_biquadratic_coeffs {
                Some(coeffs) => Some(coeffs),
                None => Some(
                    class_coeffs(
                        c.low_power_hpwh,
                        c.uniform_energy_factor,
                        default_cop_coeffs(),
                        low_power_coeffs.cop,
                    ),
                ),
            },
        ),
{
    cop_curve(
        match c.cop_biquadratic_coeffs {
            Some(coeffs) => Some(coeffs),
            None => Some(
                class_coeffs(
                    c.low_power_hpwh,
                    c.uniform_energy_factor,
                    default_cop_coeffs(),
                    low_power_coeffs.cop,
                ),
            ),
        },
    )
}

/// The curve of the capacity of a configuration: with coefficients of its own, or else with
/// those of its class.
#[verifier::allow_in_spec]
pub fn configured_capacity_curve(
    c: &HeatPumpWaterHeaterConfig,
    low_power_coeffs: LowPowerCoeffs,
) -> BiquadraticCurve
    returns
        capacity_curve(
            match c.capacity_biquadratic_coeffs {
                Some(coeffs) => Some(coeffs),
                None => Some(
                    class_coeffs(
                        c.low_power_hpwh,
                        c.uniform_energy_factor,
                        default_capacity_coeffs(),
                        low_power_coeffs.capacity,
                    ),
                ),
            },
        ),
{
    capacity_curve(
        match c.capacity_biquadratic_coeffs {
            Some(coeffs) => Some(coeffs),
            None => Some(
                class_coeffs(
                    c.low_power_hpwh,
                    c.uniform_energy_factor,
                    default_capacity_coeffs(),
                    low_power_coeffs.capacity,
                ),
            ),
        },
    )
}

/// The share of the heat that goes to the walls: half of it in a conditioned zone, unless
/// configured.
pub open spec fn configured_wall_heat_fraction(c: &HeatPumpWaterHeaterConfig) -> Double {
    or_default(
        c.wall_heat_fraction,
        if crate::config::text_is(c.zone_type, "conditioned"@) {
            Double::ratio(1, 2)
        } else {
            Double::zero()
        },
    )
}

/// The temperature of a tank at first: near the top of the deadband, unless configured.
#[verifier::allow_in_spec]
pub fn configured_initial_temp_c(c: &HeatPumpWaterHeaterConfig) -> Double
    returns
        or_default(
            c.initial_tank_temp_c,
            or_default(c.setpoint_c, default_setpoint_c()).minus(
                or_default(c.deadband_c, default_deadband_c()).over(Double::whole(10)),
            ),
        ),
{
    or_default(
        c.initial_tank_temp_c,
        or_default(c.setpoint_c, default_setpoint_c()).minus(
            or_default(c.deadband_c, default_deadband_c()).over(Double::whole(10)),
        ),
    )
}

/// The tank of a configuration.
pub open spec fn configured_tank(c: &HeatPumpWaterHeaterConfig) -> crate::tank::StratifiedTankConfig {
    let n = typed_node_count(c.tank_nodes);
    crate::storage::typed_tank_config(
        c.tank_nodes,
        c.tank_volume_m3,
        c.tank_height_m,
        c.ua_w_per_k,
        c.jacket_r_value_m2_k_w,
        configured_initial_temp_c(c),
        [Some(n / 2), Some((n - 1) as usize)],
    )
}

/// The default settings.
#[verifier::allow_in_spec]
pub fn initial_state(thermostat_node: usize, condenser_node: usize, loop_id: u16) -> HpState
    returns
        (
        HpState {
            thermostat_node,
            thermostat_upper_node: 0,
            condenser_node,
            setpoint_c: default_setpoint_c(),
            target_setpoint_c: default_setpoint_c(),
            setpoint_ramp_rate_c_per_s: None,
            deadband_c: default_deadband_c(),
            duty_cycle: Double::one(),
            hp_duty_cycle: Double::one(),
            er_duty_cycle: Double::one(),
            mode_override: None,
            compressor_on: false,
            backup_on: false,
            compressor_power_w: default_compressor_power_w(),
            backup_element_power_w: default_backup_element_power_w(),
            backup_enable_offset_c: default_backup_enable_offset_c(),
            backup_efficiency: default_backup_efficiency(),
            cop_curve: cop_curve(None),
            cop_scale: Double::one(),
            tempering_valve_setpoint_c: None,
            fixture_delivery_temp_c: default_fixture_temp_c(),
            capacity_curve: capacity_curve(None),
            min_ambient_temp_c: default_min_ambient_temp_c(false),
            max_ambient_temp_c: default_max_ambient_temp_c(false),
            max_tank_temp_c: default_max_tank_temp_c(),
            shr: default_shr(),
            lost_heat_fraction: Double::zero(),
            fan_power_w: default_fan_power_w(),
            parasitic_power_w: default_parasitic_power_w(),
            compressor_on_since_s: None,
            compressor_off_since_s: None,
            min_on_time_s: default_min_on_time_s(),
            min_off_time_s: Double::zero(),
            hp_only_mode: false,
            wall_heat_fraction: Double::zero(),
            element_hp_control: ElementHpControlMode::MutuallyExclusive,
            loop_id,
            mains_temp_c: Double::whole(10),
            draw_flow_rate_kg_s: Double::zero(),
            zip: WaterHeaterZip::constant_power(),
            dr: DemandResponse::normal(),
            ctrl_load_fraction: Double::one(),
            telemetry: HpTelemetry::empty(),
            core_output: CoreOutput::empty(),
        }
        ),
{
    HpState {
        thermostat_node,
        thermostat_upper_node: 0,
        condenser_node,
        setpoint_c: default_setpoint_c(),
        target_setpoint_c: default_setpoint_c(),
        setpoint_ramp_rate_c_per_s: None,
        deadband_c: default_deadband_c(),
        duty_cycle: Double::one(),
        hp_duty_cycle: Double::one(),
        er_duty_cycle: Double::one(),
        mode_override: None,
        compressor_on: false,
        backup_on: false,
        compressor_power_w: default_compressor_power_w(),
        backup_element_power_w: default_backup_element_power_w(),
        backup_enable_offset_c: default_backup_enable_offset_c(),
        backup_efficiency: default_backup_efficiency(),
        cop_curve: cop_curve(None),
        cop_scale: Double::one(),
        tempering_valve_setpoint_c: None,
        fixture_delivery_temp_c: default_fixture_temp_c(),
        capacity_curve: capacity_curve(None),
        min_ambient_temp_c: default_min_ambient_temp_c(false),
        max_ambient_temp_c: default_max_ambient_temp_c(false),
        max_tank_temp_c: default_max_tank_temp_c(),
        shr: default_shr(),
        lost_heat_fraction: Double::zero(),
        fan_power_w: default_fan_power_w(),
        parasitic_power_w: default_parasitic_power_w(),
        compressor_on_since_s: None,
        compressor_off_since_s: None,
        min_on_time_s: default_min_on_time_s(),
        min_off_time_s: Double::zero(),
        hp_only_mode: false,
        wall_heat_fraction: Double::zero(),
        element_hp_control: ElementHpControlMode::MutuallyExclusive,
        loop_id,
        mains_temp_c: Double::whole(10),
        draw_flow_rate_kg_s: Double::zero(),
        zip: WaterHeaterZip::constant_power(),
        dr: DemandResponse::normal(),
        ctrl_load_fraction: Double::one(),
        telemetry: HpTelemetry::empty(),
        core_output: CoreOutput::empty(),
    }
}

// ---------------------------------------------------------------------------
// Telemetry fields
// ---------------------------------------------------------------------------

/// The figures that this heater records, those of its tank nodes among them.
pub open spec fn telemetry_fields(n_nodes: nat) -> Seq<TelemetryField> {
    seq![
        TelemetryField {
            key: TelemetryKey::TankAvgTempC,
            unit: "C",
            description: "Volume-weighted average tank temperature",
        },
        TelemetryField {
            key: TelemetryKey::Cop,
            unit: "-",
            description: "Instantaneous heat-pump COP",
        },
        TelemetryField {
            key: TelemetryKey::CapMult,
            unit: "-",
            description: "Capacity curve multiplier (function of wet-bulb and tank temperature)",
        },
        TelemetryField {
            key: TelemetryKey::ElectricKw,
            unit: "kW",
            description: "Total electrical power draw (compressor + backup + fan + parasitic)",
        },
        TelemetryField {
            key: TelemetryKey::CompressorKw,
            unit: "kW",
            description: "Heat pump compressor electric power",
        },
        TelemetryField {
            key: TelemetryKey::ElementKw,
            unit: "kW",
            description: "Backup resistance element electric power",
        },
        TelemetryField {
            key: TelemetryKey::CompressorPowerW,
            unit: "W",
            description: "Compressor electric power",
        },
        TelemetryField {
            key: TelemetryKey::BackupElementPowerW,
            unit: "W",
            description: "Backup resistance element power",
        },
        TelemetryField {
            key: TelemetryKey::ZoneHeatExtractionW,
            unit: "W",
            description: "Heat extracted from surrounding zone air",
        },
        TelemetryField {
            key: TelemetryKey::DrawFlowRateKgS,
            unit: "kg/s",
            description: "Domestic hot water draw flow rate",
        },
        TelemetryField {
            key: TelemetryKey::OperatingMode,
            unit: "enum",
            description: "0=Off, 1=HP, 2=Backup, 3=HP+Backup",
        },
        TelemetryField {
            key: TelemetryKey::WallSensibleGainW,
            unit: "W",
            description: "Sensible heat directed to interior wall surfaces (wall_heat_fraction share)",
        },
        TelemetryField {
            key: TelemetryKey::UnmetLoadW,
            unit: "W",
            description: "Unmet fixture load: heat not delivered because outlet temp < fixture setpoint",
        },
    ] + crate::types::node_fields(n_nodes) + seq![
        TelemetryField {
            key: TelemetryKey::SkinLossW,
            unit: "W",
            description: "Tank jacket (skin) heat loss to zone",
        },
    ]
}

fn build_telemetry_fields(n_nodes: usize) -> (fields: Vec<TelemetryField>)
    ensures
        fields@ == telemetry_fields(n_nodes as nat),
{
    let mut fields: Vec<TelemetryField> = vec![
        TelemetryField {
            key: TelemetryKey::TankAvgTempC,
            unit: "C",
            description: "Volume-weighted average tank temperature",
        },
        TelemetryField {
            key: TelemetryKey::Cop,
            unit: "-",
            description: "Instantaneous heat-pump COP",
        },
        TelemetryField {
            key: TelemetryKey::CapMult,
            unit: "-",
            description: "Capacity curve multiplier (function of wet-bulb and tank temperature)",
        },
        TelemetryField {
            key: TelemetryKey::ElectricKw,
            unit: "kW",
            description: "Total electrical power draw (compressor + backup + fan + parasitic)",
        },
        TelemetryField {
            key: TelemetryKey::CompressorKw,
            unit: "kW",
            description: "Heat pump compressor electric power",
        },
        TelemetryField {
            key: TelemetryKey::ElementKw,
            unit: "kW",
            description: "Backup resistance element electric power",
        },
        TelemetryField {
            key: TelemetryKey::CompressorPowerW,
            unit: "W",
            description: "Compressor electric power",
        },
        TelemetryField {
            key: TelemetryKey::BackupElementPowerW,
            unit: "W",
            description: "Backup resistance element power",
        },
        TelemetryField {
            key: TelemetryKey::ZoneHeatExtractionW,
            unit: "W",
            description: "Heat extracted from surrounding zone air",
        },
        TelemetryField {
            key: TelemetryKey::DrawFlowRateKgS,
            unit: "kg/s",
            description: "Domestic hot water draw flow rate",
        },
        TelemetryField {
            key: TelemetryKey::OperatingMode,
            unit: "enum",
            description: "0=Off, 1=HP, 2=Backup, 3=HP+Backup",
        },
        TelemetryField {
            key: TelemetryKey::WallSensibleGainW,
            unit: "W",
            description: "Sensible heat directed to interior wall surfaces (wall_heat_fraction share)",
        },
        TelemetryField {
            key: TelemetryKey::UnmetLoadW,
            unit: "W",
            description: "Unmet fixture load: heat not delivered because outlet temp < fixture setpoint",
        },
    ];
    push_node_fields(&mut fields, n_nodes);
    fields.push(
        TelemetryField {
            key: TelemetryKey::SkinLossW,
            unit: "W",
            description: "Tank jacket (skin) heat loss to zone",
        },
    );
    assert(fields@ =~= telemetry_fields(n_nodes as nat));
    fields
}

// ---------------------------------------------------------------------------
// The heater
// ---------------------------------------------------------------------------

/// A heat pump storage water heater.
#[derive(Debug)]
pub struct HeatPumpWH {
    pub descriptor: EquipmentDescriptor,
    pub ports: Vec<PortDeclaration>,
    pub tank: StratifiedTank,
    /// How the condenser spreads its heat over the nodes; made up to one before use.
    pub condenser_node_weights: Vec<Double>,
    pub state: HpState,
}

/// What a step came to, and what it gives to the ports, in order. The heat that the tank
/// gives to the zone ([`crate::storage::jacket_loss`]) comes between `contributions` and
/// `fluid`.
#[derive(Debug)]
pub struct HpStep {
    pub figures: HpFigures,
    pub contributions: Vec<PortContribution>,
    pub fluid: Option<PortContribution>,
}

/// What a heat pump heater saves.
#[derive(Debug)]
pub struct HpwhState {
    pub setpoint_c: Double,
    pub target_setpoint_c: Double,
    pub deadband_c: Double,
    pub compressor_on: bool,
    pub backup_on: bool,
    pub duty_cycle: Double,
    pub hp_duty_cycle: Double,
    pub er_duty_cycle: Double,
    pub mode_override: Option<OperatingMode>,
    pub element_hp_control: ElementHpControlMode,
    pub compressor_on_since_s: Option<Double>,
    pub compressor_off_since_s: Option<Double>,
    pub min_on_time_s: Double,
    pub min_off_time_s: Double,
    pub dr: DemandResponse,
    pub tank_state: StratifiedTankState,
    pub tank_avg_temp_c: Double,
    pub cop: Double,
    pub cap_mult: Double,
    pub electric_kw: Double,
    pub compressor_power_w: Double,
    pub backup_element_power_w: Double,
    pub zone_heat_extraction_w: Double,
    pub wall_sensible_gain_w: Double,
    pub unmet_load_w: Double,
    pub draw_flow_rate_kg_s: Double,
}

/// The wet-bulb temperature of the zone of a heater, or the temperature around it where
/// there is no such zone.
pub open spec fn wet_bulb(env: &EnvironmentState, zone: Option<u16>) -> Double {
    match crate::shared::zone_of(env, zone) {
        Some(z) => z.wet_bulb_c,
        None => crate::shared::ambient(env, zone),
    }
}

impl HeatPumpWH {
    /// The tank is in order, the thermostats sit on its nodes, a moving setpoint can move,
    /// and the ports are those for electricity, the zone, the hot water loop and the
    /// appliances.
    pub open spec fn wf(&self) -> bool {
        &&& self.tank@.wf()
        &&& self.state.thermostat_node < self.tank@.n()
        &&& self.state.thermostat_upper_node < self.tank@.n()
        &&& self.ports@.len() == 4
    }

    /// A heater with the default tank and settings, in the configured zone and loop.
    pub fn new(config: EquipmentConfig) -> (r: HeatPumpWH)
        ensures
            r.wf(),
            ({
                let n = node_count(parse_usize(config.value("tank_nodes"@)));
                let thermostat = node_index(
                    parse_usize(config.value("thermostat_node"@)),
                    (n - 1) as usize,
                    n,
                );
                let condenser = node_index(
                    parse_usize(config.value("condenser_node"@)),
                    n / 2,
                    n,
                );
                let zone = match config.zone_id {
                    Some(id) => id,
                    None => 1u16,
                };
                let loop_id = match config.loop_id {
                    Some(id) => id,
                    None => 0u16,
                };
                &&& r.tank@ == crate::defaults::default_tank_config(
                    n,
                    [Some(condenser), Some(thermostat)],
                ).model()
                &&& r.descriptor.id == (match config.equipment_id {
                    Some(id) => id,
                    None => 0u32,
                })
                &&& r.descriptor.name == config.name
                &&& r.descriptor.equipment_type == "Heat Pump Water Heater"
                &&& r.descriptor.zone == Some(zone)
                &&& r.descriptor.fuel == FuelType::Electric
                &&& r.descriptor.control_capabilities == (ControlCapabilities {
                    thermal_setpoint: true,
                    duty_cycle: true,
                    mode_override: true,
                    load_fraction: true,
                    power_limit: true,
                    demand_response: true,
                })
                &&& r.descriptor.core_capabilities == (CoreCapabilities {
                    electric: true,
                    reactive: false,
                    fuel: false,
                    thermal: false,
                    has_mode: true,
                })
                &&& r.descriptor.telemetry_fields@ == telemetry_fields(n as nat)
                &&& r.descriptor.zone_type is None
                &&& r.ports@ == seq![
                    PortDeclaration::Electrical,
                    PortDeclaration::Thermal { zone: Some(zone) },
                    PortDeclaration::Fluid { loop_id },
                    PortDeclaration::Fluid { loop_id: DHW_DEMAND_LOOP },
                ]
                &&& r.condenser_node_weights@ == crate::hpwh_compressor::condenser_weights(
                    n as nat,
                )
                &&& r.state == initial_state(thermostat, condenser, loop_id)
            }),
    {
        let n_nodes: usize = node_count(parse_usize(config.get_f64("tank_nodes")));
        let thermostat_node: usize = node_index(
            parse_usize(config.get_f64("thermostat_node")),
            n_nodes - 1,
            n_nodes,
        );
        let condenser_node: usize = node_index(
            parse_usize(config.get_f64("condenser_node")),
            n_nodes / 2,
            n_nodes,
        );
        let zone: u16 = match config.zone_id {
            Some(id) => id,
            None => 1,
        };
        let loop_id: u16 = match config.loop_id {
            Some(id) => id,
            None => 0,
        };
        let tank: StratifiedTank = default_tank(
            n_nodes,
            [Some(condenser_node), Some(thermostat_node)],
        );
        let descriptor = EquipmentDescriptor {
            id: match config.equipment_id {
                Some(id) => id,
                None => 0,
            },
            name: config.name,
            equipment_type: "Heat Pump Water Heater",
            zone: Some(zone),
            fuel: FuelType::Electric,
            control_capabilities: ControlCapabilities {
                thermal_setpoint: true,
                duty_cycle: true,
                mode_override: true,
                load_fraction: true,
                power_limit: true,
                demand_response: true,
            },
            core_capabilities: CoreCapabilities {
                electric: true,
                reactive: false,
                fuel: false,
                thermal: false,
                has_mode: true,
            },
            telemetry_fields: build_telemetry_fields(n_nodes),
            zone_type: None,
        };
        let ports: Vec<PortDeclaration> = vec![
            PortDeclaration::Electrical,
            PortDeclaration::Thermal { zone: Some(zone) },
            PortDeclaration::Fluid { loop_id },
            PortDeclaration::Fluid { loop_id: DHW_DEMAND_LOOP },
        ];
        HeatPumpWH {
            descriptor,
            ports,
            tank,
            condenser_node_weights: default_condenser_weights(n_nodes),
            state: initial_state(thermostat_node, condenser_node, loop_id),
        }
    }

    /// `after` is `before` with the identity, the zone and the loop of a configuration.
    pub open spec fn placed(
        before: &HeatPumpWH,
        after: &HeatPumpWH,
        c: &HeatPumpWaterHeaterConfig,
    ) -> bool {
        let zone = if c.zone_id is Some {
            c.zone_id
        } else {
            before.descriptor.zone
        };
        &&& after.descriptor.id == (match c.equipment_id {
            Some(id) => id,
            None => before.descriptor.id,
        })
        &&& after.descriptor.name == before.descriptor.name
        &&& after.descriptor.equipment_type == before.descriptor.equipment_type
        &&& after.descriptor.zone == zone
        &&& after.descriptor.fuel == before.descriptor.fuel
        &&& after.descriptor.zone_type == before.descriptor.zone_type
        &&& after.descriptor.control_capabilities == before.descriptor.control_capabilities
        &&& after.descriptor.core_capabilities == before.descriptor.core_capabilities
        &&& after.ports@ == before.ports@.update(1, PortDeclaration::Thermal { zone }).update(
            2,
            PortDeclaration::Fluid { loop_id: before.state.placed(c).loop_id },
        )
        &&& after.condenser_node_weights@ == crate::hpwh_compressor::condenser_weights(
            typed_node_count(c.tank_nodes) as nat,
        )
    }

    fn place(&mut self, c: &HeatPumpWaterHeaterConfig)
        requires
            old(self).ports@.len() == 4,
        ensures
            HeatPumpWH::placed(old(self), final(self), c),
            final(self).descriptor.telemetry_fields == old(self).descriptor.telemetry_fields,
            final(self).tank == old(self).tank,
            final(self).state == old(self).state.placed(c),
    {
        if let Some(id) = c.equipment_id {
            self.descriptor.id = id;
        }
        if let Some(id) = c.zone_id {
            self.descriptor.zone = Some(id);
        }
        let zone: Option<u16> = self.descriptor.zone;
        self.ports.set(1, PortDeclaration::Thermal { zone });
        let loop_id: u16 = match c.loop_id {
            Some(id) => id,
            None => self.state.loop_id,
        };
        self.ports.set(2, PortDeclaration::Fluid { loop_id });
        let n_nodes: usize = typed_node_count(c.tank_nodes);
        let setpoint_c: Double = or_default(c.setpoint_c, default_setpoint_c());
        self.condenser_node_weights = default_condenser_weights(n_nodes);
        self.state = HpState {
            loop_id,
            thermostat_node: n_nodes - 1,
            thermostat_upper_node: 0,
            condenser_node: n_nodes / 2,
            setpoint_c,
            deadband_c: or_default(c.deadband_c, default_deadband_c()),
            setpoint_ramp_rate_c_per_s: None,
            target_setpoint_c: setpoint_c,
            ..self.state
        };
    }

    /// Take over a typed configuration. `low_power_coeffs` are the coefficients of low-power
    /// units, `cop_at_reference` is the value of the configured COP curve at its reference
    /// point, and `mains_temp_c` the temperature of the mains water that the surroundings
    /// give. A configuration that breaks its limits changes
    /// nothing; one whose tank cannot be built leaves the heater placed but not set.
    #[verifier::rlimit(60)]
    pub fn init_typed(
        &mut self,
        c: &HeatPumpWaterHeaterConfig,
        low_power_coeffs: LowPowerCoeffs,
        cop_at_reference: Double,
        mains_temp_c: Double,
    ) -> (r: Result<()>)
        requires
            old(self).ports@.len() == 4,
        ensures
            c.fault() is Some ==> r == Err::<(), HaresError>(
                HaresError::Equipment(c.fault()->0),
            ) && *final(self) == *old(self),
            c.fault() is None ==> HeatPumpWH::placed(old(self), final(self), c),
            c.fault() is None && configured_tank(c).fault() is Some ==> {
                &&& r == Err::<(), HaresError>(HaresError::Equipment(configured_tank(c).fault()->0))
                &&& final(self).descriptor.telemetry_fields
                    == old(self).descriptor.telemetry_fields
                &&& final(self).tank == old(self).tank
                &&& final(self).state == old(self).state.placed(c)
            },
            c.fault() is None && configured_tank(c).fault() is None ==> {
                &&& r == Ok::<(), HaresError>(())
                &&& final(self).wf()
                &&& final(self).descriptor.telemetry_fields@ == telemetry_fields(
                    typed_node_count(c.tank_nodes) as nat,
                )
                &&& final(self).tank@ == configured_tank(c).model()
                &&& final(self).state == old(self).state.placed(c).configured(
                    c,
                    low_power_coeffs,
                    cop_at_reference,
                    mains_temp_c,
                )
            },
    {
        c.validate()?;
        self.place(c);
        let n_nodes: usize = typed_node_count(c.tank_nodes);
        let tank: StratifiedTank = build_typed_tank(
            c.tank_nodes,
            c.tank_volume_m3,
            c.tank_height_m,
            c.ua_w_per_k,
            c.jacket_r_value_m2_k_w,
            configured_initial_temp_c(c),
            [Some(self.state.condenser_node), Some(self.state.thermostat_node)],
        )?;
        self.tank = tank;
        let low_power: bool = is_low_power(c.low_power_hpwh, c.uniform_energy_factor);
        let wall_heat_fraction: Double = if is_text(&c.zone_type, "conditioned") {
            Double::ratio(1, 2)
        } else {
            Double::zero()
        };
        let element_hp_control: ElementHpControlMode = if is_text(
            &c.element_hp_control_mode,
            "Simultaneous",
        ) || is_text(&c.element_hp_control_mode, "simultaneous") {
            ElementHpControlMode::Simultaneous
        } else {
            ElementHpControlMode::MutuallyExclusive
        };
        self.state =
        HpState {
            duty_cycle: Double::one(),
            hp_duty_cycle: Double::one(),
            er_duty_cycle: Double::one(),
            mode_override: None,
            compressor_on: false,
            backup_on: false,
            compressor_power_w: or_default(c.compressor_power_w, default_compressor_power_w()),
            backup_element_power_w: or_default(
                c.backup_element_power_w,
                default_backup_element_power_w(),
            ).max(Double::zero()),
            backup_enable_offset_c: or_default(
                c.backup_enable_offset_c,
                default_backup_enable_offset_c(),
            ),
            backup_efficiency: or_default(c.backup_efficiency, default_backup_efficiency()),
            cop_curve: configured_cop_curve(c, low_power_coeffs),
            cop_scale: cop_scale_for(c.cop, c.performance_adjustment, cop_at_reference),
            tempering_valve_setpoint_c: if_positive(c.tempering_valve_setpoint_c),
            fixture_delivery_temp_c: or_default(
                c.fixture_delivery_temp_c,
                default_fixture_temp_c(),
            ),
            capacity_curve: configured_capacity_curve(c, low_power_coeffs),
            min_ambient_temp_c: or_default(c.min_ambient_temp_c, default_min_ambient_temp_c(low_power)),
            max_ambient_temp_c: or_default(c.max_ambient_temp_c, default_max_ambient_temp_c(low_power)),
            max_tank_temp_c: or_default(c.max_tank_temp_c, default_max_tank_temp_c()),
            shr: or_default(c.shr, default_shr()),
            lost_heat_fraction: or_default(c.lost_heat_fraction, Double::zero()),
            fan_power_w: or_default(c.fan_power_w, default_fan_power_w()),
            parasitic_power_w: or_default(c.parasitic_power_w, default_parasitic_power_w()),
            compressor_on_since_s: None,
            compressor_off_since_s: None,
            min_on_time_s: or_default(c.min_on_time_s, default_min_on_time_s()),
            min_off_time_s: or_default(c.min_off_time_s, Double::zero()),
            hp_only_mode: match c.hp_only_mode {
                Some(only) => only,
                None => false,
            },
            wall_heat_fraction: or_default(c.wall_heat_fraction, wall_heat_fraction),
            element_hp_control,
            mains_temp_c,
            draw_flow_rate_kg_s: or_default(c.draw_flow_rate_kg_s, Double::zero()),
            zip: WaterHeaterZip::constant_power(),
            dr: DemandResponse::normal(),
            ctrl_load_fraction: Double::one(),
            telemetry: HpTelemetry::empty(),
            core_output: CoreOutput::empty(),
            ..self.state
        };
        self.descriptor.telemetry_fields = build_telemetry_fields(n_nodes);
        Ok(())
    }

    /// The temperature that the thermostat goes by.
    pub open spec fn spec_control_temp_c(&self) -> Double {
        composite_temp_c(
            self.tank@.node_temps_c[self.state.thermostat_upper_node as int],
            self.tank@.node_temps_c[self.state.thermostat_node as int],
        )
    }

    #[verifier::when_used_as_spec(spec_control_temp_c)]
    pub fn control_temp_c(&self) -> (r: Double)
        requires
            self.wf(),
        ensures
            r == self.control_temp_c(),
    {
        composite_temp_c(
            self.tank.node_temps()[self.state.thermostat_upper_node],
            self.tank.node_temps()[self.state.thermostat_node],
        )
    }

    /// Decide whether the compressor and the backup element run in this step.
    pub fn update_control(&mut self, env: &EnvironmentState) -> (mode: OperatingMode)
        requires
            old(self).wf(),
            env.time_res.wf(),
            old(self).state.can_ramp(env.time_res.length_s()),
        ensures
            final(self).wf(),
            final(self).state == old(self).state.later(env.time_res.length_s()).switched(
                crate::shared::overheated(
                    old(self).tank@.node_temps_c,
                    old(self).state.max_tank_temp_c,
                ),
                old(self).control_temp_c(),
                crate::shared::ambient(env, old(self).descriptor.zone),
            ),
            mode == final(self).state.mode(),
            final(self).descriptor == old(self).descriptor,
            final(self).ports == old(self).ports,
            final(self).tank == old(self).tank,
            final(self).condenser_node_weights == old(self).condenser_node_weights,
    {
        let overheated: bool = is_overheated(&self.tank, self.state.max_tank_temp_c);
        let control_temp_c: Double = self.control_temp_c();
        let ambient_c: Double = ambient_temp_c(env, self.descriptor.zone);
        self.state = self.state.later(env.time_res.length_s()).switched(
            overheated,
            control_temp_c,
            ambient_c,
        );
        self.state.mode()
    }

    /// The temperatures at which the curves are read in a step: the wet-bulb temperature
    /// of the zone and the average of the tank.
    pub fn curve_inputs(&self, env: &EnvironmentState) -> (r: (Double, Double))
        requires
            self.wf(),
        ensures
            r.0 == wet_bulb(env, self.descriptor.zone),
            r.1 == crate::shared::weighted_average(
                self.tank@.node_temps_c,
                self.tank@.node_volumes_m3,
            ),
    {
        let wet_bulb_c: Double = match find_zone(env, self.descriptor.zone) {
            Some(z) => z.wet_bulb_c,
            None => ambient_temp_c(env, self.descriptor.zone),
        };
        (
            wet_bulb_c,
            weighted_average_tank_temp(self.tank.node_temps(), self.tank.node_volumes_m3()),
        )
    }

    /// The tank after a step, and the draw.
    pub open spec fn step_tank(
        &self,
        env: &EnvironmentState,
        outside: HpOutside,
        fluid: Seq<FluidAccumulator>,
        dt: Duration,
    ) -> (crate::tank::TankModel, Result<DrawResult>) {
        self.tank@.stepped_tempered(
            crate::shared::ambient(env, self.descriptor.zone),
            self.state.draw_flow_rate_kg_s.over(outside.water_density_kg_m3),
            crate::shared::dhw_demand(fluid).over(outside.water_density_kg_m3),
            self.state.mains_temp_c,
            crate::hpwh_compressor::condenser_injections(
                self.condenser_node_weights@,
                self.state.performance(outside).delivered_w(),
                self.tank@.n(),
            ),
            self.state.tmv(),
            dt.as_secs(),
        )
    }

    /// What a step with a draw comes to.
    pub open spec fn step_figures(
        &self,
        env: &EnvironmentState,
        mode: OperatingMode,
        outside: HpOutside,
        fluid: Seq<FluidAccumulator>,
        draw: DrawResult,
    ) -> HpFigures {
        let performance = self.state.performance(outside);
        let (electric_power_w, reactive_power_kvar) = self.state.zip.apply(
            performance.rated_electric_w(),
            env.voltage_pu,
        );
        HpFigures {
            mode,
            performance,
            gains: self.state.gains(
                performance,
                crate::shared::ambient(env, self.descriptor.zone),
                wet_bulb(env, self.descriptor.zone),
            ),
            electric_power_w,
            reactive_power_kvar,
            total_draw_kg_s: self.state.draw_flow_rate_kg_s.plus(crate::shared::dhw_demand(fluid)),
            draw,
        }
    }

    /// What a step gives to the ports before the loss of the tank: electric power, and
    /// the heat of the air and of the walls of its zone.
    pub open spec fn step_contributions(&self, f: HpFigures) -> Seq<PortContribution> {
        let zone = match self.descriptor.zone {
            Some(zone) => zone,
            None => 0,
        };
        crate::storage::when(
            f.electric_power_w.gt(Double::zero()) || !f.reactive_power_kvar.same(Double::zero()),
            PortContribution::Electrical {
                active_power: ActivePower::Kilowatts(power_w_to_kw(f.electric_power_w)),
                reactive_power_kvar: f.reactive_power_kvar,
            },
        ) + crate::storage::when(
            self.descriptor.zone is Some && !(f.gains.sensible_to_zone_w.same(Double::zero())
                && f.gains.latent_gain_w.same(Double::zero())),
            PortContribution::Thermal {
                zone,
                sensible_gain_w: f.gains.sensible_to_zone_w,
                latent_gain_w: f.gains.latent_gain_w,
                category: ThermalCategory::HvacDehumidification,
            },
        ) + crate::storage::when(
            self.descriptor.zone is Some && !f.gains.sensible_to_wall_w.same(Double::zero()),
            PortContribution::Thermal {
                zone,
                sensible_gain_w: f.gains.sensible_to_wall_w,
                latent_gain_w: Double::zero(),
                category: ThermalCategory::JacketLoss,
            },
        )
    }

    /// The hot water that a step gives to its loop.
    pub open spec fn step_fluid(&self, f: HpFigures) -> Option<PortContribution> {
        if f.total_draw_kg_s.gt(Double::zero()) {
            Some(
                PortContribution::Fluid {
                    loop_id: self.state.loop_id,
                    flow_rate_kg_s: f.total_draw_kg_s,
                    supply_temp_c: f.draw.outlet_temp_c,
                    return_temp_c: self.state.mains_temp_c,
                },
            )
        } else {
            None
        }
    }

    /// Advance the heater by one step, after [`HeatPumpWH::update_control`] has given its
    /// `mode`. The clocks of the compressor move on whatever becomes of the tank. What the
    /// step gives to the ports comes back with its figures, which
    /// [`HeatPumpWH::finish_step`] records once the ports have taken it.
    pub fn step(
        &mut self,
        env: &EnvironmentState,
        mode: OperatingMode,
        outside: HpOutside,
        fluid: &[FluidAccumulator],
        dt: Duration,
    ) -> (r: Result<HpStep>)
        requires
            old(self).wf(),
        ensures
            final(self).wf(),
            final(self).state == old(self).state.timed(dt.as_secs()),
            final(self).tank@ == old(self).step_tank(env, outside, fluid@, dt).0,
            match old(self).step_tank(env, outside, fluid@, dt).1 {
                Ok(draw) => {
                    let figures = old(self).step_figures(env, mode, outside, fluid@, draw);
                    &&& r is Ok
                    &&& r->Ok_0.figures == figures
                    &&& r->Ok_0.contributions@ == old(self).step_contributions(figures)
                    &&& r->Ok_0.fluid == old(self).step_fluid(figures)
                },
                Err(error) => r is Err && r->Err_0 == error,
            },
            final(self).descriptor == old(self).descriptor,
            final(self).ports == old(self).ports,
            final(self).condenser_node_weights == old(self).condenser_node_weights,
    {
        let performance: HpPerformance = self.state.performance(outside);
        self.state = self.state.timed(dt.as_secs());
        let ambient_c: Double = ambient_temp_c(env, self.descriptor.zone);
        let wet_bulb_c: Double = match find_zone(env, self.descriptor.zone) {
            Some(z) => z.wet_bulb_c,
            None => ambient_c,
        };
        let heat: Vec<(usize, Double)> = build_heat_injections(
            self.condenser_node_weights.as_slice(),
            performance.delivered_w(),
            self.tank.n_nodes(),
        );
        let demand_kg_s: Double = read_dhw_demand_kg_s(fluid);
        let total_draw_kg_s: Double = self.state.draw_flow_rate_kg_s.plus(demand_kg_s);
        let draw: DrawResult = self.tank.step_tempered(
            ambient_c,
            self.state.draw_flow_rate_kg_s.over(outside.water_density_kg_m3),
            demand_kg_s.over(outside.water_density_kg_m3),
            self.state.mains_temp_c,
            heat.as_slice(),
            self.state.tmv(),
            dt,
        )?;
        let (electric_power_w, reactive_power_kvar) = self.state.zip.apply(
            performance.rated_electric_w(),
            env.voltage_pu,
        );
        let gains: HpGains = self.state.gains(performance, ambient_c, wet_bulb_c);
        let figures = HpFigures {
            mode,
            performance,
            gains,
            electric_power_w,
            reactive_power_kvar,
            total_draw_kg_s,
            draw,
        };
        assert(figures == old(self).step_figures(env, mode, outside, fluid@, draw));
        let zone: u16 = match self.descriptor.zone {
            Some(zone) => zone,
            None => 0,
        };
        let mut contributions: Vec<PortContribution> = Vec::new();
        push_when(
            &mut contributions,
            electric_power_w.gt(Double::zero()) || !reactive_power_kvar.same(Double::zero()),
            PortContribution::Electrical {
                active_power: ActivePower::Kilowatts(power_w_to_kw(electric_power_w)),
                reactive_power_kvar,
            },
        );
        push_when(
            &mut contributions,
            self.descriptor.zone.is_some() && !(gains.sensible_to_zone_w.same(Double::zero())
                && gains.latent_gain_w.same(Double::zero())),
            PortContribution::Thermal {
                zone,
                sensible_gain_w: gains.sensible_to_zone_w,
                latent_gain_w: gains.latent_gain_w,
                category: ThermalCategory::HvacDehumidification,
            },
        );
        push_when(
            &mut contributions,
            self.descriptor.zone.is_some() && !gains.sensible_to_wall_w.same(Double::zero()),
            PortContribution::Thermal {
                zone,
                sensible_gain_w: gains.sensible_to_wall_w,
                latent_gain_w: Double::zero(),
                category: ThermalCategory::JacketLoss,
            },
        );
        assert(contributions@ =~= old(self).step_contributions(figures));
        let fluid_out: Option<PortContribution> = if total_draw_kg_s.gt(Double::zero()) {
            Some(
                PortContribution::Fluid {
                    loop_id: self.state.loop_id,
                    flow_rate_kg_s: total_draw_kg_s,
                    supply_temp_c: draw.outlet_temp_c,
                    return_temp_c: self.state.mains_temp_c,
                },
            )
        } else {
            None
        };
        Ok(HpStep { figures, contributions, fluid: fluid_out })
    }

    /// Record the figures of a step, and end what a controller asked for one step.
    pub fn finish_step(&mut self, figures: HpFigures)
        requires
            old(self).wf(),
        ensures
            final(self).wf(),
            final(self).state == old(self).state.finished(
                figures,
                crate::shared::weighted_average(
                    old(self).tank@.node_temps_c,
                    old(self).tank@.node_volumes_m3,
                ),
            ),
            final(self).descriptor == old(self).descriptor,
            final(self).ports == old(self).ports,
            final(self).tank == old(self).tank,
            final(self).condenser_node_weights == old(self).condenser_node_weights,
    {
        let average: Double = weighted_average_tank_temp(
            self.tank.node_temps(),
            self.tank.node_volumes_m3(),
        );
        self.state = self.state.finished(figures, average);
    }

    /// Obey a control signal.
    pub fn apply_control(&mut self, signal: ControlSignal) -> (r: Result<()>)
        ensures
            old(self).wf() ==> final(self).wf(),
            final(self).state == old(self).state.applied(signal).0,
            r == (match old(self).state.applied(signal).1 {
                Some(fault) => Err(HaresError::Control(fault)),
                None => Ok::<(), HaresError>(()),
            }),
            final(self).descriptor == old(self).descriptor,
            final(self).ports == old(self).ports,
            final(self).tank == old(self).tank,
            final(self).condenser_node_weights == old(self).condenser_node_weights,
    {
        match signal {
            ControlSignal::ThermalSetpoint { heating_setpoint_c, cooling_setpoint_c, deadband_c } => {
                let setpoint: Option<Double> = match heating_setpoint_c {
                    Some(sp) => Some(sp),
                    None => cooling_setpoint_c,
                };
                if let Some(sp) = setpoint {
                    if !sp.is_finite() {
                        return Err(HaresError::Control(ControlFault::Setpoint { value: sp }));
                    }
                    self.state.target_setpoint_c = sp;
                    if self.state.setpoint_ramp_rate_c_per_s.is_none() {
                        self.state.setpoint_c = sp;
                    }
                }
                if let Some(db) = deadband_c {
                    if !db.is_finite() || db.lt(Double::zero()) {
                        return Err(HaresError::Control(ControlFault::Deadband { value: db }));
                    }
                    self.state.deadband_c = db;
                }
            },
            ControlSignal::DutyCycle { on_fraction, component } => {
                if !on_fraction.is_finite() || !(Double::zero().le(on_fraction) && on_fraction.le(
                    Double::one(),
                )) {
                    return Err(
                        HaresError::Control(
                            ControlFault::DutyCycle {
                                equipment: "HeatPumpWH",
                                value: on_fraction,
                            },
                        ),
                    );
                }
                match component {
                    Some(DutyCycleComponent::Compressor) => {
                        self.state.hp_duty_cycle = on_fraction;
                    },
                    Some(DutyCycleComponent::BackupElement) => {
                        self.state.er_duty_cycle = on_fraction;
                    },
                    None => {
                        self.state.duty_cycle = on_fraction;
                    },
                }
            },
            ControlSignal::ModeOverride { mode } => {
                self.state.mode_override = Some(mode);
            },
            ControlSignal::LoadFraction { fraction } => {
                self.state.ctrl_load_fraction = fraction.clamp(Double::zero(), Double::one());
            },
            ControlSignal::PowerLimit { max_power_kw } => {
                let rated_w: Double = self.state.compressor_power_w.plus(
                    self.state.backup_element_power_w,
                );
                if rated_w.gt(Double::zero()) {
                    let max_fraction: Double = max_power_kw.times(Double::whole(1000)).over(
                        rated_w,
                    ).clamp(Double::zero(), Double::one());
                    self.state.ctrl_load_fraction = self.state.ctrl_load_fraction.min(max_fraction);
                }
            },
            ControlSignal::DemandResponse { level, duration_s } => {
                self.state.dr = DemandResponse::at(level, duration_s);
            },
            ControlSignal::Other => {},
        }
        Ok(())
    }

    /// `saved` holds what a heater with this state and tank saves.
    pub open spec fn saved_as(&self, saved: HpwhState) -> bool {
        &&& saved.setpoint_c == self.state.setpoint_c
        &&& saved.target_setpoint_c == self.state.target_setpoint_c
        &&& saved.deadband_c == self.state.deadband_c
        &&& saved.compressor_on == self.state.compressor_on
        &&& saved.backup_on == self.state.backup_on
        &&& saved.duty_cycle == self.state.duty_cycle
        &&& saved.hp_duty_cycle == self.state.hp_duty_cycle
        &&& saved.er_duty_cycle == self.state.er_duty_cycle
        &&& saved.mode_override == self.state.mode_override
        &&& saved.element_hp_control == self.state.element_hp_control
        &&& saved.compressor_on_since_s == self.state.compressor_on_since_s
        &&& saved.compressor_off_since_s == self.state.compressor_off_since_s
        &&& saved.min_on_time_s == self.state.min_on_time_s
        &&& saved.min_off_time_s == self.state.min_off_time_s
        &&& saved.dr == self.state.dr
        &&& saved.tank_state.node_temps_c@ == self.tank@.node_temps_c
        &&& saved.tank_avg_temp_c == self.state.telemetry.tank_avg_temp_c
        &&& saved.cop == self.state.telemetry.cop
        &&& saved.cap_mult == self.state.telemetry.cap_mult
        &&& saved.electric_kw == self.state.telemetry.electric_kw
        &&& saved.compressor_power_w == self.state.telemetry.compressor_power_w
        &&& saved.backup_element_power_w == self.state.telemetry.backup_element_power_w
        &&& saved.zone_heat_extraction_w == self.state.telemetry.zone_heat_extraction_w
        &&& saved.wall_sensible_gain_w == self.state.telemetry.wall_sensible_gain_w
        &&& saved.unmet_load_w == self.state.telemetry.unmet_load_w
        &&& saved.draw_flow_rate_kg_s == self.state.telemetry.draw_flow_rate_kg_s
    }

    pub fn save_state(&self) -> (saved: HpwhState)
        ensures
            self.saved_as(saved),
    {
        HpwhState {
            setpoint_c: self.state.setpoint_c,
            target_setpoint_c: self.state.target_setpoint_c,
            deadband_c: self.state.deadband_c,
            compressor_on: self.state.compressor_on,
            backup_on: self.state.backup_on,
            duty_cycle: self.state.duty_cycle,
            hp_duty_cycle: self.state.hp_duty_cycle,
            er_duty_cycle: self.state.er_duty_cycle,
            mode_override: self.state.mode_override,
            element_hp_control: self.state.element_hp_control,
            compressor_on_since_s: self.state.compressor_on_since_s,
            compressor_off_since_s: self.state.compressor_off_since_s,
            min_on_time_s: self.state.min_on_time_s,
            min_off_time_s: self.state.min_off_time_s,
            dr: self.state.dr,
            tank_state: self.tank.save_state(),
            tank_avg_temp_c: self.state.telemetry.tank_avg_temp_c,
            cop: self.state.telemetry.cop,
            cap_mult: self.state.telemetry.cap_mult,
            electric_kw: self.state.telemetry.electric_kw,
            compressor_power_w: self.state.telemetry.compressor_power_w,
            backup_element_power_w: self.state.telemetry.backup_element_power_w,
            zone_heat_extraction_w: self.state.telemetry.zone_heat_extraction_w,
            wall_sensible_gain_w: self.state.telemetry.wall_sensible_gain_w,
            unmet_load_w: self.state.telemetry.unmet_load_w,
            draw_flow_rate_kg_s: self.state.telemetry.draw_flow_rate_kg_s,
        }
    }

    /// Take over a saved state. If its tank does not fit, the control settings are taken
    /// over and the rest stays as it was.
    pub fn load_state(&mut self, saved: HpwhState) -> (r: Result<()>)
        requires
            old(self).wf(),
        ensures
            final(self).wf(),
            r == crate::tank::load_outcome(old(self).tank@, saved.tank_state.node_temps_c@),
            r is Err ==> final(self).state == old(self).state.with_saved_control(saved)
                && final(self).tank@ == old(self).tank@,
            r is Ok ==> final(self).state == old(self).state.with_saved(saved)
                && final(self).tank@ == old(self).tank@.with_temps(
                saved.tank_state.node_temps_c@,
            ),
            final(self).descriptor == old(self).descriptor,
            final(self).ports == old(self).ports,
            final(self).condenser_node_weights == old(self).condenser_node_weights,
    {
        self.state.setpoint_c = saved.setpoint_c;
        self.state.target_setpoint_c = saved.target_setpoint_c;
        self.state.deadband_c = saved.deadband_c;
        self.state.compressor_on = saved.compressor_on;
        self.state.backup_on = saved.backup_on;
        self.state.duty_cycle = saved.duty_cycle;
        self.state.hp_duty_cycle = saved.hp_duty_cycle;
        self.state.er_duty_cycle = saved.er_duty_cycle;
        self.state.mode_override = saved.mode_override;
        self.state.element_hp_control = saved.element_hp_control;
        self.state.compressor_on_since_s = saved.compressor_on_since_s;
        self.state.compressor_off_since_s = saved.compressor_off_since_s;
        self.state.min_on_time_s = saved.min_on_time_s;
        self.state.min_off_time_s = saved.min_off_time_s;
        self.state.dr = saved.dr;
        let telemetry: HpTelemetry =
        HpTelemetry {
            tank_avg_temp_c: saved.tank_avg_temp_c,
            cop: saved.cop,
            cap_mult: saved.cap_mult,
            electric_kw: saved.electric_kw,
            compressor_kw: power_w_to_kw(saved.compressor_power_w),
            element_kw: power_w_to_kw(saved.backup_element_power_w),
            compressor_power_w: saved.compressor_power_w,
            backup_element_power_w: saved.backup_element_power_w,
            zone_heat_extraction_w: saved.zone_heat_extraction_w,
            draw_flow_rate_kg_s: saved.draw_flow_rate_kg_s,
            operating_mode: mode_number(mode_of(saved.compressor_on, saved.backup_on)),
            wall_sensible_gain_w: saved.wall_sensible_gain_w,
            unmet_load_w: saved.unmet_load_w,
        };
        self.tank.load_state(saved.tank_state)?;
        self.state.telemetry = telemetry;
        self.state.core_output = CoreOutput::empty();
        Ok(())
    }
}

/// Let the names of this heater stand for it.
pub fn register_with_registry(registry: &mut EquipmentRegistry)
    ensures
        final(registry)@ == old(registry)@.insert(
            "Heat Pump Water Heater"@,
            Registration::Heater(HeaterKind::HeatPump),
        ).insert(
            "HPWH"@,
            Registration::Heater(HeaterKind::HeatPump),
        ),
{
    registry.register("Heat Pump Water Heater", HeaterKind::HeatPump);
    registry.register("HPWH", HeaterKind::HeatPump);
}

} // verus!
