//! Tankless (on-demand) water heater model.
use vstd::prelude::*;

use crate::config::{copied_text, EquipmentConfig};
use crate::double::Double;
use crate::error::{ControlFault, HaresError, Result};
use crate::gas::uef_to_ef_gas;
use crate::registry::{EquipmentRegistry, HeaterKind, Registration};
use crate::shared::{
    default_setpoint_c, if_finite, or_default, power_kw_to_w, power_w_to_kw,
    read_dhw_demand_kg_s, resolve_storage_step_inputs, DemandResponse, ScheduleReadings,
    DHW_DEMAND_LOOP,
};
use crate::storage::push_when;
use crate::time::Duration;
use crate::types::{
    ActivePower, ControlCapabilities, ControlSignal, CoreCapabilities, CoreOutput,
    EnvironmentState, EquipmentDescriptor, FluidAccumulator, FuelPower, FuelType,
    OperatingMode, PortContribution, PortDeclaration, ScheduleSource, TelemetryField,
    TelemetryKey,
};
use crate::wh_config::TanklessWaterHeaterConfig;

verus! {

/// The version of the checkpoints that [`TanklessWH::save_state`] writes.
pub const TANKLESS_WH_CHECKPOINT_VERSION: u32 = 2;

/// The default energy factor.
#[verifier::allow_in_spec]
pub fn default_energy_factor() -> Double
    returns
        Double::ratio(9, 10),
{
    Double::ratio(9, 10)
}

/// The default rated thermal output [W].
#[verifier::allow_in_spec]
pub fn default_max_thermal_power_w() -> Double
    returns
        Double::whole(20_000),
{
    Double::whole(20_000)
}

/// The figures that the heater records.
#[derive(Debug, Clone, Copy, PartialEq, Eq, Structural)]
pub struct TanklessTelemetry {
    pub outlet_temp_c: Double,
    pub thermal_output_w: Double,
    pub fuel_input_w: Double,
    pub parasitic_electric_w: Double,
    pub reactive_power_kvar: Double,
    pub draw_flow_rate_kg_s: Double,
    pub operating_mode: Double,
}

impl TanklessTelemetry {
    /// Nothing recorded yet.
    #[verifier::allow_in_spec]
    pub fn empty() -> TanklessTelemetry
        returns
            (
            TanklessTelemetry {
                outlet_temp_c: Double::zero(),
                thermal_output_w: Double::zero(),
                fuel_input_w: Double::zero(),
                parasitic_electric_w: Double::zero(),
                reactive_power_kvar: Double::zero(),
                draw_flow_rate_kg_s: Double::zero(),
                operating_mode: Double::zero(),
            }
            ),
    {
        TanklessTelemetry {
            outlet_temp_c: Double::zero(),
            thermal_output_w: Double::zero(),
            fuel_input_w: Double::zero(),
            parasitic_electric_w: Double::zero(),
            reactive_power_kvar: Double::zero(),
            draw_flow_rate_kg_s: Double::zero(),
            operating_mode: Double::zero(),
        }
    }
}

/// The settings of the heater, and what it is doing.
#[derive(Debug, Clone, Copy, PartialEq, Eq, Structural)]
pub struct TanklessState {
    pub fuel_type: FuelType,
    pub setpoint_c: Double,
    pub efficiency_factor: Double,
    /// Flow up to which the burner does not fire.
    pub min_flow_kg_s: Double,
    /// Rated thermal output. No control signal changes it.
    pub rated_thermal_power_w: Double,
    /// Limit of the thermal output asked for by a controller; for one step only.
    pub power_limit_w: Option<Double>,
    /// Power of the ignition controller of a unit that burns fuel.
    pub parasitic_power_w: Double,
    pub duty_cycle: Double,
    pub mode_override: Option<OperatingMode>,
    pub inlet_temp_c: Double,
    pub draw_flow_rate_kg_s: Double,
    pub draw_source: Option<ScheduleSource>,
    pub mains_temp_c_source: Option<ScheduleSource>,
    pub dr: DemandResponse,
    /// Load fraction asked for by a controller; for one step only.
    pub ctrl_load_fraction: Double,
    /// Whether the zone was configured, or is the default one.
    pub zone_id_explicit: bool,
    pub telemetry: TanklessTelemetry,
    pub core_output: CoreOutput,
}

/// What only the outside can tell about a configuration.
#[derive(Debug, Clone, Copy, PartialEq, Eq, Structural)]
pub struct TanklessSite {
    /// One US gallon of water per minute [kg/s].
    pub gpm_in_kg_s: Double,
    /// The mains temperature that the schedule gives; `None` where it gives an error.
    pub scheduled_mains_temp_c: Option<Double>,
    /// The mains temperature that the surroundings give.
    pub mains_temp_c: Double,
}

/// What only the outside can tell about a step.
#[derive(Debug, Clone, Copy, PartialEq, Eq, Structural)]
pub struct TanklessOutside {
    /// The specific heat of water [J/(kg K)].
    pub cp_j_kg_k: Double,
    /// The density of water at the inlet temperature [kg/m³].
    pub water_density_kg_m3: Double,
}

/// What the heater delivers in a step, and what it takes for that.
#[derive(Debug, Clone, Copy, PartialEq, Eq, Structural)]
pub struct TanklessDelivery {
    pub inlet_temp_c: Double,
    pub total_draw_kg_s: Double,
    /// The water drawn in the step [L], and the hour of the day in which it was drawn.
    pub draw_volume_l: Double,
    pub draw_hour: u32,
    pub thermal_output_w: Double,
    pub outlet_temp_c: Double,
    pub fuel_input_w: Double,
    /// The electric power: all of the input of an electric unit, the ignition controller
    /// of any other.
    pub electric_w: Double,
}

/// What a tankless heater saves.
#[derive(Debug, Clone, Copy, PartialEq, Eq, Structural)]
pub struct TanklessCheckpoint {
    pub setpoint_c: Double,
    pub duty_cycle: Double,
    pub mode_override: Option<OperatingMode>,
    pub dr: DemandResponse,
    pub outlet_temp_c: Double,
    pub thermal_output_w: Double,
    pub fuel_input_w: Double,
    pub parasitic_electric_w: Double,
    pub reactive_power_kvar: Double,
    pub draw_flow_rate_kg_s: Double,
}

/// The efficiency of a configuration: its energy factor, one that stands for its uniform
/// energy factor, or a default, as far as performance is adjusted.
pub open spec fn spec_configured_efficiency(c: &TanklessWaterHeaterConfig) -> Double {
    let raw = match (c.energy_factor, c.uniform_energy_factor) {
        (Some(ef), _) => ef,
        (None, Some(uef)) => uef_to_ef_gas(uef),
        (None, None) => default_energy_factor(),
    };
    let adjusted = match c.performance_adjustment {
        Some(adjustment) => raw.times(adjustment.clamp(Double::zero(), Double::one())),
        None => raw,
    };
    adjusted.max(Double::ratio(1, 1_000_000))
}

#[verifier::when_used_as_spec(spec_configured_efficiency)]
pub fn configured_efficiency(c: &TanklessWaterHeaterConfig) -> (r: Double)
    ensures
        r == configured_efficiency(c),
{
    let raw: Double = if let Some(ef) = c.energy_factor {
        ef
    } else if let Some(uef) = c.uniform_energy_factor {
        uef_to_ef_gas(uef)
    } else {
        default_energy_factor()
    };
    let adjusted: Double = match c.performance_adjustment {
        Some(adjustment) => raw.times(adjustment.clamp(Double::zero(), Double::one())),
        None => raw,
    };
    adjusted.max(Double::ratio(1, 1_000_000))
}

/// The least flow of a configuration [kg/s]: as given, as given in gallons per minute, or
/// none.
pub open spec fn spec_configured_min_flow_kg_s(
    c: &TanklessWaterHeaterConfig,
    gpm_in_kg_s: Double,
) -> Double {
    (match (c.min_flow_kg_s, c.min_flow_gpm) {
        (Some(flow), _) => flow,
        (None, Some(gpm)) => gpm.times(gpm_in_kg_s),
        (None, None) => Double::zero(),
    }).max(Double::zero())
}

#[verifier::when_used_as_spec(spec_configured_min_flow_kg_s)]
pub fn configured_min_flow_kg_s(c: &TanklessWaterHeaterConfig, gpm_in_kg_s: Double) -> (r: Double)
    ensures
        r == configured_min_flow_kg_s(c, gpm_in_kg_s),
{
    let flow: Double = if let Some(flow) = c.min_flow_kg_s {
        flow
    } else if let Some(gpm) = c.min_flow_gpm {
        gpm.times(gpm_in_kg_s)
    } else {
        Double::zero()
    };
    flow.max(Double::zero())
}

/// The inlet temperature of a configuration: as given, as scheduled if that is finite, or
/// as the surroundings give it.
pub open spec fn spec_configured_inlet_temp_c(
    c: &TanklessWaterHeaterConfig,
    outside: TanklessSite,
) -> Double {
    match (c.inlet_temp_c, c.mains_temp_c_source) {
        (Some(temp_c), _) => temp_c,
        (None, Some(source)) => or_default(
            if_finite(outside.scheduled_mains_temp_c),
            outside.mains_temp_c,
        ),
        (None, None) => outside.mains_temp_c,
    }
}

#[verifier::when_used_as_spec(spec_configured_inlet_temp_c)]
pub fn configured_inlet_temp_c(c: &TanklessWaterHeaterConfig, outside: TanklessSite) -> (r: Double)
    ensures
        r == configured_inlet_temp_c(c, outside),
{
    if let Some(temp_c) = c.inlet_temp_c {
        temp_c
    } else if c.mains_temp_c_source.is_some() {
        or_default(if_finite(outside.scheduled_mains_temp_c), outside.mains_temp_c)
    } else {
        outside.mains_temp_c
    }
}

impl TanklessState {
    /// The setpoint with what the grid asks for.
    #[verifier::allow_in_spec]
    pub fn effective_setpoint_c(self) -> Double
        returns
            self.setpoint_c.plus(self.dr.setpoint_offset_c),
    {
        self.setpoint_c.plus(self.dr.setpoint_offset_c)
    }

    /// Whether nothing keeps the heater from firing.
    #[verifier::allow_in_spec]
    pub fn is_enabled(self) -> bool
        returns
            self.mode_override != Some(OperatingMode::Off) && self.duty_cycle.gt(Double::zero())
                && self.dr.load_fraction.gt(Double::zero()),
    {
        let switched_off: bool = match self.mode_override {
            Some(mode) => mode == OperatingMode::Off,
            None => false,
        };
        !switched_off && self.duty_cycle.gt(Double::zero()) && self.dr.load_fraction.gt(
            Double::zero(),
        )
    }

    /// What the heater is doing. An electric unit on a dead bus cannot fire.
    #[verifier::allow_in_spec]
    pub fn mode(self, bus_energized: bool) -> OperatingMode
        returns
            (if self.is_enabled() && (bus_energized || self.fuel_type != FuelType::Electric) {
                OperatingMode::Heating
            } else {
                OperatingMode::Off
            }),
    {
        if self.fuel_type == FuelType::Electric && !bus_energized {
            return OperatingMode::Off;
        }
        if self.is_enabled() {
            OperatingMode::Heating
        } else {
            OperatingMode::Off
        }
    }

    /// The share of its power at which controllers let the heater run.
    #[verifier::allow_in_spec]
    pub fn duty(self) -> Double
        returns
            self.duty_cycle.times(self.dr.load_fraction).times(self.ctrl_load_fraction).clamp(
                Double::zero(),
                Double::one(),
            ),
    {
        self.duty_cycle.times(self.dr.load_fraction).times(self.ctrl_load_fraction).clamp(
            Double::zero(),
            Double::one(),
        )
    }

    /// The thermal power while the heater fires [W].
    #[verifier::allow_in_spec]
    pub fn effective_max_w(self) -> Double
        returns
            (match self.power_limit_w {
                Some(limit) => self.rated_thermal_power_w.min(limit),
                None => self.rated_thermal_power_w,
            }),
    {
        match self.power_limit_w {
            Some(limit) => self.rated_thermal_power_w.min(limit),
            None => self.rated_thermal_power_w,
        }
    }

    /// The thermal output [W] and the temperature of the water that leaves. Within its
    /// capacity the heater delivers the setpoint. Beyond it the water leaves as warm as
    /// the firing power makes it, and the output is what that comes to over time. A heater
    /// that is off lets the water through as it is.
    pub open spec fn spec_output(
        self,
        mode: OperatingMode,
        draw_kg_s: Double,
        inlet_temp_c: Double,
        cp_j_kg_k: Double,
    ) -> (Double, Double) {
        let setpoint_c = self.effective_setpoint_c();
        let demand_w = draw_kg_s.times(cp_j_kg_k).times(
            setpoint_c.minus(inlet_temp_c).max(Double::zero()),
        ).times(self.duty());
        let capacity_w = self.effective_max_w().times(self.duty());
        if mode != OperatingMode::Heating {
            (Double::zero(), inlet_temp_c)
        } else if !draw_kg_s.gt(self.min_flow_kg_s) {
            (Double::zero(), setpoint_c)
        } else if demand_w.le(capacity_w) {
            (demand_w, setpoint_c)
        } else {
            (
                capacity_w,
                inlet_temp_c.plus(self.effective_max_w().over(draw_kg_s.times(cp_j_kg_k))),
            )
        }
    }

    #[verifier::when_used_as_spec(spec_output)]
    pub fn output(
        self,
        mode: OperatingMode,
        draw_kg_s: Double,
        inlet_temp_c: Double,
        cp_j_kg_k: Double,
    ) -> (r: (Double, Double))
        ensures
            r == self.output(mode, draw_kg_s, inlet_temp_c, cp_j_kg_k),
    {
        let setpoint_c: Double = self.effective_setpoint_c();
        let delta_t_c: Double = setpoint_c.minus(inlet_temp_c).max(Double::zero());
        let duty: Double = self.duty();
        let effective_max_w: Double = self.effective_max_w();
        if mode == OperatingMode::Heating {
            if draw_kg_s.gt(self.min_flow_kg_s) {
                let demand_w: Double = draw_kg_s.times(cp_j_kg_k).times(delta_t_c).times(duty);
                let capacity_w: Double = effective_max_w.times(duty);
                if demand_w.le(capacity_w) {
                    (demand_w, setpoint_c)
                } else {
                    (
                        capacity_w,
                        inlet_temp_c.plus(effective_max_w.over(draw_kg_s.times(cp_j_kg_k))),
                    )
                }
            } else {
                (Double::zero(), setpoint_c)
            }
        } else {
            (Double::zero(), inlet_temp_c)
        }
    }

    /// The electric power [W] of a unit whose input is `fuel_input_w`. The ignition
    /// controller of a unit that burns fuel draws all the time, but not on a dead bus.
    #[verifier::allow_in_spec]
    pub fn electric_w(self, fuel_input_w: Double, bus_energized: bool) -> Double
        returns
            (if self.fuel_type == FuelType::Electric {
                fuel_input_w
            } else if bus_energized {
                self.parasitic_power_w
            } else {
                Double::zero()
            }),
    {
        if self.fuel_type == FuelType::Electric {
            fuel_input_w
        } else if bus_energized {
            self.parasitic_power_w
        } else {
            Double::zero()
        }
    }

    pub open spec fn spec_finished(
        self,
        d: TanklessDelivery,
        reactive_kvar: Double,
        reported_mode: OperatingMode,
    ) -> TanklessState {
        TanklessState {
            ctrl_load_fraction: Double::one(),
            power_limit_w: None,
            telemetry: TanklessTelemetry {
                outlet_temp_c: d.outlet_temp_c,
                thermal_output_w: d.thermal_output_w,
                fuel_input_w: d.fuel_input_w,
                parasitic_electric_w: if self.fuel_type == FuelType::Electric {
                    Double::zero()
                } else {
                    d.electric_w.max(Double::zero())
                },
                reactive_power_kvar: reactive_kvar,
                draw_flow_rate_kg_s: d.total_draw_kg_s,
                operating_mode: if reported_mode == OperatingMode::Heating {
                    Double::one()
                } else {
                    Double::zero()
                },
            },
            core_output: CoreOutput {
                electric_kw: Some(power_w_to_kw(d.electric_w).max(Double::zero())),
                reactive_power_kvar: Some(reactive_kvar),
                fuel: if self.fuel_type == FuelType::Electric {
                    None
                } else {
                    Some(
                        FuelPower {
                            fuel_type: self.fuel_type,
                            consumption_w: d.fuel_input_w.max(Double::zero()),
                        },
                    )
                },
                thermal_output_w: None,
                operating_mode: Some(reported_mode),
            },
            ..self
        }
    }

    /// The state after a step has been reported: its figures are recorded, and what a
    /// controller asked for one step is over.
    #[verifier::when_used_as_spec(spec_finished)]
    pub fn finished(
        self,
        d: TanklessDelivery,
        reactive_kvar: Double,
        reported_mode: OperatingMode,
    ) -> (r: TanklessState)
        ensures
            r == self.finished(d, reactive_kvar, reported_mode),
    {
        TanklessState {
            ctrl_load_fraction: Double::one(),
            power_limit_w: None,
            telemetry: TanklessTelemetry {
                outlet_temp_c: d.outlet_temp_c,
                thermal_output_w: d.thermal_output_w,
                fuel_input_w: d.fuel_input_w,
                parasitic_electric_w: if self.fuel_type == FuelType::Electric {
                    Double::zero()
                } else {
                    d.electric_w.max(Double::zero())
                },
                reactive_power_kvar: reactive_kvar,
                draw_flow_rate_kg_s: d.total_draw_kg_s,
                operating_mode: if reported_mode == OperatingMode::Heating {
                    Double::one()
                } else {
                    Double::zero()
                },
            },
            core_output: CoreOutput {
                electric_kw: Some(power_w_to_kw(d.electric_w).max(Double::zero())),
                reactive_power_kvar: Some(reactive_kvar),
                fuel: if self.fuel_type == FuelType::Electric {
                    None
                } else {
                    Some(
                        FuelPower {
                            fuel_type: self.fuel_type,
                            consumption_w: d.fuel_input_w.max(Double::zero()),
                        },
                    )
                },
                thermal_output_w: None,
                operating_mode: Some(reported_mode),
            },
            ..self
        }
    }

    /// The state after a control signal, and the fault in it. There is no deadband to set.
    /// A power limit is one of the input: it limits the output through the efficiency.
    pub open spec fn applied(self, signal: ControlSignal) -> (TanklessState, Option<ControlFault>) {
        match signal {
            ControlSignal::ThermalSetpoint { heating_setpoint_c, cooling_setpoint_c, deadband_c } => {
                let setpoint = if heating_setpoint_c is Some {
                    heating_setpoint_c
                } else {
                    cooling_setpoint_c
                };
                match setpoint {
                    Some(sp) if !sp.is_finite() => (
                        self,
                        Some(ControlFault::Setpoint { value: sp }),
                    ),
                    Some(sp) => (TanklessState { setpoint_c: sp, ..self }, None),
                    None => (self, None),
                }
            },
            ControlSignal::DutyCycle { on_fraction, component } => if on_fraction.is_finite()
                && Double::zero().le(on_fraction) && on_fraction.le(Double::one()) {
                (TanklessState { duty_cycle: on_fraction, ..self }, None)
            } else {
                (
                    self,
                    Some(ControlFault::DutyCycle { equipment: "TanklessWH", value: on_fraction }),
                )
            },
            ControlSignal::ModeOverride { mode } => (
                TanklessState { mode_override: Some(mode), ..self },
                None,
            ),
            ControlSignal::LoadFraction { fraction } => (
                TanklessState {
                    ctrl_load_fraction: fraction.clamp(Double::zero(), Double::one()),
                    ..self
                },
                None,
            ),
            ControlSignal::PowerLimit { max_power_kw } => (
                TanklessState {
                    power_limit_w: Some(
                        power_kw_to_w(max_power_kw).times(self.efficiency_factor).max(
                            Double::zero(),
                        ),
                    ),
                    ..self
                },
                None,
            ),
            ControlSignal::DemandResponse { level, duration_s } => (
                TanklessState { dr: DemandResponse::at(level, duration_s), ..self },
                None,
            ),
            ControlSignal::Other => (self, None),
        }
    }

    /// The settings of a configuration, in operation for the first time.
    pub open spec fn configured(
        self,
        c: &TanklessWaterHeaterConfig,
        outside: TanklessSite,
    ) -> TanklessState {
        TanklessState {
            fuel_type: c.fuel_type,
            setpoint_c: or_default(c.setpoint_c, default_setpoint_c()),
            efficiency_factor: configured_efficiency(c),
            min_flow_kg_s: configured_min_flow_kg_s(c, outside.gpm_in_kg_s),
            rated_thermal_power_w: or_default(
                c.heating_capacity_w,
                default_max_thermal_power_w(),
            ).max(Double::zero()),
            power_limit_w: None,
            parasitic_power_w: or_default(c.parasitic_power_w, Double::zero()).max(Double::zero()),
            duty_cycle: Double::one(),
            mode_override: None,
            inlet_temp_c: configured_inlet_temp_c(c, outside),
            draw_flow_rate_kg_s: or_default(c.draw_flow_rate_kg_s, Double::zero()),
            draw_source: c.draw_flow_rate_source,
            mains_temp_c_source: c.mains_temp_c_source,
            dr: DemandResponse::normal(),
            ctrl_load_fraction: Double::one(),
            zone_id_explicit: self.zone_id_explicit,
            telemetry: TanklessTelemetry::empty(),
            core_output: CoreOutput::empty(),
        }
    }

    pub open spec fn spec_saved(self) -> TanklessCheckpoint {
        TanklessCheckpoint {
            setpoint_c: self.setpoint_c,
            duty_cycle: self.duty_cycle,
            mode_override: self.mode_override,
            dr: self.dr,
            outlet_temp_c: self.telemetry.outlet_temp_c,
            thermal_output_w: self.telemetry.thermal_output_w,
            fuel_input_w: self.telemetry.fuel_input_w,
            parasitic_electric_w: self.telemetry.parasitic_electric_w,
            reactive_power_kvar: self.telemetry.reactive_power_kvar,
            draw_flow_rate_kg_s: self.telemetry.draw_flow_rate_kg_s,
        }
    }

    /// What a heater in this state saves.
    #[verifier::when_used_as_spec(spec_saved)]
    pub fn saved(self) -> (r: TanklessCheckpoint)
        ensures
            r == self.saved(),
    {
        TanklessCheckpoint {
            setpoint_c: self.setpoint_c,
            duty_cycle: self.duty_cycle,
            mode_override: self.mode_override,
            dr: self.dr,
            outlet_temp_c: self.telemetry.outlet_temp_c,
            thermal_output_w: self.telemetry.thermal_output_w,
            fuel_input_w: self.telemetry.fuel_input_w,
            parasitic_electric_w: self.telemetry.parasitic_electric_w,
            reactive_power_kvar: self.telemetry.reactive_power_kvar,
            draw_flow_rate_kg_s: self.telemetry.draw_flow_rate_kg_s,
        }
    }

    pub open spec fn spec_with_saved(self, saved: TanklessCheckpoint) -> TanklessState {
        TanklessState {
            setpoint_c: saved.setpoint_c,
            duty_cycle: saved.duty_cycle,
            mode_override: saved.mode_override,
            dr: saved.dr,
            telemetry: TanklessTelemetry {
                outlet_temp_c: saved.outlet_temp_c,
                thermal_output_w: saved.thermal_output_w,
                fuel_input_w: saved.fuel_input_w,
                parasitic_electric_w: saved.parasitic_electric_w,
                reactive_power_kvar: saved.reactive_power_kvar,
                draw_flow_rate_kg_s: saved.draw_flow_rate_kg_s,
                operating_mode: if saved.thermal_output_w.gt(Double::zero()) {
                    Double::one()
                } else {
                    Double::zero()
                },
            },
            core_output: CoreOutput::empty(),
            ..self
        }
    }

    /// The state with all of a saved one.
    #[verifier::when_used_as_spec(spec_with_saved)]
    pub fn with_saved(self, saved: TanklessCheckpoint) -> (r: TanklessState)
        ensures
            r == self.with_saved(saved),
    {
        TanklessState {
            setpoint_c: saved.setpoint_c,
            duty_cycle: saved.duty_cycle,
            mode_override: saved.mode_override,
            dr: saved.dr,
            telemetry: TanklessTelemetry {
                outlet_temp_c: saved.outlet_temp_c,
                thermal_output_w: saved.thermal_output_w,
                fuel_input_w: saved.fuel_input_w,
                parasitic_electric_w: saved.parasitic_electric_w,
                reactive_power_kvar: saved.reactive_power_kvar,
                draw_flow_rate_kg_s: saved.draw_flow_rate_kg_s,
                operating_mode: if saved.thermal_output_w.gt(Double::zero()) {
                    Double::one()
                } else {
                    Double::zero()
                },
            },
            core_output: CoreOutput::empty(),
            ..self
        }
    }
}

/// The default settings.
#[verifier::allow_in_spec]
pub fn initial_state(fuel_type: FuelType, zone_id_explicit: bool) -> TanklessState
    returns
        (
        TanklessState {
            fuel_type,
            setpoint_c: default_setpoint_c(),
            efficiency_factor: default_energy_factor(),
            min_flow_kg_s: Double::zero(),
            rated_thermal_power_w: default_max_thermal_power_w(),
            power_limit_w: None,
            parasitic_power_w: Double::ratio(738, 100),
            duty_cycle: Double::one(),
            mode_override: None,
            inlet_temp_c: Double::whole(10),
            draw_flow_rate_kg_s: Double::zero(),
            draw_source: None,
            mains_temp_c_source: None,
            dr: DemandResponse::normal(),
            ctrl_load_fraction: Double::one(),
            zone_id_explicit,
            telemetry: TanklessTelemetry::empty(),
            core_output: CoreOutput::empty(),
        }
        ),
{
    TanklessState {
        fuel_type,
        setpoint_c: default_setpoint_c(),
        efficiency_factor: default_energy_factor(),
        min_flow_kg_s: Double::zero(),
        rated_thermal_power_w: default_max_thermal_power_w(),
        power_limit_w: None,
        parasitic_power_w: Double::ratio(738, 100),
        duty_cycle: Double::one(),
        mode_override: None,
        inlet_temp_c: Double::whole(10),
        draw_flow_rate_kg_s: Double::zero(),
        draw_source: None,
        mains_temp_c_source: None,
        dr: DemandResponse::normal(),
        ctrl_load_fraction: Double::one(),
        zone_id_explicit,
        telemetry: TanklessTelemetry::empty(),
        core_output: CoreOutput::empty(),
    }
}

/// The ports of a unit: a fuel port unless it is electric, an electrical one for its
/// power or its ignition controller, and the one on which appliances ask for water.
pub open spec fn ports_for(fuel_type: FuelType) -> Seq<PortDeclaration> {
    if fuel_type == FuelType::Electric {
        seq![
            PortDeclaration::Electrical,
            PortDeclaration::Fluid { loop_id: DHW_DEMAND_LOOP },
        ]
    } else {
        seq![
            PortDeclaration::Fuel,
            PortDeclaration::Electrical,
            PortDeclaration::Fluid { loop_id: DHW_DEMAND_LOOP },
        ]
    }
}

/// The ports of a unit.
pub fn build_ports(fuel_type: FuelType) -> (ports: Vec<PortDeclaration>)
    ensures
        ports@ == ports_for(fuel_type),
{
    let ports: Vec<PortDeclaration> = if fuel_type == FuelType::Electric {
        vec![
            PortDeclaration::Electrical,
            PortDeclaration::Fluid { loop_id: DHW_DEMAND_LOOP },
        ]
    } else {
        vec![
            PortDeclaration::Fuel,
            PortDeclaration::Electrical,
            PortDeclaration::Fluid { loop_id: DHW_DEMAND_LOOP },
        ]
    };
    assert(ports@ =~= ports_for(fuel_type));
    ports
}

/// The figures that a unit reports: those of fuel unless it is electric.
#[verifier::allow_in_spec]
pub fn core_capabilities_for_fuel(fuel_type: FuelType) -> CoreCapabilities
    returns
        (CoreCapabilities {
            electric: true,
            reactive: true,
            fuel: fuel_type != FuelType::Electric,
            thermal: false,
            has_mode: true,
        }),
{
    CoreCapabilities {
        electric: true,
        reactive: true,
        fuel: fuel_type != FuelType::Electric,
        thermal: false,
        has_mode: true,
    }
}

// ---------------------------------------------------------------------------
// Telemetry fields
// ---------------------------------------------------------------------------

/// The figures that this heater records.
pub open spec fn telemetry_fields() -> Seq<TelemetryField> {
    seq![
        TelemetryField {
            key: TelemetryKey::OutletTempC,
            unit: "C",
            description: "Delivered outlet water temperature",
        },
        TelemetryField {
            key: TelemetryKey::ThermalOutputW,
            unit: "W",
            description: "Instantaneous thermal output",
        },
        TelemetryField {
            key: TelemetryKey::FuelInputW,
            unit: "W",
            description: "Input fuel/electric power",
        },
        TelemetryField {
            key: TelemetryKey::ParasiticElectricW,
            unit: "W",
            description: "Gas ignition controller standby electric draw (gas units only)",
        },
        TelemetryField {
            key: TelemetryKey::ReactivePowerKvar,
            unit: "kVAR",
            description: "Reactive power (positive = inductive/lagging)",
        },
        TelemetryField {
            key: TelemetryKey::DrawFlowRateKgS,
            unit: "kg/s",
            description: "Domestic hot water draw flow rate",
        },
        TelemetryField {
            key: TelemetryKey::OperatingMode,
            unit: "enum",
            description: "0=Off, 1=Heating",
        },
    ]
}

fn build_telemetry_fields() -> (fields: Vec<TelemetryField>)
    ensures
        fields@ == telemetry_fields(),
{
    let fields: Vec<TelemetryField> = vec![
        TelemetryField {
            key: TelemetryKey::OutletTempC,
            unit: "C",
            description: "Delivered outlet water temperature",
        },
        TelemetryField {
            key: TelemetryKey::ThermalOutputW,
            unit: "W",
            description: "Instantaneous thermal output",
        },
        TelemetryField {
            key: TelemetryKey::FuelInputW,
            unit: "W",
            description: "Input fuel/electric power",
        },
        TelemetryField {
            key: TelemetryKey::ParasiticElectricW,
            unit: "W",
            description: "Gas ignition controller standby electric draw (gas units only)",
        },
        TelemetryField {
            key: TelemetryKey::ReactivePowerKvar,
            unit: "kVAR",
            description: "Reactive power (positive = inductive/lagging)",
        },
        TelemetryField {
            key: TelemetryKey::DrawFlowRateKgS,
            unit: "kg/s",
            description: "Domestic hot water draw flow rate",
        },
        TelemetryField {
            key: TelemetryKey::OperatingMode,
            unit: "enum",
            description: "0=Off, 1=Heating",
        },
    ];
    assert(fields@ =~= telemetry_fields());
    fields
}

// ---------------------------------------------------------------------------
// The heater
// ---------------------------------------------------------------------------

/// A tankless water heater.
#[derive(Debug)]
pub struct TanklessWH {
    pub descriptor: EquipmentDescriptor,
    pub ports: Vec<PortDeclaration>,
    pub state: TanklessState,
}

impl TanklessWH {
    /// A heater with default settings, in the configured zone, for the fuel of a typed
    /// configuration.
    pub fn new(config: EquipmentConfig, typed: &TanklessWaterHeaterConfig) -> (r: TanklessWH)
        ensures
            r.descriptor.id == (match config.equipment_id {
                Some(id) => id,
                None => 0u32,
            }),
            r.descriptor.name == config.name,
            r.descriptor.equipment_type == "Tankless Water Heater",
            r.descriptor.zone == Some(
                match config.zone_id {
                    Some(id) => id,
                    None => 1u16,
                },
            ),
            r.descriptor.fuel == typed.fuel_type,
            r.descriptor.control_capabilities == (ControlCapabilities {
                thermal_setpoint: true,
                duty_cycle: true,
                mode_override: true,
                load_fraction: true,
                power_limit: true,
                demand_response: true,
            }),
            r.descriptor.core_capabilities == core_capabilities_for_fuel(typed.fuel_type),
            r.descriptor.telemetry_fields@ == telemetry_fields(),
            crate::config::same_text(r.descriptor.zone_type, typed.zone_type),
            r.ports@ == ports_for(typed.fuel_type),
            r.state == initial_state(typed.fuel_type, config.zone_id is Some),
    {
        let descriptor = EquipmentDescriptor {
            id: match config.equipment_id {
                Some(id) => id,
                None => 0,
            },
            name: config.name,
            equipment_type: "Tankless Water Heater",
            zone: Some(
                match config.zone_id {
                    Some(id) => id,
                    None => 1,
                },
            ),
            fuel: typed.fuel_type,
            control_capabilities: ControlCapabilities {
                thermal_setpoint: true,
                duty_cycle: true,
                mode_override: true,
                load_fraction: true,
                power_limit: true,
                demand_response: true,
            },
            core_capabilities: core_capabilities_for_fuel(typed.fuel_type),
            telemetry_fields: build_telemetry_fields(),
            zone_type: copied_text(&typed.zone_type),
        };
        TanklessWH {
            descriptor,
            ports: build_ports(typed.fuel_type),
            state: initial_state(typed.fuel_type, config.zone_id.is_some()),
        }
    }

    /// Give the heater another name.
    pub fn rename(&mut self, name: String)
        ensures
            *final(self) == (TanklessWH {
                descriptor: EquipmentDescriptor { name, ..old(self).descriptor },
                ..*old(self)
            }),
    {
        self.descriptor.name = name;
    }

    /// Take over a typed configuration. One that breaks its limits changes nothing.
    pub fn init_typed(&mut self, c: &TanklessWaterHeaterConfig, outside: TanklessSite) -> (r:
        Result<()>)
        ensures
            r == crate::checks::outcome(c.fault()),
            c.fault() is Some ==> *final(self) == *old(self),
            c.fault() is None ==> {
                &&& final(self).descriptor == (EquipmentDescriptor {
                    id: match c.equipment_id {
                        Some(id) => id,
                        None => old(self).descriptor.id,
                    },
                    zone: if c.zone_id is Some {
                        c.zone_id
                    } else {
                        old(self).descriptor.zone
                    },
                    fuel: c.fuel_type,
                    core_capabilities: core_capabilities_for_fuel(c.fuel_type),
                    ..old(self).descriptor
                })
                &&& final(self).ports@ == ports_for(c.fuel_type)
                &&& final(self).state == old(self).state.configured(c, outside)
            },
    {
        c.validate()?;
        if let Some(id) = c.equipment_id {
            self.descriptor.id = id;
        }
        if let Some(id) = c.zone_id {
            self.descriptor.zone = Some(id);
        }
        self.descriptor.fuel = c.fuel_type;
        self.descriptor.core_capabilities = core_capabilities_for_fuel(c.fuel_type);
        self.ports = build_ports(c.fuel_type);
        self.state =
        TanklessState {
            fuel_type: c.fuel_type,
            setpoint_c: or_default(c.setpoint_c, default_setpoint_c()),
            efficiency_factor: configured_efficiency(c),
            min_flow_kg_s: configured_min_flow_kg_s(c, outside.gpm_in_kg_s),
            rated_thermal_power_w: or_default(
                c.heating_capacity_w,
                default_max_thermal_power_w(),
            ).max(Double::zero()),
            power_limit_w: None,
            parasitic_power_w: or_default(c.parasitic_power_w, Double::zero()).max(Double::zero()),
            duty_cycle: Double::one(),
            mode_override: None,
            inlet_temp_c: configured_inlet_temp_c(c, outside),
            draw_flow_rate_kg_s: or_default(c.draw_flow_rate_kg_s, Double::zero()),
            draw_source: c.draw_flow_rate_source,
            mains_temp_c_source: c.mains_temp_c_source,
            dr: DemandResponse::normal(),
            ctrl_load_fraction: Double::one(),
            zone_id_explicit: self.state.zone_id_explicit,
            telemetry: TanklessTelemetry::empty(),
            core_output: CoreOutput::empty(),
        };
        Ok(())
    }

    /// Decide whether the heater fires in this step.
    pub fn update_control(&mut self, env: &EnvironmentState) -> (mode: OperatingMode)
        requires
            env.time_res.wf(),
        ensures
            final(self).state == (TanklessState {
                dr: old(self).state.dr.after(env.time_res.length_s()),
                ..old(self).state
            }),
            mode == final(self).state.mode(env.bus_energized),
            final(self).descriptor == old(self).descriptor,
            final(self).ports == old(self).ports,
    {
        self.state.dr = self.state.dr.after(env.time_res.length_s());
        self.state.mode(env.bus_energized)
    }

    /// The inlet temperature and the scheduled draw of a step. The weather's mains
    /// temperature, if finite, comes before the configured inlet temperature.
    pub open spec fn step_inputs(&self, env: &EnvironmentState, readings: ScheduleReadings) -> (
        Double,
        Double,
    ) {
        crate::shared::storage_step_inputs(
            env,
            or_default(if_finite(env.mains_temp_c), self.state.inlet_temp_c),
            self.state.draw_flow_rate_kg_s,
            readings,
        )
    }

    /// The inlet temperature of a step.
    pub fn inlet_temp_c(&self, env: &EnvironmentState, readings: ScheduleReadings) -> (r: Double)
        ensures
            r == self.step_inputs(env, readings).0,
    {
        let fallback_c: Double = or_default(if_finite(env.mains_temp_c), self.state.inlet_temp_c);
        let (inlet_temp_c, draw_kg_s) = resolve_storage_step_inputs(
            env,
            fallback_c,
            self.state.draw_flow_rate_kg_s,
            readings,
        );
        inlet_temp_c
    }

    pub open spec fn step_delivery(
        &self,
        env: &EnvironmentState,
        mode: OperatingMode,
        outside: TanklessOutside,
        fluid: Seq<FluidAccumulator>,
        readings: ScheduleReadings,
        dt: Duration,
    ) -> TanklessDelivery {
        let (inlet_temp_c, draw_kg_s) = self.step_inputs(env, readings);
        let total_draw_kg_s = draw_kg_s.plus(crate::shared::dhw_demand(fluid));
        let (thermal_output_w, outlet_temp_c) = self.state.output(
            mode,
            total_draw_kg_s,
            inlet_temp_c,
            outside.cp_j_kg_k,
        );
        let fuel_input_w = thermal_output_w.over(self.state.efficiency_factor);
        TanklessDelivery {
            inlet_temp_c,
            total_draw_kg_s,
            draw_volume_l: total_draw_kg_s.times(dt.as_secs()).over(
                outside.water_density_kg_m3,
            ).times(Double::whole(1000)),
            draw_hour: env.current_time.hour(),
            thermal_output_w,
            outlet_temp_c,
            fuel_input_w,
            electric_w: self.state.electric_w(fuel_input_w, env.bus_energized),
        }
    }

    /// What the heater delivers in a step, after [`TanklessWH::update_control`] has given
    /// its `mode`.
    pub fn deliver(
        &self,
        env: &EnvironmentState,
        mode: OperatingMode,
        outside: TanklessOutside,
        fluid: &[FluidAccumulator],
        readings: ScheduleReadings,
        dt: Duration,
    ) -> (d: TanklessDelivery)
        requires
            env.current_time.wf(),
        ensures
            d == self.step_delivery(env, mode, outside, fluid@, readings, dt),
    {
        let fallback_c: Double = or_default(if_finite(env.mains_temp_c), self.state.inlet_temp_c);
        let (inlet_temp_c, draw_kg_s) = resolve_storage_step_inputs(
            env,
            fallback_c,
            self.state.draw_flow_rate_kg_s,
            readings,
        );
        let total_draw_kg_s: Double = draw_kg_s.plus(read_dhw_demand_kg_s(fluid));
        let (thermal_output_w, outlet_temp_c) = self.state.output(
            mode,
            total_draw_kg_s,
            inlet_temp_c,
            outside.cp_j_kg_k,
        );
        let fuel_input_w: Double = thermal_output_w.over(self.state.efficiency_factor);
        TanklessDelivery {
            inlet_temp_c,
            total_draw_kg_s,
            draw_volume_l: total_draw_kg_s.times(dt.as_secs()).over(
                outside.water_density_kg_m3,
            ).times(Double::whole(1000)),
            draw_hour: env.current_time.hour(),
            thermal_output_w,
            outlet_temp_c,
            fuel_input_w,
            electric_w: self.state.electric_w(fuel_input_w, env.bus_energized),
        }
    }

    pub open spec fn step_contributions(&self, d: TanklessDelivery, reactive_kvar: Double) -> Seq<
        PortContribution,
    > {
        let electrical = PortContribution::Electrical {
            active_power: ActivePower::Watts(d.electric_w),
            reactive_power_kvar: reactive_kvar,
        };
        if self.state.fuel_type == FuelType::Electric {
            crate::storage::when(
                d.electric_w.gt(Double::zero()) || !reactive_kvar.same(Double::zero()),
                electrical,
            )
        } else {
            crate::storage::when(
                d.fuel_input_w.gt(Double::zero()),
                PortContribution::Fuel {
                    fuel_type: self.state.fuel_type,
                    consumption_w: d.fuel_input_w,
                },
            ) + seq![electrical]
        }
    }

    /// What a delivery gives to the ports: the power of an electric unit, or else fuel and
    /// the power of the ignition controller. `reactive_kvar` goes with the electric power.
    pub fn contributions(&self, d: TanklessDelivery, reactive_kvar: Double) -> (r: Vec<
        PortContribution,
    >)
        ensures
            r@ == self.step_contributions(d, reactive_kvar),
    {
        let electrical = PortContribution::Electrical {
            active_power: ActivePower::Watts(d.electric_w),
            reactive_power_kvar: reactive_kvar,
        };
        let mut list: Vec<PortContribution> = Vec::new();
        if self.state.fuel_type == FuelType::Electric {
            push_when(
                &mut list,
                d.electric_w.gt(Double::zero()) || !reactive_kvar.same(Double::zero()),
                electrical,
            );
        } else {
            push_when(
                &mut list,
                d.fuel_input_w.gt(Double::zero()),
                PortContribution::Fuel {
                    fuel_type: self.state.fuel_type,
                    consumption_w: d.fuel_input_w,
                },
            );
            list.push(electrical);
        }
        assert(list@ =~= self.step_contributions(d, reactive_kvar));
        list
    }

    /// Whether a delivery takes any power or fuel, which tells a heater that fires from
    /// one that idles.
    #[verifier::allow_in_spec]
    pub fn takes_energy(d: TanklessDelivery) -> bool
        returns
            power_w_to_kw(d.electric_w).max(Double::zero()).gt(Double::zero())
                || d.fuel_input_w.gt(Double::zero()),
    {
        power_w_to_kw(d.electric_w).max(Double::zero()).gt(Double::zero()) || d.fuel_input_w.gt(
            Double::zero(),
        )
    }

    /// Record a delivery under the mode that is reported for it, and end what a controller
    /// asked for one step.
    pub fn finish_step(
        &mut self,
        d: TanklessDelivery,
        reactive_kvar: Double,
        reported_mode: OperatingMode,
    )
        ensures
            final(self).state == old(self).state.finished(d, reactive_kvar, reported_mode),
            final(self).descriptor == old(self).descriptor,
            final(self).ports == old(self).ports,
    {
        self.state = self.state.finished(d, reactive_kvar, reported_mode);
    }

    /// Obey a control signal.
    pub fn apply_control(&mut self, signal: ControlSignal) -> (r: Result<()>)
        ensures
            final(self).state == old(self).state.applied(signal).0,
            r == (match old(self).state.applied(signal).1 {
                Some(fault) => Err(HaresError::Control(fault)),
                None => Ok::<(), HaresError>(()),
            }),
            final(self).descriptor == old(self).descriptor,
            final(self).ports == old(self).ports,
    {
        match signal {
            ControlSignal::ThermalSetpoint { heating_setpoint_c, cooling_setpoint_c, deadband_c } => {
                let setpoint: Option<Double> = match heating_setpoint_c {
                    Some(sp) => Some(sp),
                    None => cooling_setpoint_c,
                };
                if let Some(sp) = setpoint {
                    if !sp.is_finite() {
                        return Err(HaresError::Control(ControlFault::Setpoint { value: sp }));
                    }
                    self.state.setpoint_c = sp;
                }
            },
            ControlSignal::DutyCycle { on_fraction, component } => {
                if !on_fraction.is_finite() || !(Double::zero().le(on_fraction) && on_fraction.le(
                    Double::one(),
                )) {
                    return Err(
                        HaresError::Control(
                            ControlFault::DutyCycle {
                                equipment: "TanklessWH",
                                value: on_fraction,
                            },
                        ),
                    );
                }
                self.state.duty_cycle = on_fraction;
            },
            ControlSignal::ModeOverride { mode } => {
                self.state.mode_override = Some(mode);
            },
            ControlSignal::LoadFraction { fraction } => {
                self.state.ctrl_load_fraction = fraction.clamp(Double::zero(), Double::one());
            },
            ControlSignal::PowerLimit { max_power_kw } => {
                self.state.power_limit_w = Some(
                    power_kw_to_w(max_power_kw).times(self.state.efficiency_factor).max(
                        Double::zero(),
                    ),
                );
            },
            ControlSignal::DemandResponse { level, duration_s } => {
                self.state.dr = DemandResponse::at(level, duration_s);
            },
            ControlSignal::Other => {},
        }
        Ok(())
    }

    pub fn save_state(&self) -> (saved: TanklessCheckpoint)
        ensures
            saved == self.state.saved(),
    {
        self.state.saved()
    }

    /// Take over a saved state.
    pub fn load_state(&mut self, saved: TanklessCheckpoint)
        ensures
            final(self).state == old(self).state.with_saved(saved),
            final(self).descriptor == old(self).descriptor,
            final(self).ports == old(self).ports,
    {
        self.state = self.state.with_saved(saved);
    }
}

/// Let the names of this heater stand for it.
pub fn register_with_registry(registry: &mut EquipmentRegistry)
    ensures
        final(registry)@ == old(registry)@.insert(
            "Tankless Water Heater"@,
            Registration::Heater(HeaterKind::Tankless),
        ).insert(
            "Gas Tankless Water Heater"@,
            Registration::Heater(HeaterKind::Tankless),
        ),
{
    registry.register("Tankless Water Heater", HeaterKind::Tankless);
    registry.register("Gas Tankless Water Heater", HeaterKind::Tankless);
}

} // verus!
