//! Gas water heater model.
use vstd::prelude::*;

use crate::config::{copied_text, is_text, parse_usize, EquipmentConfig};
use crate::defaults::default_tank;
use crate::double::Double;
use crate::error::{ControlFault, HaresError, Result};
use crate::registry::{EquipmentRegistry, HeaterKind, Registration};
use crate::shared::{
    ambient_temp_c, default_deadband_c, default_fixture_temp_c, default_max_tank_temp_c,
    default_setpoint_c, hysteresis_call, is_overheated, or_default, power_kw_to_w, power_w_to_kw,
    read_dhw_demand_kg_s, resolve_storage_step_inputs, weighted_average_tank_temp, DemandResponse,
    ScheduleReadings, DHW_DEMAND_LOOP,
};
use crate::storage::{build_typed_tank, node_count, node_index, push_when, typed_node_count};
use crate::tank::{DrawResult, StratifiedTank, StratifiedTankState, TemperedDrawConfig};
use crate::time::Duration;
use crate::types::{
    push_node_fields, ActivePower, ControlCapabilities, ControlSignal, CoreCapabilities,
    CoreOutput, EnvironmentState, EquipmentDescriptor, FluidAccumulator, FuelPower,
    FuelType, OperatingMode, PortContribution, PortDeclaration, ScheduleSource, TelemetryField,
    TelemetryKey, ThermalCategory,
};
use crate::wh_config::GasWaterHeaterConfig;
use crate::zip::WaterHeaterZip;

verus! {

// ---------------------------------------------------------------------------
// Defaults
// ---------------------------------------------------------------------------

/// The default burner input [W].
#[verifier::allow_in_spec]
pub fn default_burner_input_w() -> Double
    returns
        Double::whole(11_000),
{
    Double::whole(11_000)
}

/// The default efficiency of the burner.
#[verifier::allow_in_spec]
pub fn default_burner_efficiency() -> Double
    returns
        Double::ratio(78, 100),
{
    Double::ratio(78, 100)
}

/// The default share of heat that leaves through the flue.
#[verifier::allow_in_spec]
pub fn default_flue_loss_fraction() -> Double
    returns
        Double::ratio(10, 100),
{
    Double::ratio(10, 100)
}

/// The default power of a standing pilot [W].
#[verifier::allow_in_spec]
pub fn default_pilot_power_w() -> Double
    returns
        Double::whole(150),
{
    Double::whole(150)
}

/// The default share of the pilot's heat that reaches the water.
#[verifier::allow_in_spec]
pub fn default_pilot_fraction_to_tank() -> Double
    returns
        Double::ratio(80, 100),
{
    Double::ratio(80, 100)
}

/// The share of standby losses that enters the zone, by the efficiency of the burner.
#[verifier::allow_in_spec]
pub fn default_skin_loss_fraction(burner_efficiency: Double) -> Double
    returns
        (if burner_efficiency.lt(Double::ratio(7, 10)) {
            Double::ratio(64, 100)
        } else if burner_efficiency.lt(Double::ratio(8, 10)) {
            Double::ratio(91, 100)
        } else {
            Double::ratio(96, 100)
        }),
{
    if burner_efficiency.lt(Double::ratio(7, 10)) {
        Double::ratio(64, 100)
    } else if burner_efficiency.lt(Double::ratio(8, 10)) {
        Double::ratio(91, 100)
    } else {
        Double::ratio(96, 100)
    }
}

/// The energy factor that a uniform energy factor of a gas heater stands for.
#[verifier::allow_in_spec]
pub fn uef_to_ef_gas(uef: Double) -> Double
    returns
        Double::ratio(9066, 10_000).times(uef).plus(Double::ratio(711, 10_000)),
{
    Double::ratio(9066, 10_000).times(uef).plus(Double::ratio(711, 10_000))
}

// ---------------------------------------------------------------------------
// State
// ---------------------------------------------------------------------------

/// The figures that the heater records.
#[derive(Debug, Clone, Copy, PartialEq, Eq, Structural)]
pub struct GasTelemetry {
    pub tank_avg_temp_c: Double,
    pub burner_efficiency: Double,
    /// 0 for the default, 1 for a conversion efficiency, 2 for an energy factor, 3 for a
    /// uniform energy factor.
    pub burner_efficiency_source: Double,
    pub burner_power_w: Double,
    pub pilot_power_w: Double,
    pub fuel_input_w: Double,
    pub pilot_kw: Double,
    pub fuel_input_kw: Double,
    pub flue_loss_w: Double,
    pub skin_loss_w: Double,
    pub fan_electric_w: Double,
    pub draw_flow_rate_kg_s: Double,
    pub unmet_load_w: Double,
    pub operating_mode: Double,
    pub outlet_temp_c: Double,
    pub pilot_heat_to_water_w: Double,
    pub pilot_heat_to_ambient_w: Double,
}

impl GasTelemetry {
    /// Nothing recorded yet.
    #[verifier::allow_in_spec]
    pub fn empty() -> GasTelemetry
        returns
            (GasTelemetry {
                tank_avg_temp_c: Double::zero(),
                burner_efficiency: Double::zero(),
                burner_efficiency_source: Double::zero(),
                burner_power_w: Double::zero(),
                pilot_power_w: Double::zero(),
                fuel_input_w: Double::zero(),
                pilot_kw: Double::zero(),
                fuel_input_kw: Double::zero(),
                flue_loss_w: Double::zero(),
                skin_loss_w: Double::zero(),
                fan_electric_w: Double::zero(),
                draw_flow_rate_kg_s: Double::zero(),
                unmet_load_w: Double::zero(),
                operating_mode: Double::zero(),
                outlet_temp_c: Double::zero(),
                pilot_heat_to_water_w: Double::zero(),
                pilot_heat_to_ambient_w: Double::zero(),
            }),
    {
        GasTelemetry {
            tank_avg_temp_c: Double::zero(),
            burner_efficiency: Double::zero(),
            burner_efficiency_source: Double::zero(),
            burner_power_w: Double::zero(),
            pilot_power_w: Double::zero(),
            fuel_input_w: Double::zero(),
            pilot_kw: Double::zero(),
            fuel_input_kw: Double::zero(),
            flue_loss_w: Double::zero(),
            skin_loss_w: Double::zero(),
            fan_electric_w: Double::zero(),
            draw_flow_rate_kg_s: Double::zero(),
            unmet_load_w: Double::zero(),
            operating_mode: Double::zero(),
            outlet_temp_c: Double::zero(),
            pilot_heat_to_water_w: Double::zero(),
            pilot_heat_to_ambient_w: Double::zero(),
        }
    }
}

/// A quadratic of the part load.
#[derive(Debug, Clone, Copy, PartialEq, Eq, Structural)]
pub struct PartLoadCurve {
    pub c0: Double,
    pub c1: Double,
    pub c2: Double,
}

/// The settings of the heater, and what it is doing.
#[derive(Debug, Clone, Copy, PartialEq, Eq, Structural)]
pub struct GasState {
    pub burner_node: usize,
    pub burner_input_w: Double,
    pub pilot_power_w: Double,
    /// Power of the draft inducer while the burner fires.
    pub fan_power_w: Double,
    pub setpoint_c: Double,
    pub deadband_c: Double,
    pub duty_cycle: Double,
    pub mode_override: Option<OperatingMode>,
    pub burner_on: bool,
    pub loop_id: u16,
    pub mains_temp_c: Double,
    pub draw_flow_rate_kg_s: Double,
    pub draw_source: Option<ScheduleSource>,
    pub mains_temp_c_source: Option<ScheduleSource>,
    pub flue_loss_fraction: Double,
    pub burner_efficiency_constant: Double,
    /// Efficiency as a quadratic of the part load, if it is not constant.
    pub burner_efficiency_poly: Option<PartLoadCurve>,
    pub fuel_type: FuelType,
    /// Fraction of standby tank losses delivered to the zone as sensible heat.
    pub skin_loss_fraction: Double,
    /// The burner is locked out above this temperature.
    pub max_tank_temp_c: Double,
    /// Fraction of the pilot's heat routed to the water; the rest goes to the zone.
    pub pilot_fraction_to_tank: Double,
    pub dr: DemandResponse,
    /// Load fraction asked for by a controller; for one step only.
    pub ctrl_load_fraction: Double,
    pub zip: WaterHeaterZip,
    pub fixture_delivery_temp_c: Double,
    pub hot_draw_temp_c: Option<Double>,
    /// Whether the zone was configured, or is the default one.
    pub zone_id_explicit: bool,
    pub telemetry: GasTelemetry,
    pub core_output: CoreOutput,
}

/// What a step draws and burns before the tank moves on.
#[derive(Debug, Clone, Copy, PartialEq, Eq, Structural)]
pub struct GasFiring {
    pub burner_input_w: Double,
    pub flue_loss_w: Double,
    pub tank_heat_w: Double,
    pub pilot_heat_to_water_w: Double,
    pub pilot_heat_to_ambient_w: Double,
}

/// What only the outside can tell about a step.
#[derive(Debug, Clone, Copy, PartialEq, Eq, Structural)]
pub struct GasOutside {
    /// The density of water at the temperature of the top node [kg/m³].
    pub water_density_kg_m3: Double,
    /// The heat [W] that would hold the burner node at the effective setpoint over the
    /// step.
    pub ideal_capacity_w: Double,
}

/// What a step came to.
#[derive(Debug, Clone, Copy, PartialEq, Eq, Structural)]
pub struct GasFigures {
    pub mode: OperatingMode,
    pub firing: GasFiring,
    pub fuel_input_w: Double,
    pub fan_electric_w: Double,
    pub fan_reactive_kvar: Double,
    pub skin_loss_to_zone_w: Double,
    pub total_draw_kg_s: Double,
    pub mains_temp_c: Double,
    pub draw: DrawResult,
}

impl GasState {
    /// The setpoint with what the grid asks for.
    #[verifier::allow_in_spec]
    pub fn effective_setpoint_c(self) -> Double
        returns
            self.setpoint_c.plus(self.dr.setpoint_offset_c),
    {
        self.setpoint_c.plus(self.dr.setpoint_offset_c)
    }

    /// The efficiency of the burner at a part load; never negative.
    #[verifier::allow_in_spec]
    pub fn burner_efficiency(self, part_load_ratio: Double) -> Double
        returns
            (match self.burner_efficiency_poly {
                Some(PartLoadCurve { c0, c1, c2 }) => c0.plus(c1.times(part_load_ratio)).plus(
                    c2.times(part_load_ratio).times(part_load_ratio),
                ).max(Double::zero()),
                None => self.burner_efficiency_constant.max(Double::zero()),
            }),
    {
        match self.burner_efficiency_poly {
            Some(PartLoadCurve { c0, c1, c2 }) => c0.plus(c1.times(part_load_ratio)).plus(
                c2.times(part_load_ratio).times(part_load_ratio),
            ).max(Double::zero()),
            None => self.burner_efficiency_constant.max(Double::zero()),
        }
    }

    /// Whether the burner should fire: not when the load is shed, switched off or cut to
    /// nothing, and else as the thermostat calls.
    #[verifier::allow_in_spec]
    pub fn should_fire(self, burner_temp_c: Double) -> bool
        returns
            !self.dr.load_fraction.le(Double::zero()) && self.mode_override != Some(
                OperatingMode::Off,
            ) && !self.duty_cycle.le(Double::zero()) && hysteresis_call(
                burner_temp_c,
                self.effective_setpoint_c(),
                self.deadband_c,
                self.burner_on,
            ),
    {
        let switched_off: bool = match self.mode_override {
            Some(mode) => mode == OperatingMode::Off,
            None => false,
        };
        !self.dr.load_fraction.le(Double::zero()) && !switched_off && !self.duty_cycle.le(
            Double::zero(),
        ) && hysteresis_call(
            burner_temp_c,
            self.effective_setpoint_c(),
            self.deadband_c,
            self.burner_on,
        )
    }

    /// The state after the control decision of a step of `dt_s` seconds: the time of a
    /// demand response runs on, and an overheated tank turns the burner off.
    #[verifier::allow_in_spec]
    pub fn controlled(self, dt_s: Double, overheated: bool, burner_temp_c: Double) -> GasState
        returns
            (GasState {
                dr: self.dr.after(dt_s),
                burner_on: !overheated && (GasState {
                    dr: self.dr.after(dt_s),
                    ..self
                }).should_fire(burner_temp_c),
                ..self
            }),
    {
        let later = GasState { dr: self.dr.after(dt_s), ..self };
        GasState { burner_on: !overheated && later.should_fire(burner_temp_c), ..later }
    }

    /// What the heater is doing.
    #[verifier::allow_in_spec]
    pub fn mode(self) -> OperatingMode
        returns
            (if self.burner_on {
                OperatingMode::Heating
            } else {
                OperatingMode::Off
            }),
    {
        if self.burner_on {
            OperatingMode::Heating
        } else {
            OperatingMode::Off
        }
    }

    /// The share of its input at which controllers let the burner run.
    #[verifier::allow_in_spec]
    pub fn control_duty(self) -> Double
        returns
            self.duty_cycle.times(self.dr.load_fraction).times(self.ctrl_load_fraction).clamp(
                Double::zero(),
                Double::one(),
            ),
    {
        self.duty_cycle.times(self.dr.load_fraction).times(self.ctrl_load_fraction).clamp(
            Double::zero(),
            Double::one(),
        )
    }

    /// The heat [W] that reaches the water at full fire.
    #[verifier::allow_in_spec]
    pub fn effective_capacity_w(self) -> Double
        returns
            self.burner_input_w.times(
                self.burner_efficiency(Double::one()).times(
                    Double::one().minus(self.flue_loss_fraction),
                ),
            ),
    {
        self.burner_input_w.times(
            self.burner_efficiency(Double::one()).times(
                Double::one().minus(self.flue_loss_fraction),
            ),
        )
    }

    /// The share of the step in which the burner fires. In coarse steps it fires only as
    /// much as holds the setpoint.
    #[verifier::allow_in_spec]
    pub fn duty(self, coarse: bool, ideal_capacity_w: Double) -> Double
        returns
            (if coarse && self.burner_on && self.burner_input_w.gt(Double::zero())
                && self.effective_capacity_w().gt(Double::zero()) {
                ideal_capacity_w.over(self.effective_capacity_w()).clamp(
                    Double::zero(),
                    Double::one(),
                ).times(self.control_duty())
            } else {
                self.control_duty()
            }),
    {
        if coarse && self.burner_on && self.burner_input_w.gt(Double::zero())
            && self.effective_capacity_w().gt(Double::zero()) {
            ideal_capacity_w.over(self.effective_capacity_w()).clamp(
                Double::zero(),
                Double::one(),
            ).times(self.control_duty())
        } else {
            self.control_duty()
        }
    }

    /// The input of the burner [W] at a duty.
    #[verifier::allow_in_spec]
    pub fn burner_input(self, duty: Double) -> Double
        returns
            (if self.burner_on {
                self.burner_input_w.times(duty)
            } else {
                Double::zero()
            }),
    {
        if self.burner_on {
            self.burner_input_w.times(duty)
        } else {
            Double::zero()
        }
    }

    /// The part load of the burner.
    #[verifier::allow_in_spec]
    pub fn part_load_ratio(self, burner_input_w: Double) -> Double
        returns
            (if self.burner_input_w.gt(Double::zero()) {
                burner_input_w.over(self.burner_input_w)
            } else {
                Double::zero()
            }),
    {
        if self.burner_input_w.gt(Double::zero()) {
            burner_input_w.over(self.burner_input_w)
        } else {
            Double::zero()
        }
    }

    pub open spec fn spec_firing(self, duty: Double) -> GasFiring {
        let burner_input_w = self.burner_input(duty);
        let gross_heat_w = burner_input_w.times(
            self.burner_efficiency(self.part_load_ratio(burner_input_w)),
        );
        let flue_loss_w = gross_heat_w.times(self.flue_loss_fraction);
        GasFiring {
            burner_input_w,
            flue_loss_w,
            tank_heat_w: gross_heat_w.minus(flue_loss_w).max(Double::zero()),
            pilot_heat_to_water_w: self.pilot_power_w.times(self.pilot_fraction_to_tank),
            pilot_heat_to_ambient_w: self.pilot_power_w.times(
                Double::one().minus(self.pilot_fraction_to_tank),
            ),
        }
    }

    /// Where the heat of the burner and of the pilot goes at a duty.
    #[verifier::when_used_as_spec(spec_firing)]
    pub fn firing(self, duty: Double) -> (r: GasFiring)
        ensures
            r == self.firing(duty),
    {
        let burner_input_w: Double = self.burner_input(duty);
        let gross_heat_w: Double = burner_input_w.times(
            self.burner_efficiency(self.part_load_ratio(burner_input_w)),
        );
        let flue_loss_w: Double = gross_heat_w.times(self.flue_loss_fraction);
        GasFiring {
            burner_input_w,
            flue_loss_w,
            tank_heat_w: gross_heat_w.minus(flue_loss_w).max(Double::zero()),
            pilot_heat_to_water_w: self.pilot_power_w.times(self.pilot_fraction_to_tank),
            pilot_heat_to_ambient_w: self.pilot_power_w.times(
                Double::one().minus(self.pilot_fraction_to_tank),
            ),
        }
    }

    /// The mixing valve.
    #[verifier::allow_in_spec]
    pub fn tmv(self) -> TemperedDrawConfig
        returns
            (TemperedDrawConfig {
                tempered_draw_temp_c: self.fixture_delivery_temp_c,
                hot_draw_temp_c: or_default(self.hot_draw_temp_c, self.setpoint_c),
                setpoint_temp_c: self.setpoint_c,
            }),
    {
        TemperedDrawConfig {
            tempered_draw_temp_c: self.fixture_delivery_temp_c,
            hot_draw_temp_c: or_default(self.hot_draw_temp_c, self.setpoint_c),
            setpoint_temp_c: self.setpoint_c,
        }
    }
}

impl GasState {
    pub open spec fn spec_finished(self, f: GasFigures, tank_avg_temp_c: Double) -> GasState {
        GasState {
            ctrl_load_fraction: Double::one(),
            telemetry: GasTelemetry {
                tank_avg_temp_c,
                burner_power_w: f.firing.burner_input_w,
                pilot_power_w: self.pilot_power_w,
                fuel_input_w: f.fuel_input_w,
                pilot_kw: power_w_to_kw(self.pilot_power_w),
                fuel_input_kw: power_w_to_kw(f.fuel_input_w),
                flue_loss_w: f.firing.flue_loss_w,
                skin_loss_w: f.skin_loss_to_zone_w,
                fan_electric_w: f.fan_electric_w,
                draw_flow_rate_kg_s: f.total_draw_kg_s,
                unmet_load_w: f.draw.unmet_load_w,
                operating_mode: if f.mode == OperatingMode::Heating {
                    Double::one()
                } else {
                    Double::zero()
                },
                outlet_temp_c: f.draw.outlet_temp_c,
                pilot_heat_to_water_w: f.firing.pilot_heat_to_water_w,
                pilot_heat_to_ambient_w: f.firing.pilot_heat_to_ambient_w,
                ..self.telemetry
            },
            core_output: CoreOutput {
                electric_kw: Some(power_w_to_kw(f.fan_electric_w).max(Double::zero())),
                reactive_power_kvar: None,
                fuel: Some(
                    FuelPower {
                        fuel_type: self.fuel_type,
                        consumption_w: f.fuel_input_w.max(Double::zero()),
                    },
                ),
                thermal_output_w: None,
                operating_mode: Some(f.mode),
            },
            ..self
        }
    }

    /// The state after a step has been reported: its figures are recorded, and what a
    /// controller asked for one step is over.
    #[verifier::when_used_as_spec(spec_finished)]
    pub fn finished(self, f: GasFigures, tank_avg_temp_c: Double) -> (r: GasState)
        ensures
            r == self.finished(f, tank_avg_temp_c),
    {
        GasState {
            ctrl_load_fraction: Double::one(),
            telemetry: GasTelemetry {
                tank_avg_temp_c,
                burner_power_w: f.firing.burner_input_w,
                pilot_power_w: self.pilot_power_w,
                fuel_input_w: f.fuel_input_w,
                pilot_kw: power_w_to_kw(self.pilot_power_w),
                fuel_input_kw: power_w_to_kw(f.fuel_input_w),
                flue_loss_w: f.firing.flue_loss_w,
                skin_loss_w: f.skin_loss_to_zone_w,
                fan_electric_w: f.fan_electric_w,
                draw_flow_rate_kg_s: f.total_draw_kg_s,
                unmet_load_w: f.draw.unmet_load_w,
                operating_mode: if f.mode == OperatingMode::Heating {
                    Double::one()
                } else {
                    Double::zero()
                },
                outlet_temp_c: f.draw.outlet_temp_c,
                pilot_heat_to_water_w: f.firing.pilot_heat_to_water_w,
                pilot_heat_to_ambient_w: f.firing.pilot_heat_to_ambient_w,
                ..self.telemetry
            },
            core_output: CoreOutput {
                electric_kw: Some(power_w_to_kw(f.fan_electric_w).max(Double::zero())),
                reactive_power_kvar: None,
                fuel: Some(
                    FuelPower {
                        fuel_type: self.fuel_type,
                        consumption_w: f.fuel_input_w.max(Double::zero()),
                    },
                ),
                thermal_output_w: None,
                operating_mode: Some(f.mode),
            },
            ..self
        }
    }

    /// The state after a setpoint request, and the fault in it: a setpoint that is no
    /// finite number changes nothing; a deadband that is negative or no finite number
    /// leaves the new setpoint in force.
    pub open spec fn with_setpoint(self, setpoint: Option<Double>, deadband: Option<Double>) -> (
        GasState,
        Option<ControlFault>,
    ) {
        if setpoint is Some && !setpoint->0.is_finite() {
            (self, Some(ControlFault::Setpoint { value: setpoint->0 }))
        } else {
            let moved = GasState { setpoint_c: or_default(setpoint, self.setpoint_c), ..self };
            match deadband {
                Some(db) if !(db.is_finite() && db.ge(Double::zero())) => (
                    moved,
                    Some(ControlFault::Deadband { value: db }),
                ),
                Some(db) => (GasState { deadband_c: db, ..moved }, None),
                None => (moved, None),
            }
        }
    }

    /// The state after a control signal, and the fault in it.
    pub open spec fn applied(self, signal: ControlSignal) -> (GasState, Option<ControlFault>) {
        match signal {
            ControlSignal::ThermalSetpoint { heating_setpoint_c, cooling_setpoint_c, deadband_c } =>
                self.with_setpoint(
                if heating_setpoint_c is Some {
                    heating_setpoint_c
                } else {
                    cooling_setpoint_c
                },
                deadband_c,
            ),
            ControlSignal::DutyCycle { on_fraction, component } => if on_fraction.is_finite()
                && Double::zero().le(on_fraction) && on_fraction.le(Double::one()) {
                (GasState { duty_cycle: on_fraction, ..self }, None)
            } else {
                (
                    self,
                    Some(ControlFault::DutyCycle { equipment: "GasWH", value: on_fraction }),
                )
            },
            ControlSignal::ModeOverride { mode } => (
                GasState { mode_override: Some(mode), ..self },
                None,
            ),
            ControlSignal::LoadFraction { fraction } => (
                GasState {
                    ctrl_load_fraction: fraction.clamp(Double::zero(), Double::one()),
                    ..self
                },
                None,
            ),
            ControlSignal::PowerLimit { max_power_kw } => if self.burner_input_w.gt(
                Double::zero(),
            ) {
                (
                    GasState {
                        ctrl_load_fraction: self.ctrl_load_fraction.min(
                            power_kw_to_w(max_power_kw).over(self.burner_input_w).clamp(
                                Double::zero(),
                                Double::one(),
                            ),
                        ),
                        ..self
                    },
                    None,
                )
            } else {
                (self, None)
            },
            ControlSignal::DemandResponse { level, duration_s } => (
                GasState { dr: DemandResponse::at(level, duration_s), ..self },
                None,
            ),
            ControlSignal::Other => (self, None),
        }
    }
}

// ---------------------------------------------------------------------------
// Telemetry fields
// ---------------------------------------------------------------------------

/// The figures that this heater records, those of its tank nodes among them.
pub open spec fn telemetry_fields(n_nodes: nat) -> Seq<TelemetryField> {
    seq![
        TelemetryField {
            key: TelemetryKey::TankAvgTempC,
            unit: "C",
            description: "Volume-weighted average tank temperature",
        },
        TelemetryField {
            key: TelemetryKey::BurnerEfficiency,
            unit: "fraction",
            description: "Resolved burner efficiency (conversion_efficiency, EF, or UEF-derived)",
        },
        TelemetryField {
            key: TelemetryKey::BurnerEfficiencySource,
            unit: "enum",
            description: "0=Default, 1=ConversionEfficiency, 2=EnergyFactor, 3=UniformEnergyFactor",
        },
        TelemetryField {
            key: TelemetryKey::BurnerPowerW,
            unit: "W",
            description: "Gas burner thermal input power",
        },
        TelemetryField {
            key: TelemetryKey::PilotPowerW,
            unit: "W",
            description: "Pilot light fuel input power (continuous)",
        },
        TelemetryField {
            key: TelemetryKey::FuelInputW,
            unit: "W",
            description: "Total fuel consumption rate",
        },
        TelemetryField {
            key: TelemetryKey::PilotKw,
            unit: "kW",
            description: "Pilot light fuel input power",
        },
        TelemetryField {
            key: TelemetryKey::FuelInputKw,
            unit: "kW",
            description: "Total fuel consumption rate",
        },
        TelemetryField {
            key: TelemetryKey::FlueLossW,
            unit: "W",
            description: "Heat loss to flue (excluded from zone thermal gains)",
        },
        TelemetryField {
            key: TelemetryKey::FanElectricW,
            unit: "W",
            description: "Auxiliary electric fan draw",
        },
        TelemetryField {
            key: TelemetryKey::DrawFlowRateKgS,
            unit: "kg/s",
            description: "Domestic hot water draw flow rate",
        },
        TelemetryField {
            key: TelemetryKey::UnmetLoadW,
            unit: "W",
            description: "Unmet fixture load when tank below delivery temp",
        },
        TelemetryField {
            key: TelemetryKey::OperatingMode,
            unit: "enum",
            description: "0=Off, 1=Heating",
        },
        TelemetryField {
            key: TelemetryKey::OutletTempC,
            unit: "C",
            description: "Hot water outlet temperature delivered to fixture",
        },
    ] + crate::types::node_fields(n_nodes) + seq![
        TelemetryField {
            key: TelemetryKey::SkinLossW,
            unit: "W",
            description: "Tank jacket (skin) heat loss to zone",
        },
        TelemetryField {
            key: TelemetryKey::PilotHeatToWaterW,
            unit: "W",
            description: "Pilot thermal power routed to tank water",
        },
        TelemetryField {
            key: TelemetryKey::PilotHeatToAmbientW,
            unit: "W",
            description: "Pilot thermal power routed to ambient zone",
        },
    ]
}

fn build_telemetry_fields(n_nodes: usize) -> (fields: Vec<TelemetryField>)
    ensures
        fields@ == telemetry_fields(n_nodes as nat),
{
    let mut fields: Vec<TelemetryField> = vec![
        TelemetryField {
            key: TelemetryKey::TankAvgTempC,
            unit: "C",
            description: "Volume-weighted average tank temperature",
        },
        TelemetryField {
            key: TelemetryKey::BurnerEfficiency,
            unit: "fraction",
            description: "Resolved burner efficiency (conversion_efficiency, EF, or UEF-derived)",
        },
        TelemetryField {
            key: TelemetryKey::BurnerEfficiencySource,
            unit: "enum",
            description: "0=Default, 1=ConversionEfficiency, 2=EnergyFactor, 3=UniformEnergyFactor",
        },
        TelemetryField {
            key: TelemetryKey::BurnerPowerW,
            unit: "W",
            description: "Gas burner thermal input power",
        },
        TelemetryField {
            key: TelemetryKey::PilotPowerW,
            unit: "W",
            description: "Pilot light fuel input power (continuous)",
        },
        TelemetryField {
            key: TelemetryKey::FuelInputW,
            unit: "W",
            description: "Total fuel consumption rate",
        },
        TelemetryField {
            key: TelemetryKey::PilotKw,
            unit: "kW",
            description: "Pilot light fuel input power",
        },
        TelemetryField {
            key: TelemetryKey::FuelInputKw,
            unit: "kW",
            description: "Total fuel consumption rate",
        },
        TelemetryField {
            key: TelemetryKey::FlueLossW,
            unit: "W",
            description: "Heat loss to flue (excluded from zone thermal gains)",
        },
        TelemetryField {
            key: TelemetryKey::FanElectricW,
            unit: "W",
            description: "Auxiliary electric fan draw",
        },
        TelemetryField {
            key: TelemetryKey::DrawFlowRateKgS,
            unit: "kg/s",
            description: "Domestic hot water draw flow rate",
        },
        TelemetryField {
            key: TelemetryKey::UnmetLoadW,
            unit: "W",
            description: "Unmet fixture load when tank below delivery temp",
        },
        TelemetryField {
            key: TelemetryKey::OperatingMode,
            unit: "enum",
            description: "0=Off, 1=Heating",
        },
        TelemetryField {
            key: TelemetryKey::OutletTempC,
            unit: "C",
            description: "Hot water outlet temperature delivered to fixture",
        },
    ];
    push_node_fields(&mut fields, n_nodes);
    fields.push(
        TelemetryField {
            key: TelemetryKey::SkinLossW,
            unit: "W",
            description: "Tank jacket (skin) heat loss to zone",
        },
    );
    fields.push(
        TelemetryField {
            key: TelemetryKey::PilotHeatToWaterW,
            unit: "W",
            description: "Pilot thermal power routed to tank water",
        },
    );
    fields.push(
        TelemetryField {
            key: TelemetryKey::PilotHeatToAmbientW,
            unit: "W",
            description: "Pilot thermal power routed to ambient zone",
        },
    );
    assert(fields@ =~= telemetry_fields(n_nodes as nat));
    fields
}

// ---------------------------------------------------------------------------
// The heater
// ---------------------------------------------------------------------------

/// A gas storage water heater.
#[derive(Debug)]
pub struct GasWH {
    pub descriptor: EquipmentDescriptor,
    pub ports: Vec<PortDeclaration>,
    pub tank: StratifiedTank,
    pub state: GasState,
}

/// What a step came to, and what it gives to the ports, in order.
#[derive(Debug)]
pub struct GasStep {
    pub figures: GasFigures,
    pub contributions: Vec<PortContribution>,
}

/// What a gas heater saves.
#[derive(Debug)]
pub struct GasWhState {
    pub setpoint_c: Double,
    pub deadband_c: Double,
    pub burner_on: bool,
    pub duty_cycle: Double,
    pub mode_override: Option<OperatingMode>,
    pub tank_state: StratifiedTankState,
    pub tank_avg_temp_c: Double,
    pub burner_power_w: Double,
    pub pilot_power_w: Double,
    pub fuel_input_w: Double,
    pub flue_loss_w: Double,
    pub fan_electric_w: Double,
    pub draw_flow_rate_kg_s: Double,
    pub pilot_fraction_to_tank: Double,
    pub dr: DemandResponse,
}

/// The burner efficiency of a configuration, and where it comes from: a conversion
/// efficiency, else an energy factor, else a uniform energy factor, else the default.
/// Factors are scaled by the performance adjustment.
pub open spec fn configured_efficiency(c: &GasWaterHeaterConfig) -> (Double, Double) {
    let adjustment = or_default(c.performance_adjustment, Double::one());
    match (c.conversion_efficiency, c.energy_factor, c.uniform_energy_factor) {
        (Some(ce), _, _) => (ce, Double::one()),
        (None, Some(ef), _) => (ef.times(adjustment), Double::whole(2)),
        (None, None, Some(uef)) => (uef_to_ef_gas(uef).times(adjustment), Double::whole(3)),
        (None, None, None) => (default_burner_efficiency(), Double::zero()),
    }
}

pub fn resolve_efficiency(c: &GasWaterHeaterConfig) -> (r: (Double, Double))
    ensures
        r == configured_efficiency(c),
{
    let adjustment: Double = or_default(c.performance_adjustment, Double::one());
    if let Some(ce) = c.conversion_efficiency {
        (ce, Double::one())
    } else if let Some(ef) = c.energy_factor {
        (ef.times(adjustment), Double::whole(2))
    } else if let Some(uef) = c.uniform_energy_factor {
        (uef_to_ef_gas(uef).times(adjustment), Double::whole(3))
    } else {
        (default_burner_efficiency(), Double::zero())
    }
}

/// Whether the burner is lit electronically, so that there is no standing pilot.
pub open spec fn electronic_ignition(c: &GasWaterHeaterConfig) -> bool {
    ||| crate::config::text_is(c.ignition_type, "ElectronicIgnition"@)
    ||| crate::config::text_is(c.ignition_type, "electronic"@)
    ||| crate::config::text_is(c.ignition_type, "electronic ignition"@)
}

/// The node of the burner in a configured tank: the sixth, or the lowest if there are
/// fewer.
#[verifier::allow_in_spec]
pub fn typed_burner_node(n_nodes: usize) -> usize
    requires
        n_nodes > 0,
    returns
        (if 5 >= n_nodes {
            (n_nodes - 1) as usize
        } else {
            5
        }),
{
    if 5 >= n_nodes {
        n_nodes - 1
    } else {
        5
    }
}

/// The tank of a configuration.
pub open spec fn configured_tank(c: &GasWaterHeaterConfig) -> crate::tank::StratifiedTankConfig {
    crate::storage::typed_tank_config(
        c.tank_nodes,
        c.tank_volume_m3,
        c.tank_height_m,
        c.ua_w_per_k,
        c.jacket_r_value_m2_k_w,
        or_default(c.initial_tank_temp_c, or_default(c.setpoint_c, default_setpoint_c())),
        [None, Some(typed_burner_node(typed_node_count(c.tank_nodes)))],
    )
}

impl GasState {
    /// The settings of a configuration, in operation for the first time.
    pub open spec fn configured(self, c: &GasWaterHeaterConfig, mains_temp_c: Double) -> GasState {
        let (efficiency, source) = configured_efficiency(c);
        GasState {
            burner_node: typed_burner_node(typed_node_count(c.tank_nodes)),
            burner_input_w: or_default(c.heating_capacity_w, default_burner_input_w()).max(
                Double::zero(),
            ),
            pilot_power_w: or_default(
                c.pilot_power_w,
                if electronic_ignition(c) {
                    Double::zero()
                } else {
                    default_pilot_power_w()
                },
            ).max(Double::zero()),
            fan_power_w: or_default(c.fan_power_w, Double::zero()),
            setpoint_c: or_default(c.setpoint_c, default_setpoint_c()),
            deadband_c: or_default(c.deadband_c, default_deadband_c()),
            duty_cycle: Double::one(),
            mode_override: None,
            burner_on: false,
            loop_id: match c.loop_id {
                Some(id) => id,
                None => self.loop_id,
            },
            mains_temp_c,
            draw_flow_rate_kg_s: or_default(c.draw_flow_rate_kg_s, Double::zero()),
            draw_source: c.draw_flow_rate_source,
            mains_temp_c_source: c.mains_temp_c_source,
            flue_loss_fraction: or_default(c.flue_loss_fraction, default_flue_loss_fraction()),
            burner_efficiency_constant: efficiency,
            burner_efficiency_poly: None,
            fuel_type: c.fuel_type,
            skin_loss_fraction: or_default(
                c.skin_loss_fraction,
                default_skin_loss_fraction(efficiency),
            ),
            max_tank_temp_c: or_default(c.max_tank_temp_c, default_max_tank_temp_c()),
            pilot_fraction_to_tank: or_default(
                c.pilot_fraction_to_tank,
                default_pilot_fraction_to_tank(),
            ),
            dr: DemandResponse::normal(),
            ctrl_load_fraction: Double::one(),
            zip: fan_zip(),
            fixture_delivery_temp_c: or_default(
                c.fixture_delivery_temp_c,
                default_fixture_temp_c(),
            ),
            hot_draw_temp_c: c.hot_draw_temp_c,
            zone_id_explicit: self.zone_id_explicit,
            telemetry: GasTelemetry {
                burner_efficiency: efficiency,
                burner_efficiency_source: source,
                ..GasTelemetry::empty()
            },
            core_output: CoreOutput::empty(),
        }
    }
}

/// The fan draws constant power, at the power factor of a fan motor.
#[verifier::allow_in_spec]
pub fn fan_zip() -> WaterHeaterZip
    returns
        (WaterHeaterZip { pf: Double::ratio(87, 100), ..WaterHeaterZip::constant_power() }),
{
    WaterHeaterZip { pf: Double::ratio(87, 100), ..WaterHeaterZip::constant_power() }
}

impl GasWH {
    /// The tank is in order, the burner sits on one of its nodes, and the ports are those
    /// for fuel, electricity, the zone, the hot water loop and the appliances.
    pub open spec fn wf(&self) -> bool {
        &&& self.tank@.wf()
        &&& self.state.burner_node < self.tank@.n()
        &&& self.ports@.len() == 5
    }

    /// A heater with the default tank and settings, in the configured zone and loop.
    pub fn new(config: EquipmentConfig) -> (r: GasWH)
        ensures
            r.wf(),
            ({
                let n = node_count(parse_usize(config.value("tank_nodes"@)));
                let burner = node_index(
                    parse_usize(config.value("burner_node"@)),
                    (n - 1) as usize,
                    n,
                );
                let zone = match config.zone_id {
                    Some(id) => id,
                    None => 1u16,
                };
                let loop_id = match config.loop_id {
                    Some(id) => id,
                    None => 0u16,
                };
                &&& r.tank@ == crate::defaults::default_tank_config(
                    n,
                    [None, Some(burner)],
                ).model()
                &&& r.descriptor.id == (match config.equipment_id {
                    Some(id) => id,
                    None => 0u32,
                })
                &&& r.descriptor.name == config.name
                &&& r.descriptor.equipment_type == "Gas Water Heater"
                &&& r.descriptor.zone == Some(zone)
                &&& r.descriptor.fuel == FuelType::Gas
                &&& r.descriptor.control_capabilities == (ControlCapabilities {
                    thermal_setpoint: true,
                    duty_cycle: true,
                    mode_override: true,
                    load_fraction: true,
                    power_limit: true,
                    demand_response: true,
                })
                &&& r.descriptor.core_capabilities == (CoreCapabilities {
                    electric: true,
                    reactive: false,
                    fuel: true,
                    thermal: false,
                    has_mode: true,
                })
                &&& r.descriptor.telemetry_fields@ == telemetry_fields(n as nat)
                &&& r.descriptor.zone_type is None
                &&& r.ports@ == seq![
                    PortDeclaration::Fuel,
                    PortDeclaration::Electrical,
                    PortDeclaration::Thermal { zone: Some(zone) },
                    PortDeclaration::Fluid { loop_id },
                    PortDeclaration::Fluid { loop_id: DHW_DEMAND_LOOP },
                ]
                &&& r.state == initial_state(burner, loop_id, config.zone_id is Some)
            }),
    {
        let n_nodes: usize = node_count(parse_usize(config.get_f64("tank_nodes")));
        let burner_node: usize = node_index(
            parse_usize(config.get_f64("burner_node")),
            n_nodes - 1,
            n_nodes,
        );
        let zone: u16 = match config.zone_id {
            Some(id) => id,
            None => 1,
        };
        let loop_id: u16 = match config.loop_id {
            Some(id) => id,
            None => 0,
        };
        let tank: StratifiedTank = default_tank(n_nodes, [None, Some(burner_node)]);
        let descriptor = EquipmentDescriptor {
            id: match config.equipment_id {
                Some(id) => id,
                None => 0,
            },
            name: config.name,
            equipment_type: "Gas Water Heater",
            zone: Some(zone),
            fuel: FuelType::Gas,
            control_capabilities: ControlCapabilities {
                thermal_setpoint: true,
                duty_cycle: true,
                mode_override: true,
                load_fraction: true,
                power_limit: true,
                demand_response: true,
            },
            core_capabilities: CoreCapabilities {
                electric: true,
                reactive: false,
                fuel: true,
                thermal: false,
                has_mode: true,
            },
            telemetry_fields: build_telemetry_fields(n_nodes),
            zone_type: None,
        };
        let ports: Vec<PortDeclaration> = vec![
            PortDeclaration::Fuel,
            PortDeclaration::Electrical,
            PortDeclaration::Thermal { zone: Some(zone) },
            PortDeclaration::Fluid { loop_id },
            PortDeclaration::Fluid { loop_id: DHW_DEMAND_LOOP },
        ];
        GasWH {
            descriptor,
            ports,
            tank,
            state: initial_state(burner_node, loop_id, config.zone_id.is_some()),
        }
    }

    /// `after` is `before` with the identity, the zone and the loop of a configuration,
    /// and with its burner where the configured tank will have it.
    pub open spec fn placed(before: &GasWH, after: &GasWH, c: &GasWaterHeaterConfig) -> bool {
        let zone = if c.zone_id is Some {
            c.zone_id
        } else {
            before.descriptor.zone
        };
        let loop_id = match c.loop_id {
            Some(id) => id,
            None => before.state.loop_id,
        };
        &&& after.descriptor.id == (match c.equipment_id {
            Some(id) => id,
            None => before.descriptor.id,
        })
        &&& after.descriptor.name == before.descriptor.name
        &&& after.descriptor.equipment_type == before.descriptor.equipment_type
        &&& after.descriptor.zone == zone
        &&& crate::config::same_text(after.descriptor.zone_type, c.zone_type)
        &&& after.descriptor.control_capabilities == before.descriptor.control_capabilities
        &&& after.descriptor.core_capabilities == before.descriptor.core_capabilities
        &&& after.ports@ == before.ports@.update(2, PortDeclaration::Thermal { zone }).update(
            3,
            PortDeclaration::Fluid { loop_id },
        )
    }

    fn place(&mut self, c: &GasWaterHeaterConfig)
        requires
            old(self).ports@.len() == 5,
        ensures
            GasWH::placed(old(self), final(self), c),
            final(self).descriptor.fuel == old(self).descriptor.fuel,
            final(self).descriptor.telemetry_fields == old(self).descriptor.telemetry_fields,
            final(self).tank == old(self).tank,
            final(self).state == (GasState {
                loop_id: match c.loop_id {
                    Some(id) => id,
                    None => old(self).state.loop_id,
                },
                burner_node: typed_burner_node(typed_node_count(c.tank_nodes)),
                ..old(self).state
            }),
    {
        if let Some(id) = c.equipment_id {
            self.descriptor.id = id;
        }
        if let Some(id) = c.zone_id {
            self.descriptor.zone = Some(id);
        }
        self.descriptor.zone_type = copied_text(&c.zone_type);
        let zone: Option<u16> = self.descriptor.zone;
        self.ports.set(2, PortDeclaration::Thermal { zone });
        if let Some(id) = c.loop_id {
            self.state.loop_id = id;
        }
        let loop_id: u16 = self.state.loop_id;
        self.ports.set(3, PortDeclaration::Fluid { loop_id });
        self.state.burner_node = typed_burner_node(typed_node_count(c.tank_nodes));
    }

    /// Give the heater another name.
    pub fn rename(&mut self, name: String)
        ensures
            *final(self) == (GasWH {
                descriptor: EquipmentDescriptor { name, ..old(self).descriptor },
                ..*old(self)
            }),
    {
        self.descriptor.name = name;
    }

    /// Take over a typed configuration. `mains_temp_c` is the temperature of the mains
    /// water that the surroundings give. A configuration that breaks its limits changes
    /// nothing; one whose tank cannot be built leaves the heater placed but not set.
    #[verifier::rlimit(40)]
    pub fn init_typed(&mut self, c: &GasWaterHeaterConfig, mains_temp_c: Double) -> (r: Result<()>)
        requires
            old(self).ports@.len() == 5,
        ensures
            c.fault() is Some ==> r == Err::<(), HaresError>(
                HaresError::Equipment(c.fault()->0),
            ) && *final(self) == *old(self),
            c.fault() is None ==> GasWH::placed(old(self), final(self), c),
            c.fault() is None && configured_tank(c).fault() is Some ==> {
                &&& r == Err::<(), HaresError>(HaresError::Equipment(configured_tank(c).fault()->0))
                &&& final(self).descriptor.fuel == old(self).descriptor.fuel
                &&& final(self).descriptor.telemetry_fields
                    == old(self).descriptor.telemetry_fields
                &&& final(self).tank == old(self).tank
                &&& final(self).state == (GasState {
                    loop_id: match c.loop_id {
                        Some(id) => id,
                        None => old(self).state.loop_id,
                    },
                    burner_node: typed_burner_node(typed_node_count(c.tank_nodes)),
                    ..old(self).state
                })
            },
            c.fault() is None && configured_tank(c).fault() is None ==> {
                &&& r == Ok::<(), HaresError>(())
                &&& final(self).wf()
                &&& final(self).descriptor.fuel == c.fuel_type
                &&& final(self).descriptor.telemetry_fields@ == telemetry_fields(
                    typed_node_count(c.tank_nodes) as nat,
                )
                &&& final(self).tank@ == configured_tank(c).model()
                &&& final(self).state == old(self).state.configured(c, mains_temp_c)
            },
    {
        c.validate()?;
        self.place(c);
        let n_nodes: usize = typed_node_count(c.tank_nodes);
        let burner_node: usize = typed_burner_node(n_nodes);
        let tank: StratifiedTank = build_typed_tank(
            c.tank_nodes,
            c.tank_volume_m3,
            c.tank_height_m,
            c.ua_w_per_k,
            c.jacket_r_value_m2_k_w,
            or_default(c.initial_tank_temp_c, or_default(c.setpoint_c, default_setpoint_c())),
            [None, Some(burner_node)],
        )?;
        self.tank = tank;
        let (efficiency, source) = resolve_efficiency(c);
        let electronic: bool = is_text(&c.ignition_type, "ElectronicIgnition") || is_text(
            &c.ignition_type,
            "electronic",
        ) || is_text(&c.ignition_type, "electronic ignition");
        self.state = GasState {
            burner_node,
            burner_input_w: or_default(c.heating_capacity_w, default_burner_input_w()).max(
                Double::zero(),
            ),
            pilot_power_w: or_default(
                c.pilot_power_w,
                if electronic {
                    Double::zero()
                } else {
                    default_pilot_power_w()
                },
            ).max(Double::zero()),
            fan_power_w: or_default(c.fan_power_w, Double::zero()),
            setpoint_c: or_default(c.setpoint_c, default_setpoint_c()),
            deadband_c: or_default(c.deadband_c, default_deadband_c()),
            duty_cycle: Double::one(),
            mode_override: None,
            burner_on: false,
            loop_id: self.state.loop_id,
            mains_temp_c,
            draw_flow_rate_kg_s: or_default(c.draw_flow_rate_kg_s, Double::zero()),
            draw_source: c.draw_flow_rate_source,
            mains_temp_c_source: c.mains_temp_c_source,
            flue_loss_fraction: or_default(c.flue_loss_fraction, default_flue_loss_fraction()),
            burner_efficiency_constant: efficiency,
            burner_efficiency_poly: None,
            fuel_type: c.fuel_type,
            skin_loss_fraction: or_default(
                c.skin_loss_fraction,
                default_skin_loss_fraction(efficiency),
            ),
            max_tank_temp_c: or_default(c.max_tank_temp_c, default_max_tank_temp_c()),
            pilot_fraction_to_tank: or_default(
                c.pilot_fraction_to_tank,
                default_pilot_fraction_to_tank(),
            ),
            dr: DemandResponse::normal(),
            ctrl_load_fraction: Double::one(),
            zip: fan_zip(),
            fixture_delivery_temp_c: or_default(
                c.fixture_delivery_temp_c,
                default_fixture_temp_c(),
            ),
            hot_draw_temp_c: c.hot_draw_temp_c,
            zone_id_explicit: self.state.zone_id_explicit,
            telemetry: GasTelemetry {
                burner_efficiency: efficiency,
                burner_efficiency_source: source,
                ..GasTelemetry::empty()
            },
            core_output: CoreOutput::empty(),
        };
        self.descriptor.fuel = c.fuel_type;
        self.descriptor.telemetry_fields = build_telemetry_fields(n_nodes);
        Ok(())
    }
}

/// The default settings.
#[verifier::allow_in_spec]
pub fn initial_state(burner_node: usize, loop_id: u16, zone_id_explicit: bool) -> GasState
    returns
        (GasState {
            burner_node,
            burner_input_w: default_burner_input_w(),
            pilot_power_w: Double::zero(),
            fan_power_w: Double::zero(),
            setpoint_c: default_setpoint_c(),
            deadband_c: default_deadband_c(),
            duty_cycle: Double::one(),
            mode_override: None,
            burner_on: false,
            loop_id,
            mains_temp_c: Double::whole(10),
            draw_flow_rate_kg_s: Double::zero(),
            draw_source: None,
            mains_temp_c_source: None,
            flue_loss_fraction: default_flue_loss_fraction(),
            burner_efficiency_constant: default_burner_efficiency(),
            burner_efficiency_poly: None,
            fuel_type: FuelType::Gas,
            skin_loss_fraction: default_skin_loss_fraction(default_burner_efficiency()),
            max_tank_temp_c: default_max_tank_temp_c(),
            pilot_fraction_to_tank: default_pilot_fraction_to_tank(),
            dr: DemandResponse::normal(),
            ctrl_load_fraction: Double::one(),
            zip: WaterHeaterZip::constant_power(),
            fixture_delivery_temp_c: default_fixture_temp_c(),
            hot_draw_temp_c: None,
            zone_id_explicit,
            telemetry: GasTelemetry::empty(),
            core_output: CoreOutput::empty(),
        }),
{
    GasState {
        burner_node,
        burner_input_w: default_burner_input_w(),
        pilot_power_w: Double::zero(),
        fan_power_w: Double::zero(),
        setpoint_c: default_setpoint_c(),
        deadband_c: default_deadband_c(),
        duty_cycle: Double::one(),
        mode_override: None,
        burner_on: false,
        loop_id,
        mains_temp_c: Double::whole(10),
        draw_flow_rate_kg_s: Double::zero(),
        draw_source: None,
        mains_temp_c_source: None,
        flue_loss_fraction: default_flue_loss_fraction(),
        burner_efficiency_constant: default_burner_efficiency(),
        burner_efficiency_poly: None,
        fuel_type: FuelType::Gas,
        skin_loss_fraction: default_skin_loss_fraction(default_burner_efficiency()),
        max_tank_temp_c: default_max_tank_temp_c(),
        pilot_fraction_to_tank: default_pilot_fraction_to_tank(),
        dr: DemandResponse::normal(),
        ctrl_load_fraction: Double::one(),
        zip: WaterHeaterZip::constant_power(),
        fixture_delivery_temp_c: default_fixture_temp_c(),
        hot_draw_temp_c: None,
        zone_id_explicit,
        telemetry: GasTelemetry::empty(),
        core_output: CoreOutput::empty(),
    }
}

/// The heat injected in a step: that of the burner, then that of the pilot.
pub open spec fn injections(node: usize, firing: GasFiring) -> Seq<(usize, Double)> {
    (if firing.tank_heat_w.gt(Double::zero()) {
        seq![(node, firing.tank_heat_w)]
    } else {
        Seq::empty()
    }) + (if firing.pilot_heat_to_water_w.gt(Double::zero()) {
        seq![(node, firing.pilot_heat_to_water_w)]
    } else {
        Seq::empty()
    })
}

impl GasWH {
    /// Where the heat goes in a step.
    pub open spec fn step_firing(&self, env: &EnvironmentState, outside: GasOutside) -> GasFiring {
        self.state.firing(
            self.state.duty(env.time_res.is_coarse(), outside.ideal_capacity_w),
        )
    }

    /// The mains temperature, the scheduled draw and the appliances' demand of a step.
    pub open spec fn step_flows(
        &self,
        env: &EnvironmentState,
        fluid: Seq<FluidAccumulator>,
        readings: ScheduleReadings,
    ) -> (Double, Double, Double) {
        let (mains_temp_c, draw_kg_s) = crate::shared::storage_step_inputs(
            env,
            self.state.mains_temp_c,
            self.state.draw_flow_rate_kg_s,
            readings,
        );
        (mains_temp_c, draw_kg_s, crate::shared::dhw_demand(fluid))
    }

    /// The tank after a step, and the draw.
    pub open spec fn step_tank(
        &self,
        env: &EnvironmentState,
        outside: GasOutside,
        fluid: Seq<FluidAccumulator>,
        readings: ScheduleReadings,
        dt: Duration,
    ) -> (crate::tank::TankModel, Result<DrawResult>) {
        let (mains_temp_c, draw_kg_s, demand_kg_s) = self.step_flows(env, fluid, readings);
        self.tank@.stepped_tempered(
            crate::shared::ambient(env, self.descriptor.zone),
            draw_kg_s.over(outside.water_density_kg_m3),
            demand_kg_s.over(outside.water_density_kg_m3),
            mains_temp_c,
            injections(self.state.burner_node, self.step_firing(env, outside)),
            self.state.tmv(),
            dt.as_secs(),
        )
    }

    /// What a step with a draw comes to.
    pub open spec fn step_figures(
        &self,
        env: &EnvironmentState,
        mode: OperatingMode,
        outside: GasOutside,
        fluid: Seq<FluidAccumulator>,
        readings: ScheduleReadings,
        draw: DrawResult,
    ) -> GasFigures {
        let firing = self.step_firing(env, outside);
        let (mains_temp_c, draw_kg_s, demand_kg_s) = self.step_flows(env, fluid, readings);
        let average = crate::shared::weighted_average(
            self.tank@.node_temps_c,
            self.tank@.node_volumes_m3,
        );
        let standby_loss_w = self.tank@.ua_w_per_k.times(
            average.minus(crate::shared::ambient(env, self.descriptor.zone)).max(Double::zero()),
        );
        let (fan_electric_w, fan_reactive_kvar) = self.state.zip.apply(
            if self.state.burner_on {
                self.state.fan_power_w
            } else {
                Double::zero()
            },
            env.voltage_pu,
        );
        GasFigures {
            mode,
            firing,
            fuel_input_w: firing.burner_input_w.plus(self.state.pilot_power_w),
            fan_electric_w,
            fan_reactive_kvar,
            skin_loss_to_zone_w: standby_loss_w.times(self.state.skin_loss_fraction).plus(
                firing.pilot_heat_to_ambient_w,
            ),
            total_draw_kg_s: draw_kg_s.plus(demand_kg_s),
            mains_temp_c,
            draw,
        }
    }

    /// What a step gives to the ports: fuel, fan power, hot water, and the losses that
    /// enter the zone. Nothing is given where there is nothing to give.
    pub open spec fn step_contributions(&self, f: GasFigures) -> Seq<PortContribution> {
        crate::storage::when(
            f.fuel_input_w.gt(Double::zero()),
            PortContribution::Fuel {
                fuel_type: self.state.fuel_type,
                consumption_w: f.fuel_input_w,
            },
        ) + crate::storage::when(
            f.fan_electric_w.gt(Double::zero()),
            PortContribution::Electrical {
                active_power: ActivePower::Watts(f.fan_electric_w),
                reactive_power_kvar: f.fan_reactive_kvar,
            },
        ) + crate::storage::when(
            f.total_draw_kg_s.gt(Double::zero()),
            PortContribution::Fluid {
                loop_id: self.state.loop_id,
                flow_rate_kg_s: f.total_draw_kg_s,
                supply_temp_c: f.draw.outlet_temp_c,
                return_temp_c: f.mains_temp_c,
            },
        ) + crate::storage::when(
            self.descriptor.zone is Some && f.skin_loss_to_zone_w.gt(Double::zero()),
            PortContribution::Thermal {
                zone: self.descriptor.zone->0,
                sensible_gain_w: f.skin_loss_to_zone_w,
                latent_gain_w: Double::zero(),
                category: ThermalCategory::JacketLoss,
            },
        )
    }

    /// Decide whether the burner fires in this step.
    pub fn update_control(&mut self, env: &EnvironmentState) -> (mode: OperatingMode)
        requires
            old(self).wf(),
            env.time_res.wf(),
        ensures
            final(self).wf(),
            final(self).state == old(self).state.controlled(
                env.time_res.length_s(),
                crate::shared::overheated(
                    old(self).tank@.node_temps_c,
                    old(self).state.max_tank_temp_c,
                ),
                old(self).tank@.node_temps_c[old(self).state.burner_node as int],
            ),
            mode == final(self).state.mode(),
            final(self).descriptor == old(self).descriptor,
            final(self).ports == old(self).ports,
            final(self).tank == old(self).tank,
    {
        let overheated: bool = is_overheated(&self.tank, self.state.max_tank_temp_c);
        let burner_temp_c: Double = self.tank.node_temps()[self.state.burner_node];
        self.state = self.state.controlled(env.time_res.length_s(), overheated, burner_temp_c);
        self.state.mode()
    }

    /// Advance the heater by one step, after [`GasWH::update_control`] has given its
    /// `mode`. What the step gives to the ports comes back with its figures, which
    /// [`GasWH::finish_step`] records once the ports have taken it.
    pub fn step(
        &mut self,
        env: &EnvironmentState,
        mode: OperatingMode,
        outside: GasOutside,
        fluid: &[FluidAccumulator],
        readings: ScheduleReadings,
        dt: Duration,
    ) -> (r: Result<GasStep>)
        requires
            old(self).wf(),
            env.time_res.wf(),
        ensures
            final(self).wf(),
            final(self).tank@ == old(self).step_tank(env, outside, fluid@, readings, dt).0,
            match old(self).step_tank(env, outside, fluid@, readings, dt).1 {
                Ok(draw) => {
                    let figures = old(self).step_figures(env, mode, outside, fluid@, readings, draw);
                    r is Ok && r->Ok_0.figures == figures && r->Ok_0.contributions@ == old(
                        self,
                    ).step_contributions(figures)
                },
                Err(error) => r is Err && r->Err_0 == error,
            },
            final(self).state == old(self).state,
            final(self).descriptor == old(self).descriptor,
            final(self).ports == old(self).ports,
    {
        let ambient_c: Double = ambient_temp_c(env, self.descriptor.zone);
        let duty: Double = self.state.duty(env.time_res.is_coarse(), outside.ideal_capacity_w);
        let firing: GasFiring = self.state.firing(duty);
        let mut heat: Vec<(usize, Double)> = Vec::new();
        if firing.tank_heat_w.gt(Double::zero()) {
            heat.push((self.state.burner_node, firing.tank_heat_w));
        }
        if firing.pilot_heat_to_water_w.gt(Double::zero()) {
            heat.push((self.state.burner_node, firing.pilot_heat_to_water_w));
        }
        assert(heat@ =~= injections(self.state.burner_node, firing));
        let average: Double = weighted_average_tank_temp(
            self.tank.node_temps(),
            self.tank.node_volumes_m3(),
        );
        let standby_loss_w: Double = self.tank.ua_w_per_k().times(
            average.minus(ambient_c).max(Double::zero()),
        );
        let skin_loss_to_zone_w: Double = standby_loss_w.times(self.state.skin_loss_fraction).plus(
            firing.pilot_heat_to_ambient_w,
        );
        let (mains_temp_c, draw_kg_s) = resolve_storage_step_inputs(
            env,
            self.state.mains_temp_c,
            self.state.draw_flow_rate_kg_s,
            readings,
        );
        let demand_kg_s: Double = read_dhw_demand_kg_s(fluid);
        let total_draw_kg_s: Double = draw_kg_s.plus(demand_kg_s);
        let draw: DrawResult = self.tank.step_tempered(
            ambient_c,
            draw_kg_s.over(outside.water_density_kg_m3),
            demand_kg_s.over(outside.water_density_kg_m3),
            mains_temp_c,
            heat.as_slice(),
            self.state.tmv(),
            dt,
        )?;
        let fuel_input_w: Double = firing.burner_input_w.plus(self.state.pilot_power_w);
        let rated_fan_w: Double = if self.state.burner_on {
            self.state.fan_power_w
        } else {
            Double::zero()
        };
        let (fan_electric_w, fan_reactive_kvar) = self.state.zip.apply(
            rated_fan_w,
            env.voltage_pu,
        );
        let figures = GasFigures {
            mode,
            firing,
            fuel_input_w,
            fan_electric_w,
            fan_reactive_kvar,
            skin_loss_to_zone_w,
            total_draw_kg_s,
            mains_temp_c,
            draw,
        };
        let mut contributions: Vec<PortContribution> = Vec::new();
        push_when(
            &mut contributions,
            fuel_input_w.gt(Double::zero()),
            PortContribution::Fuel {
                fuel_type: self.state.fuel_type,
                consumption_w: fuel_input_w,
            },
        );
        push_when(
            &mut contributions,
            fan_electric_w.gt(Double::zero()),
            PortContribution::Electrical {
                active_power: ActivePower::Watts(fan_electric_w),
                reactive_power_kvar: fan_reactive_kvar,
            },
        );
        push_when(
            &mut contributions,
            total_draw_kg_s.gt(Double::zero()),
            PortContribution::Fluid {
                loop_id: self.state.loop_id,
                flow_rate_kg_s: total_draw_kg_s,
                supply_temp_c: draw.outlet_temp_c,
                return_temp_c: mains_temp_c,
            },
        );
        if let Some(zone) = self.descriptor.zone {
            push_when(
                &mut contributions,
                skin_loss_to_zone_w.gt(Double::zero()),
                PortContribution::Thermal {
                    zone,
                    sensible_gain_w: skin_loss_to_zone_w,
                    latent_gain_w: Double::zero(),
                    category: ThermalCategory::JacketLoss,
                },
            );
        }
        assert(contributions@ =~= old(self).step_contributions(figures));
        Ok(GasStep { figures, contributions })
    }

    /// Record the figures of a step, and end what a controller asked for one step.
    pub fn finish_step(&mut self, figures: GasFigures)
        requires
            old(self).wf(),
        ensures
            final(self).wf(),
            final(self).state == old(self).state.finished(
                figures,
                crate::shared::weighted_average(
                    old(self).tank@.node_temps_c,
                    old(self).tank@.node_volumes_m3,
                ),
            ),
            final(self).descriptor == old(self).descriptor,
            final(self).ports == old(self).ports,
            final(self).tank == old(self).tank,
    {
        let average: Double = weighted_average_tank_temp(
            self.tank.node_temps(),
            self.tank.node_volumes_m3(),
        );
        self.state = self.state.finished(figures, average);
    }

    /// Obey a control signal.
    pub fn apply_control(&mut self, signal: ControlSignal) -> (r: Result<()>)
        ensures
            final(self).state == old(self).state.applied(signal).0,
            r == (match old(self).state.applied(signal).1 {
                Some(fault) => Err(HaresError::Control(fault)),
                None => Ok::<(), HaresError>(()),
            }),
            final(self).descriptor == old(self).descriptor,
            final(self).ports == old(self).ports,
            final(self).tank == old(self).tank,
    {
        match signal {
            ControlSignal::ThermalSetpoint { heating_setpoint_c, cooling_setpoint_c, deadband_c } => {
                let setpoint: Option<Double> = match heating_setpoint_c {
                    Some(sp) => Some(sp),
                    None => cooling_setpoint_c,
                };
                if let Some(sp) = setpoint {
                    if !sp.is_finite() {
                        return Err(HaresError::Control(ControlFault::Setpoint { value: sp }));
                    }
                    self.state.setpoint_c = sp;
                }
                if let Some(db) = deadband_c {
                    if !db.is_finite() || db.lt(Double::zero()) {
                        return Err(HaresError::Control(ControlFault::Deadband { value: db }));
                    }
                    self.state.deadband_c = db;
                }
            },
            ControlSignal::DutyCycle { on_fraction, component } => {
                if !on_fraction.is_finite() || !(Double::zero().le(on_fraction) && on_fraction.le(
                    Double::one(),
                )) {
                    return Err(
                        HaresError::Control(
                            ControlFault::DutyCycle { equipment: "GasWH", value: on_fraction },
                        ),
                    );
                }
                self.state.duty_cycle = on_fraction;
            },
            ControlSignal::ModeOverride { mode } => {
                self.state.mode_override = Some(mode);
            },
            ControlSignal::LoadFraction { fraction } => {
                self.state.ctrl_load_fraction = fraction.clamp(Double::zero(), Double::one());
            },
            ControlSignal::PowerLimit { max_power_kw } => {
                if self.state.burner_input_w.gt(Double::zero()) {
                    let max_fraction: Double = power_kw_to_w(max_power_kw).over(
                        self.state.burner_input_w,
                    ).clamp(Double::zero(), Double::one());
                    self.state.ctrl_load_fraction = self.state.ctrl_load_fraction.min(max_fraction);
                }
            },
            ControlSignal::DemandResponse { level, duration_s } => {
                self.state.dr = DemandResponse::at(level, duration_s);
            },
            ControlSignal::Other => {},
        }
        Ok(())
    }

    /// `saved` holds what a heater with this state and tank saves.
    pub open spec fn saved_as(&self, saved: GasWhState) -> bool {
        &&& saved.setpoint_c == self.state.setpoint_c
        &&& saved.deadband_c == self.state.deadband_c
        &&& saved.burner_on == self.state.burner_on
        &&& saved.duty_cycle == self.state.duty_cycle
        &&& saved.mode_override == self.state.mode_override
        &&& saved.tank_state.node_temps_c@ == self.tank@.node_temps_c
        &&& saved.tank_avg_temp_c == self.state.telemetry.tank_avg_temp_c
        &&& saved.burner_power_w == self.state.telemetry.burner_power_w
        &&& saved.pilot_power_w == self.state.telemetry.pilot_power_w
        &&& saved.fuel_input_w == self.state.telemetry.fuel_input_w
        &&& saved.flue_loss_w == self.state.telemetry.flue_loss_w
        &&& saved.fan_electric_w == self.state.telemetry.fan_electric_w
        &&& saved.draw_flow_rate_kg_s == self.state.telemetry.draw_flow_rate_kg_s
        &&& saved.pilot_fraction_to_tank == self.state.pilot_fraction_to_tank
        &&& saved.dr == self.state.dr
    }

    pub fn save_state(&self) -> (saved: GasWhState)
        ensures
            self.saved_as(saved),
    {
        GasWhState {
            setpoint_c: self.state.setpoint_c,
            deadband_c: self.state.deadband_c,
            burner_on: self.state.burner_on,
            duty_cycle: self.state.duty_cycle,
            mode_override: self.state.mode_override,
            tank_state: self.tank.save_state(),
            tank_avg_temp_c: self.state.telemetry.tank_avg_temp_c,
            burner_power_w: self.state.telemetry.burner_power_w,
            pilot_power_w: self.state.telemetry.pilot_power_w,
            fuel_input_w: self.state.telemetry.fuel_input_w,
            flue_loss_w: self.state.telemetry.flue_loss_w,
            fan_electric_w: self.state.telemetry.fan_electric_w,
            draw_flow_rate_kg_s: self.state.telemetry.draw_flow_rate_kg_s,
            pilot_fraction_to_tank: self.state.pilot_fraction_to_tank,
            dr: self.state.dr,
        }
    }

    /// Take over a saved state. If its tank does not fit, the control settings are taken
    /// over and the rest stays as it was.
    pub fn load_state(&mut self, saved: GasWhState) -> (r: Result<()>)
        requires
            old(self).wf(),
        ensures
            final(self).wf(),
            r == crate::tank::load_outcome(old(self).tank@, saved.tank_state.node_temps_c@),
            r is Err ==> final(self).state == old(self).state.with_saved_control(saved)
                && final(self).tank@ == old(self).tank@,
            r is Ok ==> final(self).state == old(self).state.with_saved(saved)
                && final(self).tank@ == old(self).tank@.with_temps(
                saved.tank_state.node_temps_c@,
            ),
            final(self).descriptor == old(self).descriptor,
            final(self).ports == old(self).ports,
    {
        self.state.setpoint_c = saved.setpoint_c;
        self.state.deadband_c = saved.deadband_c;
        self.state.burner_on = saved.burner_on;
        self.state.duty_cycle = saved.duty_cycle;
        self.state.mode_override = saved.mode_override;
        self.state.dr = saved.dr;
        self.tank.load_state(saved.tank_state)?;
        self.state.pilot_fraction_to_tank = saved.pilot_fraction_to_tank;
        self.state.telemetry = GasTelemetry {
            tank_avg_temp_c: saved.tank_avg_temp_c,
            burner_power_w: saved.burner_power_w,
            pilot_power_w: saved.pilot_power_w,
            fuel_input_w: saved.fuel_input_w,
            pilot_kw: power_w_to_kw(saved.pilot_power_w),
            fuel_input_kw: power_w_to_kw(saved.fuel_input_w),
            flue_loss_w: saved.flue_loss_w,
            fan_electric_w: saved.fan_electric_w,
            draw_flow_rate_kg_s: saved.draw_flow_rate_kg_s,
            operating_mode: if saved.burner_on {
                Double::one()
            } else {
                Double::zero()
            },
            pilot_heat_to_water_w: Double::zero(),
            pilot_heat_to_ambient_w: Double::zero(),
            ..self.state.telemetry
        };
        self.state.core_output = CoreOutput::empty();
        Ok(())
    }
}

impl GasState {
    /// The state with the control settings of a saved one.
    pub open spec fn with_saved_control(self, saved: GasWhState) -> GasState {
        GasState {
            setpoint_c: saved.setpoint_c,
            deadband_c: saved.deadband_c,
            burner_on: saved.burner_on,
            duty_cycle: saved.duty_cycle,
            mode_override: saved.mode_override,
            dr: saved.dr,
            ..self
        }
    }

    /// The state with all of a saved one.
    pub open spec fn with_saved(self, saved: GasWhState) -> GasState {
        GasState {
            pilot_fraction_to_tank: saved.pilot_fraction_to_tank,
            telemetry: GasTelemetry {
                tank_avg_temp_c: saved.tank_avg_temp_c,
                burner_power_w: saved.burner_power_w,
                pilot_power_w: saved.pilot_power_w,
                fuel_input_w: saved.fuel_input_w,
                pilot_kw: power_w_to_kw(saved.pilot_power_w),
                fuel_input_kw: power_w_to_kw(saved.fuel_input_w),
                flue_loss_w: saved.flue_loss_w,
                fan_electric_w: saved.fan_electric_w,
                draw_flow_rate_kg_s: saved.draw_flow_rate_kg_s,
                operating_mode: if saved.burner_on {
                    Double::one()
                } else {
                    Double::zero()
                },
                pilot_heat_to_water_w: Double::zero(),
                pilot_heat_to_ambient_w: Double::zero(),
                ..self.telemetry
            },
            core_output: CoreOutput::empty(),
            ..self.with_saved_control(saved)
        }
    }
}

/// Let the names of this heater stand for it.
pub fn register_with_registry(registry: &mut EquipmentRegistry)
    ensures
        final(registry)@ == old(registry)@.insert(
            "Gas Water Heater"@,
            Registration::Heater(HeaterKind::Gas),
        ),
{
    registry.register("Gas Water Heater", HeaterKind::Gas);
}

} // verus!
