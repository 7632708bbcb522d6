//! Indirect tank: a storage tank that a boiler heats.
//!
//! The tank has no heat source of its own. A coil in it takes heat from the water of the
//! boiler loop, which goes back cooler.
use vstd::prelude::*;

use crate::config::{copied_text, parse_usize, EquipmentConfig};
use crate::defaults::default_tank;
use crate::double::Double;
use crate::error::{ControlFault, HaresError, Result};
use crate::registry::{EquipmentRegistry, HeaterKind, Registration};
use crate::shared::{
    ambient_temp_c, default_deadband_c, default_fixture_temp_c, default_max_tank_temp_c,
    default_setpoint_c, find_loop, hysteresis_call, is_overheated, or_default,
    read_dhw_demand_kg_s, resolve_storage_step_inputs, weighted_average_tank_temp,
    DemandResponse, ScheduleReadings, DHW_DEMAND_LOOP,
};
use crate::storage::{build_typed_tank, node_count, push_when, typed_node_count};
use crate::tank::{DrawResult, StratifiedTank, StratifiedTankState, TemperedDrawConfig};
use crate::time::Duration;
use crate::types::{
    push_node_fields, ControlCapabilities, ControlSignal, CoreCapabilities, CoreOutput,
    EnvironmentState, EquipmentDescriptor, FluidAccumulator, FuelType, OperatingMode,
    PortContribution, PortDeclaration, ScheduleSource, TelemetryField, TelemetryKey,
};
use crate::wh_config::IndirectTankConfig;
use crate::zip::WaterHeaterZip;

verus! {

/// The default conductance of the coil [W/K]: copper, in a tank of 50 gallons.
#[verifier::allow_in_spec]
pub fn default_hx_ua_w_per_k() -> Double
    returns
        Double::whole(150),
{
    Double::whole(150)
}

/// The flow of the boiler loop [kg/s] where it is not known: a low one, which gives a
/// large drop in temperature.
#[verifier::allow_in_spec]
pub fn default_boiler_loop_flow_rate_kg_s() -> Double
    returns
        Double::ratio(1, 10),
{
    Double::ratio(1, 10)
}

/// The figures that the tank records.
#[derive(Debug, Clone, Copy, PartialEq, Eq, Structural)]
pub struct IndirectTelemetry {
    pub tank_avg_temp_c: Double,
    pub electric_kw: Double,
    /// The heat that the coil transfers [W].
    pub electric_power_w: Double,
    pub draw_flow_rate_kg_s: Double,
    pub unmet_load_w: Double,
    pub outlet_temp_c: Double,
    pub operating_mode: Double,
}

impl IndirectTelemetry {
    /// Nothing recorded yet.
    #[verifier::allow_in_spec]
    pub fn empty() -> IndirectTelemetry
        returns
            (
            IndirectTelemetry {
                tank_avg_temp_c: Double::zero(),
                electric_kw: Double::zero(),
                electric_power_w: Double::zero(),
                draw_flow_rate_kg_s: Double::zero(),
                unmet_load_w: Double::zero(),
                outlet_temp_c: Double::zero(),
                operating_mode: Double::zero(),
            }
            ),
    {
        IndirectTelemetry {
            tank_avg_temp_c: Double::zero(),
            electric_kw: Double::zero(),
            electric_power_w: Double::zero(),
            draw_flow_rate_kg_s: Double::zero(),
            unmet_load_w: Double::zero(),
            outlet_temp_c: Double::zero(),
            operating_mode: Double::zero(),
        }
    }
}

/// The settings of the tank, and what it is doing.
#[derive(Debug, Clone, Copy, PartialEq, Eq, Structural)]
pub struct IndirectState {
    pub boiler_loop_id: u16,
    pub hx_ua_w_per_k: Double,
    pub setpoint_c: Double,
    pub target_setpoint_c: Double,
    pub deadband_c: Double,
    pub max_tank_temp_c: Double,
    pub heating_on: bool,
    pub duty_cycle: Double,
    pub mode_override: Option<OperatingMode>,
    pub mains_temp_c: Double,
    pub draw_flow_rate_kg_s: Double,
    pub draw_source: Option<ScheduleSource>,
    pub mains_temp_c_source: Option<ScheduleSource>,
    pub zip: WaterHeaterZip,
    pub fixture_delivery_temp_c: Double,
    pub hot_draw_temp_c: Option<Double>,
    pub boiler_loop_flow_rate_kg_s: Double,
    pub dr: DemandResponse,
    /// Load fraction asked for by a controller; for one step only.
    pub ctrl_load_fraction: Double,
    /// Whether the zone was configured, or is the default one.
    pub zone_id_explicit: bool,
    pub telemetry: IndirectTelemetry,
    pub core_output: CoreOutput,
}

/// What only the outside can tell about a step.
#[derive(Debug, Clone, Copy, PartialEq, Eq, Structural)]
pub struct IndirectOutside {
    /// The density of water at the temperature of the top node [kg/m³].
    pub water_density_kg_m3: Double,
    /// The specific heat of the water in the boiler loop [J/(kg K)].
    pub cp_j_kg_k: Double,
}

/// What a step came to.
#[derive(Debug, Clone, Copy, PartialEq, Eq, Structural)]
pub struct IndirectFigures {
    pub mode: OperatingMode,
    pub hx_power_w: Double,
    pub boiler_supply_c: Double,
    /// The temperature of the water that goes back to the boiler.
    pub boiler_return_c: Double,
    pub total_draw_kg_s: Double,
    pub mains_temp_c: Double,
    pub draw: DrawResult,
}

/// The temperature at the thermostat and the coil: the average of the two lowest nodes,
/// or that of the top node in a tank of fewer than three.
pub open spec fn bottom_temp(temps: Seq<Double>) -> Double {
    if temps.len() >= 3 {
        temps[temps.len() - 1].plus(temps[temps.len() - 2]).times(Double::ratio(1, 2))
    } else {
        temps[0]
    }
}

/// The temperature at the thermostat and the coil.
pub fn bottom_temp_c(temps: &[Double]) -> (r: Double)
    requires
        temps@.len() > 0,
    ensures
        r == bottom_temp(temps@),
{
    if temps.len() >= 3 {
        temps[temps.len() - 1].plus(temps[temps.len() - 2]).times(Double::ratio(1, 2))
    } else {
        temps[0]
    }
}

/// The temperature of the water in the boiler loop; zero if there is no such loop.
pub open spec fn boiler_supply(fluid: Seq<FluidAccumulator>, boiler_loop_id: u16) -> Double {
    match crate::shared::loop_at(fluid, boiler_loop_id, 0) {
        Some(acc) => acc.mean_supply_temp_c,
        None => Double::zero(),
    }
}

/// The temperature of the water in the boiler loop.
pub fn read_boiler_supply_temp_c(fluid: &[FluidAccumulator], boiler_loop_id: u16) -> (r: Double)
    ensures
        r == boiler_supply(fluid@, boiler_loop_id),
{
    match find_loop(fluid, boiler_loop_id) {
        Some(acc) => acc.mean_supply_temp_c,
        None => Double::zero(),
    }
}

impl IndirectState {
    /// The setpoint with what the grid asks for.
    #[verifier::allow_in_spec]
    pub fn effective_setpoint_c(self) -> Double
        returns
            self.setpoint_c.plus(self.dr.setpoint_offset_c),
    {
        self.setpoint_c.plus(self.dr.setpoint_offset_c)
    }

    /// Whether the load is shed, switched off or cut to nothing.
    #[verifier::allow_in_spec]
    pub fn is_shed(self) -> bool
        returns
            self.dr.load_fraction.le(Double::zero()) || self.mode_override == Some(
                OperatingMode::Off,
            ) || self.duty_cycle.le(Double::zero()),
    {
        let switched_off: bool = match self.mode_override {
            Some(mode) => mode == OperatingMode::Off,
            None => false,
        };
        self.dr.load_fraction.le(Double::zero()) || switched_off || self.duty_cycle.le(
            Double::zero(),
        )
    }

    /// The state `dt_s` seconds later, after the thermostat has spoken.
    pub open spec fn spec_switched(
        self,
        dt_s: Double,
        overheated: bool,
        bottom_temp_c: Double,
    ) -> IndirectState {
        let later = IndirectState { dr: self.dr.after(dt_s), ..self };
        IndirectState {
            heating_on: !overheated && !later.is_shed() && hysteresis_call(
                bottom_temp_c,
                later.effective_setpoint_c(),
                self.deadband_c,
                self.heating_on,
            ),
            ..later
        }
    }

    #[verifier::when_used_as_spec(spec_switched)]
    pub fn switched(self, dt_s: Double, overheated: bool, bottom_temp_c: Double) -> (r:
        IndirectState)
        ensures
            r == self.switched(dt_s, overheated, bottom_temp_c),
    {
        let later = IndirectState { dr: self.dr.after(dt_s), ..self };
        if overheated || later.is_shed() {
            return IndirectState { heating_on: false, ..later };
        }
        IndirectState {
            heating_on: hysteresis_call(
                bottom_temp_c,
                later.effective_setpoint_c(),
                self.deadband_c,
                self.heating_on,
            ),
            ..later
        }
    }

    /// What the tank is doing.
    #[verifier::allow_in_spec]
    pub fn mode(self) -> OperatingMode
        returns
            (if self.heating_on {
                OperatingMode::Heating
            } else {
                OperatingMode::Off
            }),
    {
        if self.heating_on {
            OperatingMode::Heating
        } else {
            OperatingMode::Off
        }
    }

    /// The heat that the coil transfers [W]: none unless the boiler water is warmer than
    /// the tank by more than half a degree.
    pub open spec fn spec_hx_power(self, boiler_supply_c: Double, bottom_temp_c: Double) -> Double {
        let delta_t = boiler_supply_c.minus(bottom_temp_c).max(Double::zero());
        if self.heating_on && delta_t.gt(Double::ratio(1, 2)) {
            self.hx_ua_w_per_k.times(delta_t).times(self.duty_cycle).times(
                self.dr.load_fraction,
            ).times(self.ctrl_load_fraction)
        } else {
            Double::zero()
        }
    }

    #[verifier::when_used_as_spec(spec_hx_power)]
    pub fn hx_power(self, boiler_supply_c: Double, bottom_temp_c: Double) -> (r: Double)
        ensures
            r == self.hx_power(boiler_supply_c, bottom_temp_c),
    {
        let delta_t: Double = boiler_supply_c.minus(bottom_temp_c).max(Double::zero());
        if self.heating_on && delta_t.gt(Double::ratio(1, 2)) {
            self.hx_ua_w_per_k.times(delta_t).times(self.duty_cycle).times(
                self.dr.load_fraction,
            ).times(self.ctrl_load_fraction)
        } else {
            Double::zero()
        }
    }

    /// The temperature of the water that goes back to the boiler: lower than it came by
    /// the energy that the coil took from it, but neither below freezing nor above what
    /// it came with.
    #[verifier::allow_in_spec]
    pub fn boiler_return_c(
        self,
        boiler_supply_c: Double,
        hx_power_w: Double,
        cp_j_kg_k: Double,
        dt_s: Double,
    ) -> Double
        returns
            boiler_supply_c.minus(
                hx_power_w.times(dt_s).over(
                    self.boiler_loop_flow_rate_kg_s.times(cp_j_kg_k).times(
                        dt_s.max(Double::ratio(1, 1_000_000)),
                    ),
                ),
            ).max(Double::zero()).min(boiler_supply_c),
    {
        boiler_supply_c.minus(
            hx_power_w.times(dt_s).over(
                self.boiler_loop_flow_rate_kg_s.times(cp_j_kg_k).times(
                    dt_s.max(Double::ratio(1, 1_000_000)),
                ),
            ),
        ).max(Double::zero()).min(boiler_supply_c)
    }

    /// The mixing valve.
    #[verifier::allow_in_spec]
    pub fn tmv(self) -> TemperedDrawConfig
        returns
            (TemperedDrawConfig {
                tempered_draw_temp_c: self.fixture_delivery_temp_c,
                hot_draw_temp_c: or_default(self.hot_draw_temp_c, self.setpoint_c),
                setpoint_temp_c: self.setpoint_c,
            }),
    {
        TemperedDrawConfig {
            tempered_draw_temp_c: self.fixture_delivery_temp_c,
            hot_draw_temp_c: or_default(self.hot_draw_temp_c, self.setpoint_c),
            setpoint_temp_c: self.setpoint_c,
        }
    }

    pub open spec fn spec_finished(self, f: IndirectFigures, tank_avg_temp_c: Double) -> IndirectState {
        IndirectState {
            ctrl_load_fraction: Double::one(),
            telemetry: IndirectTelemetry {
                tank_avg_temp_c,
                electric_kw: Double::zero(),
                electric_power_w: f.hx_power_w,
                draw_flow_rate_kg_s: f.total_draw_kg_s,
                unmet_load_w: f.draw.unmet_load_w,
                outlet_temp_c: f.draw.outlet_temp_c,
                operating_mode: if f.mode == OperatingMode::Heating {
                    Double::one()
                } else {
                    Double::zero()
                },
            },
            core_output: CoreOutput {
                electric_kw: None,
                reactive_power_kvar: None,
                fuel: None,
                thermal_output_w: Some(f.hx_power_w.max(Double::zero())),
                operating_mode: Some(f.mode),
            },
            ..self
        }
    }

    /// The state after a step has been reported: its figures are recorded, and what a
    /// controller asked for one step is over.
    #[verifier::when_used_as_spec(spec_finished)]
    pub fn finished(self, f: IndirectFigures, tank_avg_temp_c: Double) -> (r: IndirectState)
        ensures
            r == self.finished(f, tank_avg_temp_c),
    {
        IndirectState {
            ctrl_load_fraction: Double::one(),
            telemetry: IndirectTelemetry {
                tank_avg_temp_c,
                electric_kw: Double::zero(),
                electric_power_w: f.hx_power_w,
                draw_flow_rate_kg_s: f.total_draw_kg_s,
                unmet_load_w: f.draw.unmet_load_w,
                outlet_temp_c: f.draw.outlet_temp_c,
                operating_mode: if f.mode == OperatingMode::Heating {
                    Double::one()
                } else {
                    Double::zero()
                },
            },
            core_output: CoreOutput {
                electric_kw: None,
                reactive_power_kvar: None,
                fuel: None,
                thermal_output_w: Some(f.hx_power_w.max(Double::zero())),
                operating_mode: Some(f.mode),
            },
            ..self
        }
    }

    /// The state after a setpoint request, and the fault in it. Any setpoint is taken; a
    /// deadband must be above zero.
    pub open spec fn with_setpoint(self, setpoint: Option<Double>, deadband: Option<Double>) -> (
        IndirectState,
        Option<ControlFault>,
    ) {
        let moved = IndirectState {
            target_setpoint_c: or_default(setpoint, self.target_setpoint_c),
            setpoint_c: or_default(setpoint, self.setpoint_c),
            ..self
        };
        match deadband {
            Some(db) if !(db.is_finite() && db.gt(Double::zero())) => (
                moved,
                Some(ControlFault::Deadband { value: db }),
            ),
            Some(db) => (IndirectState { deadband_c: db, ..moved }, None),
            None => (moved, None),
        }
    }

    /// The state after a control signal, and the fault in it. Neither a cooling setpoint
    /// nor a power limit means anything to the tank.
    pub open spec fn applied(self, signal: ControlSignal) -> (IndirectState, Option<ControlFault>) {
        match signal {
            ControlSignal::ThermalSetpoint { heating_setpoint_c, cooling_setpoint_c, deadband_c } =>
                self.with_setpoint(heating_setpoint_c, deadband_c),
            ControlSignal::DutyCycle { on_fraction, component } => if on_fraction.is_finite()
                && Double::zero().le(on_fraction) && on_fraction.le(Double::one()) {
                (IndirectState { duty_cycle: on_fraction, ..self }, None)
            } else {
                (
                    self,
                    Some(ControlFault::DutyCycle { equipment: "IndirectTank", value: on_fraction }),
                )
            },
            ControlSignal::ModeOverride { mode } => (
                IndirectState { mode_override: Some(mode), ..self },
                None,
            ),
            ControlSignal::LoadFraction { fraction } => (
                IndirectState {
                    ctrl_load_fraction: fraction.clamp(Double::zero(), Double::one()),
                    ..self
                },
                None,
            ),
            ControlSignal::PowerLimit { max_power_kw } => (self, None),
            ControlSignal::DemandResponse { level, duration_s } => (
                IndirectState { dr: DemandResponse::at(level, duration_s), ..self },
                None,
            ),
            ControlSignal::Other => (self, None),
        }
    }

    /// The settings of a configuration, in operation for the first time.
    pub open spec fn configured(self, c: &IndirectTankConfig, mains_temp_c: Double) -> IndirectState {
        IndirectState {
            hx_ua_w_per_k: or_default(c.hx_ua_w_per_k, default_hx_ua_w_per_k()).max(Double::zero()),
            setpoint_c: or_default(c.setpoint_c, default_setpoint_c()),
            target_setpoint_c: or_default(c.setpoint_c, default_setpoint_c()),
            deadband_c: or_default(c.deadband_c, default_deadband_c()),
            max_tank_temp_c: or_default(c.max_tank_temp_c, default_max_tank_temp_c()),
            heating_on: false,
            duty_cycle: Double::one(),
            mode_override: None,
            mains_temp_c,
            draw_flow_rate_kg_s: or_default(c.draw_flow_rate_kg_s, Double::zero()),
            draw_source: c.draw_flow_rate_source,
            mains_temp_c_source: c.mains_temp_c_source,
            zip: WaterHeaterZip::constant_power(),
            fixture_delivery_temp_c: or_default(
                c.fixture_delivery_temp_c,
                default_fixture_temp_c(),
            ),
            hot_draw_temp_c: c.hot_draw_temp_c,
            boiler_loop_flow_rate_kg_s: or_default(
                c.boiler_loop_flow_rate_kg_s,
                default_boiler_loop_flow_rate_kg_s(),
            ),
            dr: DemandResponse::normal(),
            ctrl_load_fraction: Double::one(),
            telemetry: IndirectTelemetry::empty(),
            core_output: CoreOutput::empty(),
            ..self
        }
    }

    /// The state with the control settings of a saved one.
    pub open spec fn with_saved_control(self, saved: IndirectTankState) -> IndirectState {
        IndirectState {
            setpoint_c: saved.setpoint_c,
            target_setpoint_c: saved.target_setpoint_c,
            deadband_c: saved.deadband_c,
            boiler_loop_id: saved.boiler_loop_id,
            hx_ua_w_per_k: saved.hx_ua_w_per_k,
            boiler_loop_flow_rate_kg_s: saved.boiler_loop_flow_rate_kg_s,
            heating_on: saved.heating_on,
            duty_cycle: saved.duty_cycle,
            mode_override: saved.mode_override,
            ..self
        }
    }

    /// The state with all of a saved one.
    pub open spec fn with_saved(self, saved: IndirectTankState) -> IndirectState {
        IndirectState {
            draw_flow_rate_kg_s: saved.draw_flow_rate_kg_s,
            dr: saved.dr,
            telemetry: IndirectTelemetry {
                tank_avg_temp_c: saved.tank_avg_temp_c,
                electric_power_w: saved.hx_power_w,
                ..self.telemetry
            },
            core_output: CoreOutput::empty(),
            ..self.with_saved_control(saved)
        }
    }
}

/// The tank of a configuration.
pub open spec fn configured_tank(c: &IndirectTankConfig) -> crate::tank::StratifiedTankConfig {
    crate::storage::typed_tank_config(
        c.tank_nodes,
        c.tank_volume_m3,
        c.tank_height_m,
        c.ua_w_per_k,
        c.jacket_r_value_m2_k_w,
        or_default(c.initial_tank_temp_c, or_default(c.setpoint_c, default_setpoint_c())),
        [None, None],
    )
}

/// The default settings.
#[verifier::allow_in_spec]
pub fn initial_state(boiler_loop_id: u16, zone_id_explicit: bool) -> IndirectState
    returns
        (
        IndirectState {
            boiler_loop_id,
            hx_ua_w_per_k: default_hx_ua_w_per_k(),
            setpoint_c: default_setpoint_c(),
            target_setpoint_c: default_setpoint_c(),
            deadband_c: default_deadband_c(),
            max_tank_temp_c: default_max_tank_temp_c(),
            heating_on: false,
            duty_cycle: Double::one(),
            mode_override: None,
            mains_temp_c: Double::whole(10),
            draw_flow_rate_kg_s: Double::zero(),
            draw_source: None,
            mains_temp_c_source: None,
            zip: WaterHeaterZip::constant_power(),
            fixture_delivery_temp_c: default_fixture_temp_c(),
            hot_draw_temp_c: None,
            boiler_loop_flow_rate_kg_s: default_boiler_loop_flow_rate_kg_s(),
            dr: DemandResponse::normal(),
            ctrl_load_fraction: Double::one(),
            zone_id_explicit,
            telemetry: IndirectTelemetry::empty(),
            core_output: CoreOutput::empty(),
        }
        ),
{
    IndirectState {
        boiler_loop_id,
        hx_ua_w_per_k: default_hx_ua_w_per_k(),
        setpoint_c: default_setpoint_c(),
        target_setpoint_c: default_setpoint_c(),
        deadband_c: default_deadband_c(),
        max_tank_temp_c: default_max_tank_temp_c(),
        heating_on: false,
        duty_cycle: Double::one(),
        mode_override: None,
        mains_temp_c: Double::whole(10),
        draw_flow_rate_kg_s: Double::zero(),
        draw_source: None,
        mains_temp_c_source: None,
        zip: WaterHeaterZip::constant_power(),
        fixture_delivery_temp_c: default_fixture_temp_c(),
        hot_draw_temp_c: None,
        boiler_loop_flow_rate_kg_s: default_boiler_loop_flow_rate_kg_s(),
        dr: DemandResponse::normal(),
        ctrl_load_fraction: Double::one(),
        zone_id_explicit,
        telemetry: IndirectTelemetry::empty(),
        core_output: CoreOutput::empty(),
    }
}

// ---------------------------------------------------------------------------
// Telemetry fields
// ---------------------------------------------------------------------------

/// The figures that this heater records, those of its tank nodes among them.
pub open spec fn telemetry_fields(n_nodes: nat) -> Seq<TelemetryField> {
    seq![
        TelemetryField {
            key: TelemetryKey::TankAvgTempC,
            unit: "C",
            description: "Volume-weighted average tank temperature",
        },
        TelemetryField {
            key: TelemetryKey::ElectricKw,
            unit: "kW",
            description: "Electric power (always 0 for indirect tank)",
        },
        TelemetryField {
            key: TelemetryKey::ElectricPowerW,
            unit: "W",
            description: "HX heat transfer power",
        },
        TelemetryField {
            key: TelemetryKey::DrawFlowRateKgS,
            unit: "kg/s",
            description: "Total DHW draw flow rate",
        },
        TelemetryField {
            key: TelemetryKey::UnmetLoadW,
            unit: "W",
            description: "Unmet DHW load",
        },
        TelemetryField {
            key: TelemetryKey::OutletTempC,
            unit: "C",
            description: "DHW outlet temperature",
        },
        TelemetryField {
            key: TelemetryKey::SkinLossW,
            unit: "W",
            description: "Tank jacket thermal loss to zone",
        },
        TelemetryField {
            key: TelemetryKey::OperatingMode,
            unit: "",
            description: "Operating mode (1=heating, 0=off)",
        },
    ] + crate::types::node_fields(n_nodes)
}

fn build_telemetry_fields(n_nodes: usize) -> (fields: Vec<TelemetryField>)
    ensures
        fields@ == telemetry_fields(n_nodes as nat),
{
    let mut fields: Vec<TelemetryField> = vec![
        TelemetryField {
            key: TelemetryKey::TankAvgTempC,
            unit: "C",
            description: "Volume-weighted average tank temperature",
        },
        TelemetryField {
            key: TelemetryKey::ElectricKw,
            unit: "kW",
            description: "Electric power (always 0 for indirect tank)",
        },
        TelemetryField {
            key: TelemetryKey::ElectricPowerW,
            unit: "W",
            description: "HX heat transfer power",
        },
        TelemetryField {
            key: TelemetryKey::DrawFlowRateKgS,
            unit: "kg/s",
            description: "Total DHW draw flow rate",
        },
        TelemetryField {
            key: TelemetryKey::UnmetLoadW,
            unit: "W",
            description: "Unmet DHW load",
        },
        TelemetryField {
            key: TelemetryKey::OutletTempC,
            unit: "C",
            description: "DHW outlet temperature",
        },
        TelemetryField {
            key: TelemetryKey::SkinLossW,
            unit: "W",
            description: "Tank jacket thermal loss to zone",
        },
        TelemetryField {
            key: TelemetryKey::OperatingMode,
            unit: "",
            description: "Operating mode (1=heating, 0=off)",
        },
    ];
    push_node_fields(&mut fields, n_nodes);
    assert(fields@ =~= telemetry_fields(n_nodes as nat));
    fields
}

// ---------------------------------------------------------------------------
// The tank
// ---------------------------------------------------------------------------

/// A storage tank that a boiler heats.
#[derive(Debug)]
pub struct IndirectTank {
    pub descriptor: EquipmentDescriptor,
    pub ports: Vec<PortDeclaration>,
    pub tank: StratifiedTank,
    pub state: IndirectState,
}

/// What a step came to, and what it gives to the ports, in order.
#[derive(Debug)]
pub struct IndirectStep {
    pub figures: IndirectFigures,
    pub contributions: Vec<PortContribution>,
}

/// What an indirect tank saves.
#[derive(Debug)]
pub struct IndirectTankState {
    pub setpoint_c: Double,
    pub target_setpoint_c: Double,
    pub deadband_c: Double,
    pub boiler_loop_id: u16,
    pub hx_ua_w_per_k: Double,
    pub boiler_loop_flow_rate_kg_s: Double,
    pub heating_on: bool,
    pub duty_cycle: Double,
    pub mode_override: Option<OperatingMode>,
    pub tank_state: StratifiedTankState,
    pub tank_avg_temp_c: Double,
    pub hx_power_w: Double,
    pub draw_flow_rate_kg_s: Double,
    pub dr: DemandResponse,
}

/// The heat injected in a step: that of the coil, in the lowest node.
pub open spec fn injections(n_nodes: nat, hx_power_w: Double) -> Seq<(usize, Double)> {
    if hx_power_w.gt(Double::zero()) {
        seq![((n_nodes - 1) as usize, hx_power_w)]
    } else {
        Seq::empty()
    }
}

impl IndirectTank {
    /// The tank is in order, and the ports are those for the boiler loop, the appliances
    /// and the zone.
    pub open spec fn wf(&self) -> bool {
        &&& self.tank@.wf()
        &&& self.ports@.len() == 3
    }

    /// A tank of default size and settings, in the configured zone and on the configured
    /// boiler loop.
    pub fn new(config: EquipmentConfig) -> (r: IndirectTank)
        ensures
            r.wf(),
            ({
                let n = node_count(parse_usize(config.value("tank_nodes"@)));
                let zone = match config.zone_id {
                    Some(id) => id,
                    None => 1u16,
                };
                let boiler_loop_id = match config.loop_id {
                    Some(id) => id,
                    None => 0u16,
                };
                &&& r.tank@ == crate::defaults::default_tank_config(n, [None, None]).model()
                &&& r.descriptor.id == (match config.equipment_id {
                    Some(id) => id,
                    None => 0u32,
                })
                &&& r.descriptor.name == config.name
                &&& r.descriptor.equipment_type == "Indirect Tank"
                &&& r.descriptor.zone == Some(zone)
                &&& r.descriptor.fuel == FuelType::Electric
                &&& r.descriptor.control_capabilities == (ControlCapabilities {
                    thermal_setpoint: true,
                    duty_cycle: true,
                    mode_override: true,
                    load_fraction: true,
                    power_limit: false,
                    demand_response: true,
                })
                &&& r.descriptor.core_capabilities == (CoreCapabilities {
                    electric: false,
                    reactive: false,
                    fuel: false,
                    thermal: true,
                    has_mode: true,
                })
                &&& r.descriptor.telemetry_fields@ == telemetry_fields(n as nat)
                &&& r.descriptor.zone_type is None
                &&& r.ports@ == seq![
                    PortDeclaration::Fluid { loop_id: boiler_loop_id },
                    PortDeclaration::Fluid { loop_id: DHW_DEMAND_LOOP },
                    PortDeclaration::Thermal { zone: Some(zone) },
                ]
                &&& r.state == initial_state(boiler_loop_id, config.zone_id is Some)
            }),
    {
        let n_nodes: usize = node_count(parse_usize(config.get_f64("tank_nodes")));
        let zone: u16 = match config.zone_id {
            Some(id) => id,
            None => 1,
        };
        let boiler_loop_id: u16 = match config.loop_id {
            Some(id) => id,
            None => 0,
        };
        let tank: StratifiedTank = default_tank(n_nodes, [None, None]);
        let descriptor = EquipmentDescriptor {
            id: match config.equipment_id {
                Some(id) => id,
                None => 0,
            },
            name: config.name,
            equipment_type: "Indirect Tank",
            zone: Some(zone),
            fuel: FuelType::Electric,
            control_capabilities: ControlCapabilities {
                thermal_setpoint: true,
                duty_cycle: true,
                mode_override: true,
                load_fraction: true,
                power_limit: false,
                demand_response: true,
            },
            core_capabilities: CoreCapabilities {
                electric: false,
                reactive: false,
                fuel: false,
                thermal: true,
                has_mode: true,
            },
            telemetry_fields: build_telemetry_fields(n_nodes),
            zone_type: None,
        };
        let ports: Vec<PortDeclaration> = vec![
            PortDeclaration::Fluid { loop_id: boiler_loop_id },
            PortDeclaration::Fluid { loop_id: DHW_DEMAND_LOOP },
            PortDeclaration::Thermal { zone: Some(zone) },
        ];
        IndirectTank {
            descriptor,
            ports,
            tank,
            state: initial_state(boiler_loop_id, config.zone_id.is_some()),
        }
    }

    /// `after` is `before` with the identity, the zone and the boiler loop of a
    /// configuration.
    pub open spec fn placed(
        before: &IndirectTank,
        after: &IndirectTank,
        c: &IndirectTankConfig,
    ) -> bool {
        let zone = if c.zone_id is Some {
            c.zone_id
        } else {
            before.descriptor.zone
        };
        &&& after.descriptor.id == (match c.equipment_id {
            Some(id) => id,
            None => before.descriptor.id,
        })
        &&& after.descriptor.name == before.descriptor.name
        &&& after.descriptor.equipment_type == before.descriptor.equipment_type
        &&& after.descriptor.zone == zone
        &&& after.descriptor.fuel == before.descriptor.fuel
        &&& crate::config::same_text(after.descriptor.zone_type, c.zone_type)
        &&& after.descriptor.control_capabilities == before.descriptor.control_capabilities
        &&& after.descriptor.core_capabilities == before.descriptor.core_capabilities
        &&& after.ports@ == before.ports@.update(2, PortDeclaration::Thermal { zone }).update(
            0,
            PortDeclaration::Fluid {
                loop_id: IndirectTank::placed_state(before.state, c).boiler_loop_id,
            },
        )
    }

    /// The state once the tank is placed.
    pub open spec fn placed_state(before: IndirectState, c: &IndirectTankConfig) -> IndirectState {
        IndirectState {
            boiler_loop_id: match c.boiler_loop_id {
                Some(id) => id,
                None => before.boiler_loop_id,
            },
            ..before
        }
    }

    fn place(&mut self, c: &IndirectTankConfig)
        requires
            old(self).ports@.len() == 3,
        ensures
            IndirectTank::placed(old(self), final(self), c),
            final(self).descriptor.telemetry_fields == old(self).descriptor.telemetry_fields,
            final(self).tank == old(self).tank,
            final(self).state == IndirectTank::placed_state(old(self).state, c),
    {
        if let Some(id) = c.equipment_id {
            self.descriptor.id = id;
        }
        if let Some(id) = c.zone_id {
            self.descriptor.zone = Some(id);
        }
        self.descriptor.zone_type = copied_text(&c.zone_type);
        let zone: Option<u16> = self.descriptor.zone;
        self.ports.set(2, PortDeclaration::Thermal { zone });
        if let Some(id) = c.boiler_loop_id {
            self.state.boiler_loop_id = id;
        }
        let loop_id: u16 = self.state.boiler_loop_id;
        self.ports.set(0, PortDeclaration::Fluid { loop_id });
    }

    /// Take over a typed configuration. `mains_temp_c` is the temperature of the mains
    /// water that the surroundings give. A configuration that breaks its limits changes
    /// nothing; one whose tank cannot be built leaves the tank placed but not set.
    #[verifier::rlimit(60)]
    pub fn init_typed(&mut self, c: &IndirectTankConfig, mains_temp_c: Double) -> (r: Result<()>)
        requires
            old(self).ports@.len() == 3,
        ensures
            c.fault() is Some ==> r == Err::<(), HaresError>(
                HaresError::Equipment(c.fault()->0),
            ) && *final(self) == *old(self),
            c.fault() is None ==> IndirectTank::placed(old(self), final(self), c),
            c.fault() is None && configured_tank(c).fault() is Some ==> {
                &&& r == Err::<(), HaresError>(HaresError::Equipment(configured_tank(c).fault()->0))
                &&& final(self).descriptor.telemetry_fields
                    == old(self).descriptor.telemetry_fields
                &&& final(self).tank == old(self).tank
                &&& final(self).state == IndirectTank::placed_state(old(self).state, c)
            },
            c.fault() is None && configured_tank(c).fault() is None ==> {
                &&& r == Ok::<(), HaresError>(())
                &&& final(self).wf()
                &&& final(self).descriptor.telemetry_fields@ == telemetry_fields(
                    typed_node_count(c.tank_nodes) as nat,
                )
                &&& final(self).tank@ == configured_tank(c).model()
                &&& final(self).state == IndirectTank::placed_state(old(self).state, c).configured(
                    c,
                    mains_temp_c,
                )
            },
    {
        c.validate()?;
        self.place(c);
        let n_nodes: usize = typed_node_count(c.tank_nodes);
        let tank: StratifiedTank = build_typed_tank(
            c.tank_nodes,
            c.tank_volume_m3,
            c.tank_height_m,
            c.ua_w_per_k,
            c.jacket_r_value_m2_k_w,
            or_default(c.initial_tank_temp_c, or_default(c.setpoint_c, default_setpoint_c())),
            [None, None],
        )?;
        self.tank = tank;
        self.state =
        IndirectState {
            hx_ua_w_per_k: or_default(c.hx_ua_w_per_k, default_hx_ua_w_per_k()).max(Double::zero()),
            setpoint_c: or_default(c.setpoint_c, default_setpoint_c()),
            target_setpoint_c: or_default(c.setpoint_c, default_setpoint_c()),
            deadband_c: or_default(c.deadband_c, default_deadband_c()),
            max_tank_temp_c: or_default(c.max_tank_temp_c, default_max_tank_temp_c()),
            heating_on: false,
            duty_cycle: Double::one(),
            mode_override: None,
            mains_temp_c,
            draw_flow_rate_kg_s: or_default(c.draw_flow_rate_kg_s, Double::zero()),
            draw_source: c.draw_flow_rate_source,
            mains_temp_c_source: c.mains_temp_c_source,
            zip: WaterHeaterZip::constant_power(),
            fixture_delivery_temp_c: or_default(
                c.fixture_delivery_temp_c,
                default_fixture_temp_c(),
            ),
            hot_draw_temp_c: c.hot_draw_temp_c,
            boiler_loop_flow_rate_kg_s: or_default(
                c.boiler_loop_flow_rate_kg_s,
                default_boiler_loop_flow_rate_kg_s(),
            ),
            dr: DemandResponse::normal(),
            ctrl_load_fraction: Double::one(),
            telemetry: IndirectTelemetry::empty(),
            core_output: CoreOutput::empty(),
            ..self.state
        };
        self.descriptor.telemetry_fields = build_telemetry_fields(n_nodes);
        Ok(())
    }

    /// Decide whether the boiler heats the tank in this step.
    pub fn update_control(&mut self, env: &EnvironmentState) -> (mode: OperatingMode)
        requires
            old(self).wf(),
            env.time_res.wf(),
        ensures
            final(self).wf(),
            final(self).state == old(self).state.switched(
                env.time_res.length_s(),
                crate::shared::overheated(
                    old(self).tank@.node_temps_c,
                    old(self).state.max_tank_temp_c,
                ),
                bottom_temp(old(self).tank@.node_temps_c),
            ),
            mode == final(self).state.mode(),
            final(self).descriptor == old(self).descriptor,
            final(self).ports == old(self).ports,
            final(self).tank == old(self).tank,
    {
        let overheated: bool = is_overheated(&self.tank, self.state.max_tank_temp_c);
        let bottom_c: Double = bottom_temp_c(self.tank.node_temps());
        self.state = self.state.switched(env.time_res.length_s(), overheated, bottom_c);
        self.state.mode()
    }

    /// The heat that the coil transfers in a step.
    pub open spec fn step_hx_power(&self, fluid: Seq<FluidAccumulator>) -> Double {
        self.state.hx_power(
            boiler_supply(fluid, self.state.boiler_loop_id),
            bottom_temp(self.tank@.node_temps_c),
        )
    }

    /// The mains temperature, the scheduled draw and the appliances' demand of a step.
    pub open spec fn step_flows(
        &self,
        env: &EnvironmentState,
        fluid: Seq<FluidAccumulator>,
        readings: ScheduleReadings,
    ) -> (Double, Double, Double) {
        let (mains_temp_c, draw_kg_s) = crate::shared::storage_step_inputs(
            env,
            self.state.mains_temp_c,
            self.state.draw_flow_rate_kg_s,
            readings,
        );
        (mains_temp_c, draw_kg_s, crate::shared::dhw_demand(fluid))
    }

    /// The tank after a step, and the draw.
    pub open spec fn step_tank(
        &self,
        env: &EnvironmentState,
        outside: IndirectOutside,
        fluid: Seq<FluidAccumulator>,
        readings: ScheduleReadings,
        dt: Duration,
    ) -> (crate::tank::TankModel, Result<DrawResult>) {
        let (mains_temp_c, draw_kg_s, demand_kg_s) = self.step_flows(env, fluid, readings);
        self.tank@.stepped_tempered(
            crate::shared::ambient(env, self.descriptor.zone),
            draw_kg_s.over(outside.water_density_kg_m3),
            demand_kg_s.over(outside.water_density_kg_m3),
            mains_temp_c,
            injections(self.tank@.n(), self.step_hx_power(fluid)),
            self.state.tmv(),
            dt.as_secs(),
        )
    }

    /// What a step with a draw comes to.
    pub open spec fn step_figures(
        &self,
        env: &EnvironmentState,
        mode: OperatingMode,
        outside: IndirectOutside,
        fluid: Seq<FluidAccumulator>,
        readings: ScheduleReadings,
        dt: Duration,
        draw: DrawResult,
    ) -> IndirectFigures {
        let (mains_temp_c, draw_kg_s, demand_kg_s) = self.step_flows(env, fluid, readings);
        let boiler_supply_c = boiler_supply(fluid, self.state.boiler_loop_id);
        let hx_power_w = self.step_hx_power(fluid);
        IndirectFigures {
            mode,
            hx_power_w,
            boiler_supply_c,
            boiler_return_c: self.state.boiler_return_c(
                boiler_supply_c,
                hx_power_w,
                outside.cp_j_kg_k,
                dt.as_secs(),
            ),
            total_draw_kg_s: draw_kg_s.plus(demand_kg_s),
            mains_temp_c,
            draw,
        }
    }

    /// What a step gives to the ports: the water that goes back to the boiler, and hot
    /// water.
    pub open spec fn step_contributions(&self, f: IndirectFigures) -> Seq<PortContribution> {
        crate::storage::when(
            f.hx_power_w.gt(Double::zero()),
            PortContribution::Fluid {
                loop_id: self.state.boiler_loop_id,
                flow_rate_kg_s: self.state.boiler_loop_flow_rate_kg_s,
                supply_temp_c: f.boiler_supply_c,
                return_temp_c: f.boiler_return_c,
            },
        ) + crate::storage::when(
            f.total_draw_kg_s.gt(Double::zero()),
            PortContribution::Fluid {
                loop_id: DHW_DEMAND_LOOP,
                flow_rate_kg_s: f.total_draw_kg_s,
                supply_temp_c: f.draw.outlet_temp_c,
                return_temp_c: f.mains_temp_c,
            },
        )
    }

    /// Advance the tank by one step, after [`IndirectTank::update_control`] has given its
    /// `mode`. What the step gives to the ports comes back with its figures, which
    /// [`IndirectTank::finish_step`] records once the ports have taken it. The heat that
    /// the tank gives to the zone is [`crate::storage::jacket_loss`], and comes last.
    pub fn step(
        &mut self,
        env: &EnvironmentState,
        mode: OperatingMode,
        outside: IndirectOutside,
        fluid: &[FluidAccumulator],
        readings: ScheduleReadings,
        dt: Duration,
    ) -> (r: Result<IndirectStep>)
        requires
            old(self).wf(),
        ensures
            final(self).wf(),
            final(self).tank@ == old(self).step_tank(env, outside, fluid@, readings, dt).0,
            match old(self).step_tank(env, outside, fluid@, readings, dt).1 {
                Ok(draw) => {
                    let figures = old(self).step_figures(
                        env,
                        mode,
                        outside,
                        fluid@,
                        readings,
                        dt,
                        draw,
                    );
                    r is Ok && r->Ok_0.figures == figures && r->Ok_0.contributions@ == old(
                        self,
                    ).step_contributions(figures)
                },
                Err(error) => r is Err && r->Err_0 == error,
            },
            final(self).state == old(self).state,
            final(self).descriptor == old(self).descriptor,
            final(self).ports == old(self).ports,
    {
        let ambient_c: Double = ambient_temp_c(env, self.descriptor.zone);
        let boiler_supply_c: Double = read_boiler_supply_temp_c(fluid, self.state.boiler_loop_id);
        let hx_power_w: Double = self.state.hx_power(
            boiler_supply_c,
            bottom_temp_c(self.tank.node_temps()),
        );
        let mut heat: Vec<(usize, Double)> = Vec::new();
        if hx_power_w.gt(Double::zero()) {
            heat.push((self.tank.n_nodes() - 1, hx_power_w));
        }
        assert(heat@ =~= injections(self.tank@.n(), hx_power_w));
        let (mains_temp_c, draw_kg_s) = resolve_storage_step_inputs(
            env,
            self.state.mains_temp_c,
            self.state.draw_flow_rate_kg_s,
            readings,
        );
        let demand_kg_s: Double = read_dhw_demand_kg_s(fluid);
        let total_draw_kg_s: Double = draw_kg_s.plus(demand_kg_s);
        let draw: DrawResult = self.tank.step_tempered(
            ambient_c,
            draw_kg_s.over(outside.water_density_kg_m3),
            demand_kg_s.over(outside.water_density_kg_m3),
            mains_temp_c,
            heat.as_slice(),
            self.state.tmv(),
            dt,
        )?;
        let figures = IndirectFigures {
            mode,
            hx_power_w,
            boiler_supply_c,
            boiler_return_c: self.state.boiler_return_c(
                boiler_supply_c,
                hx_power_w,
                outside.cp_j_kg_k,
                dt.as_secs(),
            ),
            total_draw_kg_s,
            mains_temp_c,
            draw,
        };
        let mut contributions: Vec<PortContribution> = Vec::new();
        push_when(
            &mut contributions,
            hx_power_w.gt(Double::zero()),
            PortContribution::Fluid {
                loop_id: self.state.boiler_loop_id,
                flow_rate_kg_s: self.state.boiler_loop_flow_rate_kg_s,
                supply_temp_c: boiler_supply_c,
                return_temp_c: figures.boiler_return_c,
            },
        );
        push_when(
            &mut contributions,
            total_draw_kg_s.gt(Double::zero()),
            PortContribution::Fluid {
                loop_id: DHW_DEMAND_LOOP,
                flow_rate_kg_s: total_draw_kg_s,
                supply_temp_c: draw.outlet_temp_c,
                return_temp_c: mains_temp_c,
            },
        );
        assert(contributions@ =~= old(self).step_contributions(figures));
        Ok(IndirectStep { figures, contributions })
    }

    /// Record the figures of a step, and end what a controller asked for one step.
    pub fn finish_step(&mut self, figures: IndirectFigures)
        requires
            old(self).wf(),
        ensures
            final(self).wf(),
            final(self).state == old(self).state.finished(
                figures,
                crate::shared::weighted_average(
                    old(self).tank@.node_temps_c,
                    old(self).tank@.node_volumes_m3,
                ),
            ),
            final(self).descriptor == old(self).descriptor,
            final(self).ports == old(self).ports,
            final(self).tank == old(self).tank,
    {
        let average: Double = weighted_average_tank_temp(
            self.tank.node_temps(),
            self.tank.node_volumes_m3(),
        );
        self.state = self.state.finished(figures, average);
    }

    /// Obey a control signal.
    pub fn apply_control(&mut self, signal: ControlSignal) -> (r: Result<()>)
        ensures
            old(self).wf() ==> final(self).wf(),
            final(self).state == old(self).state.applied(signal).0,
            r == (match old(self).state.applied(signal).1 {
                Some(fault) => Err(HaresError::Control(fault)),
                None => Ok::<(), HaresError>(()),
            }),
            final(self).descriptor == old(self).descriptor,
            final(self).ports == old(self).ports,
            final(self).tank == old(self).tank,
    {
        match signal {
            ControlSignal::ThermalSetpoint { heating_setpoint_c, cooling_setpoint_c, deadband_c } => {
                if let Some(sp) = heating_setpoint_c {
                    self.state.target_setpoint_c = sp;
                    self.state.setpoint_c = sp;
                }
                if let Some(db) = deadband_c {
                    if !db.is_finite() || db.le(Double::zero()) {
                        return Err(HaresError::Control(ControlFault::Deadband { value: db }));
                    }
                    self.state.deadband_c = db;
                }
            },
            ControlSignal::DutyCycle { on_fraction, component } => {
                if !on_fraction.is_finite() || !(Double::zero().le(on_fraction) && on_fraction.le(
                    Double::one(),
                )) {
                    return Err(
                        HaresError::Control(
                            ControlFault::DutyCycle {
                                equipment: "IndirectTank",
                                value: on_fraction,
                            },
                        ),
                    );
                }
                self.state.duty_cycle = on_fraction;
            },
            ControlSignal::ModeOverride { mode } => {
                self.state.mode_override = Some(mode);
            },
            ControlSignal::LoadFraction { fraction } => {
                self.state.ctrl_load_fraction = fraction.clamp(Double::zero(), Double::one());
            },
            ControlSignal::PowerLimit { max_power_kw } => {},
            ControlSignal::DemandResponse { level, duration_s } => {
                self.state.dr = DemandResponse::at(level, duration_s);
            },
            ControlSignal::Other => {},
        }
        Ok(())
    }

    /// `saved` holds what a tank in this state saves.
    pub open spec fn saved_as(&self, saved: IndirectTankState) -> bool {
        &&& saved.setpoint_c == self.state.setpoint_c
        &&& saved.target_setpoint_c == self.state.target_setpoint_c
        &&& saved.deadband_c == self.state.deadband_c
        &&& saved.boiler_loop_id == self.state.boiler_loop_id
        &&& saved.hx_ua_w_per_k == self.state.hx_ua_w_per_k
        &&& saved.boiler_loop_flow_rate_kg_s == self.state.boiler_loop_flow_rate_kg_s
        &&& saved.heating_on == self.state.heating_on
        &&& saved.duty_cycle == self.state.duty_cycle
        &&& saved.mode_override == self.state.mode_override
        &&& saved.draw_flow_rate_kg_s == self.state.draw_flow_rate_kg_s
        &&& saved.dr == self.state.dr
        &&& saved.tank_state.node_temps_c@ == self.tank@.node_temps_c
        &&& saved.tank_avg_temp_c == self.state.telemetry.tank_avg_temp_c
        &&& saved.hx_power_w == self.state.telemetry.electric_power_w
    }

    pub fn save_state(&self) -> (saved: IndirectTankState)
        ensures
            self.saved_as(saved),
    {
        IndirectTankState {
            setpoint_c: self.state.setpoint_c,
            target_setpoint_c: self.state.target_setpoint_c,
            deadband_c: self.state.deadband_c,
            boiler_loop_id: self.state.boiler_loop_id,
            hx_ua_w_per_k: self.state.hx_ua_w_per_k,
            boiler_loop_flow_rate_kg_s: self.state.boiler_loop_flow_rate_kg_s,
            heating_on: self.state.heating_on,
            duty_cycle: self.state.duty_cycle,
            mode_override: self.state.mode_override,
            tank_state: self.tank.save_state(),
            tank_avg_temp_c: self.state.telemetry.tank_avg_temp_c,
            hx_power_w: self.state.telemetry.electric_power_w,
            draw_flow_rate_kg_s: self.state.draw_flow_rate_kg_s,
            dr: self.state.dr,
        }
    }

    /// Take over a saved state. If its temperatures do not fit the tank, the control
    /// settings are taken over and the rest stays as it was.
    pub fn load_state(&mut self, saved: IndirectTankState) -> (r: Result<()>)
        requires
            old(self).wf(),
        ensures
            final(self).wf(),
            r == crate::tank::load_outcome(old(self).tank@, saved.tank_state.node_temps_c@),
            r is Err ==> final(self).state == old(self).state.with_saved_control(saved)
                && final(self).tank@ == old(self).tank@,
            r is Ok ==> final(self).state == old(self).state.with_saved(saved)
                && final(self).tank@ == old(self).tank@.with_temps(
                saved.tank_state.node_temps_c@,
            ),
            final(self).descriptor == old(self).descriptor,
            final(self).ports == old(self).ports,
    {
        self.state.setpoint_c = saved.setpoint_c;
        self.state.target_setpoint_c = saved.target_setpoint_c;
        self.state.deadband_c = saved.deadband_c;
        self.state.boiler_loop_id = saved.boiler_loop_id;
        self.state.hx_ua_w_per_k = saved.hx_ua_w_per_k;
        self.state.boiler_loop_flow_rate_kg_s = saved.boiler_loop_flow_rate_kg_s;
        self.state.heating_on = saved.heating_on;
        self.state.duty_cycle = saved.duty_cycle;
        self.state.mode_override = saved.mode_override;
        self.tank.load_state(saved.tank_state)?;
        self.state.telemetry.tank_avg_temp_c = saved.tank_avg_temp_c;
        self.state.telemetry.electric_power_w = saved.hx_power_w;
        self.state.draw_flow_rate_kg_s = saved.draw_flow_rate_kg_s;
        self.state.dr = saved.dr;
        self.state.core_output = CoreOutput::empty();
        Ok(())
    }
}

/// Let the names of this heater stand for it.
pub fn register_with_registry(registry: &mut EquipmentRegistry)
    ensures
        final(registry)@ == old(registry)@.insert(
            "Indirect Tank"@,
            Registration::Heater(HeaterKind::IndirectTank),
        ),
{
    registry.register("Indirect Tank", HeaterKind::IndirectTank);
}

} // verus!
