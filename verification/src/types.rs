//! The values that water heaters exchange with the building around them.
use vstd::prelude::*;

use crate::double::Double;
use crate::time::{CivilTime, TimeStep};

verus! {

/// The energy that a heater burns or draws.
#[derive(Debug, Clone, Copy, PartialEq, Eq, Structural)]
pub enum FuelType {
    Gas,
    Propane,
    Electric,
}

/// What a schedule gives outside its rows.
#[derive(Debug, Clone, Copy, PartialEq, Eq, Structural)]
pub enum BoundaryPolicy {
    Clamp,
}

/// Where a scheduled value comes from.
#[derive(Debug, Clone, Copy, PartialEq, Eq, Structural)]
pub enum ScheduleSource {
    /// A column of the schedule.
    ColumnRef { col_idx: usize, boundary: BoundaryPolicy },
}

/// What a heater is doing.
#[derive(Debug, Clone, Copy, PartialEq, Eq, Structural)]
pub enum OperatingMode {
    Off,
    Standby,
    Heating,
    HeatPumpWH,
    HeatingHP,
    BackupElement,
    HeatingER,
    HeatingHPAndER,
}

/// How urgently the grid asks for less load.
#[derive(Debug, Clone, Copy, PartialEq, Eq, Structural)]
pub enum DRLevel {
    Normal,
    Moderate,
    High,
    Critical,
    GridEmergency,
}

/// The part of a heat pump water heater that a duty cycle is meant for.
#[derive(Debug, Clone, Copy, PartialEq, Eq, Structural)]
pub enum DutyCycleComponent {
    Compressor,
    BackupElement,
}

/// A request of a controller.
#[derive(Debug, Clone, Copy, PartialEq, Eq, Structural)]
pub enum ControlSignal {
    ThermalSetpoint {
        heating_setpoint_c: Option<Double>,
        cooling_setpoint_c: Option<Double>,
        deadband_c: Option<Double>,
    },
    DutyCycle { on_fraction: Double, component: Option<DutyCycleComponent> },
    ModeOverride { mode: OperatingMode },
    LoadFraction { fraction: Double },
    PowerLimit { max_power_kw: Double },
    DemandResponse { level: DRLevel, duration_s: Option<Double> },
    /// A signal that water heaters pass over.
    Other,
}

/// Real power, in the unit in which it is reported.
#[derive(Debug, Clone, Copy, PartialEq, Eq, Structural)]
pub enum ActivePower {
    Watts(Double),
    Kilowatts(Double),
}

/// What heat given to a zone counts as.
#[derive(Debug, Clone, Copy, PartialEq, Eq, Structural)]
pub enum ThermalCategory {
    JacketLoss,
    HvacDehumidification,
}

/// What a heater adds to a port in one step.
#[derive(Debug, Clone, Copy, PartialEq, Eq, Structural)]
pub enum PortContribution {
    Electrical { active_power: ActivePower, reactive_power_kvar: Double },
    Fuel { fuel_type: FuelType, consumption_w: Double },
    /// Water that leaves the heater for a loop.
    Fluid {
        loop_id: u16,
        flow_rate_kg_s: Double,
        supply_temp_c: Double,
        return_temp_c: Double,
    },
    /// Heat given to a zone; none of it is radiant.
    Thermal {
        zone: u16,
        sensible_gain_w: Double,
        latent_gain_w: Double,
        category: ThermalCategory,
    },
}

/// A port that a heater has. Every fluid port carries water.
#[derive(Debug, Clone, Copy, PartialEq, Eq, Structural)]
pub enum PortDeclaration {
    Fuel,
    Electrical,
    Thermal { zone: Option<u16> },
    Fluid { loop_id: u16 },
}

/// What flows in a fluid loop so far in a step.
#[derive(Debug, Clone, Copy, PartialEq, Eq, Structural)]
pub struct FluidAccumulator {
    pub loop_id: u16,
    pub total_flow_kg_s: Double,
    pub mean_supply_temp_c: Double,
}

/// A zone of the building.
#[derive(Debug, Clone, Copy, PartialEq, Eq, Structural)]
pub struct ZoneState {
    pub id: u16,
    pub temperature_c: Double,
    pub wet_bulb_c: Double,
}

/// Values that another part of the simulation publishes under a number.
#[derive(Debug)]
pub struct CustomDomain {
    pub domain_id: u16,
    pub payload: Option<Vec<Double>>,
}

/// The surroundings of a heater in one step.
#[derive(Debug)]
pub struct EnvironmentState {
    pub time_res: TimeStep,
    pub current_time: CivilTime,
    pub zones: Vec<ZoneState>,
    pub outdoor_temp_c: Double,
    /// The temperature of the mains water that comes with the weather [°C].
    pub mains_temp_c: Option<Double>,
    pub custom_domains: Vec<CustomDomain>,
    /// The voltage of the grid [per unit].
    pub voltage_pu: Double,
    /// The voltage of the bus that the heater hangs on [per unit].
    pub bus_voltage_pu: Double,
    pub bus_energized: bool,
}

/// The fuel that a heater burns.
#[derive(Debug, Clone, Copy, PartialEq, Eq, Structural)]
pub struct FuelPower {
    pub fuel_type: FuelType,
    pub consumption_w: Double,
}

/// The figures that every heater reports in the same form. What a heater does not have
/// is `None`.
#[derive(Debug, Clone, Copy, PartialEq, Eq, Structural)]
pub struct CoreOutput {
    pub electric_kw: Option<Double>,
    pub reactive_power_kvar: Option<Double>,
    pub fuel: Option<FuelPower>,
    pub thermal_output_w: Option<Double>,
    pub operating_mode: Option<OperatingMode>,
}

impl CoreOutput {
    pub open spec fn spec_empty() -> CoreOutput {
        CoreOutput {
            electric_kw: None,
            reactive_power_kvar: None,
            fuel: None,
            thermal_output_w: None,
            operating_mode: None,
        }
    }

    /// Nothing reported yet.
    #[verifier::when_used_as_spec(spec_empty)]
    pub fn empty() -> (r: CoreOutput)
        ensures
            r == CoreOutput::empty(),
    {
        CoreOutput {
            electric_kw: None,
            reactive_power_kvar: None,
            fuel: None,
            thermal_output_w: None,
            operating_mode: None,
        }
    }
}

/// The control signals that a heater takes.
#[derive(Debug, Clone, Copy, PartialEq, Eq, Structural)]
pub struct ControlCapabilities {
    pub thermal_setpoint: bool,
    pub duty_cycle: bool,
    pub mode_override: bool,
    pub load_fraction: bool,
    pub power_limit: bool,
    pub demand_response: bool,
}

/// The figures of [`CoreOutput`] that a heater reports.
#[derive(Debug, Clone, Copy, PartialEq, Eq, Structural)]
pub struct CoreCapabilities {
    pub electric: bool,
    pub reactive: bool,
    pub fuel: bool,
    pub thermal: bool,
    pub has_mode: bool,
}

/// Who a heater is. Its end use is water heating, and it runs in the thermal stage.
#[derive(Debug)]
pub struct EquipmentDescriptor {
    pub id: u32,
    pub name: String,
    pub equipment_type: &'static str,
    pub zone: Option<u16>,
    pub fuel: FuelType,
    pub control_capabilities: ControlCapabilities,
    pub core_capabilities: CoreCapabilities,
    pub telemetry_fields: Vec<TelemetryField>,
    pub zone_type: Option<String>,
}

/// A figure that heaters record.
#[derive(Debug, Clone, Copy, PartialEq, Eq, Structural)]
pub enum TelemetryKey {
    TankAvgTempC,
    BurnerEfficiency,
    BurnerEfficiencySource,
    BurnerPowerW,
    PilotPowerW,
    FuelInputW,
    PilotKw,
    FuelInputKw,
    FlueLossW,
    FanElectricW,
    DrawFlowRateKgS,
    UnmetLoadW,
    OperatingMode,
    OutletTempC,
    SkinLossW,
    PilotHeatToWaterW,
    PilotHeatToAmbientW,
    UpperElementPowerW,
    LowerElementPowerW,
    ElectricKw,
    ElementKw,
    ElectricPowerW,
    Cop,
    CapMult,
    CompressorKw,
    CompressorPowerW,
    BackupElementPowerW,
    ZoneHeatExtractionW,
    WallSensibleGainW,
    ThermalOutputW,
    ParasiticElectricW,
    ReactivePowerKvar,
    /// The temperature of a tank node.
    TankNode(usize),
}

/// A recorded figure with its unit and what it means. Of a tank node the description
/// holds what follows the node's number.
#[derive(Debug, Clone, Copy)]
pub struct TelemetryField {
    pub key: TelemetryKey,
    pub unit: &'static str,
    pub description: &'static str,
}

/// The fields of the nodes of a tank.
pub open spec fn node_fields(n_nodes: nat) -> Seq<TelemetryField> {
    Seq::new(
        n_nodes,
        |i: int|
            TelemetryField {
                key: TelemetryKey::TankNode(i as usize),
                unit: "C",
                description: "temperature",
            },
    )
}

/// Append the fields of the nodes of a tank.
pub(crate) fn push_node_fields(fields: &mut Vec<TelemetryField>, n_nodes: usize)
    ensures
        final(fields)@ == old(fields)@ + node_fields(n_nodes as nat),
{
    let mut i: usize = 0;
    assert(fields@ =~= old(fields)@ + node_fields(0));
    while i < n_nodes
        invariant
            i <= n_nodes,
            fields@ == old(fields)@ + node_fields(i as nat),
        decreases n_nodes - i,
    {
        fields.push(
            TelemetryField {
                key: TelemetryKey::TankNode(i),
                unit: "C",
                description: "temperature",
            },
        );
        i += 1;
        assert(fields@ =~= old(fields)@ + node_fields(i as nat));
    }
}

} // verus!
