//! Domestic water heaters for building energy simulation: storage heaters with a gas
//! burner, resistance elements, a heat pump or a boiler behind them, and tankless ones.
//!
//! A heater is stepped in phases. `update_control` decides what runs, `step` (or
//! `deliver`) does it and says what it gives to the ports, and `finish_step` records the
//! figures. Numbers are [`double::Double`]s, in SI units unless they say otherwise.
use vstd::prelude::*;

use crate::registry::{EquipmentRegistry, HeaterKind, Registration};

pub use crate::double::Double;
pub use crate::gas::GasWH;
pub use crate::heat_pump_wh::HeatPumpWH;
pub use crate::indirect_tank::IndirectTank;
pub use crate::resistance::ResistanceWH;
pub use crate::tank::{DrawResult, StratifiedTank, StratifiedTankConfig, TemperedDrawConfig};
pub use crate::tankless::TanklessWH;

pub mod approx;
pub mod checks;
pub mod clock_laws;
pub mod condenser_laws;
pub mod config;
pub mod config_laws;
pub mod conservation;
pub mod control_laws;
pub mod defaults;
pub mod delivery_laws;
pub mod double;
pub mod double_laws;
pub mod draws;
pub mod error;
pub mod gain_laws;
pub mod gas;
pub mod heat_pump_wh;
pub mod heater_laws;
pub mod heating;
pub mod hpwh_compressor;
pub mod indirect_tank;
pub mod input_laws;
pub mod insulation;
pub mod magnitude;
pub mod mixing;
pub mod mixing_optimum;
pub mod mode_laws;
pub mod node_laws;
pub mod ordinary_steps;
pub mod output_laws;
pub mod overflow;
pub mod power_laws;
pub mod precision;
pub mod products;
pub mod ranges;
pub mod registry;
pub mod report_laws;
pub mod request_laws;
pub mod resistance;
pub mod rounding;
pub mod setup_laws;
pub mod shared;
pub mod step_balance;
pub mod step_laws;
pub mod storage;
pub mod surroundings_laws;
pub mod tank;
pub mod tank_laws;
pub mod tankless;
pub mod tempered_laws;
pub mod thermostat_laws;
pub mod time;
pub mod types;
pub mod water_heater_config;
pub mod wh_config;
pub mod zip;

verus! {

/// What the name "Water Heating" is refused for.
pub const AMBIGUOUS_CLASS: &'static str = "ambiguous water heater class 'Water Heating': the HPXML resolver must emit a fuel-specific class name (e.g. 'Gas Water Heater', 'Electric Resistance Water Heater', 'Heat Pump Water Heater')";

/// Let the names of the water heaters stand for them. "Water Heating" is too vague to
/// stand for any of them. An indirect tank is registered on its own.
pub fn register_with_registry(registry: &mut EquipmentRegistry)
    ensures
        final(registry)@ == old(registry)@.insert(
            "Resistance Water Heater"@,
            Registration::Heater(HeaterKind::Resistance),
        ).insert(
            "Electric Resistance Water Heater"@,
            Registration::Heater(HeaterKind::Resistance),
        ).insert("Gas Water Heater"@, Registration::Heater(HeaterKind::Gas)).insert(
            "Heat Pump Water Heater"@,
            Registration::Heater(HeaterKind::HeatPump),
        ).insert("HPWH"@, Registration::Heater(HeaterKind::HeatPump)).insert(
            "Tankless Water Heater"@,
            Registration::Heater(HeaterKind::Tankless),
        ).insert(
            "Gas Tankless Water Heater"@,
            Registration::Heater(HeaterKind::Tankless),
        ).insert("Water Heating"@, Registration::Refused(AMBIGUOUS_CLASS)),
{
    crate::resistance::register_with_registry(registry);
    crate::gas::register_with_registry(registry);
    crate::heat_pump_wh::register_with_registry(registry);
    crate::tankless::register_with_registry(registry);
    registry.register_error("Water Heating", AMBIGUOUS_CLASS);
}

} // verus!
