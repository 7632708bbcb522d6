//! Typed configurations that name every node, column and voltage coefficient by itself.
use vstd::prelude::*;

use crate::checks::{check_curve, run_checks, Check, Rule};
use crate::double::Double;
use crate::error::{Fault, Result};

verus! {

/// A gas storage water heater.
///
/// Powers are in watts, volumes in cubic metres and temperatures in degrees Celsius.
#[derive(Debug)]
pub struct GasWaterHeaterConfig {
    pub equipment_id: Option<u32>,
    pub zone_id: Option<u16>,

    /// Tank volume [m³].
    pub tank_volume_m3: Option<Double>,
    /// Tank height [m].
    pub tank_height_m: Option<Double>,
    /// Tank diameter [m].
    pub tank_diameter_m: Option<Double>,
    /// Tank heat-loss conductance [W/K].
    pub ua_w_per_k: Option<Double>,
    /// Insulation jacket R-value [m²·K/W].
    pub jacket_r_value_m2_k_w: Option<Double>,
    /// Number of tank stratification nodes.
    pub tank_nodes: Option<u8>,
    /// Index of the burner node (0-based).
    pub burner_node: Option<u8>,

    /// Thermostat setpoint [°C].
    pub setpoint_c: Option<Double>,
    /// Thermostat deadband width [°C].
    pub deadband_c: Option<Double>,
    /// Maximum safe tank temperature [°C]; burner locks out above this.
    pub max_tank_temp_c: Option<Double>,

    /// Burner rated heat-input power [W].
    pub heating_capacity_w: Option<Double>,
    /// Burner thermal efficiency (fraction in (0, 1]).
    pub burner_efficiency: Option<Double>,
    /// Fraction of heat input lost up the flue [0, 1].
    pub flue_loss_fraction: Option<Double>,
    /// Ignition type string (e.g. "standing pilot", "electronic ignition").
    pub ignition_type: Option<String>,
    /// Standing-pilot flame power [W]. Only meaningful when ignition_type is "standing pilot".
    pub pilot_power_w: Option<Double>,
    /// Induced-draft fan electric power [W].
    pub fan_power_w: Option<Double>,
    /// Fraction of standby losses delivered to the zone as sensible heat [0, 1].
    pub skin_loss_fraction: Option<Double>,

    /// Fuel type string (e.g. "Gas", "Propane").
    pub fuel_type: Option<String>,

    /// Fallback mains water temperature [°C].
    pub mains_temp_c: Option<Double>,
    /// Average daily hot-water draw [L/day]; used when no schedule column is present.
    pub avg_water_draw_l_per_day: Option<Double>,
    /// Steady-state draw flow rate [kg/s].
    pub draw_flow_rate_kg_s: Option<Double>,
    /// Schedule column index for draw flow rate (L/min).
    pub draw_flow_rate_schedule_col: Option<u32>,
    /// Schedule column index for mains temperature (°C).
    pub mains_temp_schedule_col: Option<u32>,

    // ZIP voltage model
    pub zip_z: Option<Double>,
    pub zip_i: Option<Double>,
    pub zip_p: Option<Double>,
    pub zip_zq: Option<Double>,
    pub zip_iq: Option<Double>,
    pub zip_pq: Option<Double>,
    pub zip_pf: Option<Double>,
    pub zip_v0: Option<Double>,
}

impl GasWaterHeaterConfig {
    /// The limits that the numbers must keep, in the order in which they are checked.
    pub open spec fn spec_checks(&self) -> Seq<Check> {
        seq![
            Check { name: "gas_wh: tank_volume_m3", value: self.tank_volume_m3, rule: Rule::Positive },
            Check { name: "gas_wh: heating_capacity_w", value: self.heating_capacity_w, rule: Rule::Nonnegative },
            Check { name: "gas_wh: burner_efficiency", value: self.burner_efficiency, rule: Rule::PositiveAtMostOne },
            Check { name: "gas_wh: flue_loss_fraction", value: self.flue_loss_fraction, rule: Rule::Within { min: Double::zero(), max: Double::one() } },
            Check { name: "gas_wh: ua_w_per_k", value: self.ua_w_per_k, rule: Rule::Positive },
        ]
    }

    /// The first limit that this configuration breaks.
    pub open spec fn fault(&self) -> Option<Fault> {
        crate::checks::first_fault(self.spec_checks(), 0)
    }

    fn checks(&self) -> (checks: Vec<Check>)
        ensures
            checks@ == self.spec_checks(),
    {
        let checks: Vec<Check> = vec![
            Check { name: "gas_wh: tank_volume_m3", value: self.tank_volume_m3, rule: Rule::Positive },
            Check { name: "gas_wh: heating_capacity_w", value: self.heating_capacity_w, rule: Rule::Nonnegative },
            Check { name: "gas_wh: burner_efficiency", value: self.burner_efficiency, rule: Rule::PositiveAtMostOne },
            Check { name: "gas_wh: flue_loss_fraction", value: self.flue_loss_fraction, rule: Rule::Within { min: Double::zero(), max: Double::one() } },
            Check { name: "gas_wh: ua_w_per_k", value: self.ua_w_per_k, rule: Rule::Positive },
        ];
        assert(checks@ =~= self.spec_checks());
        checks
    }

    pub fn equipment_type_name() -> (name: &'static str)
        ensures
            name == "Gas Water Heater",
    {
        "Gas Water Heater"
    }

    /// Check every given number against its limits.
    pub fn validate(&self) -> (r: Result<()>)
        ensures
            r == crate::checks::outcome(self.fault()),
    {
        run_checks(self.checks().as_slice())
    }
}

/// An electric resistance storage water heater.
#[derive(Debug)]
pub struct ElectricResistanceWaterHeaterConfig {
    pub equipment_id: Option<u32>,
    pub zone_id: Option<u16>,

    /// Tank volume [m³].
    pub tank_volume_m3: Option<Double>,
    /// Tank height [m].
    pub tank_height_m: Option<Double>,
    /// Tank diameter [m].
    pub tank_diameter_m: Option<Double>,
    /// Tank heat-loss conductance [W/K].
    pub ua_w_per_k: Option<Double>,
    /// Insulation jacket R-value [m²·K/W].
    pub jacket_r_value_m2_k_w: Option<Double>,
    /// Number of tank stratification nodes.
    pub tank_nodes: Option<u8>,
    /// Index of the upper heating element node (0-based).
    pub upper_element_node: Option<u8>,
    /// Index of the lower heating element node (0-based).
    pub lower_element_node: Option<u8>,

    /// Thermostat setpoint [°C].
    pub setpoint_c: Option<Double>,
    /// Thermostat deadband width [°C].
    pub deadband_c: Option<Double>,
    /// Maximum safe tank temperature [°C].
    pub max_tank_temp_c: Option<Double>,

    /// Rated element power [W]. Applies to both elements when per-element power is absent.
    pub heating_capacity_w: Option<Double>,
    /// Upper element power [W].
    pub upper_element_power_w: Option<Double>,
    /// Lower element power [W].
    pub lower_element_power_w: Option<Double>,
    /// Element priority mode: "MasterSlave" (default) or "Simultaneous".
    pub element_priority_mode: Option<String>,
    /// Setpoint ramp rate [°C/min]; limits how fast the setpoint can change.
    pub max_setpoint_ramp_rate_c_per_min: Option<Double>,

    /// Fallback mains water temperature [°C].
    pub mains_temp_c: Option<Double>,
    /// Average daily hot-water draw [L/day].
    pub avg_water_draw_l_per_day: Option<Double>,
    /// Steady-state draw flow rate [kg/s].
    pub draw_flow_rate_kg_s: Option<Double>,
    /// Schedule column index for draw flow rate (L/min).
    pub draw_flow_rate_schedule_col: Option<u32>,
    /// Schedule column index for mains temperature (°C).
    pub mains_temp_schedule_col: Option<u32>,

    // ZIP voltage model
    pub zip_z: Option<Double>,
    pub zip_i: Option<Double>,
    pub zip_p: Option<Double>,
    pub zip_zq: Option<Double>,
    pub zip_iq: Option<Double>,
    pub zip_pq: Option<Double>,
    pub zip_pf: Option<Double>,
    pub zip_v0: Option<Double>,
}

impl ElectricResistanceWaterHeaterConfig {
    /// The limits that the numbers must keep, in the order in which they are checked.
    pub open spec fn spec_checks(&self) -> Seq<Check> {
        seq![
            Check { name: "resistance_wh: tank_volume_m3", value: self.tank_volume_m3, rule: Rule::Positive },
            Check { name: "resistance_wh: ua_w_per_k", value: self.ua_w_per_k, rule: Rule::Positive },
            Check { name: "resistance_wh: heating_capacity_w", value: self.heating_capacity_w, rule: Rule::Nonnegative },
            Check { name: "resistance_wh: upper_element_power_w", value: self.upper_element_power_w, rule: Rule::Nonnegative },
            Check { name: "resistance_wh: lower_element_power_w", value: self.lower_element_power_w, rule: Rule::Nonnegative },
        ]
    }

    /// The first limit that this configuration breaks.
    pub open spec fn fault(&self) -> Option<Fault> {
        crate::checks::first_fault(self.spec_checks(), 0)
    }

    fn checks(&self) -> (checks: Vec<Check>)
        ensures
            checks@ == self.spec_checks(),
    {
        let checks: Vec<Check> = vec![
            Check { name: "resistance_wh: tank_volume_m3", value: self.tank_volume_m3, rule: Rule::Positive },
            Check { name: "resistance_wh: ua_w_per_k", value: self.ua_w_per_k, rule: Rule::Positive },
            Check { name: "resistance_wh: heating_capacity_w", value: self.heating_capacity_w, rule: Rule::Nonnegative },
            Check { name: "resistance_wh: upper_element_power_w", value: self.upper_element_power_w, rule: Rule::Nonnegative },
            Check { name: "resistance_wh: lower_element_power_w", value: self.lower_element_power_w, rule: Rule::Nonnegative },
        ];
        assert(checks@ =~= self.spec_checks());
        checks
    }

    pub fn equipment_type_name() -> (name: &'static str)
        ensures
            name == "Electric Resistance Water Heater",
    {
        "Electric Resistance Water Heater"
    }

    /// Check every given number against its limits.
    pub fn validate(&self) -> (r: Result<()>)
        ensures
            r == crate::checks::outcome(self.fault()),
    {
        run_checks(self.checks().as_slice())
    }
}

/// A tankless (instantaneous) water heater, gas or electric by its `fuel_type`.
#[derive(Debug)]
pub struct TanklessWaterHeaterConfig {
    pub equipment_id: Option<u32>,
    pub zone_id: Option<u16>,

    /// Fuel type string: "Electric" or "Gas".
    pub fuel_type: Option<String>,

    /// Thermostat setpoint [°C].
    pub setpoint_c: Option<Double>,
    /// Thermal efficiency / energy factor (fraction).
    pub efficiency_factor: Option<Double>,
    /// ANSI/RESNET 301 performance adjustment multiplier (typical: 0.92).
    pub performance_adjustment: Option<Double>,
    /// Rated maximum thermal output power [W].
    pub max_thermal_power_w: Option<Double>,
    /// Continuous standby parasitic electric power [W].
    pub parasitic_power_w: Option<Double>,

    /// Fallback inlet (mains) temperature [°C].
    pub inlet_temp_c: Option<Double>,
    /// Average daily hot-water draw [L/day].
    pub avg_water_draw_l_per_day: Option<Double>,
    /// Steady-state draw flow rate [kg/s].
    pub draw_flow_rate_kg_s: Option<Double>,

    // ZIP voltage model
    pub zip_z: Option<Double>,
    pub zip_i: Option<Double>,
    pub zip_p: Option<Double>,
    pub zip_zq: Option<Double>,
    pub zip_iq: Option<Double>,
    pub zip_pq: Option<Double>,
    pub zip_pf: Option<Double>,
    pub zip_v0: Option<Double>,
}

impl TanklessWaterHeaterConfig {
    /// The limits that the numbers must keep, in the order in which they are checked.
    pub open spec fn spec_checks(&self) -> Seq<Check> {
        seq![
            Check { name: "tankless_wh: max_thermal_power_w", value: self.max_thermal_power_w, rule: Rule::Nonnegative },
            Check { name: "tankless_wh: efficiency_factor", value: self.efficiency_factor, rule: Rule::Positive },
            Check { name: "tankless_wh: performance_adjustment", value: self.performance_adjustment, rule: Rule::Within { min: Double::zero(), max: Double::one() } },
        ]
    }

    /// The first limit that this configuration breaks.
    pub open spec fn fault(&self) -> Option<Fault> {
        crate::checks::first_fault(self.spec_checks(), 0)
    }

    fn checks(&self) -> (checks: Vec<Check>)
        ensures
            checks@ == self.spec_checks(),
    {
        let checks: Vec<Check> = vec![
            Check { name: "tankless_wh: max_thermal_power_w", value: self.max_thermal_power_w, rule: Rule::Nonnegative },
            Check { name: "tankless_wh: efficiency_factor", value: self.efficiency_factor, rule: Rule::Positive },
            Check { name: "tankless_wh: performance_adjustment", value: self.performance_adjustment, rule: Rule::Within { min: Double::zero(), max: Double::one() } },
        ];
        assert(checks@ =~= self.spec_checks());
        checks
    }

    pub fn equipment_type_name() -> (name: &'static str)
        ensures
            name == "Tankless Water Heater",
    {
        "Tankless Water Heater"
    }

    /// Check every given number against its limits.
    pub fn validate(&self) -> (r: Result<()>)
        ensures
            r == crate::checks::outcome(self.fault()),
    {
        run_checks(self.checks().as_slice())
    }
}

/// A heat pump water heater.
#[derive(Debug)]
pub struct HeatPumpWaterHeaterConfig {
    pub equipment_id: Option<u32>,
    pub zone_id: Option<u16>,

    /// Tank volume [m³].
    pub tank_volume_m3: Option<Double>,
    /// Tank height [m].
    pub tank_height_m: Option<Double>,
    /// Tank diameter [m].
    pub tank_diameter_m: Option<Double>,
    /// Tank heat-loss conductance [W/K].
    pub ua_w_per_k: Option<Double>,
    /// Insulation jacket R-value [m²·K/W].
    pub jacket_r_value_m2_k_w: Option<Double>,
    /// Number of tank stratification nodes.
    pub tank_nodes: Option<u8>,
    /// Index of the lower thermostat node (0-based).
    pub thermostat_node: Option<u8>,
    /// Index of the upper thermostat node for composite control temperature.
    pub thermostat_upper_node: Option<u8>,
    /// Index of the condenser node (0-based).
    pub condenser_node: Option<u8>,

    /// Thermostat setpoint [°C].
    pub setpoint_c: Option<Double>,
    /// Thermostat deadband width [°C].
    pub deadband_c: Option<Double>,
    /// Maximum safe tank temperature [°C].
    pub max_tank_temp_c: Option<Double>,
    /// Setpoint ramp rate [°C/min].
    pub max_setpoint_ramp_rate_c_per_min: Option<Double>,

    /// Compressor input power at rated conditions [W].
    pub compressor_power_w: Option<Double>,
    /// Backup resistance element power [W].
    pub backup_element_power_w: Option<Double>,
    /// Temperature offset below setpoint at which backup element is enabled [°C].
    pub backup_enable_offset_c: Option<Double>,
    /// Backup element efficiency (fraction).
    pub backup_efficiency: Option<Double>,
    /// When true, the backup resistance element is permanently disabled.
    pub hp_only_mode: Option<bool>,

    /// Rated absolute COP (not normalised).  When absent, derived from uniform_energy_factor.
    pub cop: Option<Double>,
    /// Uniform Energy Factor; used to derive COP when `cop` is absent.
    pub uniform_energy_factor: Option<Double>,
    /// COP biquadratic curve coefficients [a0..a5].
    pub cop_curve_coeffs: Option<Vec<Double>>,
    /// Capacity biquadratic curve coefficients [a0..a5].
    pub capacity_curve_coeffs: Option<Vec<Double>>,
    /// Minimum zone-air temperature for compressor operation [°C].
    pub min_ambient_temp_c: Option<Double>,
    /// Maximum zone-air temperature for compressor operation [°C].
    pub max_ambient_temp_c: Option<Double>,
    /// Set to "true" or "1" for low-power HPWH variant (UEF ≈ 4.9).
    pub low_power_hpwh: Option<bool>,

    /// Evaporator sensible heat ratio [0, 1].
    pub shr: Option<Double>,
    /// Fraction of waste heat that exits the building [0, 1].
    pub lost_heat_fraction: Option<Double>,
    /// Fraction of sensible zone heat that goes to interior wall surfaces [0, 1].
    pub wall_heat_fraction: Option<Double>,
    /// Evaporator fan power [W].
    pub fan_power_w: Option<Double>,
    /// Standby parasitic power [W].
    pub parasitic_power_w: Option<Double>,

    /// Minimum compressor on-time before an off-transition is allowed [s].
    pub min_on_time_s: Option<Double>,
    /// Minimum compressor off-time before a restart is allowed [s].
    pub min_off_time_s: Option<Double>,

    /// Tempering valve outlet temperature [°C]. `None` = no valve.
    pub tempering_valve_setpoint_c: Option<Double>,
    /// Element/HP control mode: "MutuallyExclusive" (default) or "Simultaneous".
    pub element_hp_control_mode: Option<String>,

    /// Fallback mains water temperature [°C].
    pub mains_temp_c: Option<Double>,
    /// Average daily hot-water draw [L/day].
    pub avg_water_draw_l_per_day: Option<Double>,
    /// Steady-state draw flow rate [kg/s].
    pub draw_flow_rate_kg_s: Option<Double>,

    // ZIP voltage model
    pub zip_z: Option<Double>,
    pub zip_i: Option<Double>,
    pub zip_p: Option<Double>,
    pub zip_zq: Option<Double>,
    pub zip_iq: Option<Double>,
    pub zip_pq: Option<Double>,
    pub zip_pf: Option<Double>,
    pub zip_v0: Option<Double>,
}

impl HeatPumpWaterHeaterConfig {
    /// The limits that the numbers must keep, in the order in which they are checked.
    pub open spec fn spec_checks(&self) -> Seq<Check> {
        seq![
            Check { name: "hpwh: tank_volume_m3", value: self.tank_volume_m3, rule: Rule::Positive },
            Check { name: "hpwh: ua_w_per_k", value: self.ua_w_per_k, rule: Rule::Positive },
            Check { name: "hpwh: compressor_power_w", value: self.compressor_power_w, rule: Rule::Nonnegative },
            Check { name: "hpwh: backup_element_power_w", value: self.backup_element_power_w, rule: Rule::Nonnegative },
            Check { name: "hpwh: fan_power_w", value: self.fan_power_w, rule: Rule::Nonnegative },
            Check { name: "hpwh: parasitic_power_w", value: self.parasitic_power_w, rule: Rule::Nonnegative },
            Check { name: "hpwh: cop", value: self.cop, rule: Rule::Positive },
            Check { name: "hpwh: uniform_energy_factor", value: self.uniform_energy_factor, rule: Rule::Positive },
            Check { name: "hpwh: shr", value: self.shr, rule: Rule::Within { min: Double::zero(), max: Double::one() } },
            Check { name: "hpwh: lost_heat_fraction", value: self.lost_heat_fraction, rule: Rule::Within { min: Double::zero(), max: Double::one() } },
        ]
    }

    /// The first limit that this configuration breaks.
    pub open spec fn fault(&self) -> Option<Fault> {
        crate::checks::first_of(
            crate::checks::first_fault(self.spec_checks(), 0),
            crate::checks::first_of(
                crate::checks::curve_fault("hpwh: cop_curve_coeffs", self.cop_curve_coeffs),
                crate::checks::curve_fault(
                    "hpwh: capacity_curve_coeffs",
                    self.capacity_curve_coeffs,
                ),
            ),
        )
    }

    fn checks(&self) -> (checks: Vec<Check>)
        ensures
            checks@ == self.spec_checks(),
    {
        let checks: Vec<Check> = vec![
            Check { name: "hpwh: tank_volume_m3", value: self.tank_volume_m3, rule: Rule::Positive },
            Check { name: "hpwh: ua_w_per_k", value: self.ua_w_per_k, rule: Rule::Positive },
            Check { name: "hpwh: compressor_power_w", value: self.compressor_power_w, rule: Rule::Nonnegative },
            Check { name: "hpwh: backup_element_power_w", value: self.backup_element_power_w, rule: Rule::Nonnegative },
            Check { name: "hpwh: fan_power_w", value: self.fan_power_w, rule: Rule::Nonnegative },
            Check { name: "hpwh: parasitic_power_w", value: self.parasitic_power_w, rule: Rule::Nonnegative },
            Check { name: "hpwh: cop", value: self.cop, rule: Rule::Positive },
            Check { name: "hpwh: uniform_energy_factor", value: self.uniform_energy_factor, rule: Rule::Positive },
            Check { name: "hpwh: shr", value: self.shr, rule: Rule::Within { min: Double::zero(), max: Double::one() } },
            Check { name: "hpwh: lost_heat_fraction", value: self.lost_heat_fraction, rule: Rule::Within { min: Double::zero(), max: Double::one() } },
        ];
        assert(checks@ =~= self.spec_checks());
        checks
    }

    pub fn equipment_type_name() -> (name: &'static str)
        ensures
            name == "Heat Pump Water Heater",
    {
        "Heat Pump Water Heater"
    }

    /// Check every given number against its limits.
    pub fn validate(&self) -> (r: Result<()>)
        ensures
            r == crate::checks::outcome(self.fault()),
    {
        run_checks(self.checks().as_slice())?;
        check_curve("hpwh: cop_curve_coeffs", &self.cop_curve_coeffs)?;
        check_curve("hpwh: capacity_curve_coeffs", &self.capacity_curve_coeffs)
    }
}

} // verus!
