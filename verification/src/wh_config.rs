//! Typed configurations of the water heaters, and the limits that they must keep.
use vstd::prelude::*;

use crate::checks::{check_ambient_bounds, check_setpoint_vs_max_temp, run_checks, Check, Rule};
use crate::double::Double;
use crate::error::{Fault, Result};
use crate::types::{FuelType, ScheduleSource};

verus! {

/// A gas storage water heater.
#[derive(Debug)]
pub struct GasWaterHeaterConfig {
    pub equipment_id: Option<u32>,
    pub zone_id: Option<u16>,
    pub loop_id: Option<u16>,
    pub fuel_type: FuelType,
    pub tank_volume_m3: Option<Double>,
    pub tank_height_m: Option<Double>,
    pub energy_factor: Option<Double>,
    pub uniform_energy_factor: Option<Double>,
    pub heating_capacity_w: Option<Double>,
    pub ua_w_per_k: Option<Double>,
    pub setpoint_c: Option<Double>,
    pub deadband_c: Option<Double>,
    pub max_tank_temp_c: Option<Double>,
    pub initial_tank_temp_c: Option<Double>,
    pub tank_nodes: Option<u8>,
    pub avg_water_draw_l_per_day: Option<Double>,
    pub draw_flow_rate_kg_s: Option<Double>,
    pub draw_flow_rate_source: Option<ScheduleSource>,
    pub mains_temp_c_source: Option<ScheduleSource>,
    pub pilot_power_w: Option<Double>,
    pub flue_loss_fraction: Option<Double>,
    pub skin_loss_fraction: Option<Double>,
    pub ignition_type: Option<String>,
    pub performance_adjustment: Option<Double>,
    pub zone_type: Option<String>,
    pub first_hour_rating_m3: Option<Double>,
    pub jacket_r_value_m2_k_w: Option<Double>,
    pub conversion_efficiency: Option<Double>,
    /// Delivery temperature of the mixing valve for fixture draws (°C).
    pub fixture_delivery_temp_c: Option<Double>,
    /// Delivery temperature (°C) for appliances like dishwashers; the tank setpoint when `None`.
    pub hot_draw_temp_c: Option<Double>,
    /// Fraction of the standing pilot power that heats the tank water; the rest is lost to the zone.
    pub pilot_fraction_to_tank: Option<Double>,
    pub fan_power_w: Option<Double>,
}

impl GasWaterHeaterConfig {
    /// The limits that the numbers must keep, in the order in which they are checked.
    pub open spec fn spec_checks(&self) -> Seq<Check> {
        seq![
            Check { name: "gas_wh: tank_volume_m3", value: self.tank_volume_m3, rule: Rule::Positive },
            Check { name: "gas_wh: tank_height_m", value: self.tank_height_m, rule: Rule::Positive },
            Check { name: "gas_wh: energy_factor", value: self.energy_factor, rule: Rule::Within { min: Double::zero(), max: Double::ratio(3, 2) } },
            Check { name: "gas_wh: uniform_energy_factor", value: self.uniform_energy_factor, rule: Rule::Within { min: Double::zero(), max: Double::ratio(3, 2) } },
            Check { name: "gas_wh: heating_capacity_w", value: self.heating_capacity_w, rule: Rule::Nonnegative },
            Check { name: "gas_wh: ua_w_per_k", value: self.ua_w_per_k, rule: Rule::Positive },
            Check { name: "gas_wh: setpoint_c", value: self.setpoint_c, rule: Rule::Within { min: Double::whole(40), max: Double::whole(85) } },
            Check { name: "gas_wh: deadband_c", value: self.deadband_c, rule: Rule::Positive },
            Check { name: "gas_wh: max_tank_temp_c", value: self.max_tank_temp_c, rule: Rule::Finite },
            Check { name: "gas_wh: initial_tank_temp_c", value: self.initial_tank_temp_c, rule: Rule::Finite },
            Check { name: "gas_wh: avg_water_draw_l_per_day", value: self.avg_water_draw_l_per_day, rule: Rule::Nonnegative },
            Check { name: "gas_wh: draw_flow_rate_kg_s", value: self.draw_flow_rate_kg_s, rule: Rule::Nonnegative },
            Check { name: "gas_wh: pilot_power_w", value: self.pilot_power_w, rule: Rule::Nonnegative },
            Check { name: "gas_wh: fan_power_w", value: self.fan_power_w, rule: Rule::Nonnegative },
            Check { name: "gas_wh: flue_loss_fraction", value: self.flue_loss_fraction, rule: Rule::Within { min: Double::zero(), max: Double::one() } },
            Check { name: "gas_wh: skin_loss_fraction", value: self.skin_loss_fraction, rule: Rule::Within { min: Double::zero(), max: Double::one() } },
            Check { name: "gas_wh: performance_adjustment", value: self.performance_adjustment, rule: Rule::Within { min: Double::zero(), max: Double::one() } },
            Check { name: "gas_wh: first_hour_rating_m3", value: self.first_hour_rating_m3, rule: Rule::Nonnegative },
            Check { name: "gas_wh: jacket_r_value_m2_k_w", value: self.jacket_r_value_m2_k_w, rule: Rule::Nonnegative },
            Check { name: "gas_wh: conversion_efficiency", value: self.conversion_efficiency, rule: Rule::Within { min: Double::ratio(1, 100), max: Double::one() } },
            Check { name: "gas_wh: fixture_delivery_temp_c", value: self.fixture_delivery_temp_c, rule: Rule::Nonnegative },
            Check { name: "gas_wh: hot_draw_temp_c", value: self.hot_draw_temp_c, rule: Rule::Nonnegative },
            Check { name: "gas_wh: pilot_fraction_to_tank", value: self.pilot_fraction_to_tank, rule: Rule::Within { min: Double::zero(), max: Double::one() } },
        ]
    }

    /// The first limit that this configuration breaks.
    pub open spec fn fault(&self) -> Option<Fault> {
        crate::checks::first_of(
            crate::checks::first_fault(self.spec_checks(), 0),
            crate::checks::setpoint_fault("gas_wh", self.setpoint_c, self.max_tank_temp_c, self.deadband_c),
        )
    }

    fn checks(&self) -> (checks: Vec<Check>)
        ensures
            checks@ == self.spec_checks(),
    {
        let checks: Vec<Check> = vec![
            Check { name: "gas_wh: tank_volume_m3", value: self.tank_volume_m3, rule: Rule::Positive },
            Check { name: "gas_wh: tank_height_m", value: self.tank_height_m, rule: Rule::Positive },
            Check { name: "gas_wh: energy_factor", value: self.energy_factor, rule: Rule::Within { min: Double::zero(), max: Double::ratio(3, 2) } },
            Check { name: "gas_wh: uniform_energy_factor", value: self.uniform_energy_factor, rule: Rule::Within { min: Double::zero(), max: Double::ratio(3, 2) } },
            Check { name: "gas_wh: heating_capacity_w", value: self.heating_capacity_w, rule: Rule::Nonnegative },
            Check { name: "gas_wh: ua_w_per_k", value: self.ua_w_per_k, rule: Rule::Positive },
            Check { name: "gas_wh: setpoint_c", value: self.setpoint_c, rule: Rule::Within { min: Double::whole(40), max: Double::whole(85) } },
            Check { name: "gas_wh: deadband_c", value: self.deadband_c, rule: Rule::Positive },
            Check { name: "gas_wh: max_tank_temp_c", value: self.max_tank_temp_c, rule: Rule::Finite },
            Check { name: "gas_wh: initial_tank_temp_c", value: self.initial_tank_temp_c, rule: Rule::Finite },
            Check { name: "gas_wh: avg_water_draw_l_per_day", value: self.avg_water_draw_l_per_day, rule: Rule::Nonnegative },
            Check { name: "gas_wh: draw_flow_rate_kg_s", value: self.draw_flow_rate_kg_s, rule: Rule::Nonnegative },
            Check { name: "gas_wh: pilot_power_w", value: self.pilot_power_w, rule: Rule::Nonnegative },
            Check { name: "gas_wh: fan_power_w", value: self.fan_power_w, rule: Rule::Nonnegative },
            Check { name: "gas_wh: flue_loss_fraction", value: self.flue_loss_fraction, rule: Rule::Within { min: Double::zero(), max: Double::one() } },
            Check { name: "gas_wh: skin_loss_fraction", value: self.skin_loss_fraction, rule: Rule::Within { min: Double::zero(), max: Double::one() } },
            Check { name: "gas_wh: performance_adjustment", value: self.performance_adjustment, rule: Rule::Within { min: Double::zero(), max: Double::one() } },
            Check { name: "gas_wh: first_hour_rating_m3", value: self.first_hour_rating_m3, rule: Rule::Nonnegative },
            Check { name: "gas_wh: jacket_r_value_m2_k_w", value: self.jacket_r_value_m2_k_w, rule: Rule::Nonnegative },
            Check { name: "gas_wh: conversion_efficiency", value: self.conversion_efficiency, rule: Rule::Within { min: Double::ratio(1, 100), max: Double::one() } },
            Check { name: "gas_wh: fixture_delivery_temp_c", value: self.fixture_delivery_temp_c, rule: Rule::Nonnegative },
            Check { name: "gas_wh: hot_draw_temp_c", value: self.hot_draw_temp_c, rule: Rule::Nonnegative },
            Check { name: "gas_wh: pilot_fraction_to_tank", value: self.pilot_fraction_to_tank, rule: Rule::Within { min: Double::zero(), max: Double::one() } },
        ];
        assert(checks@ =~= self.spec_checks());
        checks
    }

    pub fn equipment_type_name() -> (name: &'static str)
        ensures
            name == "Gas Water Heater",
    {
        "Gas Water Heater"
    }

    /// Check every given number against its limits.
    pub fn validate(&self) -> (r: Result<()>)
        ensures
            r == crate::checks::outcome(self.fault()),
    {
        run_checks(self.checks().as_slice())?;
        check_setpoint_vs_max_temp(
            "gas_wh",
            self.setpoint_c,
            self.max_tank_temp_c,
            self.deadband_c,
        )
    }
}

/// An electric resistance storage water heater.
#[derive(Debug)]
pub struct ElectricResistanceWaterHeaterConfig {
    pub equipment_id: Option<u32>,
    pub zone_id: Option<u16>,
    pub loop_id: Option<u16>,
    pub tank_volume_m3: Option<Double>,
    pub tank_height_m: Option<Double>,
    pub energy_factor: Option<Double>,
    pub uniform_energy_factor: Option<Double>,
    pub heating_capacity_w: Option<Double>,
    pub ua_w_per_k: Option<Double>,
    pub setpoint_c: Option<Double>,
    pub deadband_c: Option<Double>,
    pub max_tank_temp_c: Option<Double>,
    pub initial_tank_temp_c: Option<Double>,
    pub tank_nodes: Option<u8>,
    pub avg_water_draw_l_per_day: Option<Double>,
    pub draw_flow_rate_kg_s: Option<Double>,
    pub draw_flow_rate_source: Option<ScheduleSource>,
    pub mains_temp_c_source: Option<ScheduleSource>,
    pub performance_adjustment: Option<Double>,
    pub zone_type: Option<String>,
    pub first_hour_rating_m3: Option<Double>,
    pub element_power_w: Option<Double>,
    pub max_setpoint_ramp_rate_c_per_min: Option<Double>,
    pub element_priority_mode: Option<String>,
    pub jacket_r_value_m2_k_w: Option<Double>,
    /// Maximum combined power of both elements (W) when they may run together.
    pub max_combined_power_w: Option<Double>,
    /// Delivery temperature of the mixing valve for fixture draws (°C).
    pub fixture_delivery_temp_c: Option<Double>,
    /// Delivery temperature (°C) for appliances like dishwashers; the tank setpoint when `None`.
    pub hot_draw_temp_c: Option<Double>,
}

impl ElectricResistanceWaterHeaterConfig {
    /// The limits that the numbers must keep, in the order in which they are checked.
    pub open spec fn spec_checks(&self) -> Seq<Check> {
        seq![
            Check { name: "resistance_wh: tank_volume_m3", value: self.tank_volume_m3, rule: Rule::Positive },
            Check { name: "resistance_wh: tank_height_m", value: self.tank_height_m, rule: Rule::Positive },
            Check { name: "resistance_wh: energy_factor", value: self.energy_factor, rule: Rule::Within { min: Double::zero(), max: Double::ratio(3, 2) } },
            Check { name: "resistance_wh: uniform_energy_factor", value: self.uniform_energy_factor, rule: Rule::Within { min: Double::zero(), max: Double::ratio(3, 2) } },
            Check { name: "resistance_wh: heating_capacity_w", value: self.heating_capacity_w, rule: Rule::Nonnegative },
            Check { name: "resistance_wh: ua_w_per_k", value: self.ua_w_per_k, rule: Rule::Positive },
            Check { name: "resistance_wh: setpoint_c", value: self.setpoint_c, rule: Rule::Within { min: Double::whole(40), max: Double::whole(85) } },
            Check { name: "resistance_wh: deadband_c", value: self.deadband_c, rule: Rule::Positive },
            Check { name: "resistance_wh: max_tank_temp_c", value: self.max_tank_temp_c, rule: Rule::Finite },
            Check { name: "resistance_wh: initial_tank_temp_c", value: self.initial_tank_temp_c, rule: Rule::Finite },
            Check { name: "resistance_wh: avg_water_draw_l_per_day", value: self.avg_water_draw_l_per_day, rule: Rule::Nonnegative },
            Check { name: "resistance_wh: draw_flow_rate_kg_s", value: self.draw_flow_rate_kg_s, rule: Rule::Nonnegative },
            Check { name: "resistance_wh: performance_adjustment", value: self.performance_adjustment, rule: Rule::Within { min: Double::zero(), max: Double::one() } },
            Check { name: "resistance_wh: first_hour_rating_m3", value: self.first_hour_rating_m3, rule: Rule::Nonnegative },
            Check { name: "resistance_wh: element_power_w", value: self.element_power_w, rule: Rule::Nonnegative },
            Check { name: "resistance_wh: max_setpoint_ramp_rate_c_per_min", value: self.max_setpoint_ramp_rate_c_per_min, rule: Rule::Nonnegative },
            Check { name: "resistance_wh: jacket_r_value_m2_k_w", value: self.jacket_r_value_m2_k_w, rule: Rule::Nonnegative },
            Check { name: "resistance_wh: max_combined_power_w", value: self.max_combined_power_w, rule: Rule::Positive },
            Check { name: "resistance_wh: fixture_delivery_temp_c", value: self.fixture_delivery_temp_c, rule: Rule::Nonnegative },
            Check { name: "resistance_wh: hot_draw_temp_c", value: self.hot_draw_temp_c, rule: Rule::Nonnegative },
        ]
    }

    /// The first limit that this configuration breaks.
    pub open spec fn fault(&self) -> Option<Fault> {
        crate::checks::first_of(
            crate::checks::first_fault(self.spec_checks(), 0),
            crate::checks::setpoint_fault("resistance_wh", self.setpoint_c, self.max_tank_temp_c, self.deadband_c),
        )
    }

    fn checks(&self) -> (checks: Vec<Check>)
        ensures
            checks@ == self.spec_checks(),
    {
        let checks: Vec<Check> = vec![
            Check { name: "resistance_wh: tank_volume_m3", value: self.tank_volume_m3, rule: Rule::Positive },
            Check { name: "resistance_wh: tank_height_m", value: self.tank_height_m, rule: Rule::Positive },
            Check { name: "resistance_wh: energy_factor", value: self.energy_factor, rule: Rule::Within { min: Double::zero(), max: Double::ratio(3, 2) } },
            Check { name: "resistance_wh: uniform_energy_factor", value: self.uniform_energy_factor, rule: Rule::Within { min: Double::zero(), max: Double::ratio(3, 2) } },
            Check { name: "resistance_wh: heating_capacity_w", value: self.heating_capacity_w, rule: Rule::Nonnegative },
            Check { name: "resistance_wh: ua_w_per_k", value: self.ua_w_per_k, rule: Rule::Positive },
            Check { name: "resistance_wh: setpoint_c", value: self.setpoint_c, rule: Rule::Within { min: Double::whole(40), max: Double::whole(85) } },
            Check { name: "resistance_wh: deadband_c", value: self.deadband_c, rule: Rule::Positive },
            Check { name: "resistance_wh: max_tank_temp_c", value: self.max_tank_temp_c, rule: Rule::Finite },
            Check { name: "resistance_wh: initial_tank_temp_c", value: self.initial_tank_temp_c, rule: Rule::Finite },
            Check { name: "resistance_wh: avg_water_draw_l_per_day", value: self.avg_water_draw_l_per_day, rule: Rule::Nonnegative },
            Check { name: "resistance_wh: draw_flow_rate_kg_s", value: self.draw_flow_rate_kg_s, rule: Rule::Nonnegative },
            Check { name: "resistance_wh: performance_adjustment", value: self.performance_adjustment, rule: Rule::Within { min: Double::zero(), max: Double::one() } },
            Check { name: "resistance_wh: first_hour_rating_m3", value: self.first_hour_rating_m3, rule: Rule::Nonnegative },
            Check { name: "resistance_wh: element_power_w", value: self.element_power_w, rule: Rule::Nonnegative },
            Check { name: "resistance_wh: max_setpoint_ramp_rate_c_per_min", value: self.max_setpoint_ramp_rate_c_per_min, rule: Rule::Nonnegative },
            Check { name: "resistance_wh: jacket_r_value_m2_k_w", value: self.jacket_r_value_m2_k_w, rule: Rule::Nonnegative },
            Check { name: "resistance_wh: max_combined_power_w", value: self.max_combined_power_w, rule: Rule::Positive },
            Check { name: "resistance_wh: fixture_delivery_temp_c", value: self.fixture_delivery_temp_c, rule: Rule::Nonnegative },
            Check { name: "resistance_wh: hot_draw_temp_c", value: self.hot_draw_temp_c, rule: Rule::Nonnegative },
        ];
        assert(checks@ =~= self.spec_checks());
        checks
    }

    pub fn equipment_type_name() -> (name: &'static str)
        ensures
            name == "Electric Resistance Water Heater",
    {
        "Electric Resistance Water Heater"
    }

    /// Check every given number against its limits.
    pub fn validate(&self) -> (r: Result<()>)
        ensures
            r == crate::checks::outcome(self.fault()),
    {
        run_checks(self.checks().as_slice())?;
        check_setpoint_vs_max_temp(
            "resistance_wh",
            self.setpoint_c,
            self.max_tank_temp_c,
            self.deadband_c,
        )
    }
}

/// A tankless (on-demand) water heater.
#[derive(Debug)]
pub struct TanklessWaterHeaterConfig {
    pub equipment_id: Option<u32>,
    pub zone_id: Option<u16>,
    pub loop_id: Option<u16>,
    pub fuel_type: FuelType,
    pub energy_factor: Option<Double>,
    pub uniform_energy_factor: Option<Double>,
    pub heating_capacity_w: Option<Double>,
    pub setpoint_c: Option<Double>,
    pub parasitic_power_w: Option<Double>,
    pub performance_adjustment: Option<Double>,
    pub inlet_temp_c: Option<Double>,
    pub draw_flow_rate_kg_s: Option<Double>,
    pub draw_flow_rate_source: Option<ScheduleSource>,
    pub mains_temp_c_source: Option<ScheduleSource>,
    pub avg_water_draw_l_per_day: Option<Double>,
    pub zone_type: Option<String>,
    /// Minimum flow [kg/s] below which the burner does not fire; 0 when `None`.
    pub min_flow_kg_s: Option<Double>,
    /// Minimum flow [US GPM], used only when `min_flow_kg_s` is `None`.
    pub min_flow_gpm: Option<Double>,
}

impl TanklessWaterHeaterConfig {
    /// The limits that the numbers must keep, in the order in which they are checked.
    pub open spec fn spec_checks(&self) -> Seq<Check> {
        seq![
            Check { name: "tankless_wh: energy_factor", value: self.energy_factor, rule: Rule::Within { min: Double::zero(), max: Double::ratio(3, 2) } },
            Check { name: "tankless_wh: uniform_energy_factor", value: self.uniform_energy_factor, rule: Rule::Within { min: Double::zero(), max: Double::ratio(3, 2) } },
            Check { name: "tankless_wh: heating_capacity_w", value: self.heating_capacity_w, rule: Rule::Nonnegative },
            Check { name: "tankless_wh: setpoint_c", value: self.setpoint_c, rule: Rule::Finite },
            Check { name: "tankless_wh: parasitic_power_w", value: self.parasitic_power_w, rule: Rule::Nonnegative },
            Check { name: "tankless_wh: inlet_temp_c", value: self.inlet_temp_c, rule: Rule::Finite },
            Check { name: "tankless_wh: draw_flow_rate_kg_s", value: self.draw_flow_rate_kg_s, rule: Rule::Nonnegative },
            Check { name: "tankless_wh: performance_adjustment", value: self.performance_adjustment, rule: Rule::Within { min: Double::zero(), max: Double::one() } },
            Check { name: "tankless_wh: avg_water_draw_l_per_day", value: self.avg_water_draw_l_per_day, rule: Rule::Nonnegative },
            Check { name: "tankless_wh: min_flow_kg_s", value: self.min_flow_kg_s, rule: Rule::Nonnegative },
            Check { name: "tankless_wh: min_flow_gpm", value: self.min_flow_gpm, rule: Rule::Nonnegative },
        ]
    }

    /// The first limit that this configuration breaks.
    pub open spec fn fault(&self) -> Option<Fault> {
        crate::checks::first_fault(self.spec_checks(), 0)
    }

    fn checks(&self) -> (checks: Vec<Check>)
        ensures
            checks@ == self.spec_checks(),
    {
        let checks: Vec<Check> = vec![
            Check { name: "tankless_wh: energy_factor", value: self.energy_factor, rule: Rule::Within { min: Double::zero(), max: Double::ratio(3, 2) } },
            Check { name: "tankless_wh: uniform_energy_factor", value: self.uniform_energy_factor, rule: Rule::Within { min: Double::zero(), max: Double::ratio(3, 2) } },
            Check { name: "tankless_wh: heating_capacity_w", value: self.heating_capacity_w, rule: Rule::Nonnegative },
            Check { name: "tankless_wh: setpoint_c", value: self.setpoint_c, rule: Rule::Finite },
            Check { name: "tankless_wh: parasitic_power_w", value: self.parasitic_power_w, rule: Rule::Nonnegative },
            Check { name: "tankless_wh: inlet_temp_c", value: self.inlet_temp_c, rule: Rule::Finite },
            Check { name: "tankless_wh: draw_flow_rate_kg_s", value: self.draw_flow_rate_kg_s, rule: Rule::Nonnegative },
            Check { name: "tankless_wh: performance_adjustment", value: self.performance_adjustment, rule: Rule::Within { min: Double::zero(), max: Double::one() } },
            Check { name: "tankless_wh: avg_water_draw_l_per_day", value: self.avg_water_draw_l_per_day, rule: Rule::Nonnegative },
            Check { name: "tankless_wh: min_flow_kg_s", value: self.min_flow_kg_s, rule: Rule::Nonnegative },
            Check { name: "tankless_wh: min_flow_gpm", value: self.min_flow_gpm, rule: Rule::Nonnegative },
        ];
        assert(checks@ =~= self.spec_checks());
        checks
    }

    pub fn equipment_type_name() -> (name: &'static str)
        ensures
            name == "Tankless Water Heater",
    {
        "Tankless Water Heater"
    }

    /// Check every given number against its limits.
    pub fn validate(&self) -> (r: Result<()>)
        ensures
            r == crate::checks::outcome(self.fault()),
    {
        run_checks(self.checks().as_slice())
    }
}

/// An indirect tank, heated by a boiler loop.
#[derive(Debug)]
pub struct IndirectTankConfig {
    pub equipment_id: Option<u32>,
    pub zone_id: Option<u16>,
    pub boiler_loop_id: Option<u16>,
    pub tank_volume_m3: Option<Double>,
    pub tank_height_m: Option<Double>,
    pub ua_w_per_k: Option<Double>,
    pub hx_ua_w_per_k: Option<Double>,
    pub setpoint_c: Option<Double>,
    pub deadband_c: Option<Double>,
    pub max_tank_temp_c: Option<Double>,
    pub initial_tank_temp_c: Option<Double>,
    pub tank_nodes: Option<u8>,
    pub draw_flow_rate_kg_s: Option<Double>,
    pub avg_water_draw_l_per_day: Option<Double>,
    pub draw_flow_rate_source: Option<ScheduleSource>,
    pub mains_temp_c_source: Option<ScheduleSource>,
    pub performance_adjustment: Option<Double>,
    pub zone_type: Option<String>,
    pub first_hour_rating_m3: Option<Double>,
    pub jacket_r_value_m2_k_w: Option<Double>,
    /// Delivery temperature of the mixing valve for fixture draws (°C).
    pub fixture_delivery_temp_c: Option<Double>,
    /// Delivery temperature (°C) for appliances like dishwashers; the tank setpoint when `None`.
    pub hot_draw_temp_c: Option<Double>,
    /// Assumed flow of the boiler loop [kg/s] for computing the return temperature.
    pub boiler_loop_flow_rate_kg_s: Option<Double>,
}

impl IndirectTankConfig {
    /// The limits that the numbers must keep, in the order in which they are checked.
    pub open spec fn spec_checks(&self) -> Seq<Check> {
        seq![
            Check { name: "indirect_tank: tank_volume_m3", value: self.tank_volume_m3, rule: Rule::Positive },
            Check { name: "indirect_tank: tank_height_m", value: self.tank_height_m, rule: Rule::Positive },
            Check { name: "indirect_tank: ua_w_per_k", value: self.ua_w_per_k, rule: Rule::Positive },
            Check { name: "indirect_tank: hx_ua_w_per_k", value: self.hx_ua_w_per_k, rule: Rule::Positive },
            Check { name: "indirect_tank: setpoint_c", value: self.setpoint_c, rule: Rule::Within { min: Double::whole(40), max: Double::whole(85) } },
            Check { name: "indirect_tank: deadband_c", value: self.deadband_c, rule: Rule::Positive },
            Check { name: "indirect_tank: max_tank_temp_c", value: self.max_tank_temp_c, rule: Rule::Finite },
            Check { name: "indirect_tank: initial_tank_temp_c", value: self.initial_tank_temp_c, rule: Rule::Finite },
            Check { name: "indirect_tank: draw_flow_rate_kg_s", value: self.draw_flow_rate_kg_s, rule: Rule::Nonnegative },
            Check { name: "indirect_tank: avg_water_draw_l_per_day", value: self.avg_water_draw_l_per_day, rule: Rule::Nonnegative },
            Check { name: "indirect_tank: performance_adjustment", value: self.performance_adjustment, rule: Rule::Within { min: Double::zero(), max: Double::one() } },
            Check { name: "indirect_tank: first_hour_rating_m3", value: self.first_hour_rating_m3, rule: Rule::Nonnegative },
            Check { name: "indirect_tank: jacket_r_value_m2_k_w", value: self.jacket_r_value_m2_k_w, rule: Rule::Nonnegative },
            Check { name: "indirect_tank: fixture_delivery_temp_c", value: self.fixture_delivery_temp_c, rule: Rule::Nonnegative },
            Check { name: "indirect_tank: hot_draw_temp_c", value: self.hot_draw_temp_c, rule: Rule::Nonnegative },
            Check { name: "indirect_tank: boiler_loop_flow_rate_kg_s", value: self.boiler_loop_flow_rate_kg_s, rule: Rule::Positive },
        ]
    }

    /// The first limit that this configuration breaks.
    pub open spec fn fault(&self) -> Option<Fault> {
        crate::checks::first_of(
            crate::checks::first_fault(self.spec_checks(), 0),
            crate::checks::setpoint_fault("indirect_tank", self.setpoint_c, self.max_tank_temp_c, self.deadband_c),
        )
    }

    fn checks(&self) -> (checks: Vec<Check>)
        ensures
            checks@ == self.spec_checks(),
    {
        let checks: Vec<Check> = vec![
            Check { name: "indirect_tank: tank_volume_m3", value: self.tank_volume_m3, rule: Rule::Positive },
            Check { name: "indirect_tank: tank_height_m", value: self.tank_height_m, rule: Rule::Positive },
            Check { name: "indirect_tank: ua_w_per_k", value: self.ua_w_per_k, rule: Rule::Positive },
            Check { name: "indirect_tank: hx_ua_w_per_k", value: self.hx_ua_w_per_k, rule: Rule::Positive },
            Check { name: "indirect_tank: setpoint_c", value: self.setpoint_c, rule: Rule::Within { min: Double::whole(40), max: Double::whole(85) } },
            Check { name: "indirect_tank: deadband_c", value: self.deadband_c, rule: Rule::Positive },
            Check { name: "indirect_tank: max_tank_temp_c", value: self.max_tank_temp_c, rule: Rule::Finite },
            Check { name: "indirect_tank: initial_tank_temp_c", value: self.initial_tank_temp_c, rule: Rule::Finite },
            Check { name: "indirect_tank: draw_flow_rate_kg_s", value: self.draw_flow_rate_kg_s, rule: Rule::Nonnegative },
            Check { name: "indirect_tank: avg_water_draw_l_per_day", value: self.avg_water_draw_l_per_day, rule: Rule::Nonnegative },
            Check { name: "indirect_tank: performance_adjustment", value: self.performance_adjustment, rule: Rule::Within { min: Double::zero(), max: Double::one() } },
            Check { name: "indirect_tank: first_hour_rating_m3", value: self.first_hour_rating_m3, rule: Rule::Nonnegative },
            Check { name: "indirect_tank: jacket_r_value_m2_k_w", value: self.jacket_r_value_m2_k_w, rule: Rule::Nonnegative },
            Check { name: "indirect_tank: fixture_delivery_temp_c", value: self.fixture_delivery_temp_c, rule: Rule::Nonnegative },
            Check { name: "indirect_tank: hot_draw_temp_c", value: self.hot_draw_temp_c, rule: Rule::Nonnegative },
            Check { name: "indirect_tank: boiler_loop_flow_rate_kg_s", value: self.boiler_loop_flow_rate_kg_s, rule: Rule::Positive },
        ];
        assert(checks@ =~= self.spec_checks());
        checks
    }

    pub fn equipment_type_name() -> (name: &'static str)
        ensures
            name == "Indirect Tank",
    {
        "Indirect Tank"
    }

    /// Check every given number against its limits.
    pub fn validate(&self) -> (r: Result<()>)
        ensures
            r == crate::checks::outcome(self.fault()),
    {
        run_checks(self.checks().as_slice())?;
        check_setpoint_vs_max_temp(
            "indirect_tank",
            self.setpoint_c,
            self.max_tank_temp_c,
            self.deadband_c,
        )
    }
}

/// A heat pump water heater.
#[derive(Debug)]
pub struct HeatPumpWaterHeaterConfig {
    pub equipment_id: Option<u32>,
    pub zone_id: Option<u16>,
    pub loop_id: Option<u16>,
    pub tank_volume_m3: Option<Double>,
    pub tank_height_m: Option<Double>,
    pub cop: Option<Double>,
    pub backup_element_power_w: Option<Double>,
    pub ua_w_per_k: Option<Double>,
    pub setpoint_c: Option<Double>,
    pub deadband_c: Option<Double>,
    pub max_tank_temp_c: Option<Double>,
    pub initial_tank_temp_c: Option<Double>,
    pub tank_nodes: Option<u8>,
    pub tempering_valve_setpoint_c: Option<Double>,
    pub avg_water_draw_l_per_day: Option<Double>,
    pub draw_flow_rate_kg_s: Option<Double>,
    pub compressor_power_w: Option<Double>,
    pub backup_enable_offset_c: Option<Double>,
    pub min_ambient_temp_c: Option<Double>,
    pub max_ambient_temp_c: Option<Double>,
    pub min_on_time_s: Option<Double>,
    pub min_off_time_s: Option<Double>,
    pub hp_only_mode: Option<bool>,
    pub element_hp_control_mode: Option<String>,
    pub fan_power_w: Option<Double>,
    pub parasitic_power_w: Option<Double>,
    pub backup_efficiency: Option<Double>,
    pub shr: Option<Double>,
    pub lost_heat_fraction: Option<Double>,
    pub wall_heat_fraction: Option<Double>,
    pub capacity_biquadratic_coeffs: Option<[Double; 6]>,
    pub cop_biquadratic_coeffs: Option<[Double; 6]>,
    pub performance_adjustment: Option<Double>,
    pub zone_type: Option<String>,
    pub first_hour_rating_m3: Option<Double>,
    pub jacket_r_value_m2_k_w: Option<Double>,
    /// Delivery temperature of the mixing valve for fixture draws (°C).
    pub fixture_delivery_temp_c: Option<Double>,
    /// Whether this is a low-power unit; decided from `uniform_energy_factor` when `None`.
    pub low_power_hpwh: Option<bool>,
    pub uniform_energy_factor: Option<Double>,
}

impl HeatPumpWaterHeaterConfig {
    /// The limits that the numbers must keep, in the order in which they are checked.
    pub open spec fn spec_checks(&self) -> Seq<Check> {
        seq![
            Check { name: "hpwh: tank_volume_m3", value: self.tank_volume_m3, rule: Rule::Positive },
            Check { name: "hpwh: tank_height_m", value: self.tank_height_m, rule: Rule::Positive },
            Check { name: "hpwh: cop", value: self.cop, rule: Rule::Positive },
            Check { name: "hpwh: backup_element_power_w", value: self.backup_element_power_w, rule: Rule::Nonnegative },
            Check { name: "hpwh: ua_w_per_k", value: self.ua_w_per_k, rule: Rule::Positive },
            Check { name: "hpwh: setpoint_c", value: self.setpoint_c, rule: Rule::Within { min: Double::whole(40), max: Double::whole(85) } },
            Check { name: "hpwh: deadband_c", value: self.deadband_c, rule: Rule::Positive },
            Check { name: "hpwh: max_tank_temp_c", value: self.max_tank_temp_c, rule: Rule::Finite },
            Check { name: "hpwh: initial_tank_temp_c", value: self.initial_tank_temp_c, rule: Rule::Finite },
            Check { name: "hpwh: tempering_valve_setpoint_c", value: self.tempering_valve_setpoint_c, rule: Rule::Finite },
            Check { name: "hpwh: avg_water_draw_l_per_day", value: self.avg_water_draw_l_per_day, rule: Rule::Nonnegative },
            Check { name: "hpwh: draw_flow_rate_kg_s", value: self.draw_flow_rate_kg_s, rule: Rule::Nonnegative },
            Check { name: "hpwh: compressor_power_w", value: self.compressor_power_w, rule: Rule::Nonnegative },
            Check { name: "hpwh: backup_enable_offset_c", value: self.backup_enable_offset_c, rule: Rule::Nonnegative },
            Check { name: "hpwh: min_on_time_s", value: self.min_on_time_s, rule: Rule::Nonnegative },
            Check { name: "hpwh: min_off_time_s", value: self.min_off_time_s, rule: Rule::Nonnegative },
            Check { name: "hpwh: fan_power_w", value: self.fan_power_w, rule: Rule::Nonnegative },
            Check { name: "hpwh: parasitic_power_w", value: self.parasitic_power_w, rule: Rule::Nonnegative },
            Check { name: "hpwh: backup_efficiency", value: self.backup_efficiency, rule: Rule::Within { min: Double::zero(), max: Double::one() } },
            Check { name: "hpwh: shr", value: self.shr, rule: Rule::Within { min: Double::zero(), max: Double::one() } },
            Check { name: "hpwh: lost_heat_fraction", value: self.lost_heat_fraction, rule: Rule::Within { min: Double::zero(), max: Double::one() } },
            Check { name: "hpwh: wall_heat_fraction", value: self.wall_heat_fraction, rule: Rule::Within { min: Double::zero(), max: Double::one() } },
            Check { name: "hpwh: performance_adjustment", value: self.performance_adjustment, rule: Rule::Within { min: Double::zero(), max: Double::one() } },
            Check { name: "hpwh: first_hour_rating_m3", value: self.first_hour_rating_m3, rule: Rule::Nonnegative },
            Check { name: "hpwh: jacket_r_value_m2_k_w", value: self.jacket_r_value_m2_k_w, rule: Rule::Nonnegative },
            Check { name: "hpwh: fixture_delivery_temp_c", value: self.fixture_delivery_temp_c, rule: Rule::Nonnegative },
            Check { name: "hpwh: uniform_energy_factor", value: self.uniform_energy_factor, rule: Rule::Positive },
        ]
    }

    /// The first limit that this configuration breaks.
    pub open spec fn fault(&self) -> Option<Fault> {
        crate::checks::first_of(
            crate::checks::first_fault(self.spec_checks(), 0),
            crate::checks::first_of(
                crate::checks::ambient_fault(self.min_ambient_temp_c, self.max_ambient_temp_c),
                crate::checks::setpoint_fault("hpwh", self.setpoint_c, self.max_tank_temp_c, self.deadband_c),
            ),
        )
    }

    fn checks(&self) -> (checks: Vec<Check>)
        ensures
            checks@ == self.spec_checks(),
    {
        let checks: Vec<Check> = vec![
            Check { name: "hpwh: tank_volume_m3", value: self.tank_volume_m3, rule: Rule::Positive },
            Check { name: "hpwh: tank_height_m", value: self.tank_height_m, rule: Rule::Positive },
            Check { name: "hpwh: cop", value: self.cop, rule: Rule::Positive },
            Check { name: "hpwh: backup_element_power_w", value: self.backup_element_power_w, rule: Rule::Nonnegative },
            Check { name: "hpwh: ua_w_per_k", value: self.ua_w_per_k, rule: Rule::Positive },
            Check { name: "hpwh: setpoint_c", value: self.setpoint_c, rule: Rule::Within { min: Double::whole(40), max: Double::whole(85) } },
            Check { name: "hpwh: deadband_c", value: self.deadband_c, rule: Rule::Positive },
            Check { name: "hpwh: max_tank_temp_c", value: self.max_tank_temp_c, rule: Rule::Finite },
            Check { name: "hpwh: initial_tank_temp_c", value: self.initial_tank_temp_c, rule: Rule::Finite },
            Check { name: "hpwh: tempering_valve_setpoint_c", value: self.tempering_valve_setpoint_c, rule: Rule::Finite },
            Check { name: "hpwh: avg_water_draw_l_per_day", value: self.avg_water_draw_l_per_day, rule: Rule::Nonnegative },
            Check { name: "hpwh: draw_flow_rate_kg_s", value: self.draw_flow_rate_kg_s, rule: Rule::Nonnegative },
            Check { name: "hpwh: compressor_power_w", value: self.compressor_power_w, rule: Rule::Nonnegative },
            Check { name: "hpwh: backup_enable_offset_c", value: self.backup_enable_offset_c, rule: Rule::Nonnegative },
            Check { name: "hpwh: min_on_time_s", value: self.min_on_time_s, rule: Rule::Nonnegative },
            Check { name: "hpwh: min_off_time_s", value: self.min_off_time_s, rule: Rule::Nonnegative },
            Check { name: "hpwh: fan_power_w", value: self.fan_power_w, rule: Rule::Nonnegative },
            Check { name: "hpwh: parasitic_power_w", value: self.parasitic_power_w, rule: Rule::Nonnegative },
            Check { name: "hpwh: backup_efficiency", value: self.backup_efficiency, rule: Rule::Within { min: Double::zero(), max: Double::one() } },
            Check { name: "hpwh: shr", value: self.shr, rule: Rule::Within { min: Double::zero(), max: Double::one() } },
            Check { name: "hpwh: lost_heat_fraction", value: self.lost_heat_fraction, rule: Rule::Within { min: Double::zero(), max: Double::one() } },
            Check { name: "hpwh: wall_heat_fraction", value: self.wall_heat_fraction, rule: Rule::Within { min: Double::zero(), max: Double::one() } },
            Check { name: "hpwh: performance_adjustment", value: self.performance_adjustment, rule: Rule::Within { min: Double::zero(), max: Double::one() } },
            Check { name: "hpwh: first_hour_rating_m3", value: self.first_hour_rating_m3, rule: Rule::Nonnegative },
            Check { name: "hpwh: jacket_r_value_m2_k_w", value: self.jacket_r_value_m2_k_w, rule: Rule::Nonnegative },
            Check { name: "hpwh: fixture_delivery_temp_c", value: self.fixture_delivery_temp_c, rule: Rule::Nonnegative },
            Check { name: "hpwh: uniform_energy_factor", value: self.uniform_energy_factor, rule: Rule::Positive },
        ];
        assert(checks@ =~= self.spec_checks());
        checks
    }

    pub fn equipment_type_name() -> (name: &'static str)
        ensures
            name == "Heat Pump Water Heater",
    {
        "Heat Pump Water Heater"
    }

    /// Check every given number against its limits.
    pub fn validate(&self) -> (r: Result<()>)
        ensures
            r == crate::checks::outcome(self.fault()),
    {
        run_checks(self.checks().as_slice())?;
        check_ambient_bounds(self.min_ambient_temp_c, self.max_ambient_temp_c)?;
        check_setpoint_vs_max_temp(
            "hpwh",
            self.setpoint_c,
            self.max_tank_temp_c,
            self.deadband_c,
        )
    }
}

} // verus!
