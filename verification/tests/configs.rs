//! Tests of the typed configurations and their limits.
use hares_water_heater::error::{Fault, HaresError};
use hares_water_heater::types::FuelType;
use hares_water_heater::water_heater_config;
use hares_water_heater::wh_config::{
    ElectricResistanceWaterHeaterConfig, GasWaterHeaterConfig, HeatPumpWaterHeaterConfig,
    IndirectTankConfig, TanklessWaterHeaterConfig,
};
use hares_water_heater::Double;

fn d(x: f64) -> Double {
    Double { bits: x.to_bits() }
}

fn some(x: f64) -> Option<Double> {
    Some(d(x))
}

fn gas_wh() -> GasWaterHeaterConfig {
    GasWaterHeaterConfig {
        equipment_id: None,
        zone_id: None,
        loop_id: None,
        fuel_type: FuelType::Gas,
        tank_volume_m3: None,
        tank_height_m: None,
        energy_factor: None,
        uniform_energy_factor: None,
        heating_capacity_w: None,
        ua_w_per_k: None,
        setpoint_c: None,
        deadband_c: None,
        max_tank_temp_c: None,
        initial_tank_temp_c: None,
        tank_nodes: None,
        avg_water_draw_l_per_day: None,
        draw_flow_rate_kg_s: None,
        draw_flow_rate_source: None,
        mains_temp_c_source: None,
        pilot_power_w: None,
        flue_loss_fraction: None,
        skin_loss_fraction: None,
        ignition_type: None,
        performance_adjustment: None,
        zone_type: None,
        first_hour_rating_m3: None,
        jacket_r_value_m2_k_w: None,
        conversion_efficiency: None,
        fixture_delivery_temp_c: None,
        hot_draw_temp_c: None,
        pilot_fraction_to_tank: None,
        fan_power_w: None,
    }
}

fn resistance_wh() -> ElectricResistanceWaterHeaterConfig {
    ElectricResistanceWaterHeaterConfig {
        equipment_id: None,
        zone_id: None,
        loop_id: None,
        tank_volume_m3: None,
        tank_height_m: None,
        energy_factor: None,
        uniform_energy_factor: None,
        heating_capacity_w: None,
        ua_w_per_k: None,
        setpoint_c: None,
        deadband_c: None,
        max_tank_temp_c: None,
        initial_tank_temp_c: None,
        tank_nodes: None,
        avg_water_draw_l_per_day: None,
        draw_flow_rate_kg_s: None,
        draw_flow_rate_source: None,
        mains_temp_c_source: None,
        performance_adjustment: None,
        zone_type: None,
        first_hour_rating_m3: None,
        element_power_w: None,
        max_setpoint_ramp_rate_c_per_min: None,
        element_priority_mode: None,
        jacket_r_value_m2_k_w: None,
        max_combined_power_w: None,
        fixture_delivery_temp_c: None,
        hot_draw_temp_c: None,
    }
}

fn hpwh() -> HeatPumpWaterHeaterConfig {
    HeatPumpWaterHeaterConfig {
        equipment_id: None,
        zone_id: None,
        loop_id: None,
        tank_volume_m3: None,
        tank_height_m: None,
        cop: None,
        backup_element_power_w: None,
        ua_w_per_k: None,
        setpoint_c: None,
        deadband_c: None,
        max_tank_temp_c: None,
        initial_tank_temp_c: None,
        tank_nodes: None,
        tempering_valve_setpoint_c: None,
        avg_water_draw_l_per_day: None,
        draw_flow_rate_kg_s: None,
        compressor_power_w: None,
        backup_enable_offset_c: None,
        min_ambient_temp_c: None,
        max_ambient_temp_c: None,
        min_on_time_s: None,
        min_off_time_s: None,
        hp_only_mode: None,
        element_hp_control_mode: None,
        fan_power_w: None,
        parasitic_power_w: None,
        backup_efficiency: None,
        shr: None,
        lost_heat_fraction: None,
        wall_heat_fraction: None,
        capacity_biquadratic_coeffs: None,
        cop_biquadratic_coeffs: None,
        performance_adjustment: None,
        zone_type: None,
        first_hour_rating_m3: None,
        jacket_r_value_m2_k_w: None,
        fixture_delivery_temp_c: None,
        low_power_hpwh: None,
        uniform_energy_factor: None,
    }
}

fn indirect_tank() -> IndirectTankConfig {
    IndirectTankConfig {
        equipment_id: None,
        zone_id: None,
        boiler_loop_id: None,
        tank_volume_m3: None,
        tank_height_m: None,
        ua_w_per_k: None,
        hx_ua_w_per_k: None,
        setpoint_c: None,
        deadband_c: None,
        max_tank_temp_c: None,
        initial_tank_temp_c: None,
        tank_nodes: None,
        draw_flow_rate_kg_s: None,
        avg_water_draw_l_per_day: None,
        draw_flow_rate_source: None,
        mains_temp_c_source: None,
        performance_adjustment: None,
        zone_type: None,
        first_hour_rating_m3: None,
        jacket_r_value_m2_k_w: None,
        fixture_delivery_temp_c: None,
        hot_draw_temp_c: None,
        boiler_loop_flow_rate_kg_s: None,
    }
}

fn tankless_wh() -> TanklessWaterHeaterConfig {
    TanklessWaterHeaterConfig {
        equipment_id: None,
        zone_id: None,
        loop_id: None,
        fuel_type: FuelType::Gas,
        energy_factor: None,
        uniform_energy_factor: None,
        heating_capacity_w: None,
        setpoint_c: None,
        parasitic_power_w: None,
        performance_adjustment: None,
        inlet_temp_c: None,
        draw_flow_rate_kg_s: None,
        draw_flow_rate_source: None,
        mains_temp_c_source: None,
        avg_water_draw_l_per_day: None,
        zone_type: None,
        min_flow_kg_s: None,
        min_flow_gpm: None,
    }
}

fn gas_wh_with_deadband(deadband_c: Option<Double>) -> GasWaterHeaterConfig {
    GasWaterHeaterConfig { deadband_c, ..gas_wh() }
}

fn resistance_wh_with_deadband(deadband_c: Option<Double>) -> ElectricResistanceWaterHeaterConfig {
    ElectricResistanceWaterHeaterConfig { deadband_c, ..resistance_wh() }
}

fn hpwh_with_deadband(deadband_c: Option<Double>) -> HeatPumpWaterHeaterConfig {
    HeatPumpWaterHeaterConfig { deadband_c, ..hpwh() }
}

fn indirect_tank_with_deadband(deadband_c: Option<Double>) -> IndirectTankConfig {
    IndirectTankConfig { deadband_c, ..indirect_tank() }
}

fn gas_wh_with_ua(ua_w_per_k: Option<Double>) -> GasWaterHeaterConfig {
    GasWaterHeaterConfig { ua_w_per_k, ..gas_wh() }
}

fn resistance_wh_with_ua(ua_w_per_k: Option<Double>) -> ElectricResistanceWaterHeaterConfig {
    ElectricResistanceWaterHeaterConfig { ua_w_per_k, ..resistance_wh() }
}

fn hpwh_with_ua(ua_w_per_k: Option<Double>) -> HeatPumpWaterHeaterConfig {
    HeatPumpWaterHeaterConfig { ua_w_per_k, ..hpwh() }
}

fn indirect_tank_with_ua(ua_w_per_k: Option<Double>) -> IndirectTankConfig {
    IndirectTankConfig { ua_w_per_k, ..indirect_tank() }
}

fn indirect_tank_with_hx_ua(hx_ua_w_per_k: Option<Double>) -> IndirectTankConfig {
    IndirectTankConfig { hx_ua_w_per_k, ..indirect_tank() }
}

fn gas_wh_with_setpoint(setpoint_c: Option<Double>) -> GasWaterHeaterConfig {
    GasWaterHeaterConfig { setpoint_c, ..gas_wh() }
}

fn resistance_wh_with_setpoint(setpoint_c: Option<Double>) -> ElectricResistanceWaterHeaterConfig {
    ElectricResistanceWaterHeaterConfig { setpoint_c, ..resistance_wh() }
}

fn hpwh_with_setpoint(setpoint_c: Option<Double>) -> HeatPumpWaterHeaterConfig {
    HeatPumpWaterHeaterConfig { setpoint_c, ..hpwh() }
}

fn indirect_tank_with_setpoint(setpoint_c: Option<Double>) -> IndirectTankConfig {
    IndirectTankConfig { setpoint_c, ..indirect_tank() }
}

fn gas_wh_with_sp_max_db(
    setpoint_c: Option<Double>,
    max_tank_temp_c: Option<Double>,
    deadband_c: Option<Double>,
) -> GasWaterHeaterConfig {
    GasWaterHeaterConfig { setpoint_c, max_tank_temp_c, deadband_c, ..gas_wh() }
}

fn resistance_wh_with_sp_max_db(
    setpoint_c: Option<Double>,
    max_tank_temp_c: Option<Double>,
    deadband_c: Option<Double>,
) -> ElectricResistanceWaterHeaterConfig {
    ElectricResistanceWaterHeaterConfig { setpoint_c, max_tank_temp_c, deadband_c, ..resistance_wh() }
}

fn hpwh_with_sp_max_db(
    setpoint_c: Option<Double>,
    max_tank_temp_c: Option<Double>,
    deadband_c: Option<Double>,
) -> HeatPumpWaterHeaterConfig {
    HeatPumpWaterHeaterConfig { setpoint_c, max_tank_temp_c, deadband_c, ..hpwh() }
}

fn indirect_tank_with_sp_max_db(
    setpoint_c: Option<Double>,
    max_tank_temp_c: Option<Double>,
    deadband_c: Option<Double>,
) -> IndirectTankConfig {
    IndirectTankConfig { setpoint_c, max_tank_temp_c, deadband_c, ..indirect_tank() }
}

#[test]
fn deadband_zero_rejected_for_storage_water_heaters() {
    assert!(gas_wh_with_deadband(some(0.0)).validate().is_err());
    assert!(resistance_wh_with_deadband(some(0.0)).validate().is_err());
    assert!(hpwh_with_deadband(some(0.0)).validate().is_err());
    assert!(indirect_tank_with_deadband(some(0.0)).validate().is_err());
}

#[test]
fn deadband_negative_rejected_for_storage_water_heaters() {
    assert!(gas_wh_with_deadband(some(-1.0)).validate().is_err());
    assert!(resistance_wh_with_deadband(some(-1.0)).validate().is_err());
    assert!(hpwh_with_deadband(some(-1.0)).validate().is_err());
    assert!(indirect_tank_with_deadband(some(-1.0)).validate().is_err());
}

#[test]
fn deadband_positive_accepted_for_storage_water_heaters() {
    assert!(gas_wh_with_deadband(some(5.56)).validate().is_ok());
    assert!(resistance_wh_with_deadband(some(5.56)).validate().is_ok());
    assert!(hpwh_with_deadband(some(5.56)).validate().is_ok());
    assert!(indirect_tank_with_deadband(some(5.56)).validate().is_ok());
}

#[test]
fn deadband_none_still_accepted() {
    assert!(gas_wh_with_deadband(None).validate().is_ok());
    assert!(resistance_wh_with_deadband(None).validate().is_ok());
    assert!(hpwh_with_deadband(None).validate().is_ok());
    assert!(indirect_tank_with_deadband(None).validate().is_ok());
}

#[test]
fn ua_zero_rejected_for_storage_water_heaters() {
    assert!(gas_wh_with_ua(some(0.0)).validate().is_err());
    assert!(resistance_wh_with_ua(some(0.0)).validate().is_err());
    assert!(hpwh_with_ua(some(0.0)).validate().is_err());
    assert!(indirect_tank_with_ua(some(0.0)).validate().is_err());
    assert!(indirect_tank_with_hx_ua(some(0.0)).validate().is_err());
}

#[test]
fn ua_negative_rejected_for_storage_water_heaters() {
    assert!(gas_wh_with_ua(some(-1.0)).validate().is_err());
    assert!(resistance_wh_with_ua(some(-1.0)).validate().is_err());
    assert!(hpwh_with_ua(some(-1.0)).validate().is_err());
    assert!(indirect_tank_with_ua(some(-1.0)).validate().is_err());
    assert!(indirect_tank_with_hx_ua(some(-1.0)).validate().is_err());
}

#[test]
fn ua_positive_accepted_for_storage_water_heaters() {
    assert!(gas_wh_with_ua(some(2.0)).validate().is_ok());
    assert!(resistance_wh_with_ua(some(2.0)).validate().is_ok());
    assert!(hpwh_with_ua(some(2.0)).validate().is_ok());
    assert!(indirect_tank_with_ua(some(2.0)).validate().is_ok());
    assert!(indirect_tank_with_hx_ua(some(2.0)).validate().is_ok());
}

#[test]
fn setpoint_within_range_accepted() {
    for sp in [40.0, 51.67, 60.0, 85.0] {
        assert!(gas_wh_with_setpoint(some(sp)).validate().is_ok());
        assert!(resistance_wh_with_setpoint(some(sp)).validate().is_ok());
        assert!(hpwh_with_setpoint(some(sp)).validate().is_ok());
        assert!(indirect_tank_with_setpoint(some(sp)).validate().is_ok());
    }
}

#[test]
fn setpoint_below_range_rejected() {
    for sp in [39.0, 0.0, -273.15] {
        assert!(gas_wh_with_setpoint(some(sp)).validate().is_err());
        assert!(resistance_wh_with_setpoint(some(sp)).validate().is_err());
        assert!(hpwh_with_setpoint(some(sp)).validate().is_err());
        assert!(indirect_tank_with_setpoint(some(sp)).validate().is_err());
    }
}

#[test]
fn setpoint_above_range_rejected() {
    for sp in [86.0, 100.0] {
        assert!(gas_wh_with_setpoint(some(sp)).validate().is_err());
        assert!(resistance_wh_with_setpoint(some(sp)).validate().is_err());
        assert!(hpwh_with_setpoint(some(sp)).validate().is_err());
        assert!(indirect_tank_with_setpoint(some(sp)).validate().is_err());
    }
}

#[test]
fn setpoint_non_finite_rejected() {
    for sp in [f64::NAN, f64::INFINITY, f64::NEG_INFINITY] {
        assert!(gas_wh_with_setpoint(some(sp)).validate().is_err());
        assert!(resistance_wh_with_setpoint(some(sp)).validate().is_err());
        assert!(hpwh_with_setpoint(some(sp)).validate().is_err());
        assert!(indirect_tank_with_setpoint(some(sp)).validate().is_err());
    }
}

#[test]
fn setpoint_none_accepted() {
    assert!(gas_wh_with_setpoint(None).validate().is_ok());
    assert!(resistance_wh_with_setpoint(None).validate().is_ok());
    assert!(hpwh_with_setpoint(None).validate().is_ok());
    assert!(indirect_tank_with_setpoint(None).validate().is_ok());
}

#[test]
fn setpoint_above_max_tank_temp_rejected() {
    assert!(gas_wh_with_sp_max_db(some(70.0), some(60.0), None).validate().is_err());
    assert!(resistance_wh_with_sp_max_db(some(70.0), some(60.0), None).validate().is_err());
    assert!(hpwh_with_sp_max_db(some(70.0), some(60.0), None).validate().is_err());
    assert!(indirect_tank_with_sp_max_db(some(70.0), some(60.0), None).validate().is_err());
}

#[test]
fn setpoint_equal_to_max_tank_temp_rejected() {
    assert!(gas_wh_with_sp_max_db(some(60.0), some(60.0), None).validate().is_err());
    assert!(resistance_wh_with_sp_max_db(some(60.0), some(60.0), None).validate().is_err());
    assert!(hpwh_with_sp_max_db(some(60.0), some(60.0), None).validate().is_err());
    assert!(indirect_tank_with_sp_max_db(some(60.0), some(60.0), None).validate().is_err());
}

#[test]
fn setpoint_at_max_minus_deadband_rejected() {
    assert!(gas_wh_with_sp_max_db(some(55.0), some(60.0), some(5.0)).validate().is_err());
    assert!(resistance_wh_with_sp_max_db(some(55.0), some(60.0), some(5.0)).validate().is_err());
    assert!(hpwh_with_sp_max_db(some(55.0), some(60.0), some(5.0)).validate().is_err());
    assert!(indirect_tank_with_sp_max_db(some(55.0), some(60.0), some(5.0)).validate().is_err());
}

#[test]
fn setpoint_below_max_minus_deadband_accepted() {
    assert!(gas_wh_with_sp_max_db(some(54.9), some(60.0), some(5.0)).validate().is_ok());
    assert!(resistance_wh_with_sp_max_db(some(54.9), some(60.0), some(5.0)).validate().is_ok());
    assert!(hpwh_with_sp_max_db(some(54.9), some(60.0), some(5.0)).validate().is_ok());
    assert!(indirect_tank_with_sp_max_db(some(54.9), some(60.0), some(5.0)).validate().is_ok());
}

#[test]
fn setpoint_below_max_no_deadband_accepted() {
    assert!(gas_wh_with_sp_max_db(some(55.0), some(60.0), None).validate().is_ok());
    assert!(resistance_wh_with_sp_max_db(some(55.0), some(60.0), None).validate().is_ok());
    assert!(hpwh_with_sp_max_db(some(55.0), some(60.0), None).validate().is_ok());
    assert!(indirect_tank_with_sp_max_db(some(55.0), some(60.0), None).validate().is_ok());
}

// ---------------------------------------------------------------------------
// Configurations by column and node
// ---------------------------------------------------------------------------

fn minimal_gas_wh() -> water_heater_config::GasWaterHeaterConfig {
    water_heater_config::GasWaterHeaterConfig {
        equipment_id: None,
        zone_id: None,
        tank_volume_m3: some(0.189),
        tank_height_m: None,
        tank_diameter_m: None,
        ua_w_per_k: some(2.0),
        jacket_r_value_m2_k_w: None,
        tank_nodes: None,
        burner_node: None,
        setpoint_c: some(51.67),
        deadband_c: None,
        max_tank_temp_c: None,
        heating_capacity_w: some(11_000.0),
        burner_efficiency: some(0.78),
        flue_loss_fraction: None,
        ignition_type: None,
        pilot_power_w: None,
        fan_power_w: None,
        skin_loss_fraction: None,
        fuel_type: None,
        mains_temp_c: None,
        avg_water_draw_l_per_day: None,
        draw_flow_rate_kg_s: None,
        draw_flow_rate_schedule_col: None,
        mains_temp_schedule_col: None,
        zip_z: None,
        zip_i: None,
        zip_p: None,
        zip_zq: None,
        zip_iq: None,
        zip_pq: None,
        zip_pf: None,
        zip_v0: None,
    }
}

fn minimal_resistance_wh() -> water_heater_config::ElectricResistanceWaterHeaterConfig {
    water_heater_config::ElectricResistanceWaterHeaterConfig {
        equipment_id: None,
        zone_id: None,
        tank_volume_m3: some(0.189),
        tank_height_m: None,
        tank_diameter_m: None,
        ua_w_per_k: some(2.0),
        jacket_r_value_m2_k_w: None,
        tank_nodes: None,
        upper_element_node: None,
        lower_element_node: None,
        setpoint_c: some(51.67),
        deadband_c: None,
        max_tank_temp_c: None,
        heating_capacity_w: some(4_500.0),
        upper_element_power_w: None,
        lower_element_power_w: None,
        element_priority_mode: None,
        max_setpoint_ramp_rate_c_per_min: None,
        mains_temp_c: None,
        avg_water_draw_l_per_day: None,
        draw_flow_rate_kg_s: None,
        draw_flow_rate_schedule_col: None,
        mains_temp_schedule_col: None,
        zip_z: None,
        zip_i: None,
        zip_p: None,
        zip_zq: None,
        zip_iq: None,
        zip_pq: None,
        zip_pf: None,
        zip_v0: None,
    }
}

fn minimal_tankless_wh() -> water_heater_config::TanklessWaterHeaterConfig {
    water_heater_config::TanklessWaterHeaterConfig {
        equipment_id: None,
        zone_id: None,
        fuel_type: Some("Gas".to_string()),
        setpoint_c: some(51.67),
        efficiency_factor: some(0.9),
        performance_adjustment: some(0.92),
        max_thermal_power_w: some(20_000.0),
        parasitic_power_w: None,
        inlet_temp_c: None,
        avg_water_draw_l_per_day: None,
        draw_flow_rate_kg_s: None,
        zip_z: None,
        zip_i: None,
        zip_p: None,
        zip_zq: None,
        zip_iq: None,
        zip_pq: None,
        zip_pf: None,
        zip_v0: None,
    }
}

fn minimal_hpwh() -> water_heater_config::HeatPumpWaterHeaterConfig {
    water_heater_config::HeatPumpWaterHeaterConfig {
        equipment_id: None,
        zone_id: None,
        tank_volume_m3: some(0.189),
        tank_height_m: None,
        tank_diameter_m: None,
        ua_w_per_k: some(2.0),
        jacket_r_value_m2_k_w: None,
        tank_nodes: None,
        thermostat_node: None,
        thermostat_upper_node: None,
        condenser_node: None,
        setpoint_c: some(51.67),
        deadband_c: None,
        max_tank_temp_c: None,
        max_setpoint_ramp_rate_c_per_min: None,
        compressor_power_w: some(500.0),
        backup_element_power_w: some(4_500.0),
        backup_enable_offset_c: None,
        backup_efficiency: None,
        hp_only_mode: None,
        cop: some(3.5),
        uniform_energy_factor: None,
        cop_curve_coeffs: None,
        capacity_curve_coeffs: None,
        min_ambient_temp_c: None,
        max_ambient_temp_c: None,
        low_power_hpwh: None,
        shr: None,
        lost_heat_fraction: None,
        wall_heat_fraction: None,
        fan_power_w: None,
        parasitic_power_w: None,
        min_on_time_s: None,
        min_off_time_s: None,
        tempering_valve_setpoint_c: None,
        element_hp_control_mode: None,
        mains_temp_c: None,
        avg_water_draw_l_per_day: None,
        draw_flow_rate_kg_s: None,
        zip_z: None,
        zip_i: None,
        zip_p: None,
        zip_zq: None,
        zip_iq: None,
        zip_pq: None,
        zip_pf: None,
        zip_v0: None,
    }
}

#[test]
fn gas_wh_validate_rejects_zero_volume() {
    let mut cfg = minimal_gas_wh();
    cfg.tank_volume_m3 = some(0.0);
    assert!(cfg.validate().is_err());
}

#[test]
fn gas_wh_validate_rejects_out_of_range_efficiency() {
    let mut cfg = minimal_gas_wh();
    cfg.burner_efficiency = some(1.5);
    assert!(cfg.validate().is_err());
}

#[test]
fn gas_wh_validate_passes_for_valid_config() {
    assert!(minimal_gas_wh().validate().is_ok());
}

#[test]
fn resistance_wh_validate_passes_for_valid_config() {
    assert!(minimal_resistance_wh().validate().is_ok());
}

#[test]
fn tankless_wh_validate_rejects_negative_power() {
    let mut cfg = minimal_tankless_wh();
    cfg.max_thermal_power_w = some(-1.0);
    assert!(cfg.validate().is_err());
}

#[test]
fn tankless_wh_validate_passes_for_valid_config() {
    assert!(minimal_tankless_wh().validate().is_ok());
}

#[test]
fn hpwh_validate_rejects_negative_cop() {
    let mut cfg = minimal_hpwh();
    cfg.cop = some(-1.0);
    assert!(cfg.validate().is_err());
}

#[test]
fn hpwh_validate_rejects_wrong_curve_length() {
    let mut cfg = minimal_hpwh();
    cfg.cop_curve_coeffs = Some(vec![d(1.0), d(2.0), d(3.0)]);
    assert!(cfg.validate().is_err());
}

#[test]
fn hpwh_validate_passes_for_valid_config() {
    assert!(minimal_hpwh().validate().is_ok());
}

#[test]
fn hpwh_validate_rejects_zero_uef() {
    let mut cfg = minimal_hpwh();
    cfg.uniform_energy_factor = some(0.0);
    assert!(cfg.validate().is_err());
}

#[test]
fn hpwh_validate_rejects_negative_uef() {
    let mut cfg = minimal_hpwh();
    cfg.uniform_energy_factor = some(-1.5);
    assert!(cfg.validate().is_err());
}

// ---------------------------------------------------------------------------
// Faults
// ---------------------------------------------------------------------------

fn fault(r: Result<(), HaresError>) -> Fault {
    match r {
        Err(HaresError::Equipment(fault)) => fault,
        _ => panic!("expected a fault"),
    }
}

#[test]
fn a_full_configuration_is_accepted() {
    let cfg = GasWaterHeaterConfig {
        equipment_id: Some(7),
        zone_id: Some(2),
        loop_id: Some(3),
        fuel_type: FuelType::Propane,
        tank_volume_m3: some(0.189),
        tank_height_m: some(1.2),
        energy_factor: some(0.78),
        uniform_energy_factor: some(0.81),
        heating_capacity_w: some(11_000.0),
        ua_w_per_k: some(2.0),
        setpoint_c: some(51.67),
        avg_water_draw_l_per_day: some(227.0),
        pilot_power_w: some(5.0),
        flue_loss_fraction: some(0.1),
        performance_adjustment: some(0.92),
        zone_type: Some("conditioned".to_string()),
        first_hour_rating_m3: some(0.2),
        ..gas_wh()
    };
    assert!(cfg.validate().is_ok());

    let cfg = ElectricResistanceWaterHeaterConfig {
        tank_volume_m3: some(0.189),
        tank_height_m: some(1.2),
        energy_factor: some(0.92),
        uniform_energy_factor: some(0.95),
        heating_capacity_w: some(4_500.0),
        ua_w_per_k: some(2.0),
        setpoint_c: some(51.67),
        avg_water_draw_l_per_day: some(227.0),
        performance_adjustment: some(0.92),
        first_hour_rating_m3: some(0.2),
        element_power_w: some(4_500.0),
        max_setpoint_ramp_rate_c_per_min: some(3.0),
        max_combined_power_w: some(7_200.0),
        ..resistance_wh()
    };
    assert!(cfg.validate().is_ok());

    let cfg = TanklessWaterHeaterConfig {
        energy_factor: some(0.87),
        uniform_energy_factor: some(0.88),
        heating_capacity_w: some(20_000.0),
        setpoint_c: some(51.67),
        parasitic_power_w: some(7.38),
        performance_adjustment: some(0.92),
        avg_water_draw_l_per_day: some(227.0),
        ..tankless_wh()
    };
    assert!(cfg.validate().is_ok());

    let cfg = HeatPumpWaterHeaterConfig {
        tank_volume_m3: some(0.189),
        tank_height_m: some(1.2),
        cop: some(3.5),
        backup_element_power_w: some(4_500.0),
        ua_w_per_k: some(2.0),
        setpoint_c: some(51.67),
        tempering_valve_setpoint_c: some(51.67),
        avg_water_draw_l_per_day: some(227.0),
        performance_adjustment: some(0.92),
        first_hour_rating_m3: some(0.2),
        ..hpwh()
    };
    assert!(cfg.validate().is_ok());

    let cfg = IndirectTankConfig {
        tank_volume_m3: some(0.189),
        tank_height_m: some(1.2),
        ua_w_per_k: some(2.0),
        hx_ua_w_per_k: some(150.0),
        setpoint_c: some(51.67),
        avg_water_draw_l_per_day: some(227.0),
        performance_adjustment: some(0.92),
        first_hour_rating_m3: some(0.2),
        boiler_loop_flow_rate_kg_s: some(0.3),
        ..indirect_tank()
    };
    assert!(cfg.validate().is_ok());
}

#[test]
fn the_first_broken_limit_is_reported() {
    let cfg = GasWaterHeaterConfig {
        ua_w_per_k: some(-1.0),
        setpoint_c: some(10.0),
        ..gas_wh()
    };
    let found = fault(cfg.validate());
    assert!(matches!(found, Fault::OutOfLimits { name: "gas_wh: ua_w_per_k", .. }));
    let message = HaresError::Equipment(found).message();
    assert_eq!(message, "gas_wh: ua_w_per_k must be finite and > 0");
}

#[test]
fn every_kind_of_limit_has_its_message() {
    let m = |r: Result<(), HaresError>| r.unwrap_err().message();
    assert_eq!(
        m(GasWaterHeaterConfig { max_tank_temp_c: some(f64::NAN), ..gas_wh() }.validate()),
        "gas_wh: max_tank_temp_c must be finite"
    );
    assert_eq!(
        m(GasWaterHeaterConfig { heating_capacity_w: some(-1.0), ..gas_wh() }.validate()),
        "gas_wh: heating_capacity_w must be finite and >= 0"
    );
    assert_eq!(
        m(GasWaterHeaterConfig { flue_loss_fraction: some(1.5), ..gas_wh() }.validate()),
        "gas_wh: flue_loss_fraction must be finite and within its range"
    );
    assert_eq!(
        m(gas_wh_with_sp_max_db(some(60.0), some(60.0), None).validate()),
        "gas_wh: setpoint_c must be strictly less than max_tank_temp_c"
    );
    assert_eq!(
        m(gas_wh_with_sp_max_db(some(55.0), some(60.0), some(5.0)).validate()),
        "gas_wh: setpoint_c must be strictly less than max_tank_temp_c minus deadband_c"
    );
    let mut efficient = minimal_gas_wh();
    efficient.burner_efficiency = some(1.5);
    assert_eq!(
        m(efficient.validate()),
        "gas_wh: burner_efficiency must be finite and within (0, 1]"
    );
    let mut short = minimal_hpwh();
    short.cop_curve_coeffs = Some(vec![d(1.0)]);
    assert!(matches!(fault(short.validate()), Fault::CurveLength { .. }));
    let bounds = HeatPumpWaterHeaterConfig {
        min_ambient_temp_c: some(20.0),
        max_ambient_temp_c: some(10.0),
        ..hpwh()
    };
    assert_eq!(
        m(bounds.validate()),
        "hpwh: min_ambient_temp_c must be < max_ambient_temp_c"
    );
}

#[test]
fn typed_configurations_have_their_names() {
    assert_eq!(GasWaterHeaterConfig::equipment_type_name(), "Gas Water Heater");
    assert_eq!(
        ElectricResistanceWaterHeaterConfig::equipment_type_name(),
        "Electric Resistance Water Heater"
    );
    assert_eq!(HeatPumpWaterHeaterConfig::equipment_type_name(), "Heat Pump Water Heater");
    assert_eq!(TanklessWaterHeaterConfig::equipment_type_name(), "Tankless Water Heater");
}
