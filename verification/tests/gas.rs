//! Tests of the gas water heater.
use hares_water_heater::config::EquipmentConfig;
use hares_water_heater::error::{ControlFault, Fault, HaresError};
use hares_water_heater::gas::{
    default_burner_efficiency, default_pilot_power_w, default_skin_loss_fraction, uef_to_ef_gas,
    GasOutside,
};
use hares_water_heater::shared::{ScheduleReadings, DHW_DEMAND_LOOP};
use hares_water_heater::time::{CivilTime, Duration, TimeStep};
use hares_water_heater::types::{
    ActivePower, ControlSignal, DRLevel, EnvironmentState, FluidAccumulator, FuelType,
    OperatingMode, PortContribution, PortDeclaration, TelemetryKey, ZoneState,
};
use hares_water_heater::wh_config::GasWaterHeaterConfig;
use hares_water_heater::{Double, GasWH, StratifiedTank};

fn d(x: f64) -> Double {
    Double { bits: x.to_bits() }
}

fn f(x: Double) -> f64 {
    f64::from_bits(x.bits)
}

fn some(x: f64) -> Option<Double> {
    Some(d(x))
}

fn all(xs: &[Double]) -> Vec<f64> {
    xs.iter().map(|x| f(*x)).collect()
}

/// Water gets lighter as it gets warmer.
fn water_density(temp_c: f64) -> Double {
    d(1000.0 - 0.0178 * (temp_c - 4.0).abs().powf(1.7))
}

fn env(zone_temp_c: f64) -> EnvironmentState {
    EnvironmentState {
        time_res: TimeStep::seconds(60),
        current_time: CivilTime { unix_secs: 1_767_225_600, offset_secs: 0 },
        zones: vec![ZoneState {
            id: 1,
            temperature_c: d(zone_temp_c),
            wet_bulb_c: d(zone_temp_c - 6.0),
        }],
        outdoor_temp_c: d(10.0),
        mains_temp_c: None,
        custom_domains: vec![],
        voltage_pu: d(1.0),
        bus_voltage_pu: d(1.0),
        bus_energized: true,
    }
}

fn untyped(name: &str) -> EquipmentConfig {
    EquipmentConfig {
        name: name.to_string(),
        equipment_id: None,
        zone_id: Some(1),
        loop_id: Some(1),
        values: vec![],
    }
}

/// What a step gave to the ports.
#[derive(Debug, Default)]
struct Ports {
    fuel_w: f64,
    electric_w: f64,
    reactive_kvar: f64,
    sensible_w: f64,
    latent_w: f64,
    flow_kg_s: f64,
    supply_temp_c: f64,
}

fn take(contributions: &[PortContribution]) -> Ports {
    let mut ports = Ports::default();
    for contribution in contributions {
        match *contribution {
            PortContribution::Fuel { consumption_w, .. } => ports.fuel_w += f(consumption_w),
            PortContribution::Electrical { active_power, reactive_power_kvar } => {
                ports.electric_w += match active_power {
                    ActivePower::Watts(w) => f(w),
                    ActivePower::Kilowatts(kw) => f(kw) * 1000.0,
                };
                ports.reactive_kvar += f(reactive_power_kvar);
            }
            PortContribution::Fluid { flow_rate_kg_s, supply_temp_c, .. } => {
                ports.flow_kg_s += f(flow_rate_kg_s);
                ports.supply_temp_c = f(supply_temp_c);
            }
            PortContribution::Thermal { sensible_gain_w, latent_gain_w, .. } => {
                ports.sensible_w += f(sensible_gain_w);
                ports.latent_w += f(latent_gain_w);
            }
        }
    }
    ports
}

/// The heat that brings a node to a temperature within a step.
fn heat_to(tank: &StratifiedTank, node: usize, temp_c: f64, dt: Duration) -> Double {
    let mass_kg = f(tank.node_volumes_m3()[node]) * 1000.0;
    d((mass_kg * 4183.0 * (temp_c - f(tank.node_temps()[node])) / f(dt.as_secs())).max(0.0))
}

const NO_READINGS: ScheduleReadings = ScheduleReadings { draw_rate_kg_s: None, mains_temp_c: None };

fn config() -> GasWaterHeaterConfig {
    GasWaterHeaterConfig {
        equipment_id: None,
        zone_id: Some(1),
        loop_id: Some(1),
        fuel_type: FuelType::Gas,
        tank_volume_m3: None,
        tank_height_m: None,
        energy_factor: None,
        uniform_energy_factor: None,
        heating_capacity_w: None,
        ua_w_per_k: None,
        setpoint_c: some(52.0),
        deadband_c: some(2.0),
        max_tank_temp_c: None,
        initial_tank_temp_c: some(40.0),
        tank_nodes: None,
        avg_water_draw_l_per_day: None,
        draw_flow_rate_kg_s: some(0.0),
        draw_flow_rate_source: None,
        mains_temp_c_source: None,
        pilot_power_w: some(50.0),
        flue_loss_fraction: some(0.2),
        skin_loss_fraction: None,
        ignition_type: None,
        performance_adjustment: None,
        zone_type: None,
        first_hour_rating_m3: None,
        jacket_r_value_m2_k_w: None,
        conversion_efficiency: None,
        fixture_delivery_temp_c: None,
        hot_draw_temp_c: None,
        pilot_fraction_to_tank: None,
        fan_power_w: None,
    }
}

fn heater(c: &GasWaterHeaterConfig) -> GasWH {
    let mut eq = GasWH::new(untyped("GWH"));
    eq.init_typed(c, d(10.0)).expect("init");
    eq
}

fn step_with(
    eq: &mut GasWH,
    env: &EnvironmentState,
    secs: u64,
    fluid: &[FluidAccumulator],
    readings: ScheduleReadings,
) -> Ports {
    let dt = Duration::from_secs(secs);
    let mode = eq.update_control(env);
    let setpoint = f(eq.state.setpoint_c) + f(eq.state.dr.setpoint_offset_c);
    let outside = GasOutside {
        water_density_kg_m3: water_density(f(eq.tank.node_temps()[0])),
        ideal_capacity_w: heat_to(&eq.tank, eq.state.burner_node, setpoint, dt),
    };
    let step = eq.step(env, mode, outside, fluid, readings, dt).expect("step");
    eq.finish_step(step.figures);
    take(&step.contributions)
}

fn step(eq: &mut GasWH, env: &EnvironmentState, secs: u64) -> Ports {
    step_with(eq, env, secs, &[], NO_READINGS)
}

#[test]
fn flue_loss_is_not_written_to_zone_thermal_port_but_skin_loss_is() {
    let mut eq = heater(&config());
    let p = step(&mut eq, &env(21.0), 60);

    // Flue loss exits the building; it must NOT be part of the zone thermal gain.
    // However, skin losses (jacket losses) should produce a positive sensible gain.
    let flue_loss = f(eq.state.telemetry.flue_loss_w);
    assert!(flue_loss >= 0.0);
    assert!(p.sensible_w >= 0.0);
    assert!(p.fuel_w > 0.0);
}

#[test]
fn skin_loss_is_positive_when_tank_is_hot() {
    let mut eq = heater(&GasWaterHeaterConfig {
        initial_tank_temp_c: some(60.0),
        skin_loss_fraction: some(0.5),
        ..config()
    });
    let p = step(&mut eq, &env(20.0), 60);
    assert!(p.sensible_w > 0.0, "Skin loss should be positive when tank is hotter than ambient");
}

#[test]
fn max_tank_temp_safety_forces_off_for_gas_wh() {
    let mut eq = heater(&GasWaterHeaterConfig {
        initial_tank_temp_c: some(30.0),
        max_tank_temp_c: some(60.0),
        ..config()
    });
    eq.tank.node_temps_mut().fill(d(65.0));

    let mode = eq.update_control(&env(21.0));
    assert_eq!(mode, OperatingMode::Off, "Expected Off when tank exceeds max_tank_temp_c");
    assert!(!eq.state.burner_on);
}

#[test]
fn gas_max_tank_temp_safety_triggers_on_stratified_hot_bottom() {
    let mut eq = heater(&GasWaterHeaterConfig {
        initial_tank_temp_c: some(30.0),
        max_tank_temp_c: some(55.0),
        ..config()
    });
    let n = eq.tank.node_temps().len();
    eq.tank.node_temps_mut()[0] = d(30.0); // top -- below limit
    eq.tank.node_temps_mut()[n - 1] = d(60.0); // burner node -- above limit

    let mode = eq.update_control(&env(21.0));
    assert_eq!(mode, OperatingMode::Off);
    assert!(!eq.state.burner_on);
}

#[test]
fn gas_safety_cutout_does_not_fire_when_all_nodes_below_limit() {
    let mut eq = heater(&GasWaterHeaterConfig {
        initial_tank_temp_c: some(30.0),
        max_tank_temp_c: some(55.0),
        ..config()
    });
    let n = eq.tank.node_temps().len();
    eq.tank.node_temps_mut()[0] = d(54.0); // hottest node, below 55°C limit
    eq.tank.node_temps_mut()[n - 1] = d(30.0); // burner node, cold → calls for heat

    let mode = eq.update_control(&env(21.0));
    assert_eq!(mode, OperatingMode::Heating);
    assert!(eq.state.burner_on);
}

#[test]
fn state_round_trip_restores_burner_and_tank_state() {
    let mut eq = heater(&config());
    step(&mut eq, &env(21.0), 60);
    let state = eq.save_state();

    let mut restored = heater(&config());
    restored.load_state(state).unwrap();

    assert_eq!(restored.state.burner_on, eq.state.burner_on);
    assert_eq!(restored.tank.node_temps(), eq.tank.node_temps());
}

#[test]
fn gas_state_round_trip_preserves_dr_state() {
    let mut eq = heater(&config());
    eq.apply_control(ControlSignal::DemandResponse {
        level: DRLevel::Critical,
        duration_s: some(300.0),
    })
    .unwrap();

    let saved = eq.save_state();
    let mut restored = heater(&config());
    restored.load_state(saved).unwrap();

    assert_eq!(restored.state.dr.level, DRLevel::Critical, "dr_level must survive save/load");
    assert!(f(restored.state.dr.setpoint_offset_c) < 0.0);
    assert_eq!(restored.state.dr.duration_remaining_s, some(300.0));
    assert!(f(restored.state.dr.load_fraction) < 1.0);
}

/// A moderate response moves the setpoint by -3 °C: a tank at 49.9 °C calls for heat
/// without it (setpoint 52, deadband 2), and not with it.
#[test]
fn gas_wh_dr_moderate_reduces_setpoint() {
    let cfg = GasWaterHeaterConfig {
        initial_tank_temp_c: some(49.9),
        max_tank_temp_c: some(300.0),
        ..config()
    };
    let e = env(21.0);

    let mut eq_base = heater(&cfg);
    let mode_base = eq_base.update_control(&e);
    assert!(matches!(mode_base, OperatingMode::Heating));

    let mut eq_dr = heater(&cfg);
    eq_dr
        .apply_control(ControlSignal::DemandResponse { level: DRLevel::Moderate, duration_s: None })
        .unwrap();
    assert_eq!(f(eq_dr.state.dr.setpoint_offset_c), -3.0, "Moderate DR must set offset to -3°C");
    let mode_dr = eq_dr.update_control(&e);
    assert_eq!(mode_dr, OperatingMode::Off);
}

#[test]
fn gas_wh_dr_grid_emergency_forces_off() {
    let e = env(21.0);
    // Cold tank: would normally fire the burner.
    let mut eq = heater(&config());
    eq.apply_control(ControlSignal::DemandResponse {
        level: DRLevel::GridEmergency,
        duration_s: None,
    })
    .unwrap();
    assert_eq!(f(eq.state.dr.load_fraction), 0.0);

    step(&mut eq, &e, 60);

    assert!(!eq.state.burner_on, "burner must be off during GridEmergency");
    assert_eq!(f(eq.state.telemetry.burner_power_w), 0.0);
    // The pilot is a continuous flame and is not shed.
    assert_eq!(eq.state.telemetry.fuel_input_w, eq.state.pilot_power_w);
}

#[test]
fn pilot_defaults_to_standing_pilot_power_when_unconfigured() {
    let eq = heater(&GasWaterHeaterConfig { pilot_power_w: None, ..config() });
    assert_eq!(eq.state.pilot_power_w, default_pilot_power_w());
    assert_eq!(f(eq.state.pilot_power_w), 150.0);
}

#[test]
fn pilot_defaults_to_zero_for_electronic_ignition() {
    let eq = heater(&GasWaterHeaterConfig {
        pilot_power_w: None,
        ignition_type: Some("electronic".to_string()),
        ..config()
    });
    assert_eq!(f(eq.state.pilot_power_w), 0.0);
}

#[test]
fn pilot_defaults_to_zero_for_hpxml_electronic_ignition_string() {
    let eq = heater(&GasWaterHeaterConfig {
        pilot_power_w: None,
        ignition_type: Some("electronic ignition".to_string()),
        ..config()
    });
    assert_eq!(f(eq.state.pilot_power_w), 0.0);
}

#[test]
fn explicit_pilot_power_overrides_ignition_type() {
    let eq = heater(&GasWaterHeaterConfig {
        ignition_type: Some("electronic".to_string()),
        pilot_power_w: some(7.0),
        ..config()
    });
    assert_eq!(f(eq.state.pilot_power_w), 7.0);
}

#[test]
fn standby_step_at_setpoint_still_consumes_gas_from_pilot() {
    let mut eq = heater(&GasWaterHeaterConfig {
        pilot_power_w: None,
        setpoint_c: some(52.0),
        initial_tank_temp_c: some(52.0),
        draw_flow_rate_kg_s: some(0.0),
        ..config()
    });
    step(&mut eq, &env(21.0), 3600);

    assert_eq!(f(eq.state.telemetry.burner_power_w), 0.0);
    assert!(f(eq.state.telemetry.fuel_input_w) > 0.0);
}

#[test]
fn pilot_kw_and_fuel_input_kw_present_and_sum_correctly() {
    let mut eq = heater(&GasWaterHeaterConfig { initial_tank_temp_c: some(40.0), ..config() });
    step(&mut eq, &env(21.0), 60);

    let t = eq.state.telemetry;
    let fuel_input_w = f(t.fuel_input_w);
    let pilot_kw = f(t.pilot_kw);
    let fuel_input_kw = f(t.fuel_input_kw);
    assert!(fuel_input_w > 0.0, "burner must be firing for this test to be meaningful");
    assert!((fuel_input_kw - fuel_input_w / 1_000.0).abs() < 1e-9);
    assert!((pilot_kw - f(t.pilot_power_w) / 1_000.0).abs() < 1e-9);
    assert!(pilot_kw <= fuel_input_kw);
}

/// At 5-minute timesteps the burner modulates below its rated power; at 1-minute timesteps
/// it runs at full power.
#[test]
fn gas_wh_ideal_capacity_modulates_below_full_power() {
    let cfg = GasWaterHeaterConfig {
        initial_tank_temp_c: some(40.0),
        setpoint_c: some(52.0),
        deadband_c: some(2.0),
        flue_loss_fraction: some(0.0),
        max_tank_temp_c: some(300.0),
        ..config()
    };

    let mut e_ideal = env(21.0);
    e_ideal.time_res = TimeStep::seconds(300);
    let mut eq_ideal = heater(&cfg);
    step(&mut eq_ideal, &e_ideal, 300);
    let burner_w_ideal = f(eq_ideal.state.telemetry.burner_power_w);

    let mut e_therm = env(21.0);
    e_therm.time_res = TimeStep::seconds(60);
    let mut eq_therm = heater(&cfg);
    step(&mut eq_therm, &e_therm, 60);
    let burner_w_therm = f(eq_therm.state.telemetry.burner_power_w);

    assert!(burner_w_ideal > 0.0, "burner must fire in ideal mode (node far below setpoint)");
    assert!(burner_w_therm > 0.0, "burner must fire in thermostat mode");
    assert!(burner_w_ideal < burner_w_therm);
}

#[test]
fn gas_wh_uses_conversion_efficiency_not_ef() {
    let eq = heater(&GasWaterHeaterConfig {
        energy_factor: some(0.62),
        pilot_power_w: some(0.0),
        flue_loss_fraction: some(0.0),
        conversion_efficiency: some(0.80),
        ..config()
    });
    assert!((f(eq.state.burner_efficiency_constant) - 0.80).abs() < 1e-9);
}

#[test]
fn gas_wh_fuel_consumption_tracks_burner_input() {
    let burner_input_w = 11_000.0_f64;
    let eta_c = 0.80_f64;
    let flue_loss_fraction = 0.0_f64;
    let mut eq = heater(&GasWaterHeaterConfig {
        energy_factor: some(0.62),
        heating_capacity_w: some(burner_input_w),
        pilot_power_w: some(0.0),
        flue_loss_fraction: some(flue_loss_fraction),
        conversion_efficiency: some(eta_c),
        ..config()
    });
    step(&mut eq, &env(21.0), 60);

    let thermal_output_w = burner_input_w * eta_c * (1.0 - flue_loss_fraction);
    let expected_fuel_w = thermal_output_w / eta_c;
    let reported_fuel_w = f(eq.state.telemetry.fuel_input_w);
    assert!((reported_fuel_w - expected_fuel_w).abs() < 1.0);
    assert!((reported_fuel_w - burner_input_w * 0.62).abs() > 100.0 || reported_fuel_w == 0.0);
}

#[test]
fn gas_outlet_temp_c_telemetry_present_with_draw() {
    let mut eq = heater(&GasWaterHeaterConfig {
        initial_tank_temp_c: some(55.0),
        setpoint_c: some(55.0),
        draw_flow_rate_kg_s: some(0.1),
        ..config()
    });
    step(&mut eq, &env(21.0), 60);
    assert!(f(eq.state.telemetry.outlet_temp_c) > 0.0);
}

#[test]
fn gas_outlet_temp_c_telemetry_present_without_draw() {
    let mut eq = heater(&GasWaterHeaterConfig {
        initial_tank_temp_c: some(55.0),
        draw_flow_rate_kg_s: some(0.0),
        ..config()
    });
    step(&mut eq, &env(21.0), 60);
    let outlet = f(eq.state.telemetry.outlet_temp_c);
    let tank_avg = f(eq.state.telemetry.tank_avg_temp_c);
    assert!((outlet - tank_avg).abs() < 1.0);
}

#[test]
fn uef_converted_to_ef_for_known_pairs() {
    // EF = 0.9066 * UEF + 0.0711: UEF 0.70 → 0.70572, UEF 0.58 → 0.596928.
    let eq_070 = heater(&GasWaterHeaterConfig { uniform_energy_factor: some(0.70), ..config() });
    assert!((f(eq_070.state.burner_efficiency_constant) - 0.70572).abs() < 1e-4);

    let eq_058 = heater(&GasWaterHeaterConfig { uniform_energy_factor: some(0.58), ..config() });
    assert!((f(eq_058.state.burner_efficiency_constant) - 0.596928).abs() < 1e-4);
}

#[test]
fn conversion_efficiency_takes_priority_over_uef() {
    let eq = heater(&GasWaterHeaterConfig {
        conversion_efficiency: some(0.80),
        energy_factor: some(0.62),
        uniform_energy_factor: some(0.70),
        ..config()
    });
    assert!((f(eq.state.burner_efficiency_constant) - 0.80).abs() < 1e-9);
    assert_eq!(f(eq.state.telemetry.burner_efficiency_source), 1.0);
}

#[test]
fn energy_factor_takes_priority_over_uef() {
    let eq = heater(&GasWaterHeaterConfig {
        energy_factor: some(0.62),
        uniform_energy_factor: some(0.70),
        ..config()
    });
    assert!((f(eq.state.burner_efficiency_constant) - 0.62).abs() < 1e-9);
    assert_eq!(f(eq.state.telemetry.burner_efficiency_source), 2.0);
}

#[test]
fn uniform_energy_factor_with_performance_adjustment() {
    let eq = heater(&GasWaterHeaterConfig {
        uniform_energy_factor: some(0.70),
        performance_adjustment: some(0.92),
        ..config()
    });
    let expected = 0.70572 * 0.92;
    assert!((f(eq.state.burner_efficiency_constant) - expected).abs() < 1e-4);
}

#[test]
fn uef_burner_efficiency_telemetry_populated() {
    let eq = heater(&GasWaterHeaterConfig { uniform_energy_factor: some(0.70), ..config() });
    assert!((f(eq.state.telemetry.burner_efficiency) - 0.70572).abs() < 1e-4);
    assert_eq!(f(eq.state.telemetry.burner_efficiency_source), 3.0);
}

/// UEF 0.80 → EF 0.796 < 0.8 → 0.91; the unconverted 0.80 would give 0.96.
#[test]
fn skin_loss_fraction_uses_converted_uef() {
    let eq = heater(&GasWaterHeaterConfig { uniform_energy_factor: some(0.80), ..config() });
    assert_eq!(f(eq.state.skin_loss_fraction), 0.91);
}

#[test]
fn default_efficiency_source_is_zero() {
    let eq = heater(&config());
    assert!(
        (f(eq.state.burner_efficiency_constant) - f(default_burner_efficiency())).abs() < 1e-9
    );
    assert_eq!(f(eq.state.telemetry.burner_efficiency_source), 0.0);
}

#[test]
fn pilot_heat_to_water_is_injected_at_burner_node_regardless_of_burner_state() {
    let mut eq = heater(&GasWaterHeaterConfig {
        pilot_power_w: some(100.0),
        pilot_fraction_to_tank: some(0.80),
        initial_tank_temp_c: some(52.0), // at setpoint → burner off
        setpoint_c: some(52.0),
        flue_loss_fraction: some(0.0),
        draw_flow_rate_kg_s: some(0.0),
        ..config()
    });
    step(&mut eq, &env(21.0), 60);

    let to_water = f(eq.state.telemetry.pilot_heat_to_water_w);
    let to_ambient = f(eq.state.telemetry.pilot_heat_to_ambient_w);
    assert!((to_water - 80.0).abs() < 1e-9);
    assert!((to_ambient - 20.0).abs() < 1e-9);
    assert_eq!(f(eq.state.telemetry.burner_power_w), 0.0);
}

#[test]
fn pilot_heat_routing_conserves_energy_and_heats_tank_correctly() {
    let mut eq = heater(&GasWaterHeaterConfig {
        pilot_power_w: some(100.0),
        pilot_fraction_to_tank: some(0.80),
        initial_tank_temp_c: some(30.0),
        setpoint_c: some(52.0),
        flue_loss_fraction: some(0.0),
        draw_flow_rate_kg_s: some(0.0),
        skin_loss_fraction: some(0.0),
        max_tank_temp_c: some(300.0),
        ..config()
    });
    let tank_avg_before = f(eq.state.telemetry.tank_avg_temp_c);
    step(&mut eq, &env(20.0), 60);

    let sum = f(eq.state.telemetry.pilot_heat_to_water_w)
        + f(eq.state.telemetry.pilot_heat_to_ambient_w);
    assert!((sum - 100.0).abs() < 1e-9);
    assert!(f(eq.state.telemetry.tank_avg_temp_c) > tank_avg_before);
}

#[test]
fn standby_tank_temp_drifts_upward_from_continuous_pilot_heat_injection() {
    let mut eq = heater(&GasWaterHeaterConfig {
        pilot_power_w: some(150.0),
        pilot_fraction_to_tank: some(0.80),
        initial_tank_temp_c: some(52.0), // at setpoint → burner off
        setpoint_c: some(52.0),
        deadband_c: some(5.0),
        flue_loss_fraction: some(0.0),
        draw_flow_rate_kg_s: some(0.0),
        max_tank_temp_c: some(300.0),
        ..config()
    });
    let e = env(20.0);
    step(&mut eq, &e, 60);
    let temp_after_1m = f(eq.state.telemetry.tank_avg_temp_c);
    step(&mut eq, &e, 3600);
    let temp_after_1h = f(eq.state.telemetry.tank_avg_temp_c);

    assert!(temp_after_1h > temp_after_1m);
    // The drift should be non-trivial (> 0.1°C) for 120 W over 1 hour.
    assert!(temp_after_1h - temp_after_1m > 0.1);
}

// ---------------------------------------------------------------------------
// Further scenarios
// ---------------------------------------------------------------------------

#[test]
fn gas_heater_has_its_ports_and_fields() {
    let eq = heater(&config());
    assert_eq!(
        eq.ports,
        vec![
            PortDeclaration::Fuel,
            PortDeclaration::Electrical,
            PortDeclaration::Thermal { zone: Some(1) },
            PortDeclaration::Fluid { loop_id: 1 },
            PortDeclaration::Fluid { loop_id: DHW_DEMAND_LOOP },
        ]
    );
    let keys: Vec<TelemetryKey> = eq.descriptor.telemetry_fields.iter().map(|x| x.key).collect();
    assert!(keys.contains(&TelemetryKey::BurnerPowerW));
    assert!(keys.contains(&TelemetryKey::TankNode(5)));
    assert!(!keys.contains(&TelemetryKey::TankNode(6)));
    assert_eq!(eq.descriptor.fuel, FuelType::Gas);
}

#[test]
fn gas_heater_takes_another_name() {
    let mut eq = heater(&config());
    eq.rename("Basement".to_string());
    assert_eq!(eq.descriptor.name, "Basement");
    assert_eq!(eq.descriptor.equipment_type, heater(&config()).descriptor.equipment_type);
}

#[test]
fn gas_figures_are_exact() {
    assert_eq!(f(default_burner_efficiency()), 0.78);
    assert_eq!(f(default_skin_loss_fraction(d(0.69))), 0.64);
    assert_eq!(f(default_skin_loss_fraction(d(0.7))), 0.91);
    assert_eq!(f(default_skin_loss_fraction(d(0.8))), 0.96);
    assert_eq!(f(uef_to_ef_gas(d(0.7))), 0.9066 * 0.7 + 0.0711);

    let mut eq = heater(&config());
    let before = all(eq.tank.node_temps());
    step(&mut eq, &env(21.0), 60);
    // 11 kW at 78 %, a fifth of it up the flue, and 80 % of a pilot of 50 W.
    let t = eq.state.telemetry;
    assert_eq!(f(t.burner_power_w), 11_000.0);
    assert_eq!(f(t.fuel_input_w), 11_050.0);
    assert!((f(t.flue_loss_w) - 11_000.0 * 0.78 * 0.2).abs() < 1e-9);
    let heat_w = 11_000.0 * 0.78 * 0.8 + 40.0;
    let mass_kg: f64 = all(eq.tank.node_volumes_m3()).iter().sum::<f64>() * 1000.0;
    let rise: f64 = all(eq.tank.node_temps()).iter().sum::<f64>() - before.iter().sum::<f64>();
    let lossless = heat_w * 60.0 / (mass_kg / 6.0 * 4183.0);
    assert!(rise > 0.99 * lossless && rise < lossless);
}

#[test]
fn a_zone_gains_no_cold_and_nothing_of_the_flue() {
    let run = |tank_c: f64, zone_c: f64, flue: f64| {
        let mut eq = heater(&GasWaterHeaterConfig {
            initial_tank_temp_c: some(tank_c),
            skin_loss_fraction: some(0.5),
            ..config()
        });
        eq.state.flue_loss_fraction = d(flue);
        let p = step(&mut eq, &env(zone_c), 60);
        let t = eq.state.telemetry;
        assert_eq!(f(t.fuel_input_w), f(t.burner_power_w) + f(t.pilot_power_w));
        assert_eq!(p.fuel_w, f(t.fuel_input_w));
        (p.sensible_w, f(t.burner_power_w), f(eq.state.telemetry.pilot_heat_to_ambient_w))
    };
    // A zone warmer than the tank gets the heat of the pilot only.
    let (gain, burner, pilot) = run(20.0, 45.0, 0.2);
    assert_eq!(gain, pilot);
    assert!(gain >= 0.0 && burner > 0.0);
    // The share that goes up the flue changes nothing.
    assert_eq!(run(40.0, 20.0, 0.0).0, run(40.0, 20.0, 0.3).0);
    // A burner that is off takes nothing.
    assert_eq!(run(70.0, 20.0, 0.2).1, 0.0);
    // However cold the zone is, it gains.
    assert!(run(40.0, -1.0e200, 0.2).0 > 1.0e190);
}

#[test]
fn gas_fan_draws_power_while_firing() {
    let cfg = GasWaterHeaterConfig { fan_power_w: some(80.0), ..config() };
    let mut eq = heater(&cfg);
    let p = step(&mut eq, &env(21.0), 60);
    assert!(eq.state.burner_on);
    assert!((p.electric_w - 80.0).abs() < 1e-9);
    assert!((p.reactive_kvar - 0.08 * 0.87).abs() < 1e-9);

    let mut idle = heater(&GasWaterHeaterConfig { initial_tank_temp_c: some(52.0), ..cfg });
    let p = step(&mut idle, &env(21.0), 60);
    assert!(!idle.state.burner_on);
    assert_eq!(p.electric_w, 0.0);
}

#[test]
fn gas_demand_of_appliances_is_drawn() {
    let mut eq = heater(&GasWaterHeaterConfig { draw_flow_rate_kg_s: some(0.05), ..config() });
    let fluid = [FluidAccumulator {
        loop_id: DHW_DEMAND_LOOP,
        total_flow_kg_s: d(0.02),
        mean_supply_temp_c: d(0.0),
    }];
    let p = step_with(&mut eq, &env(21.0), 60, &fluid, NO_READINGS);
    assert!((p.flow_kg_s - 0.07).abs() < 1e-12);
    assert_eq!(p.supply_temp_c, 40.0);
    let readings = ScheduleReadings { draw_rate_kg_s: some(0.1), mains_temp_c: some(8.0) };
    let p = step_with(&mut eq, &env(21.0), 60, &fluid, readings);
    assert!((p.flow_kg_s - 0.12).abs() < 1e-12);
}

#[test]
fn gas_control_signals_are_checked() {
    let mut eq = heater(&config());
    let before = eq.state;
    let bad = ControlSignal::ThermalSetpoint {
        heating_setpoint_c: some(f64::NAN),
        cooling_setpoint_c: None,
        deadband_c: None,
    };
    assert!(matches!(
        eq.apply_control(bad),
        Err(HaresError::Control(ControlFault::Setpoint { .. }))
    ));
    let bad = ControlSignal::ThermalSetpoint {
        heating_setpoint_c: None,
        cooling_setpoint_c: None,
        deadband_c: some(-1.0),
    };
    let r = eq.apply_control(bad);
    assert!(matches!(r, Err(HaresError::Control(ControlFault::Deadband { .. }))));
    assert!(r.unwrap_err().message().contains("deadband"));
    let bad = ControlSignal::DutyCycle { on_fraction: d(1.5), component: None };
    let r = eq.apply_control(bad);
    assert!(matches!(
        r,
        Err(HaresError::Control(ControlFault::DutyCycle { equipment: "GasWH", .. }))
    ));
    assert_eq!(r.unwrap_err().message(), "GasWH: invalid duty cycle");
    assert_eq!(eq.state, before);

    eq.apply_control(ControlSignal::ThermalSetpoint {
        heating_setpoint_c: some(58.0),
        cooling_setpoint_c: some(1.0),
        deadband_c: some(3.0),
    })
    .unwrap();
    assert_eq!(f(eq.state.setpoint_c), 58.0);
    assert_eq!(f(eq.state.deadband_c), 3.0);
    eq.apply_control(ControlSignal::PowerLimit { max_power_kw: d(5.5) }).unwrap();
    assert_eq!(f(eq.state.ctrl_load_fraction), 0.5);
    step(&mut eq, &env(21.0), 60);
    assert_eq!(f(eq.state.telemetry.burner_power_w), 5_500.0);
    assert_eq!(f(eq.state.ctrl_load_fraction), 1.0);
}

#[test]
fn gas_config_out_of_limits_changes_nothing() {
    let mut eq = heater(&config());
    let before = eq.state;
    let bad = GasWaterHeaterConfig { ua_w_per_k: some(0.0), ..config() };
    assert!(matches!(
        eq.init_typed(&bad, d(10.0)),
        Err(HaresError::Equipment(Fault::OutOfLimits { name: "gas_wh: ua_w_per_k", .. }))
    ));
    assert_eq!(eq.state, before);
    let bad = GasWaterHeaterConfig { tank_nodes: Some(13), ..config() };
    assert!(matches!(
        eq.init_typed(&bad, d(10.0)),
        Err(HaresError::Equipment(Fault::NodeCount { n_nodes: 13 }))
    ));
}

#[test]
fn a_demand_response_of_a_gas_heater_ends() {
    let mut eq = heater(&config());
    eq.apply_control(ControlSignal::DemandResponse {
        level: DRLevel::GridEmergency,
        duration_s: some(90.0),
    })
    .unwrap();
    assert_eq!(eq.update_control(&env(21.0)), OperatingMode::Off);
    assert_eq!(eq.state.dr.duration_remaining_s, some(30.0));
    assert_eq!(eq.update_control(&env(21.0)), OperatingMode::Heating);
    assert_eq!(eq.state.dr.level, DRLevel::Normal);
}
