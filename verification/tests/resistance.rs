//! Tests of the electric resistance water heater.
use hares_water_heater::config::EquipmentConfig;
use hares_water_heater::error::{ControlFault, Fault, HaresError};
use hares_water_heater::resistance::{ElementPriorityMode, ResistanceOutside};
use hares_water_heater::shared::{ScheduleReadings, DHW_DEMAND_LOOP};
use hares_water_heater::storage::jacket_loss;
use hares_water_heater::time::{CivilTime, Duration, TimeStep};
use hares_water_heater::types::{
    ActivePower, ControlSignal, DRLevel, EnvironmentState, FluidAccumulator, OperatingMode,
    PortContribution, PortDeclaration, TelemetryKey, ThermalCategory, ZoneState,
};
use hares_water_heater::wh_config::ElectricResistanceWaterHeaterConfig;
use hares_water_heater::zip::WaterHeaterZip;
use hares_water_heater::{Double, ResistanceWH, StratifiedTank};

fn d(x: f64) -> Double {
    Double { bits: x.to_bits() }
}

fn f(x: Double) -> f64 {
    f64::from_bits(x.bits)
}

fn some(x: f64) -> Option<Double> {
    Some(d(x))
}

fn all(xs: &[Double]) -> Vec<f64> {
    xs.iter().map(|x| f(*x)).collect()
}

/// Water gets lighter as it gets warmer.
fn water_density(temp_c: f64) -> Double {
    d(1000.0 - 0.0178 * (temp_c - 4.0).abs().powf(1.7))
}

fn env(zone_temp_c: f64) -> EnvironmentState {
    EnvironmentState {
        time_res: TimeStep::seconds(60),
        current_time: CivilTime { unix_secs: 1_767_225_600, offset_secs: 0 },
        zones: vec![ZoneState {
            id: 1,
            temperature_c: d(zone_temp_c),
            wet_bulb_c: d(zone_temp_c - 6.0),
        }],
        outdoor_temp_c: d(10.0),
        mains_temp_c: None,
        custom_domains: vec![],
        voltage_pu: d(1.0),
        bus_voltage_pu: d(1.0),
        bus_energized: true,
    }
}

fn untyped(name: &str) -> EquipmentConfig {
    EquipmentConfig {
        name: name.to_string(),
        equipment_id: None,
        zone_id: Some(1),
        loop_id: Some(1),
        values: vec![],
    }
}

/// What a step gave to the ports.
#[derive(Debug, Default)]
struct Ports {
    fuel_w: f64,
    electric_w: f64,
    reactive_kvar: f64,
    sensible_w: f64,
    latent_w: f64,
    flow_kg_s: f64,
    supply_temp_c: f64,
}

fn take(contributions: &[PortContribution]) -> Ports {
    let mut ports = Ports::default();
    for contribution in contributions {
        match *contribution {
            PortContribution::Fuel { consumption_w, .. } => ports.fuel_w += f(consumption_w),
            PortContribution::Electrical { active_power, reactive_power_kvar } => {
                ports.electric_w += match active_power {
                    ActivePower::Watts(w) => f(w),
                    ActivePower::Kilowatts(kw) => f(kw) * 1000.0,
                };
                ports.reactive_kvar += f(reactive_power_kvar);
            }
            PortContribution::Fluid { flow_rate_kg_s, supply_temp_c, .. } => {
                ports.flow_kg_s += f(flow_rate_kg_s);
                ports.supply_temp_c = f(supply_temp_c);
            }
            PortContribution::Thermal { sensible_gain_w, latent_gain_w, .. } => {
                ports.sensible_w += f(sensible_gain_w);
                ports.latent_w += f(latent_gain_w);
            }
        }
    }
    ports
}

/// The heat that brings a node to a temperature within a step.
fn heat_to(tank: &StratifiedTank, node: usize, temp_c: f64, dt: Duration) -> Double {
    let mass_kg = f(tank.node_volumes_m3()[node]) * 1000.0;
    d((mass_kg * 4183.0 * (temp_c - f(tank.node_temps()[node])) / f(dt.as_secs())).max(0.0))
}

const NO_READINGS: ScheduleReadings = ScheduleReadings { draw_rate_kg_s: None, mains_temp_c: None };

fn typed_config() -> ElectricResistanceWaterHeaterConfig {
    ElectricResistanceWaterHeaterConfig {
        equipment_id: None,
        zone_id: None,
        loop_id: Some(1),
        tank_volume_m3: None,
        tank_height_m: None,
        energy_factor: None,
        uniform_energy_factor: None,
        heating_capacity_w: None,
        ua_w_per_k: None,
        setpoint_c: some(52.0),
        deadband_c: some(2.0),
        max_tank_temp_c: some(300.0),
        initial_tank_temp_c: some(40.0),
        tank_nodes: None,
        avg_water_draw_l_per_day: None,
        draw_flow_rate_kg_s: some(0.0),
        draw_flow_rate_source: None,
        mains_temp_c_source: None,
        performance_adjustment: None,
        zone_type: None,
        first_hour_rating_m3: None,
        element_power_w: None,
        max_setpoint_ramp_rate_c_per_min: None,
        element_priority_mode: None,
        jacket_r_value_m2_k_w: None,
        max_combined_power_w: None,
        fixture_delivery_temp_c: None,
        hot_draw_temp_c: None,
    }
}

/// Both elements cold, and no safety limit in reach.
fn cold_config(mode: &str) -> ElectricResistanceWaterHeaterConfig {
    ElectricResistanceWaterHeaterConfig {
        loop_id: None,
        element_priority_mode: Some(mode.to_string()),
        ..typed_config()
    }
}

fn heater(c: &ElectricResistanceWaterHeaterConfig) -> ResistanceWH {
    let mut wh =
        ResistanceWH::new(EquipmentConfig { zone_id: None, ..untyped("WH") });
    wh.init_typed(c, d(10.0)).expect("init");
    wh
}

/// The loss through the skin of a tank in surroundings of a temperature.
fn skin_loss(tank: &StratifiedTank, ambient_c: f64) -> f64 {
    all(tank.ua_per_node())
        .iter()
        .zip(all(tank.node_temps()).iter())
        .map(|(ua, temp)| ua * (temp - ambient_c))
        .sum()
}

fn step_with(
    wh: &mut ResistanceWH,
    env: &EnvironmentState,
    secs: u64,
    fluid: &[FluidAccumulator],
    readings: ScheduleReadings,
) -> Ports {
    let dt = Duration::from_secs(secs);
    let mode = wh.update_control(env);
    let setpoint = f(wh.state.setpoint_c) + f(wh.state.dr.setpoint_offset_c);
    let outside = ResistanceOutside {
        water_density_kg_m3: water_density(f(wh.tank.node_temps()[0])),
        ideal_upper_w: heat_to(&wh.tank, wh.state.upper_node, setpoint, dt),
        ideal_lower_w: heat_to(&wh.tank, wh.state.lower_node, setpoint, dt),
    };
    let mut step = wh.step(env, mode, outside, fluid, readings, dt).expect("step");
    let skin_loss_w = skin_loss(&wh.tank, f(env.zones[0].temperature_c));
    if let Some(loss) = jacket_loss(wh.descriptor.zone, d(skin_loss_w)) {
        step.contributions.push(loss);
    }
    wh.finish_step(step.figures);
    take(&step.contributions)
}

fn step(wh: &mut ResistanceWH, env: &EnvironmentState, secs: u64) -> Ports {
    step_with(wh, env, secs, &[], NO_READINGS)
}

#[test]
fn ports_and_telemetry_contract_match_water_heater_schema() {
    let mut wh = heater(&typed_config());

    assert_eq!(wh.ports.len(), 4);
    assert!(wh.ports.contains(&PortDeclaration::Electrical));
    assert!(wh.ports.contains(&PortDeclaration::Thermal { zone: Some(1) }));
    assert!(wh.ports.contains(&PortDeclaration::Fluid { loop_id: 1 }));
    assert!(wh.ports.contains(&PortDeclaration::Fluid { loop_id: DHW_DEMAND_LOOP }));

    step(&mut wh, &env(21.0), 60);
    // Ten figures of the heater, the loss through the skin, and the nodes of the tank.
    assert_eq!(wh.descriptor.telemetry_fields.len(), 10 + 1 + wh.tank.n_nodes());
    for node in 0..wh.tank.n_nodes() {
        assert!(wh
            .descriptor
            .telemetry_fields
            .iter()
            .any(|field| field.key == TelemetryKey::TankNode(node)));
    }
}

#[test]
fn upper_element_has_priority_when_tank_is_cold() {
    let mut eq = heater(&typed_config());
    step(&mut eq, &env(21.0), 60);

    assert!(f(eq.state.telemetry.upper_element_power_w) > 0.0);
    assert_eq!(f(eq.state.telemetry.lower_element_power_w), 0.0);
}

#[test]
fn lower_element_runs_after_upper_is_satisfied() {
    let mut eq = heater(&typed_config());
    let node = eq.state.upper_node;
    eq.tank.heat_node(node, d(200_000.0), Duration::from_secs(120)).unwrap();

    let mode = eq.update_control(&env(21.0));
    assert_eq!(mode, OperatingMode::Heating);
    assert!(!eq.state.upper_element_on);
    assert!(eq.state.lower_element_on);
}

#[test]
fn state_round_trip_restores_tank_and_control_state() {
    let mut eq = heater(&typed_config());
    eq.apply_control(ControlSignal::DutyCycle { on_fraction: d(0.4), component: None }).unwrap();
    step(&mut eq, &env(21.0), 60);
    let state = eq.save_state();

    let mut restored = heater(&typed_config());
    restored.load_state(state).unwrap();

    assert_eq!(restored.state.duty_cycle, eq.state.duty_cycle);
    assert_eq!(restored.state.upper_element_on, eq.state.upper_element_on);
    assert_eq!(restored.state.lower_element_on, eq.state.lower_element_on);
    assert_eq!(restored.tank.node_temps(), eq.tank.node_temps());
}

#[test]
fn default_deadband_matches_ochre_when_not_configured() {
    let eq = heater(&ElectricResistanceWaterHeaterConfig { deadband_c: None, ..typed_config() });
    assert!((f(eq.state.deadband_c) - 5.555_555_556).abs() < 1e-9);
}

#[test]
fn explicit_deadband_override_is_applied() {
    let eq =
        heater(&ElectricResistanceWaterHeaterConfig { deadband_c: some(3.0), ..typed_config() });
    assert_eq!(f(eq.state.deadband_c), 3.0);
}

/// The lower thermostat reads the average of its node and the one above in tanks of three
/// nodes or more.
#[test]
fn lower_thermostat_averages_two_bottom_nodes_for_large_tanks() {
    let mut eq = heater(&ElectricResistanceWaterHeaterConfig {
        initial_tank_temp_c: some(40.0),
        tank_nodes: Some(12),
        ..typed_config()
    });
    let n = eq.tank.n_nodes();
    assert!(n >= 3, "Tank must have at least 3 nodes for this test");

    let lower = eq.state.lower_node;
    let above = lower - 1;
    eq.tank.heat_node(above, d(500_000.0), Duration::from_secs(120)).unwrap();

    let lower_sensor = f(eq.lower_sensor_temp());
    let node_temps = all(eq.tank.node_temps());
    let expected_avg = (node_temps[lower] + node_temps[above]) * 0.5;
    assert!((lower_sensor - expected_avg).abs() < 1e-9);

    let eq2 = heater(&ElectricResistanceWaterHeaterConfig {
        initial_tank_temp_c: some(40.0),
        tank_nodes: Some(2),
        ..typed_config()
    });
    let single_sensor = eq2.lower_sensor_temp();
    assert_eq!(single_sensor, eq2.tank.node_temps()[eq2.state.lower_node]);
}

/// A moderate response moves the setpoint from 52 to 49: a tank at 49 °C no longer calls.
#[test]
fn wh_dr_moderate_reduces_setpoint() {
    let cfg = ElectricResistanceWaterHeaterConfig {
        initial_tank_temp_c: some(49.0),
        ..typed_config()
    };
    let e = env(21.0);

    let mut eq_base = heater(&cfg);
    let mode_base = eq_base.update_control(&e);
    assert!(matches!(mode_base, OperatingMode::Heating));

    let mut eq_dr = heater(&cfg);
    eq_dr
        .apply_control(ControlSignal::DemandResponse { level: DRLevel::Moderate, duration_s: None })
        .unwrap();
    let mode_dr = eq_dr.update_control(&e);
    assert_eq!(mode_dr, OperatingMode::Off);
}

/// A critical response moves the setpoint by -10 °C and halves the load.
#[test]
fn wh_dr_critical_reduces_setpoint_and_load() {
    let cfg = ElectricResistanceWaterHeaterConfig {
        initial_tank_temp_c: some(38.0),
        ..typed_config()
    };
    let e = env(21.0);

    let mut eq_base = heater(&cfg);
    step(&mut eq_base, &e, 60);
    let w_base = f(eq_base.state.telemetry.electric_kw);

    let mut eq_dr = heater(&cfg);
    eq_dr
        .apply_control(ControlSignal::DemandResponse { level: DRLevel::Critical, duration_s: None })
        .unwrap();
    step(&mut eq_dr, &e, 60);
    let w_dr = f(eq_dr.state.telemetry.electric_kw);

    assert!(w_base > 0.0, "baseline must draw power");
    assert!(w_dr > 0.0, "DR Critical must not completely shed (tank is heating)");
    let ratio = w_dr / w_base;
    assert!((ratio - 0.5).abs() < 0.05);
}

#[test]
fn max_tank_temp_safety_forces_off_for_resistance_wh() {
    let mut eq = heater(&ElectricResistanceWaterHeaterConfig {
        max_tank_temp_c: some(60.0),
        ..typed_config()
    });
    eq.tank.node_temps_mut().fill(d(65.0));

    let mode = eq.update_control(&env(21.0));
    assert_eq!(mode, OperatingMode::Off, "Expected Off when tank exceeds max_tank_temp_c");
    assert!(!eq.state.upper_element_on);
    assert!(!eq.state.lower_element_on);
}

#[test]
fn resistance_max_tank_temp_safety_triggers_on_stratified_hot_bottom() {
    let mut eq = heater(&ElectricResistanceWaterHeaterConfig {
        initial_tank_temp_c: some(30.0),
        max_tank_temp_c: some(55.0),
        ..typed_config()
    });
    let n = eq.tank.node_temps().len();
    eq.tank.node_temps_mut()[0] = d(30.0);
    eq.tank.node_temps_mut()[n - 1] = d(60.0);

    let mode = eq.update_control(&env(21.0));
    assert_eq!(mode, OperatingMode::Off);
    assert!(!eq.state.upper_element_on);
    assert!(!eq.state.lower_element_on);
}

#[test]
fn resistance_safety_cutout_does_not_fire_when_all_nodes_below_limit() {
    let mut eq = heater(&ElectricResistanceWaterHeaterConfig {
        initial_tank_temp_c: some(30.0),
        max_tank_temp_c: some(55.0),
        ..typed_config()
    });
    let n = eq.tank.node_temps().len();
    eq.tank.node_temps_mut()[0] = d(30.0);
    eq.tank.node_temps_mut()[n - 1] = d(54.0);

    let mode = eq.update_control(&env(21.0));
    assert_ne!(mode, OperatingMode::Off);
}

/// A tank at 50 °C in a zone at 20 °C with 5 W/K, 6 W/K with its end caps, loses about
/// 180 W to the zone.
#[test]
fn jacket_loss_appears_in_thermal_port_when_tank_above_zone_temp() {
    let zone_temp_c = 20.0;
    let e = env(zone_temp_c);
    let mut eq = heater(&ElectricResistanceWaterHeaterConfig {
        setpoint_c: some(55.0),
        initial_tank_temp_c: some(50.0),
        ua_w_per_k: some(5.0),
        draw_flow_rate_kg_s: some(0.0),
        ..typed_config()
    });
    let p = step(&mut eq, &e, 60);

    let jacket = p.sensible_w;
    assert!(jacket > 0.0);
    assert!((jacket - skin_loss(&eq.tank, zone_temp_c)).abs() < 1e-9);
    assert!(jacket > 100.0 && jacket < 300.0);
}

/// A load fraction leaves the demand response alone; the two multiply.
#[test]
fn load_fraction_does_not_corrupt_dr_state() {
    let cfg = ElectricResistanceWaterHeaterConfig {
        initial_tank_temp_c: some(38.0),
        ..typed_config()
    };
    let e = env(21.0);
    let mut eq = heater(&cfg);

    eq.apply_control(ControlSignal::DemandResponse { level: DRLevel::Critical, duration_s: None })
        .unwrap();
    assert_eq!(f(eq.state.dr.load_fraction), 0.5);

    eq.apply_control(ControlSignal::LoadFraction { fraction: d(0.5) }).unwrap();
    assert_eq!(f(eq.state.dr.load_fraction), 0.5);
    assert!((f(eq.state.ctrl_load_fraction) - 0.5).abs() < 1e-9);

    step(&mut eq, &e, 60);
    let mut eq_base = heater(&cfg);
    step(&mut eq_base, &e, 60);

    let w_compound = f(eq.state.telemetry.electric_kw);
    let w_base = f(eq_base.state.telemetry.electric_kw);
    assert!(w_base > 0.0, "baseline must draw power");
    let ratio = w_compound / w_base;
    assert!((ratio - 0.25).abs() < 0.05);
}

/// No draw, and a tank above its setpoint, so that only the standby loss shows.
#[test]
fn jacket_r_value_reduces_standby_skin_loss() {
    let make = |jacket: Option<Double>| {
        heater(&ElectricResistanceWaterHeaterConfig {
            loop_id: None,
            ua_w_per_k: some(3.0),
            initial_tank_temp_c: some(55.0),
            jacket_r_value_m2_k_w: jacket,
            ..typed_config()
        })
    };
    let e = env(20.0);

    let mut wh_no_jacket = make(None);
    let loss_no_jacket = step(&mut wh_no_jacket, &e, 60).sensible_w;

    let mut wh_with_jacket = make(some(1.761_101_84));
    let loss_with_jacket = step(&mut wh_with_jacket, &e, 60).sensible_w;

    assert!(loss_no_jacket > 0.0);
    assert!(loss_with_jacket < loss_no_jacket);
}

#[test]
fn element_kw_present_and_equals_electric_kw_when_heating() {
    let mut eq = heater(&typed_config());
    step(&mut eq, &env(21.0), 60);
    let electric_kw = f(eq.state.telemetry.electric_kw);
    let element_kw = f(eq.state.telemetry.element_kw);
    assert!(electric_kw > 0.0, "WH must be heating for this test to be meaningful");
    assert!((element_kw - electric_kw).abs() < 1e-9);
}

#[test]
fn twelve_node_tank_element_positions_match_ochre() {
    let eq =
        heater(&ElectricResistanceWaterHeaterConfig { tank_nodes: Some(12), ..typed_config() });
    assert_eq!(eq.state.upper_node, 2, "12-node tank: upper element must be at node 2");
    assert_eq!(eq.state.lower_node, 9, "12-node tank: lower element must be at node 9");
}

#[test]
fn default_node_tank_element_positions() {
    let eq = heater(&typed_config());
    assert_eq!(eq.state.upper_node, 0);
    assert_eq!(eq.state.lower_node, eq.tank.node_temps().len() - 1);
}

#[test]
fn resistance_outlet_temp_c_telemetry_present_with_draw() {
    let mut eq = heater(&ElectricResistanceWaterHeaterConfig {
        initial_tank_temp_c: some(55.0),
        setpoint_c: some(55.0),
        draw_flow_rate_kg_s: some(0.1),
        ..typed_config()
    });
    step(&mut eq, &env(21.0), 60);
    assert!(f(eq.state.telemetry.outlet_temp_c) > 0.0);
}

#[test]
fn resistance_outlet_temp_c_telemetry_present_without_draw() {
    let mut eq = heater(&ElectricResistanceWaterHeaterConfig {
        initial_tank_temp_c: some(55.0),
        draw_flow_rate_kg_s: some(0.0),
        ..typed_config()
    });
    step(&mut eq, &env(21.0), 60);
    let outlet = f(eq.state.telemetry.outlet_temp_c);
    let tank_avg = f(eq.state.telemetry.tank_avg_temp_c);
    assert!((outlet - tank_avg).abs() < 1.0);
}

// ---------------------------------------------------------------------------
// Element priority
// ---------------------------------------------------------------------------

fn env_state() -> EnvironmentState {
    env(21.0)
}

#[test]
fn master_slave_upper_firing_locks_out_lower() {
    let mut wh = heater(&cold_config("MasterSlave"));
    let mode = wh.update_control(&env_state());
    assert!(wh.state.upper_element_on, "upper element must fire in MasterSlave mode");
    assert!(!wh.state.lower_element_on, "lower element must be locked out");
    assert_eq!(mode, OperatingMode::Heating);
}

#[test]
fn master_slave_upper_satisfied_allows_lower() {
    let mut wh = heater(&cold_config("MasterSlave"));
    let node = wh.state.upper_node;
    wh.tank.heat_node(node, d(200_000.0), Duration::from_secs(120)).unwrap();
    let mode = wh.update_control(&env_state());
    assert!(!wh.state.upper_element_on);
    assert!(wh.state.lower_element_on, "lower element must fire once upper is satisfied");
    assert_eq!(mode, OperatingMode::Heating);
}

#[test]
fn simultaneous_both_elements_can_fire_together() {
    let mut wh = heater(&cold_config("Simultaneous"));
    let mode = wh.update_control(&env_state());
    assert!(wh.state.upper_element_on, "upper element must fire in Simultaneous mode");
    assert!(wh.state.lower_element_on, "lower element must also fire in Simultaneous mode");
    assert_eq!(mode, OperatingMode::Heating);
}

#[test]
fn master_slave_recovery_sequence_no_overlap() {
    let mut wh = heater(&cold_config("MasterSlave"));

    wh.update_control(&env_state());
    assert!(wh.state.upper_element_on);
    assert!(!wh.state.lower_element_on);

    let node = wh.state.upper_node;
    wh.tank.heat_node(node, d(200_000.0), Duration::from_secs(120)).unwrap();

    wh.update_control(&env_state());
    assert!(!wh.state.upper_element_on, "upper must turn off when satisfied");
    assert!(wh.state.lower_element_on, "lower must take over after upper is satisfied");
    assert!(!(wh.state.upper_element_on && wh.state.lower_element_on));
}

#[test]
fn mode_override_off_disables_both_in_either_mode() {
    for mode_str in ["MasterSlave", "Simultaneous"] {
        let mut wh = heater(&cold_config(mode_str));
        wh.apply_control(ControlSignal::ModeOverride { mode: OperatingMode::Off }).unwrap();
        let mode = wh.update_control(&env_state());
        assert!(!wh.state.upper_element_on);
        assert!(!wh.state.lower_element_on);
        assert_eq!(mode, OperatingMode::Off, "mode must be Off ({mode_str})");
    }
}

#[test]
fn state_round_trip_preserves_element_priority() {
    for (mode_str, expected_mode) in [
        ("MasterSlave", ElementPriorityMode::MasterSlave),
        ("Simultaneous", ElementPriorityMode::Simultaneous),
    ] {
        let cfg = cold_config(mode_str);
        let mut wh = heater(&cfg);
        step(&mut wh, &env_state(), 60);
        let saved = wh.save_state();

        let mut restored = heater(&cfg);
        restored.load_state(saved).unwrap();
        assert_eq!(restored.state.element_priority, expected_mode);
    }
}

#[test]
fn resistance_state_round_trip_preserves_dr_state() {
    let cfg = cold_config("MasterSlave");
    let mut eq = heater(&cfg);
    eq.apply_control(ControlSignal::DemandResponse {
        level: DRLevel::Critical,
        duration_s: some(300.0),
    })
    .unwrap();
    let saved = eq.save_state();

    let mut restored = heater(&cfg);
    restored.load_state(saved).unwrap();

    assert_eq!(restored.state.dr.level, DRLevel::Critical, "dr_level must survive save/load");
    assert!(f(restored.state.dr.setpoint_offset_c) < 0.0);
    assert_eq!(restored.state.dr.duration_remaining_s, some(300.0));
    assert!(f(restored.state.dr.load_fraction) < 1.0);
}

/// With coarse steps each element runs for as long as its own node needs.
#[test]
fn simultaneous_ideal_capacity_independent_duties() {
    let mut env = env_state();
    // 5-minute timestep to activate ideal capacity mode.
    env.time_res = TimeStep::seconds(300);
    let mut wh = heater(&cold_config("Simultaneous"));

    let (upper, lower) = (wh.state.upper_node, wh.state.lower_node);
    wh.tank.node_temps_mut()[upper] = d(49.5);
    wh.tank.node_temps_mut()[lower] = d(30.0);
    step(&mut wh, &env, 300);

    let upper_w = f(wh.state.telemetry.upper_element_power_w);
    let lower_w = f(wh.state.telemetry.lower_element_power_w);
    assert!(upper_w > 0.0);
    assert!(lower_w > 0.0);
    assert!(lower_w > upper_w);
}

/// Both elements together keep to 7200 W, the upper one first.
#[test]
fn simultaneous_max_combined_power_clamps_lower_element() {
    let mut wh = heater(&ElectricResistanceWaterHeaterConfig {
        max_combined_power_w: some(7_200.0),
        ..cold_config("Simultaneous")
    });
    step(&mut wh, &env_state(), 60);

    let upper_w = f(wh.state.telemetry.upper_element_power_w);
    let lower_w = f(wh.state.telemetry.lower_element_power_w);
    let total_w = upper_w + lower_w;
    assert!(upper_w > 0.0, "upper element must fire");
    assert!(lower_w > 0.0, "lower element fires but must be clamped, not zero");
    assert!(total_w <= 7_200.0 + 1.0);
    assert!(lower_w < 4_500.0);
}

#[test]
fn master_slave_unaffected_by_max_combined_power() {
    for max_w in [None, some(7_200.0)] {
        let mut wh = heater(&ElectricResistanceWaterHeaterConfig {
            max_combined_power_w: max_w,
            ..cold_config("MasterSlave")
        });
        step(&mut wh, &env_state(), 60);
        assert!(f(wh.state.telemetry.upper_element_power_w) > 0.0);
        assert_eq!(f(wh.state.telemetry.lower_element_power_w), 0.0);
    }
}

#[test]
fn state_round_trip_preserves_max_combined_power_w() {
    let cfg = ElectricResistanceWaterHeaterConfig {
        max_combined_power_w: some(6_500.0),
        ..cold_config("Simultaneous")
    };
    let wh = heater(&cfg);
    assert_eq!(wh.state.max_combined_power_w, some(6_500.0));
    let saved = wh.save_state();

    let mut restored = heater(&cfg);
    restored.load_state(saved).unwrap();
    assert_eq!(restored.state.max_combined_power_w, some(6_500.0));
}

// ---------------------------------------------------------------------------
// Further scenarios
// ---------------------------------------------------------------------------

#[test]
fn resistance_figures_are_exact() {
    let mut eq = heater(&typed_config());
    let p = step(&mut eq, &env(40.0), 60);
    assert_eq!(f(eq.state.telemetry.upper_element_power_w), 4_500.0);
    assert_eq!(p.electric_w, 4_500.0);
    assert_eq!(f(eq.state.telemetry.electric_kw), 4.5);
    // In surroundings as warm as itself the tank gains all of the heat.
    let rise: f64 = all(eq.tank.node_temps()).iter().map(|t| t - 40.0).sum();
    let node_kg = f(eq.tank.node_volumes_m3()[0]) * 1000.0;
    assert!((rise - 4_500.0 * 60.0 / (node_kg * 4183.0)).abs() < 1e-9);

    let mut small = heater(&ElectricResistanceWaterHeaterConfig {
        element_power_w: some(2_000.0),
        ..typed_config()
    });
    step(&mut small, &env(21.0), 60);
    assert_eq!(f(small.state.telemetry.upper_element_power_w), 2_000.0);
}

#[test]
fn setpoints_move_at_their_rate() {
    let mut eq = heater(&ElectricResistanceWaterHeaterConfig {
        max_setpoint_ramp_rate_c_per_min: some(1.5),
        ..typed_config()
    });
    eq.apply_control(ControlSignal::ThermalSetpoint {
        heating_setpoint_c: some(56.0),
        cooling_setpoint_c: None,
        deadband_c: None,
    })
    .unwrap();
    assert_eq!(f(eq.state.setpoint_c), 52.0);
    for expected in [53.5, 55.0, 56.0, 56.0] {
        eq.update_control(&env_state());
        assert!((f(eq.state.setpoint_c) - expected).abs() < 1e-9);
    }
}

#[test]
fn real_power_follows_the_voltage() {
    let mut eq = heater(&typed_config());
    eq.state.zip = WaterHeaterZip {
        z: d(1.0),
        i: d(0.0),
        p: d(0.0),
        pf: d(0.5),
        ..WaterHeaterZip::constant_power()
    };
    let mut e = env_state();
    e.voltage_pu = d(0.9);
    let p = step(&mut eq, &e, 60);
    assert!((p.electric_w - 4_500.0 * 0.81).abs() < 1e-9);
    assert!((p.reactive_kvar - 4.5 * 0.81 * 0.5).abs() < 1e-9);
}

#[test]
fn resistance_demand_of_appliances_is_drawn() {
    let mut eq = heater(&ElectricResistanceWaterHeaterConfig {
        draw_flow_rate_kg_s: some(0.05),
        ..typed_config()
    });
    let fluid = [FluidAccumulator {
        loop_id: DHW_DEMAND_LOOP,
        total_flow_kg_s: d(0.02),
        mean_supply_temp_c: d(0.0),
    }];
    let p = step_with(&mut eq, &env_state(), 60, &fluid, NO_READINGS);
    assert!((p.flow_kg_s - 0.07).abs() < 1e-12);
    assert!(f(eq.state.telemetry.unmet_load_w) > 0.0);
}

#[test]
fn resistance_control_signals_are_checked() {
    let mut eq = heater(&typed_config());
    let before = eq.state;
    assert!(matches!(
        eq.apply_control(ControlSignal::DutyCycle { on_fraction: d(-0.1), component: None }),
        Err(HaresError::Control(ControlFault::DutyCycle { equipment: "ResistanceWH", .. }))
    ));
    assert!(matches!(
        eq.apply_control(ControlSignal::ThermalSetpoint {
            heating_setpoint_c: some(f64::INFINITY),
            cooling_setpoint_c: None,
            deadband_c: None,
        }),
        Err(HaresError::Control(ControlFault::Setpoint { .. }))
    ));
    assert!(matches!(
        eq.apply_control(ControlSignal::ThermalSetpoint {
            heating_setpoint_c: None,
            cooling_setpoint_c: None,
            deadband_c: some(f64::NAN),
        }),
        Err(HaresError::Control(ControlFault::Deadband { .. }))
    ));
    assert_eq!(eq.state, before);
    eq.apply_control(ControlSignal::Other).unwrap();
    assert_eq!(eq.state, before);
}

#[test]
fn resistance_config_out_of_limits_changes_nothing() {
    let mut eq = heater(&typed_config());
    let before = eq.state;
    let bad = ElectricResistanceWaterHeaterConfig { setpoint_c: some(20.0), ..typed_config() };
    assert!(matches!(
        eq.init_typed(&bad, d(10.0)),
        Err(HaresError::Equipment(Fault::OutOfLimits { name: "resistance_wh: setpoint_c", .. }))
    ));
    assert_eq!(eq.state, before);
    eq.rename("Attic".to_string());
    assert_eq!(eq.descriptor.name, "Attic");
    eq.set_max_tank_temp_c(d(70.0));
    assert_eq!(f(eq.state.max_tank_temp_c), 70.0);
}

#[test]
fn small_losses_and_no_zone_give_nothing() {
    assert!(jacket_loss(None, d(100.0)).is_none());
    assert!(jacket_loss(Some(1), d(0.001)).is_none());
    assert!(matches!(
        jacket_loss(Some(7), d(-2.5)),
        Some(PortContribution::Thermal {
            zone: 7,
            category: ThermalCategory::JacketLoss,
            ..
        })
    ));
}

#[test]
fn strong_elements_at_once_may_overload_a_circuit() {
    let both = ElectricResistanceWaterHeaterConfig {
        element_priority_mode: Some("Simultaneous".to_string()),
        ..typed_config()
    };
    assert!(heater(&both).state.may_overload_circuit());
    assert!(!heater(&typed_config()).state.may_overload_circuit());
    let limited = ElectricResistanceWaterHeaterConfig {
        element_priority_mode: Some("Simultaneous".to_string()),
        max_combined_power_w: some(7_200.0),
        ..typed_config()
    };
    let eq = heater(&limited);
    assert!(!eq.state.may_overload_circuit());
    assert_eq!(f(eq.state.capped_lower(d(4_500.0), d(4_500.0))), 2_700.0);
    assert_eq!(f(eq.state.capped_lower(d(2_000.0), d(4_500.0))), 4_500.0);
}

#[test]
fn a_limit_below_one_element_holds_for_both() {
    let mut wh = heater(&ElectricResistanceWaterHeaterConfig {
        max_combined_power_w: some(3_000.0),
        ..cold_config("Simultaneous")
    });
    step(&mut wh, &env(21.0), 60);
    assert_eq!(f(wh.state.telemetry.upper_element_power_w), 3_000.0);
    assert_eq!(f(wh.state.telemetry.lower_element_power_w), 0.0);
    assert_eq!(f(wh.state.capped_upper(d(2_500.0))), 2_500.0);
}

#[test]
fn saved_setpoints_are_taken_over_as_they_are() {
    let mut wh = heater(&ElectricResistanceWaterHeaterConfig {
        max_setpoint_ramp_rate_c_per_min: some(3.0),
        ..typed_config()
    });
    let minute = d(60.0);

    // An infinite target is approached at the full rate.
    let mut saved = wh.save_state();
    let start = f(saved.setpoint_c);
    saved.target_setpoint_c = d(f64::INFINITY);
    assert!(wh.load_state(saved).is_ok());
    assert_eq!(f(wh.state.target_setpoint_c), f64::INFINITY);
    assert!(wh.state.can_ramp(minute));
    assert_eq!(f(wh.state.later(minute).setpoint_c), start + 3.0);

    // A target that is no number is taken over, and the setpoint with it.
    let mut saved = wh.save_state();
    saved.target_setpoint_c = d(f64::NAN);
    assert!(wh.load_state(saved).is_ok());
    assert!(wh.state.can_ramp(minute));
    assert!(f(wh.state.later(minute).setpoint_c).is_nan());

    // An infinite setpoint stays where it is.
    let mut saved = wh.save_state();
    saved.setpoint_c = d(f64::INFINITY);
    saved.target_setpoint_c = d(52.0);
    assert!(wh.load_state(saved).is_ok());
    assert!(wh.state.can_ramp(minute));
    assert_eq!(f(wh.state.later(minute).setpoint_c), f64::INFINITY);
    wh.state.setpoint_ramp_rate_c_per_s = some(f64::MAX);
    assert!(!wh.state.can_ramp(minute));

    // A setpoint that is no number cannot move.
    let mut saved = wh.save_state();
    saved.setpoint_c = d(f64::NAN);
    assert!(wh.load_state(saved).is_ok());
    assert!(f(wh.state.setpoint_c).is_nan());
    assert!(!wh.state.can_ramp(minute));
    wh.state.setpoint_ramp_rate_c_per_s = None;
    assert!(wh.state.can_ramp(minute));
}
