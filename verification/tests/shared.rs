//! Tests of the rules that the heaters share, of voltage, and of the registry.
use hares_water_heater::config::{
    apply_jacket_r_value, draw_schedule_source, jacketed_ua, mains_temp_schedule_source, parse_usize,
    resolve_draw_rate_kg_s, ConfigValue, EquipmentConfig,
};
use hares_water_heater::registry::{EquipmentRegistry, HeaterKind, Registration};
use hares_water_heater::resistance::ResistanceOutside;
use hares_water_heater::shared::{
    ambient_temp_c, hysteresis_call, ramp_limited_setpoint, read_dhw_demand_kg_s,
    resolve_mains_temp_c, resolve_storage_step_inputs, weighted_average_tank_temp, DemandResponse,
    ScheduleReadings, DHW_DEMAND_LOOP, MAINS_WATER_DOMAIN_ID,
};
use hares_water_heater::time::{CivilTime, Duration, TimeStep};
use hares_water_heater::types::{
    BoundaryPolicy, CustomDomain, DRLevel, EnvironmentState, FluidAccumulator, ScheduleSource,
    ZoneState,
};
use hares_water_heater::wh_config::ElectricResistanceWaterHeaterConfig;
use hares_water_heater::zip::WaterHeaterZip;
use hares_water_heater::{indirect_tank, register_with_registry, Double, ResistanceWH, AMBIGUOUS_CLASS};

fn d(x: f64) -> Double {
    Double { bits: x.to_bits() }
}

fn f(x: Double) -> f64 {
    f64::from_bits(x.bits)
}

fn some(x: f64) -> Option<Double> {
    Some(d(x))
}

fn all(xs: &[Double]) -> Vec<f64> {
    xs.iter().map(|x| f(*x)).collect()
}

/// Water gets lighter as it gets warmer.
fn water_density(temp_c: f64) -> Double {
    d(1000.0 - 0.0178 * (temp_c - 4.0).abs().powf(1.7))
}

fn base_config() -> EquipmentConfig {
    with_values(&[])
}

fn with_values(values: &[(&str, f64)]) -> EquipmentConfig {
    EquipmentConfig {
        name: "WH".to_string(),
        equipment_id: None,
        zone_id: None,
        loop_id: None,
        values: values
            .iter()
            .map(|(key, value)| ConfigValue { key: key.to_string(), value: d(*value) })
            .collect(),
    }
}

fn env_with_mains(mains_payload: Option<Vec<f64>>) -> EnvironmentState {
    EnvironmentState {
        time_res: TimeStep::seconds(60),
        current_time: CivilTime { unix_secs: 1_773_792_000, offset_secs: 0 },
        zones: vec![ZoneState { id: 1, temperature_c: d(21.0), wet_bulb_c: d(14.0) }],
        outdoor_temp_c: d(10.0),
        mains_temp_c: None,
        custom_domains: vec![
            CustomDomain { domain_id: 1, payload: Some(vec![d(99.0)]) },
            CustomDomain {
                domain_id: MAINS_WATER_DOMAIN_ID,
                payload: mains_payload.map(|p| p.into_iter().map(d).collect()),
            },
        ],
        voltage_pu: d(1.0),
        bus_voltage_pu: d(1.0),
        bus_energized: true,
    }
}

fn base_env() -> EnvironmentState {
    env_with_mains(None)
}

/// A heater that is off turns on at exactly `setpoint - deadband`.
#[test]
fn hysteresis_boundary_exact_deadband_floor_turns_on() {
    let setpoint = 52.0_f64;
    let deadband = 2.0_f64;
    let boundary = setpoint - deadband; // 50.0
    let call = |t: f64, on: bool| hysteresis_call(d(t), d(setpoint), d(deadband), on);

    assert!(call(boundary, false), "at exactly setpoint-deadband, inactive heater should turn on");
    assert!(!call(boundary + 1e-9, false), "just above, inactive heater stays off");
    assert!(call(boundary - 0.5, false));
    assert!(call(boundary, true));
    assert!(!call(setpoint, true));
}

#[test]
fn jacket_r_value_reduces_effective_ua() {
    let ua_base = 2.0_f64;
    let height_m = 1.5_f64;
    let diameter_m = 0.5_f64;
    let jacket_r_m2_k_w = 1.761_101_84_f64; // 10 hr·ft²·°F/BTU
    let cfg = with_values(&[("jacket_r_value_m2_k_w", jacket_r_m2_k_w)]);

    let ua_adjusted = f(apply_jacket_r_value(d(ua_base), d(height_m), d(diameter_m), &cfg));
    let lateral_area_m2 = std::f64::consts::PI * diameter_m * height_m;
    let ua_expected = 1.0 / (1.0 / ua_base + jacket_r_m2_k_w / lateral_area_m2);
    assert!(ua_adjusted < ua_base);
    assert!((ua_adjusted - ua_expected).abs() < 1e-12);
}

#[test]
fn jacket_r_value_guard_conditions_keep_base_ua() {
    let ua_base = 2.0_f64;
    let height_m = 1.4_f64;
    let diameter_m = 0.55_f64;
    let apply =
        |cfg: &EquipmentConfig| f(apply_jacket_r_value(d(ua_base), d(height_m), d(diameter_m), cfg));
    // Missing jacket config: no adjustment.
    assert_eq!(apply(&base_config()), ua_base);
    // Non-positive jacket R-value: no adjustment.
    assert_eq!(apply(&with_values(&[("jacket_r_value_m2_k_w", 0.0)])), ua_base);
}

#[test]
fn storage_step_inputs_use_schedule_when_configured() {
    let env = env_with_mains(Some(vec![13.0]));
    let readings = ScheduleReadings { draw_rate_kg_s: some(10.0), mains_temp_c: some(6.0) };
    let (mains_temp_c, draw_rate_kg_s) =
        resolve_storage_step_inputs(&env, d(15.0), d(0.05), readings);
    assert!((f(mains_temp_c) - 6.0).abs() < 1e-12);
    assert!((f(draw_rate_kg_s) - 10.0).abs() < 1e-12);
}

#[test]
fn storage_step_inputs_fall_back_when_schedule_missing_or_invalid() {
    let env = env_with_mains(Some(vec![12.5]));
    let readings = ScheduleReadings { draw_rate_kg_s: None, mains_temp_c: some(f64::NAN) };
    let (mains_temp_c, draw_rate_kg_s) =
        resolve_storage_step_inputs(&env, d(15.0), d(0.08), readings);
    assert!((f(mains_temp_c) - 12.5).abs() < 1e-12);
    assert!((f(draw_rate_kg_s) - 0.08).abs() < 1e-12);
}

fn col(col_idx: usize) -> Option<ScheduleSource> {
    Some(ScheduleSource::ColumnRef { col_idx, boundary: BoundaryPolicy::Clamp })
}

#[test]
fn schedule_sources_parse_supported_aliases() {
    let cfg = with_values(&[("draw_flow_rate_schedule_col", 7.0), ("mains_temp_schedule_col", 2.0)]);
    assert_eq!(draw_schedule_source(&cfg), col(7));
    assert_eq!(mains_temp_schedule_source(&cfg), col(2));
}

#[test]
fn zip_invalid_coefficients_produce_error() {
    let cfg = with_values(&[("zip_z", 0.5), ("zip_i", 0.3), ("zip_p", 0.3)]);
    let result = WaterHeaterZip::from_config(&cfg);
    assert!(result.is_err(), "ZIP z+i+p=1.1 must be rejected in release builds");
    let err_msg = result.unwrap_err().message();
    assert!(err_msg.contains("z+i+p must sum to 1.0"), "got: {err_msg}");
}

#[test]
fn zip_valid_coefficients_parse_ok() {
    let cfg = with_values(&[("zip_z", 0.3), ("zip_i", 0.3), ("zip_p", 0.4)]);
    let zip = WaterHeaterZip::from_config(&cfg).expect("valid ZIP must parse");
    assert!((f(zip.z) - 0.3).abs() < 1e-12);
    assert!((f(zip.i) - 0.3).abs() < 1e-12);
    assert!((f(zip.p) - 0.4).abs() < 1e-12);
}

#[test]
fn zip_invalid_reactive_coefficients_produce_error() {
    let cfg = with_values(&[
        ("zip_z", 0.5),
        ("zip_i", 0.3),
        ("zip_p", 0.2),
        ("zip_zq", 0.5),
        ("zip_iq", 0.3),
        ("zip_pq", 0.3),
    ]);
    let result = WaterHeaterZip::from_config(&cfg);
    assert!(result.is_err(), "ZIP zq+iq+pq=1.1 must be rejected");
}

// ---------------------------------------------------------------------------
// Demand of appliances
// ---------------------------------------------------------------------------

fn wh_config() -> ElectricResistanceWaterHeaterConfig {
    ElectricResistanceWaterHeaterConfig {
        equipment_id: None,
        zone_id: None,
        loop_id: None,
        tank_volume_m3: None,
        tank_height_m: None,
        energy_factor: None,
        uniform_energy_factor: None,
        heating_capacity_w: None,
        ua_w_per_k: None,
        setpoint_c: some(52.0),
        deadband_c: some(2.0),
        max_tank_temp_c: some(300.0),
        initial_tank_temp_c: some(52.0),
        tank_nodes: None,
        avg_water_draw_l_per_day: None,
        draw_flow_rate_kg_s: some(0.0),
        draw_flow_rate_source: None,
        mains_temp_c_source: None,
        performance_adjustment: None,
        zone_type: None,
        first_hour_rating_m3: None,
        element_power_w: None,
        max_setpoint_ramp_rate_c_per_min: None,
        element_priority_mode: None,
        jacket_r_value_m2_k_w: None,
        max_combined_power_w: None,
        fixture_delivery_temp_c: None,
        hot_draw_temp_c: None,
    }
}

fn step_with_demand(cfg: &ElectricResistanceWaterHeaterConfig, demand_kg_s: f64) -> ResistanceWH {
    let env = base_env();
    let mut wh = ResistanceWH::new(base_config());
    wh.init_typed(cfg, d(10.0)).unwrap();
    let fluid = [FluidAccumulator {
        loop_id: DHW_DEMAND_LOOP,
        total_flow_kg_s: d(demand_kg_s),
        mean_supply_temp_c: d(0.0),
    }];
    let mode = wh.update_control(&env);
    let outside = ResistanceOutside {
        water_density_kg_m3: water_density(f(wh.tank.node_temps()[0])),
        ideal_upper_w: d(0.0),
        ideal_lower_w: d(0.0),
    };
    let readings = ScheduleReadings { draw_rate_kg_s: None, mains_temp_c: None };
    let step =
        wh.step(&env, mode, outside, &fluid, readings, Duration::from_secs(60)).expect("step");
    wh.finish_step(step.figures);
    wh
}

fn wh_step_with_demand(demand_kg_s: f64) -> f64 {
    f(step_with_demand(&wh_config(), demand_kg_s).state.telemetry.tank_avg_temp_c)
}

#[test]
fn water_heater_with_appliance_demand_draws_more_than_without() {
    let temp_no_demand = wh_step_with_demand(0.0);
    // 0.1 kg/s is a substantial draw (6 L/min).
    let temp_with_demand = wh_step_with_demand(0.1);
    assert!(temp_with_demand < temp_no_demand);
}

#[test]
fn water_heater_draw_increases_with_larger_appliance_demand() {
    let temp_small = wh_step_with_demand(0.01);
    let temp_large = wh_step_with_demand(0.1);
    assert!(temp_large < temp_small);
}

/// A washer that draws 15 L over a cycle of 1800 s.
#[test]
fn end_to_end_wet_appliance_demand_reaches_water_heater() {
    let expected_draw = 15.0 / 1800.0;
    let wh = step_with_demand(&wh_config(), expected_draw);
    assert!((f(wh.state.telemetry.draw_flow_rate_kg_s) - expected_draw).abs() < 1e-6);
    // Tank must have cooled from 52°C due to the cold-water draw.
    assert!(f(wh.state.telemetry.tank_avg_temp_c) < 52.0);
}

#[test]
fn schedule_draw_and_appliance_demand_are_additive() {
    let cfg = ElectricResistanceWaterHeaterConfig {
        draw_flow_rate_kg_s: some(0.05),
        ..wh_config()
    };
    let wh = step_with_demand(&cfg, 0.01);
    let expected = 0.05 + 0.01;
    assert!((f(wh.state.telemetry.draw_flow_rate_kg_s) - expected).abs() < 1e-6);
}

// ---------------------------------------------------------------------------
// Further scenarios
// ---------------------------------------------------------------------------

#[test]
fn schedule_columns_have_their_order() {
    let cfg = with_values(&[
        ("hot_water_draw_schedule_col", 9.0),
        ("draw_rate_schedule_col", 2.5),
        ("draw_schedule_col", 4.0),
        ("inlet_temp_schedule_col", -1.0),
        ("water_mains_temp_schedule_col", 3.0),
    ]);
    assert_eq!(draw_schedule_source(&cfg), col(4));
    assert_eq!(mains_temp_schedule_source(&cfg), col(3));
    assert_eq!(draw_schedule_source(&base_config()), None);
    assert_eq!(parse_usize(some(f64::INFINITY)), None);
    assert_eq!(parse_usize(some(-0.0)), Some(0));
}

#[test]
fn draws_come_from_the_configuration() {
    let draw = |values: &[(&str, f64)]| f(resolve_draw_rate_kg_s(&with_values(values)));
    assert_eq!(draw(&[("draw_flow_rate_kg_s", 0.1), ("draw_rate_kg_s", 0.2)]), 0.1);
    assert_eq!(draw(&[("draw_rate_kg_s", -0.2)]), 0.0);
    assert_eq!(
        draw(&[("draw_profile_fraction", 0.5), ("avg_water_draw_l_per_day", 864.0)]),
        864.0 / 86_400.0
    );
    assert_eq!(draw(&[("avg_water_draw_l_per_day", 864.0)]), 0.0);
    assert_eq!(
        draw(&[
            ("draw_flow_rate_kg_s", 0.05),
            ("draw_profile_fraction", 0.5),
            ("avg_water_draw_l_per_day", 86_400.0),
        ]),
        1.0
    );
    assert_eq!(
        draw(&[
            ("draw_rate_kg_s", 0.05),
            ("draw_profile_fraction", 0.0),
            ("avg_water_draw_l_per_day", 86_400.0),
        ]),
        0.05
    );
}

#[test]
fn voltage_changes_the_load() {
    let zip = WaterHeaterZip {
        z: d(0.5),
        i: d(0.3),
        p: d(0.2),
        zq: d(0.0),
        iq: d(0.0),
        pq: d(1.0),
        pf: d(0.87),
        v0: d(1.0),
    };
    let (real_w, reactive_kvar) = zip.apply(d(1000.0), d(0.9));
    assert!((f(real_w) - 1000.0 * (0.5 * 0.81 + 0.3 * 0.9 + 0.2)).abs() < 1e-9);
    assert!((f(reactive_kvar) - f(real_w) / 1000.0 * 0.87).abs() < 1e-12);
    assert_eq!(zip.apply(d(1000.0), d(0.0)), (d(0.0), d(0.0)));
    assert_eq!(zip.apply(d(0.0), d(1.0)), (d(0.0), d(0.0)));
    let constant = WaterHeaterZip::constant_power();
    for v in [0.8, 1.0, 1.2] {
        assert_eq!(f(constant.apply(d(1234.5), d(v)).0), 1234.5);
    }
}

#[test]
fn mains_temperatures_must_be_finite() {
    assert_eq!(f(resolve_mains_temp_c(&env_with_mains(Some(vec![8.5, 1.0])), d(15.0))), 8.5);
    for payload in [None, Some(vec![]), Some(vec![f64::NAN])] {
        assert_eq!(f(resolve_mains_temp_c(&env_with_mains(payload), d(15.0))), 15.0);
    }
}

#[test]
fn surroundings_are_the_zone_or_outdoors() {
    let e = base_env();
    assert_eq!(f(ambient_temp_c(&e, Some(1))), 21.0);
    assert_eq!(f(ambient_temp_c(&e, Some(2))), 10.0);
    assert_eq!(f(ambient_temp_c(&e, None)), 10.0);
}

#[test]
fn demand_is_read_from_its_loop() {
    let acc = |loop_id: u16, flow: f64| FluidAccumulator {
        loop_id,
        total_flow_kg_s: d(flow),
        mean_supply_temp_c: d(0.0),
    };
    assert_eq!(f(read_dhw_demand_kg_s(&[acc(1, 0.5), acc(DHW_DEMAND_LOOP, 0.02)])), 0.02);
    assert_eq!(f(read_dhw_demand_kg_s(&[acc(DHW_DEMAND_LOOP, -0.02)])), 0.0);
    assert_eq!(f(read_dhw_demand_kg_s(&[])), 0.0);
}

#[test]
fn setpoints_ramp() {
    assert_eq!(f(ramp_limited_setpoint(d(50.0), d(60.0), d(0.1), d(30.0))), 53.0);
    assert_eq!(f(ramp_limited_setpoint(d(50.0), d(40.0), d(0.1), d(30.0))), 47.0);
    assert_eq!(f(ramp_limited_setpoint(d(50.0), d(51.0), d(0.1), d(30.0))), 51.0);
}

#[test]
fn averages_go_by_volume() {
    let temps = [d(60.0), d(30.0)];
    assert_eq!(f(weighted_average_tank_temp(&temps, &[d(1.0), d(2.0)])), 40.0);
    assert_eq!(f(weighted_average_tank_temp(&[], &[])), 0.0);
}

#[test]
fn demand_responses_have_their_figures() {
    for (level, offset, load) in [
        (DRLevel::Normal, 0.0, 1.0),
        (DRLevel::Moderate, -3.0, 1.0),
        (DRLevel::High, -6.0, 0.8),
        (DRLevel::Critical, -10.0, 0.5),
        (DRLevel::GridEmergency, 0.0, 0.0),
    ] {
        let dr = DemandResponse::at(level, some(100.0));
        assert_eq!(f(dr.setpoint_offset_c), offset);
        assert_eq!(f(dr.load_fraction), load);
        assert_eq!(dr.after(d(60.0)).duration_remaining_s, some(40.0));
        assert_eq!(dr.after(d(60.0)).after(d(40.0)), DemandResponse::normal());
    }
}

#[test]
fn spans_of_time_in_seconds() {
    assert_eq!(f(Duration::from_millis(1500).as_secs()), 1.5);
    assert_eq!(f(Duration { secs: 2, nanos: 250_000_000 }.as_secs()), 2.25);
    // Cut off to the millisecond, and never negative.
    assert_eq!(f(TimeStep { secs: 59, nanos: 999_999_999 }.length_s()), 59.999);
    assert_eq!(f(TimeStep { secs: -2, nanos: 500_000_000 }.length_s()), 0.0);
    assert!(TimeStep::seconds(300).is_coarse());
    assert!(!TimeStep { secs: 299, nanos: 999_999_999 }.is_coarse());
    assert!(!TimeStep::seconds(-300).is_coarse());
}

#[test]
fn names_stand_for_heaters() {
    let mut registry = EquipmentRegistry::new();
    register_with_registry(&mut registry);
    for (name, kind) in [
        ("Resistance Water Heater", HeaterKind::Resistance),
        ("Electric Resistance Water Heater", HeaterKind::Resistance),
        ("Gas Water Heater", HeaterKind::Gas),
        ("Heat Pump Water Heater", HeaterKind::HeatPump),
        ("HPWH", HeaterKind::HeatPump),
        ("Tankless Water Heater", HeaterKind::Tankless),
        ("Gas Tankless Water Heater", HeaterKind::Tankless),
    ] {
        assert!(
            matches!(registry.lookup(name), Some(Registration::Heater(k)) if k == kind),
            "{name}"
        );
    }
    assert!(matches!(
        registry.lookup("Water Heating"),
        Some(Registration::Refused(message)) if message == AMBIGUOUS_CLASS
    ));
    assert!(registry.lookup("Indirect Tank").is_none());
    assert!(registry.lookup("Furnace").is_none());
    indirect_tank::register_with_registry(&mut registry);
    // The later registration under a name counts.
    registry.register("Water Heating", HeaterKind::Gas);
    assert!(matches!(
        registry.lookup("Water Heating"),
        Some(Registration::Heater(HeaterKind::Gas))
    ));
}

#[test]
fn better_jackets_lose_less() {
    let ua = |r: Option<f64>| f(jacketed_ua(d(2.0), d(1.2), d(0.5), r.map(d)));
    assert_eq!(ua(None), 2.0);
    assert_eq!(ua(Some(0.0)), 2.0);
    let thin = ua(Some(0.5));
    let thick = ua(Some(2.0));
    assert!(thick < thin && thin < 2.0);
    let side = std::f64::consts::PI * 0.5 * 1.2;
    assert_eq!(thick, 1.0 / (1.0 / 2.0 + 2.0 / side));
}
