//! Tests of the indirect tank.
use hares_water_heater::config::EquipmentConfig;
use hares_water_heater::error::{ControlFault, Fault, HaresError};
use hares_water_heater::indirect_tank::{bottom_temp_c, read_boiler_supply_temp_c, IndirectOutside};
use hares_water_heater::shared::{ScheduleReadings, DHW_DEMAND_LOOP};
use hares_water_heater::time::{CivilTime, Duration, TimeStep};
use hares_water_heater::types::{
    ControlSignal, DRLevel, EnvironmentState, FluidAccumulator, OperatingMode, PortContribution,
    ZoneState,
};
use hares_water_heater::wh_config::IndirectTankConfig;
use hares_water_heater::{Double, IndirectTank};

fn d(x: f64) -> Double {
    Double { bits: x.to_bits() }
}

fn f(x: Double) -> f64 {
    f64::from_bits(x.bits)
}

fn some(x: f64) -> Option<Double> {
    Some(d(x))
}

fn all(xs: &[Double]) -> Vec<f64> {
    xs.iter().map(|x| f(*x)).collect()
}

/// Water gets lighter as it gets warmer.
fn water_density(temp_c: f64) -> Double {
    d(1000.0 - 0.0178 * (temp_c - 4.0).abs().powf(1.7))
}

const NO_READINGS: ScheduleReadings = ScheduleReadings { draw_rate_kg_s: None, mains_temp_c: None };

fn env() -> EnvironmentState {
    EnvironmentState {
        time_res: TimeStep::seconds(60),
        current_time: CivilTime { unix_secs: 1_767_225_600, offset_secs: 0 },
        zones: vec![ZoneState { id: 1, temperature_c: d(21.0), wet_bulb_c: d(14.0) }],
        outdoor_temp_c: d(10.0),
        mains_temp_c: None,
        custom_domains: vec![],
        voltage_pu: d(1.0),
        bus_voltage_pu: d(1.0),
        bus_energized: true,
    }
}

fn config() -> IndirectTankConfig {
    IndirectTankConfig {
        equipment_id: None,
        zone_id: Some(1),
        boiler_loop_id: Some(5),
        tank_volume_m3: None,
        tank_height_m: None,
        ua_w_per_k: None,
        hx_ua_w_per_k: some(200.0),
        setpoint_c: some(52.0),
        deadband_c: some(2.0),
        max_tank_temp_c: some(300.0),
        initial_tank_temp_c: some(40.0),
        tank_nodes: None,
        draw_flow_rate_kg_s: some(0.0),
        avg_water_draw_l_per_day: None,
        draw_flow_rate_source: None,
        mains_temp_c_source: None,
        performance_adjustment: None,
        zone_type: None,
        first_hour_rating_m3: None,
        jacket_r_value_m2_k_w: None,
        fixture_delivery_temp_c: None,
        hot_draw_temp_c: None,
        boiler_loop_flow_rate_kg_s: some(0.2),
    }
}

fn heater(c: &IndirectTankConfig) -> IndirectTank {
    let mut eq = IndirectTank::new(EquipmentConfig {
        name: "Indirect".to_string(),
        equipment_id: None,
        zone_id: Some(1),
        loop_id: None,
        values: vec![],
    });
    eq.init_typed(c, d(10.0)).expect("init");
    eq
}

fn boiler_at(temp_c: f64) -> FluidAccumulator {
    FluidAccumulator { loop_id: 5, total_flow_kg_s: d(0.2), mean_supply_temp_c: d(temp_c) }
}

fn step(eq: &mut IndirectTank, fluid: &[FluidAccumulator]) -> Vec<PortContribution> {
    let e = env();
    let mode = eq.update_control(&e);
    let outside = IndirectOutside {
        water_density_kg_m3: water_density(f(eq.tank.node_temps()[0])),
        cp_j_kg_k: d(4186.0),
    };
    let step = eq
        .step(&e, mode, outside, fluid, NO_READINGS, Duration::from_secs(60))
        .expect("step");
    eq.finish_step(step.figures);
    step.contributions
}

#[test]
fn boiler_heats_a_cold_tank() {
    let mut eq = heater(&config());
    let contributions = step(&mut eq, &[boiler_at(80.0)]);
    // 200 W/K by 40 K, out of 0.2 kg/s.
    assert_eq!(f(eq.state.telemetry.electric_power_w), 8_000.0);
    assert_eq!(f(eq.state.telemetry.electric_kw), 0.0);
    assert_eq!(eq.state.core_output.thermal_output_w, some(8_000.0));
    assert_eq!(contributions.len(), 1);
    match contributions[0] {
        PortContribution::Fluid { loop_id, flow_rate_kg_s, supply_temp_c, return_temp_c } => {
            assert_eq!(loop_id, 5);
            assert_eq!(f(flow_rate_kg_s), 0.2);
            assert_eq!(f(supply_temp_c), 80.0);
            assert!((f(return_temp_c) - (80.0 - 8_000.0 / (0.2 * 4186.0))).abs() < 1e-9);
        }
        _ => panic!("the boiler loop comes first"),
    }
    assert!(f(eq.state.telemetry.tank_avg_temp_c) > 40.0);
}

#[test]
fn cold_boilers_transfer_nothing() {
    for fluid in [vec![], vec![boiler_at(40.5)], vec![boiler_at(20.0)]] {
        let mut eq = heater(&config());
        let contributions = step(&mut eq, &fluid);
        assert!(eq.state.heating_on);
        assert_eq!(f(eq.state.telemetry.electric_power_w), 0.0);
        assert!(contributions.is_empty());
    }
}

#[test]
fn the_coil_sits_at_the_bottom() {
    assert_eq!(f(bottom_temp_c(&[d(60.0), d(50.0), d(40.0)])), 45.0);
    assert_eq!(f(bottom_temp_c(&[d(60.0), d(50.0)])), 60.0);
    assert_eq!(f(read_boiler_supply_temp_c(&[boiler_at(70.0)], 5)), 70.0);
    assert_eq!(f(read_boiler_supply_temp_c(&[boiler_at(70.0)], 6)), 0.0);
    let mut eq = heater(&config());
    let before = all(eq.tank.node_temps());
    step(&mut eq, &[boiler_at(80.0)]);
    let after = all(eq.tank.node_temps());
    // The heat rises through all of the tank, no node ending colder than the one below.
    assert!(after.iter().zip(before.iter()).all(|(a, b)| a > b));
    for pair in after.windows(2) {
        assert!(pair[0] >= pair[1]);
    }
}

#[test]
fn indirect_demand_of_appliances_is_drawn() {
    let mut eq = heater(&IndirectTankConfig { draw_flow_rate_kg_s: some(0.05), ..config() });
    let demand = FluidAccumulator {
        loop_id: DHW_DEMAND_LOOP,
        total_flow_kg_s: d(0.02),
        mean_supply_temp_c: d(0.0),
    };
    let contributions = step(&mut eq, &[boiler_at(80.0), demand]);
    assert_eq!(contributions.len(), 2);
    match contributions[1] {
        PortContribution::Fluid { loop_id, flow_rate_kg_s, supply_temp_c, return_temp_c } => {
            assert_eq!(loop_id, DHW_DEMAND_LOOP);
            assert!((f(flow_rate_kg_s) - 0.07).abs() < 1e-12);
            assert_eq!(f(supply_temp_c), 40.0);
            assert_eq!(f(return_temp_c), 10.0);
        }
        _ => panic!("hot water comes second"),
    }
}

#[test]
fn thermostats_switch_the_boiler() {
    let mut eq = heater(&config());
    assert_eq!(eq.update_control(&env()), OperatingMode::Heating);
    eq.tank.node_temps_mut().fill(d(51.0));
    assert_eq!(eq.update_control(&env()), OperatingMode::Heating);
    eq.tank.node_temps_mut().fill(d(52.0));
    assert_eq!(eq.update_control(&env()), OperatingMode::Off);
    eq.tank.node_temps_mut().fill(d(51.0));
    assert_eq!(eq.update_control(&env()), OperatingMode::Off);
    eq.tank.node_temps_mut().fill(d(50.0));
    assert_eq!(eq.update_control(&env()), OperatingMode::Heating);
    eq.state.max_tank_temp_c = d(45.0);
    assert_eq!(eq.update_control(&env()), OperatingMode::Off);
}

#[test]
fn indirect_load_is_shed() {
    for signal in [
        ControlSignal::DemandResponse { level: DRLevel::GridEmergency, duration_s: None },
        ControlSignal::ModeOverride { mode: OperatingMode::Off },
        ControlSignal::DutyCycle { on_fraction: d(0.0), component: None },
    ] {
        let mut eq = heater(&config());
        eq.apply_control(signal).unwrap();
        let contributions = step(&mut eq, &[boiler_at(80.0)]);
        assert!(!eq.state.heating_on);
        assert!(contributions.is_empty());
    }
    let mut eq = heater(&config());
    eq.apply_control(ControlSignal::LoadFraction { fraction: d(0.25) }).unwrap();
    step(&mut eq, &[boiler_at(80.0)]);
    assert_eq!(f(eq.state.telemetry.electric_power_w), 2_000.0);
    assert_eq!(f(eq.state.ctrl_load_fraction), 1.0);
}

#[test]
fn indirect_states_carry_over() {
    let mut eq = heater(&config());
    eq.apply_control(ControlSignal::DemandResponse {
        level: DRLevel::Critical,
        duration_s: some(300.0),
    })
    .unwrap();
    step(&mut eq, &[boiler_at(80.0)]);
    let mut restored = heater(&config());
    restored.load_state(eq.save_state()).unwrap();
    assert_eq!(restored.tank.node_temps(), eq.tank.node_temps());
    assert_eq!(restored.state.dr, eq.state.dr);
    assert_eq!(restored.state.heating_on, eq.state.heating_on);
}

#[test]
fn indirect_signals_and_configs_are_checked() {
    let mut eq = heater(&config());
    assert!(matches!(
        eq.apply_control(ControlSignal::DutyCycle { on_fraction: d(1.01), component: None }),
        Err(HaresError::Control(ControlFault::DutyCycle { equipment: "IndirectTank", .. }))
    ));
    let bad = IndirectTankConfig { hx_ua_w_per_k: some(0.0), ..config() };
    assert!(matches!(
        eq.init_typed(&bad, d(10.0)),
        Err(HaresError::Equipment(Fault::OutOfLimits { .. }))
    ));
}
