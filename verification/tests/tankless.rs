//! Tests of the tankless water heater.
use hares_water_heater::config::EquipmentConfig;
use hares_water_heater::error::{ControlFault, Fault, HaresError};
use hares_water_heater::shared::{ScheduleReadings, DHW_DEMAND_LOOP};
use hares_water_heater::tankless::{
    configured_efficiency, TanklessDelivery, TanklessOutside, TanklessSite,
};
use hares_water_heater::time::{CivilTime, Duration, TimeStep};
use hares_water_heater::types::{
    ActivePower, ControlSignal, DRLevel, EnvironmentState, FluidAccumulator, FuelType,
    OperatingMode, PortContribution, PortDeclaration, ScheduleSource, BoundaryPolicy, ZoneState,
};
use hares_water_heater::wh_config::TanklessWaterHeaterConfig;
use hares_water_heater::{Double, TanklessWH};

const CP_LIQUID_WATER_J_KG_K: f64 = 4183.0;
const GALLONS_PER_MINUTE_TO_KG_PER_SECOND: f64 = 0.063_090_2;

fn d(x: f64) -> Double {
    Double { bits: x.to_bits() }
}

fn f(x: Double) -> f64 {
    f64::from_bits(x.bits)
}

fn some(x: f64) -> Option<Double> {
    Some(d(x))
}

fn all(xs: &[Double]) -> Vec<f64> {
    xs.iter().map(|x| f(*x)).collect()
}

/// Water gets lighter as it gets warmer.
fn water_density(temp_c: f64) -> Double {
    d(1000.0 - 0.0178 * (temp_c - 4.0).abs().powf(1.7))
}

fn env() -> EnvironmentState {
    EnvironmentState {
        time_res: TimeStep::seconds(60),
        current_time: CivilTime { unix_secs: 1_767_225_600, offset_secs: 0 },
        zones: vec![ZoneState { id: 1, temperature_c: d(21.0), wet_bulb_c: d(15.0) }],
        outdoor_temp_c: d(10.0),
        mains_temp_c: some(20.0),
        custom_domains: vec![],
        voltage_pu: d(1.0),
        bus_voltage_pu: d(1.0),
        bus_energized: true,
    }
}

fn outage() -> EnvironmentState {
    EnvironmentState {
        voltage_pu: d(0.0),
        bus_voltage_pu: d(0.0),
        bus_energized: false,
        ..env()
    }
}

fn typed_config() -> TanklessWaterHeaterConfig {
    TanklessWaterHeaterConfig {
        equipment_id: None,
        zone_id: None,
        loop_id: None,
        fuel_type: FuelType::Gas,
        energy_factor: some(0.8),
        uniform_energy_factor: None,
        heating_capacity_w: some(30_000.0),
        setpoint_c: some(50.0),
        parasitic_power_w: some(7.38),
        performance_adjustment: None,
        inlet_temp_c: some(20.0),
        draw_flow_rate_kg_s: some(0.2),
        draw_flow_rate_source: None,
        mains_temp_c_source: None,
        avg_water_draw_l_per_day: None,
        zone_type: None,
        min_flow_kg_s: None,
        min_flow_gpm: None,
    }
}

fn electric_config() -> TanklessWaterHeaterConfig {
    TanklessWaterHeaterConfig {
        fuel_type: FuelType::Electric,
        energy_factor: some(0.95),
        ..typed_config()
    }
}

fn new_heater(c: &TanklessWaterHeaterConfig) -> TanklessWH {
    TanklessWH::new(
        EquipmentConfig {
            name: "Tankless".to_string(),
            equipment_id: None,
            zone_id: None,
            loop_id: None,
            values: vec![],
        },
        c,
    )
}

fn site() -> TanklessSite {
    TanklessSite {
        gpm_in_kg_s: d(GALLONS_PER_MINUTE_TO_KG_PER_SECOND),
        scheduled_mains_temp_c: None,
        mains_temp_c: d(20.0),
    }
}

fn heater(c: &TanklessWaterHeaterConfig) -> TanklessWH {
    let mut eq = new_heater(c);
    eq.init_typed(c, site()).expect("init");
    eq
}

/// What a step gave to the ports.
#[derive(Debug, Default)]
struct Ports {
    fuel_w: f64,
    load_power_w: f64,
    reactive_kvar: f64,
}

const NO_READINGS: ScheduleReadings = ScheduleReadings { draw_rate_kg_s: None, mains_temp_c: None };

fn step_with(
    eq: &mut TanklessWH,
    env: &EnvironmentState,
    fluid: &[FluidAccumulator],
    readings: ScheduleReadings,
) -> (Ports, TanklessDelivery) {
    let mode = eq.update_control(env);
    let outside = TanklessOutside {
        cp_j_kg_k: d(CP_LIQUID_WATER_J_KG_K),
        water_density_kg_m3: water_density(f(eq.inlet_temp_c(env, readings))),
    };
    let delivery = eq.deliver(env, mode, outside, fluid, readings, Duration::from_secs(60));
    // At a power factor of one no reactive power goes with the electric power.
    let reactive_kvar = d(0.0);
    let mut ports = Ports::default();
    for contribution in eq.contributions(delivery, reactive_kvar) {
        match contribution {
            PortContribution::Fuel { consumption_w, .. } => ports.fuel_w += f(consumption_w),
            PortContribution::Electrical {
                active_power: ActivePower::Watts(w),
                reactive_power_kvar,
            } => {
                ports.load_power_w += f(w);
                ports.reactive_kvar += f(reactive_power_kvar);
            }
            _ => panic!("a tankless heater gives nothing else"),
        }
    }
    let reported = if mode == OperatingMode::Heating && !TanklessWH::takes_energy(delivery) {
        OperatingMode::Standby
    } else {
        mode
    };
    eq.finish_step(delivery, reactive_kvar, reported);
    (ports, delivery)
}

fn step(eq: &mut TanklessWH, env: &EnvironmentState) -> Ports {
    step_with(eq, env, &[], NO_READINGS).0
}

fn step_once(eq: &mut TanklessWH) -> Ports {
    step(eq, &env())
}

#[test]
fn reactive_power_is_some_zero_at_unity_pf() {
    for typed in [typed_config(), electric_config()] {
        let mut eq = heater(&typed);
        assert!(eq.descriptor.core_capabilities.reactive, "tankless WH must declare REACTIVE");
        let ports = step_once(&mut eq);
        assert!(ports.load_power_w > 0.0);
        assert_eq!(ports.reactive_kvar, 0.0);
        assert_eq!(eq.state.core_output.reactive_power_kvar, some(0.0));
        assert_eq!(f(eq.state.telemetry.reactive_power_kvar), 0.0);
        // What the heater reports is what it declares.
        let output = eq.state.core_output;
        let declared = eq.descriptor.core_capabilities;
        assert_eq!(output.electric_kw.is_some(), declared.electric);
        assert_eq!(output.fuel.is_some(), declared.fuel);
        assert_eq!(output.operating_mode.is_some(), declared.has_mode);
    }
}

#[test]
fn grid_outage_stops_electric_tankless_heating_until_restoration() {
    let mut eq = heater(&electric_config());

    let ports = step(&mut eq, &outage());
    assert_eq!(ports.load_power_w, 0.0, "no electric draw during outage");
    assert_eq!(f(eq.state.telemetry.thermal_output_w), 0.0);
    assert_eq!(f(eq.state.telemetry.fuel_input_w), 0.0);
    assert_eq!(f(eq.state.telemetry.operating_mode), 0.0);
    // Cold water passes through: outlet equals inlet.
    assert_eq!(f(eq.state.telemetry.outlet_temp_c), 20.0);

    let ports = step(&mut eq, &env());
    assert!(ports.load_power_w > 0.0, "heating must resume after grid restoration");
    assert_eq!(f(eq.state.telemetry.outlet_temp_c), 50.0);
}

#[test]
fn grid_outage_gas_tankless_keeps_firing_without_parasitic() {
    let mut eq = heater(&typed_config());
    let ports = step(&mut eq, &outage());
    let thermal_w = f(eq.state.telemetry.thermal_output_w);
    assert!(thermal_w > 0.0, "gas burner must keep firing during an outage");
    assert!(f(eq.state.telemetry.fuel_input_w) > thermal_w);
    assert_eq!(ports.load_power_w, 0.0);
    assert_eq!(f(eq.state.telemetry.parasitic_electric_w), 0.0);
}

#[test]
fn port_declarations_and_telemetry_contract_match_fuel_type() {
    let gas = new_heater(&typed_config());
    assert_eq!(gas.ports.len(), 3);
    assert!(gas.ports.contains(&PortDeclaration::Fluid { loop_id: DHW_DEMAND_LOOP }));
    assert!(
        gas.ports.contains(&PortDeclaration::Fuel)
            || gas.ports.contains(&PortDeclaration::Electrical)
    );

    let electric = new_heater(&electric_config());
    assert_eq!(electric.ports.len(), 2);
    assert!(electric.ports.contains(&PortDeclaration::Electrical));
    assert!(electric.ports.contains(&PortDeclaration::Fluid { loop_id: DHW_DEMAND_LOOP }));

    let mut eq = heater(&electric_config());
    step_once(&mut eq);
    // Every figure of the telemetry is declared.
    assert_eq!(eq.descriptor.telemetry_fields.len(), 7);
}

#[test]
fn thermal_output_and_fuel_input_follow_exact_formula() {
    let mut eq = heater(&typed_config());
    let ports = step_once(&mut eq);

    let expected_thermal = 0.2 * CP_LIQUID_WATER_J_KG_K * (50.0 - 20.0);
    let expected_input = expected_thermal / 0.8;
    assert!((f(eq.state.telemetry.thermal_output_w) - expected_thermal).abs() < 1e-6);
    assert!((f(eq.state.telemetry.fuel_input_w) - expected_input).abs() < 1e-6);
    assert!((ports.fuel_w - expected_input).abs() < 1e-6);
}

#[test]
fn outlet_temp_equals_inlet_when_off() {
    let mut eq = heater(&typed_config());
    eq.apply_control(ControlSignal::ModeOverride { mode: OperatingMode::Off }).unwrap();
    step_once(&mut eq);
    assert_eq!(f(eq.state.telemetry.outlet_temp_c), 20.0);
    assert_eq!(f(eq.state.telemetry.thermal_output_w), 0.0);
}

#[test]
fn tankless_state_round_trip_preserves_dr_state() {
    let mut eq = heater(&typed_config());
    eq.apply_control(ControlSignal::DemandResponse {
        level: DRLevel::Critical,
        duration_s: some(300.0),
    })
    .unwrap();
    let saved = eq.save_state();

    let mut restored = heater(&typed_config());
    restored.load_state(saved);
    assert_eq!(restored.state.dr.level, DRLevel::Critical, "dr_level must survive save/load");
    assert!(f(restored.state.dr.setpoint_offset_c) < 0.0);
    assert_eq!(restored.state.dr.duration_remaining_s, some(300.0));
    assert!(f(restored.state.dr.load_fraction) < 1.0);
}

#[test]
fn state_round_trip_preserves_reactive_power_kvar() {
    let mut eq = heater(&typed_config());
    step_once(&mut eq);
    let pre_save = eq.state.telemetry.reactive_power_kvar;
    let state = eq.save_state();

    let mut restored = heater(&typed_config());
    restored.load_state(state);
    assert_eq!(pre_save.bits, restored.state.telemetry.reactive_power_kvar.bits);
}

#[test]
fn tankless_dr_grid_emergency_forces_off() {
    let mut eq = heater(&typed_config());
    step_once(&mut eq);
    assert!(f(eq.state.telemetry.thermal_output_w) > 0.0);

    let mut eq2 = heater(&typed_config());
    eq2.apply_control(ControlSignal::DemandResponse {
        level: DRLevel::GridEmergency,
        duration_s: None,
    })
    .unwrap();
    assert_eq!(f(eq2.state.dr.load_fraction), 0.0);
    let p = step_once(&mut eq2);
    assert_eq!(f(eq2.state.telemetry.thermal_output_w), 0.0);
    assert_eq!(f(eq2.state.telemetry.fuel_input_w), 0.0);
    assert_eq!(p.fuel_w, 0.0);
}

#[test]
fn dr_and_external_load_fraction_compound_correctly() {
    let critical = ControlSignal::DemandResponse { level: DRLevel::Critical, duration_s: None };
    let mut eq_dr = heater(&typed_config());
    eq_dr.apply_control(critical).unwrap();
    assert_eq!(f(eq_dr.state.dr.load_fraction), 0.5);
    assert!((f(eq_dr.state.ctrl_load_fraction) - 1.0).abs() < 1e-9);

    let mut eq_compound = heater(&typed_config());
    eq_compound.apply_control(critical).unwrap();
    eq_compound.apply_control(ControlSignal::LoadFraction { fraction: d(0.5) }).unwrap();
    assert_eq!(f(eq_compound.state.dr.load_fraction), 0.5);
    assert!((f(eq_compound.state.ctrl_load_fraction) - 0.5).abs() < 1e-9);

    let effective_duty = f(eq_compound.state.duty_cycle)
        * f(eq_compound.state.dr.load_fraction)
        * f(eq_compound.state.ctrl_load_fraction);
    assert!((effective_duty - 0.25).abs() < 1e-9);
    assert!((f(eq_compound.state.duty()) - 0.25).abs() < 1e-9);
}

/// 0.2 kg/s by 30 K is about 25 kW, within 30 kW.
#[test]
fn normal_operation_within_capacity_delivers_setpoint() {
    let mut eq = heater(&TanklessWaterHeaterConfig {
        heating_capacity_w: some(30_000.0),
        ..typed_config()
    });
    step_once(&mut eq);
    let expected_thermal = 0.2 * CP_LIQUID_WATER_J_KG_K * 30.0;
    assert!((f(eq.state.telemetry.outlet_temp_c) - 50.0).abs() < 1e-6);
    assert!((f(eq.state.telemetry.thermal_output_w) - expected_thermal).abs() < 1e-6);
    assert!((f(eq.state.telemetry.fuel_input_w) - expected_thermal / 0.8).abs() < 1e-6);
}

#[test]
fn over_capacity_clamps_output_and_reduces_outlet_temp() {
    let mut eq = heater(&TanklessWaterHeaterConfig {
        draw_flow_rate_kg_s: some(1.0),
        heating_capacity_w: some(20_000.0),
        ..typed_config()
    });
    step_once(&mut eq);
    let thermal = f(eq.state.telemetry.thermal_output_w);
    let fuel = f(eq.state.telemetry.fuel_input_w);
    let outlet = f(eq.state.telemetry.outlet_temp_c);
    assert!((thermal - 20_000.0).abs() < 1e-6);
    assert!((fuel - 20_000.0 / 0.8).abs() < 1e-6);
    assert!(outlet < 50.0);
    let expected_outlet = 20.0 + 20_000.0 / (1.0 * CP_LIQUID_WATER_J_KG_K);
    assert!((outlet - expected_outlet).abs() < 1e-6);
    assert!(outlet > 20.0);
}

#[test]
fn zero_flow_produces_no_output_and_no_fuel() {
    let mut eq = heater(&TanklessWaterHeaterConfig {
        draw_flow_rate_kg_s: some(0.0),
        ..electric_config()
    });
    let ports = step_once(&mut eq);
    assert_eq!(f(eq.state.telemetry.thermal_output_w), 0.0);
    assert_eq!(f(eq.state.telemetry.fuel_input_w), 0.0);
    assert_eq!(ports.load_power_w, 0.0);
}

#[test]
fn fuel_input_never_exceeds_max_input_power() {
    let mut eq = heater(&TanklessWaterHeaterConfig {
        setpoint_c: some(60.0),
        inlet_temp_c: some(5.0),
        draw_flow_rate_kg_s: some(5.0),
        energy_factor: some(0.85),
        heating_capacity_w: some(25_000.0),
        ..typed_config()
    });
    step_once(&mut eq);
    let max_input_w = 25_000.0 / 0.85;
    assert!(f(eq.state.telemetry.fuel_input_w) <= max_input_w + 1e-6);
}

#[test]
fn very_low_flow_rate_within_capacity() {
    let mut eq = heater(&TanklessWaterHeaterConfig {
        draw_flow_rate_kg_s: some(0.001),
        energy_factor: some(0.9),
        heating_capacity_w: some(20_000.0),
        ..typed_config()
    });
    step_once(&mut eq);
    assert!((f(eq.state.telemetry.outlet_temp_c) - 50.0).abs() < 1e-6);
}

#[test]
fn at_capacity_boundary_delivers_setpoint() {
    let delta_t = 30.0_f64;
    let capacity_w = 20_000.0_f64;
    let m_dot = capacity_w / (CP_LIQUID_WATER_J_KG_K * delta_t);
    let mut eq = heater(&TanklessWaterHeaterConfig {
        draw_flow_rate_kg_s: some(m_dot),
        energy_factor: some(0.9),
        heating_capacity_w: some(capacity_w),
        ..typed_config()
    });
    step_once(&mut eq);
    assert!((f(eq.state.telemetry.outlet_temp_c) - 50.0).abs() < 1e-6);
    assert!((f(eq.state.telemetry.thermal_output_w) - capacity_w).abs() < 1e-6);
}

/// The output over time is the share of the rated power; the outlet is that of the rated
/// power.
#[test]
fn over_capacity_with_reduced_duty_cycle() {
    let mut eq = heater(&TanklessWaterHeaterConfig {
        draw_flow_rate_kg_s: some(1.0),
        energy_factor: some(0.8),
        heating_capacity_w: some(20_000.0),
        ..typed_config()
    });
    eq.apply_control(ControlSignal::DutyCycle { on_fraction: d(0.5), component: None }).unwrap();
    step_once(&mut eq);
    let thermal = f(eq.state.telemetry.thermal_output_w);
    let outlet = f(eq.state.telemetry.outlet_temp_c);
    let effective_capacity = 20_000.0 * 0.5;
    assert!((thermal - effective_capacity).abs() < 1e-6);
    assert!(outlet < 50.0);
    let expected_outlet = 20.0 + 20_000.0 / (1.0 * CP_LIQUID_WATER_J_KG_K);
    assert!((outlet - expected_outlet).abs() < 1e-6);
}

#[test]
fn over_capacity_outlet_temp_uses_instantaneous_power() {
    let mut eq = heater(&TanklessWaterHeaterConfig {
        draw_flow_rate_kg_s: some(0.5),
        heating_capacity_w: some(20_000.0),
        energy_factor: some(0.8),
        inlet_temp_c: some(20.0),
        setpoint_c: some(51.666_666_7),
        ..typed_config()
    });
    eq.apply_control(ControlSignal::DutyCycle { on_fraction: d(0.5), component: None }).unwrap();
    step_once(&mut eq);
    assert!((f(eq.state.telemetry.thermal_output_w) - 10_000.0).abs() < 1e-6);
    let expected_outlet = 20.0 + 20_000.0 / (0.5 * CP_LIQUID_WATER_J_KG_K);
    assert!((f(eq.state.telemetry.outlet_temp_c) - expected_outlet).abs() < 1e-4);
}

fn over_capacity() -> TanklessWaterHeaterConfig {
    TanklessWaterHeaterConfig {
        draw_flow_rate_kg_s: some(1.0),
        energy_factor: some(0.8),
        heating_capacity_w: some(20_000.0),
        ..typed_config()
    }
}

#[test]
fn power_limit_signal_caps_fuel_input() {
    let mut eq = heater(&over_capacity());
    // Limit input power to 10 kW → thermal limit = 10,000 * 0.8 = 8,000 W
    eq.apply_control(ControlSignal::PowerLimit { max_power_kw: d(10.0) }).unwrap();
    step_once(&mut eq);
    assert!(f(eq.state.telemetry.fuel_input_w) <= 10_000.0 + 1e-6);
}

#[test]
fn power_limit_over_capacity_outlet_temp_uses_effective_max_w() {
    let mut eq = heater(&over_capacity());
    eq.apply_control(ControlSignal::PowerLimit { max_power_kw: d(5.0) }).unwrap();
    step_once(&mut eq);
    let effective_max = 4_000.0;
    assert!((f(eq.state.telemetry.thermal_output_w) - effective_max).abs() < 1e-6);
    assert!(f(eq.state.telemetry.fuel_input_w) <= 5_000.0 + 1e-6);
    let expected_outlet = 20.0 + effective_max / (1.0 * CP_LIQUID_WATER_J_KG_K);
    assert!((f(eq.state.telemetry.outlet_temp_c) - expected_outlet).abs() < 1e-6);
}

#[test]
fn gas_parasitic_electric_draw_present_when_burner_off() {
    let mut eq = heater(&typed_config());
    eq.apply_control(ControlSignal::ModeOverride { mode: OperatingMode::Off }).unwrap();
    let ports = step_once(&mut eq);
    assert_eq!(f(eq.state.telemetry.thermal_output_w), 0.0);
    assert_eq!(f(eq.state.telemetry.fuel_input_w), 0.0);
    assert_eq!(ports.fuel_w, 0.0);
    let parasitic_w = 7.38;
    assert!((ports.load_power_w - parasitic_w).abs() < 1.0);
}

#[test]
fn gas_parasitic_electric_draw_present_when_burner_firing() {
    let mut eq = heater(&typed_config());
    let ports = step_once(&mut eq);
    assert!(f(eq.state.telemetry.thermal_output_w) > 0.0);
    let parasitic_kw = 7.38 / 1_000.0;
    assert!(ports.load_power_w >= parasitic_kw - 1e-9);
    assert!(ports.fuel_w > 0.0);
}

#[test]
fn gas_parasitic_power_configurable() {
    let mut eq = heater(&TanklessWaterHeaterConfig {
        draw_flow_rate_kg_s: some(0.2),
        energy_factor: some(0.8),
        parasitic_power_w: some(15.0),
        ..typed_config()
    });
    eq.apply_control(ControlSignal::ModeOverride { mode: OperatingMode::Off }).unwrap();
    let ports = step_once(&mut eq);
    assert!((ports.load_power_w - 15.0).abs() < 1.0);
}

#[test]
fn power_limit_resets_after_step() {
    let mut eq = heater(&over_capacity());
    eq.apply_control(ControlSignal::PowerLimit { max_power_kw: d(5.0) }).unwrap();
    step_once(&mut eq);
    let thermal_limited = f(eq.state.telemetry.thermal_output_w);
    step_once(&mut eq);
    let thermal_full = f(eq.state.telemetry.thermal_output_w);
    assert!(thermal_full > thermal_limited);
    assert!((thermal_full - 20_000.0).abs() < 1e-6);
}

#[test]
fn power_limit_is_transient_across_checkpoint() {
    let mut eq = heater(&over_capacity());
    eq.apply_control(ControlSignal::PowerLimit { max_power_kw: d(5.0) }).unwrap();
    let state = eq.save_state();
    let mut restored = heater(&over_capacity());
    restored.load_state(state);
    step_once(&mut restored);
    assert!((f(restored.state.telemetry.thermal_output_w) - 20_000.0).abs() < 1e-6);
}

#[test]
fn electric_tankless_has_no_parasitic_draw_when_off() {
    let mut eq = heater(&TanklessWaterHeaterConfig {
        draw_flow_rate_kg_s: some(0.2),
        ..electric_config()
    });
    eq.apply_control(ControlSignal::ModeOverride { mode: OperatingMode::Off }).unwrap();
    let ports = step_once(&mut eq);
    assert_eq!(ports.load_power_w, 0.0);
}

/// The mains temperature of the weather comes before the configured inlet temperature.
#[test]
fn tankless_wh_uses_dynamic_mains_temp_from_environment() {
    let cfg = TanklessWaterHeaterConfig {
        heating_capacity_w: some(60_000.0),
        energy_factor: some(0.9),
        draw_flow_rate_kg_s: some(0.2),
        ..typed_config()
    };
    let thermal_with = |mains_c: f64| {
        let e = EnvironmentState { mains_temp_c: some(mains_c), ..env() };
        let mut eq = heater(&cfg);
        step(&mut eq, &e);
        f(eq.state.telemetry.thermal_output_w)
    };
    let thermal_cold = thermal_with(5.0);
    let thermal_warm = thermal_with(25.0);
    assert!(thermal_cold > thermal_warm);

    let cp = CP_LIQUID_WATER_J_KG_K;
    let m_dot = 0.2_f64;
    let tset = 50.0_f64;
    let expected_cold = m_dot * cp * (tset - 5.0);
    let expected_warm = m_dot * cp * (tset - 25.0);
    assert!((thermal_cold - expected_cold).abs() < 1.0);
    assert!((thermal_warm - expected_warm).abs() < 1.0);
}

#[test]
fn gas_parasitic_power_passed_through() {
    let mut eq = heater(&TanklessWaterHeaterConfig {
        fuel_type: FuelType::Gas,
        parasitic_power_w: some(10.0),
        draw_flow_rate_kg_s: some(0.0),
        ..typed_config()
    });
    let ports = step_once(&mut eq);
    assert!((ports.load_power_w - 10.0).abs() < 1.0);
}

#[test]
fn flow_below_min_threshold_produces_zero_thermal_output() {
    let mut eq = heater(&TanklessWaterHeaterConfig {
        draw_flow_rate_kg_s: some(0.02),
        min_flow_kg_s: some(0.03),
        ..typed_config()
    });
    step_once(&mut eq);
    assert_eq!(f(eq.state.telemetry.thermal_output_w), 0.0);
    assert_eq!(f(eq.state.telemetry.fuel_input_w), 0.0);
}

#[test]
fn flow_above_min_threshold_produces_thermal_output() {
    let mut eq = heater(&TanklessWaterHeaterConfig {
        draw_flow_rate_kg_s: some(0.04),
        min_flow_kg_s: some(0.03),
        ..typed_config()
    });
    step_once(&mut eq);
    assert!(f(eq.state.telemetry.thermal_output_w) > 0.0);
    assert!(f(eq.state.telemetry.fuel_input_w) > 0.0);
}

#[test]
fn default_min_flow_threshold_allows_any_positive_flow() {
    let mut eq = heater(&TanklessWaterHeaterConfig {
        draw_flow_rate_kg_s: some(0.001),
        ..typed_config()
    });
    step_once(&mut eq);
    assert!(f(eq.state.telemetry.thermal_output_w) > 0.0);
}

#[test]
fn min_flow_gpm_convenience_input_gates_burner() {
    let mut eq = heater(&TanklessWaterHeaterConfig {
        draw_flow_rate_kg_s: some(0.02),
        min_flow_gpm: some(0.5),
        ..typed_config()
    });
    let threshold = 0.5 * GALLONS_PER_MINUTE_TO_KG_PER_SECOND;
    assert!(threshold > 0.02);
    step_once(&mut eq);
    assert_eq!(f(eq.state.telemetry.thermal_output_w), 0.0);
}

#[test]
fn min_flow_kg_s_takes_precedence_over_min_flow_gpm() {
    let mut eq = heater(&TanklessWaterHeaterConfig {
        draw_flow_rate_kg_s: some(0.02),
        min_flow_kg_s: some(0.01),
        min_flow_gpm: some(1.0),
        ..typed_config()
    });
    step_once(&mut eq);
    assert!(f(eq.state.telemetry.thermal_output_w) > 0.0);
}

// ---------------------------------------------------------------------------
// Further scenarios
// ---------------------------------------------------------------------------

#[test]
fn drawn_water_is_counted_by_the_hour() {
    let mut eq = heater(&typed_config());
    let e = EnvironmentState {
        // 07:30 in UTC, and 02:30 five hours to the west.
        current_time: CivilTime { unix_secs: 1_767_225_600 + 27_000, offset_secs: -18_000 },
        ..env()
    };
    let (_, delivery) = step_with(&mut eq, &e, &[], NO_READINGS);
    assert_eq!(delivery.draw_hour, 2);
    let litres = 0.2 * 60.0 / f(water_density(20.0)) * 1000.0;
    assert!((f(delivery.draw_volume_l) - litres).abs() < 1e-9);
}

#[test]
fn hours_before_the_epoch_are_hours_of_the_day() {
    for (unix_secs, offset_secs, hour) in [
        (0, 0, 0),
        (-1, 0, 23),
        (-3_601, 0, 22),
        (86_399, 0, 23),
        (86_400, 3_600, 1),
        (0, -1, 23),
    ] {
        assert_eq!(CivilTime { unix_secs, offset_secs }.hour(), hour);
    }
}

#[test]
fn tankless_demand_of_appliances_is_delivered() {
    let mut eq = heater(&typed_config());
    let fluid = [FluidAccumulator {
        loop_id: DHW_DEMAND_LOOP,
        total_flow_kg_s: d(0.02),
        mean_supply_temp_c: d(0.0),
    }];
    let readings = ScheduleReadings { draw_rate_kg_s: some(0.1), mains_temp_c: some(15.0) };
    let (_, delivery) = step_with(&mut eq, &env(), &fluid, readings);
    assert!((f(delivery.total_draw_kg_s) - 0.12).abs() < 1e-12);
    assert_eq!(f(delivery.inlet_temp_c), 15.0);
}

#[test]
fn efficiencies_come_from_the_factors() {
    assert_eq!(f(configured_efficiency(&typed_config())), 0.8);
    let uniform = TanklessWaterHeaterConfig {
        energy_factor: None,
        uniform_energy_factor: some(0.7),
        performance_adjustment: some(0.92),
        ..typed_config()
    };
    assert!((f(configured_efficiency(&uniform)) - 0.70572 * 0.92).abs() < 1e-9);
    let none = TanklessWaterHeaterConfig { energy_factor: some(0.0), ..typed_config() };
    assert_eq!(f(configured_efficiency(&none)), 1e-6);
}

#[test]
fn inlet_temperatures_have_their_order() {
    let scheduled = TanklessWaterHeaterConfig {
        inlet_temp_c: None,
        mains_temp_c_source: Some(ScheduleSource::ColumnRef {
            col_idx: 3,
            boundary: BoundaryPolicy::Clamp,
        }),
        ..typed_config()
    };
    let mut eq = new_heater(&scheduled);
    let at = |t: Option<Double>| TanklessSite { scheduled_mains_temp_c: t, ..site() };
    eq.init_typed(&scheduled, at(some(12.0))).unwrap();
    assert_eq!(f(eq.state.inlet_temp_c), 12.0);
    eq.init_typed(&scheduled, at(some(f64::NAN))).unwrap();
    assert_eq!(f(eq.state.inlet_temp_c), 20.0);
    eq.init_typed(&scheduled, at(None)).unwrap();
    assert_eq!(f(eq.state.inlet_temp_c), 20.0);
}

#[test]
fn tankless_signals_and_configs_are_checked() {
    let mut eq = heater(&typed_config());
    let before = eq.state;
    assert!(matches!(
        eq.apply_control(ControlSignal::DutyCycle { on_fraction: d(f64::NAN), component: None }),
        Err(HaresError::Control(ControlFault::DutyCycle { equipment: "TanklessWH", .. }))
    ));
    assert_eq!(eq.state, before);
    let bad = TanklessWaterHeaterConfig { heating_capacity_w: some(-1.0), ..typed_config() };
    assert!(matches!(
        eq.init_typed(&bad, site()),
        Err(HaresError::Equipment(Fault::OutOfLimits { .. }))
    ));
    assert_eq!(eq.state, before);
    eq.rename("Garage".to_string());
    assert_eq!(eq.descriptor.name, "Garage");
}
