//! Tests of the heat pump water heater.
use hares_water_heater::config::EquipmentConfig;
use hares_water_heater::error::{ControlFault, Fault, HaresError};
use hares_water_heater::heat_pump_wh::{
    composite_temp_c, configured_cop_curve, elapsed, mode_number, mode_of, HpOutside, HpStep,
};
use hares_water_heater::hpwh_compressor::{
    build_heat_injections, coefficient_spans, cop_scale_for, default_condenser_weights,
    parse_curve_coeffs, BiquadraticCurve, ElementHpControlMode, LowPowerCoeffs,
};
use hares_water_heater::shared::{weighted_average_tank_temp, DHW_DEMAND_LOOP};
use hares_water_heater::storage::jacket_loss;
use hares_water_heater::time::{CivilTime, Duration, TimeStep};
use hares_water_heater::types::{
    ActivePower, ControlSignal, DRLevel, DutyCycleComponent, EnvironmentState, FluidAccumulator,
    OperatingMode, PortContribution, ThermalCategory, ZoneState,
};
use hares_water_heater::wh_config::HeatPumpWaterHeaterConfig;
use hares_water_heater::{Double, HeatPumpWH, StratifiedTank};

fn d(x: f64) -> Double {
    Double { bits: x.to_bits() }
}

fn f(x: Double) -> f64 {
    f64::from_bits(x.bits)
}

fn some(x: f64) -> Option<Double> {
    Some(d(x))
}

fn all(xs: &[Double]) -> Vec<f64> {
    xs.iter().map(|x| f(*x)).collect()
}

/// Water gets lighter as it gets warmer.
fn water_density(temp_c: f64) -> Double {
    d(1000.0 - 0.0178 * (temp_c - 4.0).abs().powf(1.7))
}

fn env(zone_temp_c: f64) -> EnvironmentState {
    EnvironmentState {
        time_res: TimeStep::seconds(60),
        current_time: CivilTime { unix_secs: 1_767_225_600, offset_secs: 0 },
        zones: vec![ZoneState {
            id: 1,
            temperature_c: d(zone_temp_c),
            wet_bulb_c: d(14.0),
        }],
        outdoor_temp_c: d(10.0),
        mains_temp_c: None,
        custom_domains: vec![],
        voltage_pu: d(1.0),
        bus_voltage_pu: d(1.0),
        bus_energized: true,
    }
}

fn untyped(name: &str) -> EquipmentConfig {
    EquipmentConfig {
        name: name.to_string(),
        equipment_id: None,
        zone_id: Some(1),
        loop_id: Some(1),
        values: vec![],
    }
}

/// What a step gave to the ports.
#[derive(Debug, Default)]
struct Ports {
    fuel_w: f64,
    electric_w: f64,
    reactive_kvar: f64,
    sensible_w: f64,
    latent_w: f64,
    jacket_w: f64,
    dehumidification_w: f64,
    flow_kg_s: f64,
    supply_temp_c: f64,
}

fn take(contributions: &[PortContribution]) -> Ports {
    let mut ports = Ports::default();
    for contribution in contributions {
        match *contribution {
            PortContribution::Fuel { consumption_w, .. } => ports.fuel_w += f(consumption_w),
            PortContribution::Electrical { active_power, reactive_power_kvar } => {
                ports.electric_w += match active_power {
                    ActivePower::Watts(w) => f(w),
                    ActivePower::Kilowatts(kw) => f(kw) * 1000.0,
                };
                ports.reactive_kvar += f(reactive_power_kvar);
            }
            PortContribution::Fluid { flow_rate_kg_s, supply_temp_c, .. } => {
                ports.flow_kg_s += f(flow_rate_kg_s);
                ports.supply_temp_c = f(supply_temp_c);
            }
            PortContribution::Thermal { sensible_gain_w, latent_gain_w, category, .. } => {
                ports.sensible_w += f(sensible_gain_w);
                match category {
                    ThermalCategory::JacketLoss => ports.jacket_w += f(sensible_gain_w),
                    ThermalCategory::HvacDehumidification => {
                        ports.dehumidification_w += f(sensible_gain_w)
                    }
                }
                ports.latent_w += f(latent_gain_w);
            }
        }
    }
    ports
}

fn base_typed_config() -> HeatPumpWaterHeaterConfig {
    HeatPumpWaterHeaterConfig {
        cop: some(2.5),
        backup_element_power_w: some(4500.0),
        loop_id: Some(1),
        setpoint_c: some(52.0),
        deadband_c: some(2.0),
        max_tank_temp_c: some(300.0),
        initial_tank_temp_c: some(40.0),
        draw_flow_rate_kg_s: some(0.0),
        compressor_power_w: some(1200.0),
        backup_enable_offset_c: some(3.0),
        min_on_time_s: some(0.0),
        min_off_time_s: some(0.0),
        hp_only_mode: Some(false),
        fan_power_w: some(35.0),
        parasitic_power_w: some(1.0),
        backup_efficiency: some(1.0),
        shr: some(0.88),
        lost_heat_fraction: some(0.0),
        wall_heat_fraction: some(0.0),
        performance_adjustment: some(1.0),
        zone_type: Some("conditioned".to_string()),
        ..bare_config()
    }
}

/// A configuration that gives nothing but the zone.
fn bare_config() -> HeatPumpWaterHeaterConfig {
    HeatPumpWaterHeaterConfig {
        equipment_id: None,
        zone_id: Some(1),
        loop_id: None,
        tank_volume_m3: None,
        tank_height_m: None,
        cop: None,
        backup_element_power_w: None,
        ua_w_per_k: None,
        setpoint_c: None,
        deadband_c: None,
        max_tank_temp_c: None,
        initial_tank_temp_c: None,
        tank_nodes: None,
        tempering_valve_setpoint_c: None,
        avg_water_draw_l_per_day: None,
        draw_flow_rate_kg_s: None,
        compressor_power_w: None,
        backup_enable_offset_c: None,
        min_ambient_temp_c: None,
        max_ambient_temp_c: None,
        min_on_time_s: None,
        min_off_time_s: None,
        hp_only_mode: None,
        element_hp_control_mode: None,
        fan_power_w: None,
        parasitic_power_w: None,
        backup_efficiency: None,
        shr: None,
        lost_heat_fraction: None,
        wall_heat_fraction: None,
        capacity_biquadratic_coeffs: None,
        cop_biquadratic_coeffs: None,
        performance_adjustment: None,
        zone_type: None,
        first_hour_rating_m3: None,
        jacket_r_value_m2_k_w: None,
        fixture_delivery_temp_c: None,
        low_power_hpwh: None,
        uniform_energy_factor: None,
    }
}

/// The value of a curve: a quadratic of two arguments that are held within their bounds.
fn evaluate(curve: &BiquadraticCurve, x1: f64, x2: f64) -> Double {
    let c: Vec<f64> = all(&curve.coeffs);
    let a = x1.clamp(f(curve.x1_bounds.0), f(curve.x1_bounds.1));
    let b = x2.clamp(f(curve.x2_bounds.0), f(curve.x2_bounds.1));
    let mut value = c[0] + c[1] * a + c[2] * a * a + c[3] * b + c[4] * b * b + c[5] * a * b;
    if let Some(min) = curve.output_min {
        value = value.max(f(min));
    }
    if let Some(max) = curve.output_max {
        value = value.min(f(max));
    }
    d(value)
}

/// Coefficients of low-power units.
fn low_power_coeffs() -> LowPowerCoeffs {
    LowPowerCoeffs {
        cop: [1.5, 0.05, 0.0002, -0.02, 0.0004, -0.0006].map(d),
        capacity: [0.8, 0.03, 0.0001, 0.004, -0.0002, -0.0003].map(d),
    }
}

fn heater(c: &HeatPumpWaterHeaterConfig) -> HeatPumpWH {
    let mut eq = HeatPumpWH::new(untyped("HPWH"));
    let curve = configured_cop_curve(c, low_power_coeffs());
    let (x1, x2) = curve.reference_point();
    eq.init_typed(c, low_power_coeffs(), evaluate(&curve, f(x1), f(x2)), d(10.0))
        .expect("typed init should succeed");
    eq
}

/// The loss through the skin of a tank in surroundings of a temperature.
fn skin_loss(tank: &StratifiedTank, ambient_c: f64) -> f64 {
    all(tank.ua_per_node())
        .iter()
        .zip(all(tank.node_temps()).iter())
        .map(|(ua, temp)| ua * (temp - ambient_c))
        .sum()
}

fn step_with(
    eq: &mut HeatPumpWH,
    env: &EnvironmentState,
    secs: u64,
    fluid: &[FluidAccumulator],
) -> (Ports, f64) {
    let dt = Duration::from_secs(secs);
    let mode = eq.update_control(env);
    let (x1, x2) = eq.curve_inputs(env);
    let outside = HpOutside {
        water_density_kg_m3: water_density(f(eq.tank.node_temps()[0])),
        cop_curve_value: evaluate(&eq.state.cop_curve, f(x1), f(x2)),
        capacity_curve_value: evaluate(&eq.state.capacity_curve, f(x1), f(x2)),
    };
    let HpStep { figures, mut contributions, fluid } =
        eq.step(env, mode, outside, fluid, dt).expect("step should succeed");
    let skin_loss_w = skin_loss(&eq.tank, f(env.zones[0].temperature_c));
    if let Some(loss) = jacket_loss(eq.descriptor.zone, d(skin_loss_w)) {
        contributions.push(loss);
    }
    if let Some(fluid) = fluid {
        contributions.push(fluid);
    }
    eq.finish_step(figures);
    (take(&contributions), skin_loss_w)
}

fn step(eq: &mut HeatPumpWH, env: &EnvironmentState, secs: u64) -> Ports {
    step_with(eq, env, secs, &[]).0
}

fn env_with_wet_bulb(zone_temp_c: f64, wet_bulb_c: f64) -> EnvironmentState {
    let mut e = env(zone_temp_c);
    e.zones[0].wet_bulb_c = d(wet_bulb_c);
    e
}

#[test]
fn typed_init_uses_hpxml_heating_capacity_for_backup_element_power() {
    let eq = heater(&HeatPumpWaterHeaterConfig {
        cop: some(2.5),
        backup_element_power_w: some(4500.0),
        setpoint_c: some(52.0),
        ..bare_config()
    });
    assert_eq!(f(eq.state.backup_element_power_w), 4500.0);
}

#[test]
fn typed_init_defaults_initial_tank_temp_close_to_top_of_deadband() {
    let eq =
        heater(&HeatPumpWaterHeaterConfig { initial_tank_temp_c: None, ..base_typed_config() });
    let expected = 52.0 - 2.0 / 10.0;
    let actual = f(weighted_average_tank_temp(eq.tank.node_temps(), eq.tank.node_volumes_m3()));
    assert!((actual - expected).abs() < 1e-9);
}

#[test]
fn typed_init_honors_explicit_initial_tank_temp_override() {
    let eq = heater(&HeatPumpWaterHeaterConfig {
        initial_tank_temp_c: some(41.25),
        ..base_typed_config()
    });
    let actual = f(weighted_average_tank_temp(eq.tank.node_temps(), eq.tank.node_volumes_m3()));
    assert!((actual - 41.25).abs() < 1e-9, "explicit initial_tank_temp_c must be preserved");
}

#[test]
fn hpwh_default_thermal_capacity_matches_ochre() {
    let eq = heater(&bare_config());
    assert!(
        (f(eq.state.compressor_power_w) - 1_725.0).abs() < 1e-9,
        "default thermal capacity must be 500 W × 3.45 COP = 1725 W"
    );
}

#[test]
fn low_power_hpwh_thermal_capacity_is_1499_4() {
    let eq = heater(&HeatPumpWaterHeaterConfig {
        compressor_power_w: some(1_499.4),
        hp_only_mode: Some(true),
        ..bare_config()
    });
    assert!((f(eq.state.compressor_power_w) - 1_499.4).abs() < 1e-9);
}

#[test]
fn hpwh_skin_loss_telemetry_populated_after_step() {
    let mut eq = heater(&HeatPumpWaterHeaterConfig {
        initial_tank_temp_c: some(55.0),
        draw_flow_rate_kg_s: some(0.0),
        ..base_typed_config()
    });
    let p = step(&mut eq, &env(15.0), 60);
    assert!(p.jacket_w > 0.0, "the skin loss must be positive when the tank is hotter");
}

#[test]
fn zone_thermal_port_is_negative_when_compressor_runs() {
    let mut eq = heater(&base_typed_config());
    let p = step(&mut eq, &env(24.0), 60);
    assert!(f(eq.state.telemetry.compressor_power_w) > 0.0);
    assert!(p.sensible_w < 0.0);
}

/// The heat taken from the zone is comp * (COP - 1).
#[test]
fn hpwh_energy_balance_holds_each_step() {
    let mut eq = heater(&base_typed_config());
    step(&mut eq, &env(24.0), 60);
    let cop = f(eq.state.telemetry.cop);
    let comp = f(eq.state.telemetry.compressor_power_w);
    let extracted = f(eq.state.telemetry.zone_heat_extraction_w);
    let expected_extraction = comp * (cop - 1.0);
    assert!((extracted - expected_extraction).abs() < 1e-6);
}

#[test]
fn wet_bulb_cop_differs_with_same_dry_bulb_different_humidity() {
    let dry_bulb_c = 24.0;
    let env_low_wb = env_with_wet_bulb(dry_bulb_c, 14.0);
    let env_high_wb = env_with_wet_bulb(dry_bulb_c, 20.0);

    let mut eq_low = heater(&base_typed_config());
    step(&mut eq_low, &env_low_wb, 60);
    let mut eq_high = heater(&base_typed_config());
    step(&mut eq_high, &env_high_wb, 60);

    assert!(f(eq_high.state.telemetry.cop) > f(eq_low.state.telemetry.cop));
}

#[test]
fn hpwh_cop_clamped_to_physical_range() {
    let mut eq = heater(&HeatPumpWaterHeaterConfig {
        cop: some(100.0),
        cop_biquadratic_coeffs: Some([d(100.0), d(0.0), d(0.0), d(0.0), d(0.0), d(0.0)]),
        ..base_typed_config()
    });
    step(&mut eq, &env(24.0), 60);
    let cop = f(eq.state.telemetry.cop);
    assert!(cop.is_finite() && (0.0..=8.0).contains(&cop));
    // Unclamped COP would be ~100; clamping must have reduced it.
    assert!(cop < 50.0);
}

#[test]
fn hpwh_cop_zero_curve_prevents_nan_in_energy_balance() {
    let mut eq = heater(&HeatPumpWaterHeaterConfig {
        cop_biquadratic_coeffs: Some([d(0.0); 6]),
        cop: some(3.45),
        ..base_typed_config()
    });
    step(&mut eq, &env(24.0), 60);
    let cop = f(eq.state.telemetry.cop);
    assert!(cop.is_finite() && (0.0..=8.0).contains(&cop));
    assert!(cop < 0.5, "COP must be near zero for all-zero curve, got {cop}");
    assert!(f(eq.state.telemetry.electric_kw).is_finite());
    assert!(f(eq.state.telemetry.compressor_kw).is_finite());
}

#[test]
fn condenser_heat_distributed_across_multiple_nodes_for_12_node_tank() {
    let mut eq = heater(&HeatPumpWaterHeaterConfig {
        initial_tank_temp_c: some(40.0),
        tank_nodes: Some(12),
        ..base_typed_config()
    });
    let temps_before = all(eq.tank.node_temps());
    step(&mut eq, &env(24.0), 60);
    let temps_after = all(eq.tank.node_temps());
    let nodes_heated =
        temps_before.iter().zip(temps_after.iter()).filter(|(b, a)| *a > *b).count();
    assert!(nodes_heated >= 2, "only {nodes_heated} nodes increased");
}

#[test]
fn ambient_lockout_below_minimum_forces_backup_element_mode() {
    let cold_env = env_with_wet_bulb(5.0, 4.0); // 5°C DB, well below 7.2°C lockout
    let mut eq = heater(&base_typed_config());
    let mode = eq.update_control(&cold_env);
    assert!(!eq.state.compressor_on, "Compressor must be off when ambient is below lockout");
    assert_eq!(mode, OperatingMode::BackupElement);
}

#[test]
fn max_tank_temp_safety_forces_off_when_exceeded() {
    let mut eq =
        heater(&HeatPumpWaterHeaterConfig { max_tank_temp_c: some(60.0), ..base_typed_config() });
    eq.tank.node_temps_mut().fill(d(65.0));
    let mode = eq.update_control(&env(24.0));
    assert_eq!(mode, OperatingMode::Off, "Expected Off when tank exceeds max_tank_temp_c");
    assert!(!eq.state.compressor_on);
    assert!(!eq.state.backup_on);
}

/// A thermostat of three quarters upper node and one quarter lower node is satisfied by a
/// hot upper half, where the lower node alone still calls.
#[test]
fn composite_thermostat_shuts_off_sooner_than_single_node() {
    let e = env(24.0);
    let mut eq_composite = heater(&base_typed_config());
    let mut eq_single = heater(&base_typed_config());
    eq_single.state.thermostat_upper_node = eq_single.state.thermostat_node;

    let setpoint = 52.0_f64;
    let hot = setpoint + 5.0; // 57°C – well above setpoint
    let cold = setpoint - 10.0; // 42°C – well below setpoint - deadband

    for tank in [&mut eq_composite.tank, &mut eq_single.tank] {
        let n = tank.n_nodes();
        let half = n / 2;
        for node in 0..n {
            let target = if node < half { hot } else { cold };
            let delta = target - f(tank.node_temps()[node]);
            let mcp = 1000.0 * f(tank.node_volumes_m3()[node]) * 4183.0;
            tank.heat_node(node, d(delta * mcp), Duration::from_secs(1)).unwrap();
        }
    }

    let mode_composite = eq_composite.update_control(&e);
    let mode_single = eq_single.update_control(&e);
    assert_eq!(mode_composite, OperatingMode::Off);
    assert_ne!(mode_single, OperatingMode::Off);
}

#[test]
fn fan_and_parasitic_appear_in_electrical() {
    let mut eq = heater(&HeatPumpWaterHeaterConfig {
        fan_power_w: some(35.0),
        parasitic_power_w: some(2.0),
        ..base_typed_config()
    });
    let p = step(&mut eq, &env(24.0), 60);
    let comp = f(eq.state.telemetry.compressor_power_w);
    let backup = f(eq.state.telemetry.backup_element_power_w);
    assert!(comp > 0.0, "compressor must be running for this test");
    let expected_with_fan = comp + backup + 35.0;
    assert!((p.electric_w - expected_with_fan).abs() < 1e-6);
}

#[test]
fn shr_produces_latent_gain_when_humidity_gap_exists() {
    let mut eq = heater(&HeatPumpWaterHeaterConfig {
        shr: some(0.88),
        lost_heat_fraction: some(0.0),
        ..base_typed_config()
    });
    // DB=24, WB=14 => gap=10 > 0.1, so SHR < 1 applies.
    let p = step(&mut eq, &env_with_wet_bulb(24.0, 14.0), 60);
    assert!(f(eq.state.telemetry.compressor_power_w) > 0.0);
    assert!(p.latent_w < 0.0, "latent gain should be negative (dehumidification)");
}

#[test]
fn hpwh_min_on_time_prevents_early_shutdown() {
    let e = env(24.0);
    let mut eq =
        heater(&HeatPumpWaterHeaterConfig { min_on_time_s: some(120.0), ..base_typed_config() });

    step(&mut eq, &e, 60);
    assert!(eq.state.compressor_on, "compressor must be on after first step with cold tank");

    let tank_avg = f(eq.state.telemetry.tank_avg_temp_c);
    eq.state.setpoint_c = d(tank_avg - 10.0); // well below tank → no call for heat
    eq.update_control(&e);
    assert!(eq.state.compressor_on, "min-on-time not yet elapsed (60s < 120s)");

    step(&mut eq, &e, 60);
    eq.update_control(&e);
    assert!(!eq.state.compressor_on, "compressor must turn off after min-on-time (120s)");
}

#[test]
fn hpwh_min_on_time_timer_lifecycle() {
    let e = env(24.0);
    let mut eq =
        heater(&HeatPumpWaterHeaterConfig { min_on_time_s: some(9999.0), ..base_typed_config() });
    for _ in 0..3 {
        step(&mut eq, &e, 60);
        assert!(eq.state.compressor_on, "compressor must remain on during each step");
    }
    let elapsed_s = f(eq.state.compressor_on_since_s.expect("running"));
    assert!((elapsed_s - 180.0).abs() < 1.0);

    eq.state.min_on_time_s = d(0.0);
    eq.state.setpoint_c = d(0.0);
    step(&mut eq, &e, 60);
    assert!(!eq.state.compressor_on);
    assert!(eq.state.compressor_on_since_s.is_none());
}

#[test]
fn hpwh_safety_override_bypasses_min_on_time() {
    let e = env(24.0);
    let mut eq =
        heater(&HeatPumpWaterHeaterConfig { min_on_time_s: some(600.0), ..base_typed_config() });
    step(&mut eq, &e, 60);
    assert!(eq.state.compressor_on, "compressor must be running before safety test");
    assert!(eq.state.compressor_on_since_s.is_some_and(|t| f(t) < 600.0));

    let upper_temp = f(eq.tank.node_temps()[eq.state.thermostat_upper_node]);
    eq.state.max_tank_temp_c = d(upper_temp - 1.0);
    let mode = eq.update_control(&e);
    assert_eq!(mode, OperatingMode::Off);
    assert!(!eq.state.compressor_on);
    assert!(!eq.state.backup_on, "backup must also be off after safety cutout");
}

#[test]
fn hpwh_capacity_curve_modulates_heat_delivery() {
    let constant = |c: f64| {
        heater(&HeatPumpWaterHeaterConfig {
            capacity_biquadratic_coeffs: Some([d(c), d(0.0), d(0.0), d(0.0), d(0.0), d(0.0)]),
            ..base_typed_config()
        })
    };
    let e = env(24.0);
    let mut eq_low = constant(0.8);
    step(&mut eq_low, &e, 60);
    let mut eq_unit = constant(1.0);
    step(&mut eq_unit, &e, 60);

    assert!((f(eq_low.state.telemetry.cap_mult) - 0.8).abs() < 1e-6);
    assert!((f(eq_unit.state.telemetry.cap_mult) - 1.0).abs() < 1e-6);
    let comp_low = f(eq_low.state.telemetry.compressor_power_w);
    let comp_unit = f(eq_unit.state.telemetry.compressor_power_w);
    assert!(comp_low > 0.0 && comp_unit > 0.0);
    let ratio = comp_unit / comp_low;
    assert!((ratio - 1.0 / 0.8).abs() < 0.05);
}

fn with_lost_heat(fraction: Option<Double>) -> (Ports, f64) {
    let mut eq =
        heater(&HeatPumpWaterHeaterConfig { lost_heat_fraction: fraction, ..base_typed_config() });
    step_with(&mut eq, &env_with_wet_bulb(24.0, 14.0), 60, &[])
}

#[test]
fn lost_heat_fraction_reduces_zone_gains() {
    let sens0 = with_lost_heat(some(0.0)).0.sensible_w;
    let sens50 = with_lost_heat(some(0.5)).0.sensible_w;
    assert!(sens0.abs() > 1e-6, "baseline sensible gain must be non-zero for this test");
    let ratio = sens50 / sens0;
    assert!((ratio - 0.5).abs() < 0.05, "ratio={ratio:.3}");
}

#[test]
fn lost_heat_fraction_0_75_reduces_zone_gain_to_25_percent() {
    let (p0, skin_loss_w) = with_lost_heat(some(0.0));
    let (p75, _) = with_lost_heat(some(0.75));
    let sens0 = p0.sensible_w;
    let sens75 = p75.sensible_w;
    assert!(sens0.abs() > 1e-6);
    let hp_waste0 = sens0 - skin_loss_w;
    let hp_waste75 = sens75 - skin_loss_w;
    assert!(hp_waste0.abs() > 1e-6);
    let ratio = hp_waste75 / hp_waste0;
    assert!((ratio - 0.25).abs() < 0.05, "ratio={ratio:.3}");
}

#[test]
fn lost_heat_fraction_default_none_equals_zero() {
    let sens_explicit = with_lost_heat(some(0.0)).0.sensible_w;
    let sens_default = with_lost_heat(None).0.sensible_w;
    assert!((sens_explicit - sens_default).abs() < 1e-6);
}

#[test]
fn backup_efficiency_scales_backup_power_delivery() {
    let make = |eff: f64| {
        heater(&HeatPumpWaterHeaterConfig {
            initial_tank_temp_c: some(20.0),
            backup_enable_offset_c: some(8.0),
            backup_efficiency: some(eff),
            element_hp_control_mode: Some("Simultaneous".to_string()),
            ..base_typed_config()
        })
    };
    let e = env(24.0);

    let mut eq_100 = make(1.0);
    let p_100 = step(&mut eq_100, &e, 60);
    assert!(f(eq_100.state.telemetry.backup_element_power_w) > 0.0);
    let mut eq_80 = make(0.8);
    let p_80 = step(&mut eq_80, &e, 60);
    assert!(f(eq_80.state.telemetry.backup_element_power_w) > 0.0);

    assert!(
        f(eq_80.state.telemetry.tank_avg_temp_c) < f(eq_100.state.telemetry.tank_avg_temp_c)
    );
    assert!((p_100.electric_w - p_80.electric_w).abs() < 0.01 * 1000.0);
}

// ---------------------------------------------------------------------------
// Mutual exclusion
// ---------------------------------------------------------------------------

fn env_state() -> EnvironmentState {
    env(24.0)
}

fn mode_text(mode: &str) -> Option<String> {
    if mode.is_empty() {
        None
    } else {
        Some(mode.to_string())
    }
}

/// A tank at 40 °C that calls for heat, with the backup far away.
fn base_config(mode: &str) -> HeatPumpWaterHeaterConfig {
    HeatPumpWaterHeaterConfig {
        initial_tank_temp_c: some(40.0),
        backup_enable_offset_c: some(20.0),
        element_hp_control_mode: mode_text(mode),
        ..base_typed_config()
    }
}

/// A tank so cold that the backup is wanted too.
fn very_cold_config(mode: &str) -> HeatPumpWaterHeaterConfig {
    HeatPumpWaterHeaterConfig {
        initial_tank_temp_c: some(20.0),
        backup_enable_offset_c: some(8.0),
        element_hp_control_mode: mode_text(mode),
        ..base_typed_config()
    }
}

#[test]
fn mutually_exclusive_compressor_running_prevents_backup() {
    let mut wh = heater(&very_cold_config("MutuallyExclusive"));
    wh.state.compressor_on = true;
    wh.state.backup_on = false;
    let mode = wh.update_control(&env_state());
    assert!(wh.state.compressor_on, "compressor must stay on");
    assert!(!wh.state.backup_on, "backup must be locked out while compressor is running");
    assert_eq!(mode, OperatingMode::HeatPumpWH);
}

#[test]
fn mutually_exclusive_backup_running_prevents_compressor() {
    let mut wh = heater(&very_cold_config("MutuallyExclusive"));
    wh.state.compressor_on = false;
    wh.state.backup_on = true;
    let mode = wh.update_control(&env_state());
    assert!(!wh.state.compressor_on, "compressor must be locked out while backup is running");
    assert!(wh.state.backup_on, "backup element must continue running");
    assert_eq!(mode, OperatingMode::BackupElement);
}

#[test]
fn mutually_exclusive_neither_running_compressor_gets_priority() {
    let mut wh = heater(&very_cold_config("MutuallyExclusive"));
    wh.state.compressor_on = false;
    wh.state.backup_on = false;
    let mode = wh.update_control(&env_state());
    assert!(wh.state.compressor_on, "compressor should start when neither is running");
    assert!(!wh.state.backup_on, "backup must not start (compressor has priority)");
    assert_eq!(mode, OperatingMode::HeatPumpWH);
}

#[test]
fn simultaneous_both_can_run_when_conditions_met() {
    let mut wh = heater(&very_cold_config("Simultaneous"));
    wh.state.compressor_on = false;
    wh.state.backup_on = false;
    let mode = wh.update_control(&env_state());
    assert!(wh.state.compressor_on, "compressor must run in Simultaneous mode");
    assert!(wh.state.backup_on, "backup must also run");
    assert_eq!(mode, OperatingMode::HeatingHPAndER);
}

#[test]
fn mode_override_heating_hp_and_er_overrides_mutual_exclusion() {
    let mut wh = heater(&base_config("MutuallyExclusive"));
    wh.apply_control(ControlSignal::ModeOverride { mode: OperatingMode::HeatingHPAndER }).unwrap();
    let mode = wh.update_control(&env_state());
    assert!(wh.state.compressor_on);
    assert!(wh.state.backup_on);
    assert_eq!(mode, OperatingMode::HeatingHPAndER);
}

#[test]
fn mode_override_heating_hp_respects_hp_only_command() {
    let mut wh = heater(&very_cold_config("MutuallyExclusive"));
    wh.apply_control(ControlSignal::ModeOverride { mode: OperatingMode::HeatingHP }).unwrap();
    let mode = wh.update_control(&env_state());
    assert!(wh.state.compressor_on);
    assert!(!wh.state.backup_on, "backup must be off with HeatingHP override");
    assert_eq!(mode, OperatingMode::HeatPumpWH);
}

#[test]
fn state_round_trip_preserves_element_hp_control() {
    for (mode_str, expected_mode) in [
        ("MutuallyExclusive", ElementHpControlMode::MutuallyExclusive),
        ("Simultaneous", ElementHpControlMode::Simultaneous),
    ] {
        let cfg = base_config(mode_str);
        let mut wh = heater(&cfg);
        step(&mut wh, &env_state(), 60);
        let saved = wh.save_state();
        let mut restored = heater(&cfg);
        restored.load_state(saved).unwrap();
        assert_eq!(restored.state.element_hp_control, expected_mode);
    }
}

#[test]
fn heat_pump_wh_state_round_trip_preserves_dr_state() {
    let cfg = base_config("");
    let mut wh = heater(&cfg);
    wh.apply_control(ControlSignal::DemandResponse {
        level: DRLevel::Critical,
        duration_s: some(300.0),
    })
    .unwrap();
    let saved = wh.save_state();
    let mut restored = heater(&cfg);
    restored.load_state(saved).unwrap();

    assert_eq!(restored.state.dr.level, DRLevel::Critical, "dr_level must survive save/load");
    assert!(f(restored.state.dr.setpoint_offset_c) < 0.0);
    assert_eq!(restored.state.dr.duration_remaining_s, some(300.0));
    assert!(f(restored.state.dr.load_fraction) < 1.0);
}

// ---------------------------------------------------------------------------
// Demand response and safety
// ---------------------------------------------------------------------------

#[test]
fn hpwh_dr_moderate_reduces_setpoint() {
    let cfg = HeatPumpWaterHeaterConfig {
        initial_tank_temp_c: some(49.0), // 49 < 52 - 2 = 50 → calls for heat from Off
        backup_enable_offset_c: some(20.0),
        ..base_typed_config()
    };
    let e = env_state();
    let mut eq_base = heater(&cfg);
    assert!(eq_base.update_control(&e) != OperatingMode::Off);

    // Effective setpoint = 49°C, deadband floor = 47°C → no call.
    let mut eq_dr = heater(&cfg);
    eq_dr
        .apply_control(ControlSignal::DemandResponse { level: DRLevel::Moderate, duration_s: None })
        .unwrap();
    assert_eq!(f(eq_dr.state.dr.setpoint_offset_c), -3.0);
    assert_eq!(eq_dr.update_control(&e), OperatingMode::Off);
}

#[test]
fn hpwh_dr_grid_emergency_forces_off() {
    let e = env_state();
    let mut eq = heater(&base_config(""));
    eq.apply_control(ControlSignal::DemandResponse {
        level: DRLevel::GridEmergency,
        duration_s: None,
    })
    .unwrap();
    assert_eq!(f(eq.state.dr.load_fraction), 0.0);
    let p = step(&mut eq, &e, 60);

    assert_eq!(f(eq.state.telemetry.compressor_power_w), 0.0);
    assert_eq!(f(eq.state.telemetry.backup_element_power_w), 0.0);
    assert!(!eq.state.compressor_on);
    assert!(!eq.state.backup_on);
    // The standby electronics (1 W) draw on.
    assert!(p.electric_w / 1000.0 <= 0.002);
}

#[test]
fn hpwh_dr_critical_with_mutual_exclusion_interaction() {
    let cfg = HeatPumpWaterHeaterConfig {
        initial_tank_temp_c: some(30.0),
        backup_enable_offset_c: some(30.0),
        ..base_typed_config()
    };
    let e = env_state();
    let mut eq_base = heater(&cfg);
    step(&mut eq_base, &e, 60);
    let comp_w_base = f(eq_base.state.telemetry.compressor_power_w);
    assert!(comp_w_base > 0.0, "baseline compressor must be running");

    let mut eq_dr = heater(&cfg);
    eq_dr
        .apply_control(ControlSignal::DemandResponse { level: DRLevel::Critical, duration_s: None })
        .unwrap();
    assert_eq!(f(eq_dr.state.dr.load_fraction), 0.5);
    step(&mut eq_dr, &e, 60);

    let ratio = f(eq_dr.state.telemetry.compressor_power_w) / comp_w_base;
    assert!((ratio - 0.5).abs() < 0.05, "ratio={ratio:.3}");
    assert_eq!(f(eq_dr.state.telemetry.backup_element_power_w), 0.0);
    assert!(!eq_dr.state.backup_on);
}

#[test]
fn safety_cutout_fires_when_any_node_exceeds_limit() {
    let mut eq = heater(&HeatPumpWaterHeaterConfig {
        initial_tank_temp_c: some(20.0),
        max_tank_temp_c: some(60.0),
        ..base_typed_config()
    });
    eq.tank.node_temps_mut()[1] = d(70.0);
    assert_eq!(eq.update_control(&env_state()), OperatingMode::Off);
}

#[test]
fn heat_pump_wh_safety_cutout_does_not_fire_when_all_nodes_below_limit() {
    let mut eq = heater(&HeatPumpWaterHeaterConfig {
        initial_tank_temp_c: some(30.0),
        max_tank_temp_c: some(55.0),
        backup_enable_offset_c: some(30.0),
        ..base_typed_config()
    });
    eq.tank.node_temps_mut()[0] = d(54.0);
    assert_ne!(eq.update_control(&env_state()), OperatingMode::Off);
}

// ---------------------------------------------------------------------------
// Lockout bounds, walls, timers, duty cycles
// ---------------------------------------------------------------------------

fn env_at(zone_temp_c: f64) -> EnvironmentState {
    let mut e = env_with_wet_bulb(zone_temp_c, zone_temp_c - 5.0);
    e.outdoor_temp_c = d(zone_temp_c);
    e
}

fn offset_config() -> HeatPumpWaterHeaterConfig {
    HeatPumpWaterHeaterConfig { backup_enable_offset_c: some(8.0), ..base_typed_config() }
}

#[test]
fn standard_hpwh_lockout_bounds_are_ochre_values() {
    let eq = heater(&offset_config());
    assert!((f(eq.state.min_ambient_temp_c) - 7.222).abs() < 1e-3);
    assert!((f(eq.state.max_ambient_temp_c) - 43.333).abs() < 1e-3);
}

#[test]
fn explicit_lockout_bounds_are_respected() {
    let eq = heater(&HeatPumpWaterHeaterConfig {
        min_ambient_temp_c: some(2.778),
        max_ambient_temp_c: some(62.778),
        ..base_typed_config()
    });
    assert!((f(eq.state.min_ambient_temp_c) - 2.778).abs() < 1e-3);
    assert!((f(eq.state.max_ambient_temp_c) - 62.778).abs() < 1e-3);
}

#[test]
fn explicit_lockout_config_overrides_default_bounds() {
    let eq = heater(&HeatPumpWaterHeaterConfig {
        min_ambient_temp_c: some(1.0),
        ..base_typed_config()
    });
    assert!((f(eq.state.min_ambient_temp_c) - 1.0).abs() < 1e-9);
}

#[test]
fn unset_lost_heat_fraction_defaults_to_zero_regardless_of_zone_type() {
    let eq = heater(&HeatPumpWaterHeaterConfig {
        lost_heat_fraction: None,
        wall_heat_fraction: None,
        zone_type: Some("conditioned".to_string()),
        ..base_typed_config()
    });
    assert!(f(eq.state.lost_heat_fraction).abs() < 1e-12);
    assert!((f(eq.state.wall_heat_fraction) - 0.5).abs() < 1e-12);
}

#[test]
fn wall_heat_fraction_preserves_energy_balance_and_tracks_split() {
    let e = env_at(24.0);
    let mut eq0 = heater(&offset_config());
    let sens0 = step(&mut eq0, &e, 60).sensible_w;

    let mut eq50 =
        heater(&HeatPumpWaterHeaterConfig { wall_heat_fraction: some(0.5), ..base_typed_config() });
    let (p50, skin_loss_w) = step_with(&mut eq50, &e, 60, &[]);

    assert!(sens0.abs() > 1e-6, "baseline sensible gain must be non-zero");
    let ratio = p50.sensible_w / sens0;
    assert!((ratio - 1.0).abs() < 0.01, "ratio={ratio:.4}");
    // All of the sensible heat is either of the compressor or a jacket loss.
    let internal50 = p50.sensible_w - p50.dehumidification_w - p50.jacket_w;
    assert!(internal50.abs() < 1e-6);
    let wall_w = f(eq50.state.telemetry.wall_sensible_gain_w);
    assert!((p50.dehumidification_w - wall_w).abs() < 1.0);
    assert!((p50.jacket_w - wall_w - skin_loss_w).abs() < 1.0);
    assert!((wall_w.abs() - (sens0 - skin_loss_w).abs() * 0.5).abs() < 1.0);
}

#[test]
fn hp_only_mode_disables_backup_element() {
    let mut eq = heater(&HeatPumpWaterHeaterConfig {
        hp_only_mode: Some(true),
        initial_tank_temp_c: some(20.0),
        backup_enable_offset_c: some(5.0),
        element_hp_control_mode: Some("Simultaneous".to_string()),
        ..base_typed_config()
    });
    for _ in 0..5 {
        step(&mut eq, &env_at(24.0), 60);
        assert!(!eq.state.backup_on, "backup element must remain off in hp_only_mode");
    }
}

#[test]
fn without_hp_only_mode_backup_fires_when_tank_cold() {
    let mut eq = heater(&HeatPumpWaterHeaterConfig {
        initial_tank_temp_c: some(20.0),
        backup_enable_offset_c: some(5.0),
        element_hp_control_mode: Some("Simultaneous".to_string()),
        ..base_typed_config()
    });
    assert_eq!(eq.update_control(&env_at(24.0)), OperatingMode::HeatingHPAndER);
}

#[test]
fn min_off_time_prevents_early_compressor_restart() {
    let e = env_at(24.0);
    let mut eq =
        heater(&HeatPumpWaterHeaterConfig { min_off_time_s: some(120.0), ..base_typed_config() });
    step(&mut eq, &e, 60);
    assert!(eq.state.compressor_on, "compressor should be running initially");

    eq.state.setpoint_c = d(f(eq.state.telemetry.tank_avg_temp_c) - 20.0);
    step(&mut eq, &e, 60);
    assert!(!eq.state.compressor_on, "compressor should now be off");
    assert!(eq.state.compressor_off_since_s.is_some());

    eq.state.setpoint_c = d(80.0);
    eq.update_control(&e);
    assert!(!eq.state.compressor_on, "compressor must not restart before min_off_time_s");

    eq.state.compressor_off_since_s = some(121.0);
    eq.update_control(&e);
    assert!(eq.state.compressor_on, "compressor must restart once min_off_time_s elapsed");
}

#[test]
fn compressor_off_timer_resets_when_compressor_starts() {
    let mut eq = heater(&offset_config());
    eq.state.compressor_off_since_s = some(200.0);
    eq.state.compressor_on = false;
    step(&mut eq, &env_at(24.0), 60);
    assert!(eq.state.compressor_on, "compressor must be on after step with call for heat");
    assert!(eq.state.compressor_off_since_s.is_none());
}

fn duty(on_fraction: f64, component: Option<DutyCycleComponent>) -> HeatPumpWH {
    let mut eq =
        heater(&HeatPumpWaterHeaterConfig { setpoint_c: some(50.0), ..base_typed_config() });
    eq.apply_control(ControlSignal::DutyCycle { on_fraction: d(on_fraction), component })
        .expect("duty cycle accepted");
    eq
}

#[test]
fn split_duty_cycle_curtails_compressor_independently() {
    let eq = duty(0.5, Some(DutyCycleComponent::Compressor));
    assert!((f(eq.state.hp_duty_cycle) - 0.5).abs() < 1e-10);
    assert!((f(eq.state.er_duty_cycle) - 1.0).abs() < 1e-10);
}

#[test]
fn split_duty_cycle_curtails_backup_independently() {
    let eq = duty(0.0, Some(DutyCycleComponent::BackupElement));
    assert!((f(eq.state.er_duty_cycle) - 0.0).abs() < 1e-10);
    assert!((f(eq.state.hp_duty_cycle) - 1.0).abs() < 1e-10);
}

#[test]
fn whole_equipment_duty_cycle_applies_to_both_components() {
    let eq = duty(0.3, None);
    assert!((f(eq.state.duty_cycle) - 0.3).abs() < 1e-10);
    assert!((f(eq.state.hp_duty_cycle) - 1.0).abs() < 1e-10);
    assert!((f(eq.state.er_duty_cycle) - 1.0).abs() < 1e-10);
}

#[test]
fn compressor_kw_and_element_kw_present_and_sum_to_electric_kw_without_fan() {
    let mut eq = heater(&HeatPumpWaterHeaterConfig {
        initial_tank_temp_c: some(40.0),
        fan_power_w: some(0.0),
        parasitic_power_w: some(0.0),
        ..base_typed_config()
    });
    eq.apply_control(ControlSignal::ModeOverride { mode: OperatingMode::HeatPumpWH }).unwrap();
    step(&mut eq, &env_at(20.0), 60);

    let electric_kw = f(eq.state.telemetry.electric_kw);
    let sub_sum = f(eq.state.telemetry.compressor_kw) + f(eq.state.telemetry.element_kw);
    assert!(electric_kw > 0.0, "HPWH must be drawing power for this test to be meaningful");
    let rel_err = (sub_sum - electric_kw).abs() / electric_kw.max(f64::MIN_POSITIVE);
    assert!(rel_err < 1e-9);
}

// ---------------------------------------------------------------------------
// Further scenarios
// ---------------------------------------------------------------------------

#[test]
fn low_power_units_have_wider_lockout_bounds() {
    let by_flag = heater(&HeatPumpWaterHeaterConfig { low_power_hpwh: Some(true), ..bare_config() });
    assert!((f(by_flag.state.min_ambient_temp_c) - 2.778).abs() < 1e-3);
    assert!((f(by_flag.state.max_ambient_temp_c) - 62.778).abs() < 1e-3);
    let by_factor =
        heater(&HeatPumpWaterHeaterConfig { uniform_energy_factor: some(4.9), ..bare_config() });
    assert!((f(by_factor.state.min_ambient_temp_c) - 2.778).abs() < 1e-3);
    let standard = heater(&HeatPumpWaterHeaterConfig {
        low_power_hpwh: Some(false),
        uniform_energy_factor: some(5.5),
        ..bare_config()
    });
    assert!((f(standard.state.min_ambient_temp_c) - 7.222).abs() < 1e-3);
}

#[test]
fn modes_of_the_two_parts() {
    assert_eq!(mode_of(false, false), OperatingMode::Off);
    assert_eq!(mode_of(true, false), OperatingMode::HeatPumpWH);
    assert_eq!(mode_of(false, true), OperatingMode::BackupElement);
    assert_eq!(mode_of(true, true), OperatingMode::HeatingHPAndER);
    assert_eq!(f(mode_number(OperatingMode::Off)), 0.0);
    assert_ne!(
        f(mode_number(OperatingMode::HeatPumpWH)),
        f(mode_number(OperatingMode::BackupElement))
    );
    assert!(elapsed(None, d(60.0)));
    assert!(elapsed(some(60.0), d(60.0)));
    assert!(!elapsed(some(59.0), d(60.0)));
    assert_eq!(f(composite_temp_c(d(60.0), d(40.0))), 55.0);
}

#[test]
fn condenser_weights_make_up_all_of_the_heat() {
    for n in [1usize, 2, 6, 12] {
        let weights = default_condenser_weights(n);
        assert_eq!(weights.len(), n);
        let injections = build_heat_injections(&weights, d(1000.0), n);
        let total: f64 = injections.iter().map(|(_, w)| f(*w)).sum();
        assert!((total - 1000.0).abs() < 1e-9, "{n} nodes: {total}");
        assert!(injections.iter().all(|(node, _)| *node < n));
    }
    // Weights that do not add up to one are scaled.
    let injections = build_heat_injections(&[d(3.0), d(1.0)], d(100.0), 2);
    let shares: Vec<(usize, f64)> = injections.iter().map(|(n, w)| (*n, f(*w))).collect();
    assert_eq!(shares, vec![(0, 75.0), (1, 25.0)]);
}

#[test]
fn condenser_shares_add_up_and_do_not_scale() {
    let weights = [0.25, 0.0, 1.5, 0.125, 3.0, 0.7];
    let of = |c: f64| -> Vec<(usize, f64)> {
        let scaled: Vec<Double> = weights.iter().map(|w| d(w * c)).collect();
        build_heat_injections(&scaled, d(1234.5), 6).iter().map(|(n, w)| (*n, f(*w))).collect()
    };
    let shares = of(1.0);
    assert_eq!(shares.iter().map(|(n, _)| *n).collect::<Vec<_>>(), vec![0, 2, 3, 4, 5]);
    assert!((shares.iter().map(|(_, w)| w).sum::<f64>() - 1234.5).abs() < 1e-9);
    for c in [0.001, 3.7, 1.0e9] {
        for ((n, w), (m, v)) in of(c).iter().zip(&shares) {
            assert_eq!(n, m);
            assert!((w - v).abs() < 1e-9);
        }
    }
    assert!(build_heat_injections(&[d(1.0)], d(0.0), 6).is_empty());
    let rest: Vec<(usize, f64)> = build_heat_injections(&[d(0.0), d(0.0)], d(50.0), 6)
        .iter()
        .map(|(n, w)| (*n, f(*w)))
        .collect();
    assert_eq!(rest, vec![(5, 50.0)]);
}

#[test]
fn rated_cop_is_met_at_the_reference_point() {
    assert_eq!(f(cop_scale_for(some(3.45), None, d(1.5))), 3.45 / 1.5);
    assert_eq!(f(cop_scale_for(some(3.0), None, d(0.0))), 3.0 / 1e-6);
    let eq = heater(&base_typed_config());
    let (x1, x2) = eq.state.cop_curve.reference_point();
    assert_eq!((f(x1), f(x2)), (25.0, 45.0));
    let at_reference = f(evaluate(&eq.state.cop_curve, 25.0, 45.0)) * f(eq.state.cop_scale);
    assert!((at_reference - 2.5).abs() < 1e-9);
}

#[test]
fn curve_texts_are_taken_apart() {
    let text: Vec<char> = " 1.0, 2.0,-3 ,4, 5e-3 ,6".chars().collect();
    let spans = coefficient_spans("cop_curve_coeffs", &text).unwrap();
    let parts: Vec<String> = spans.iter().map(|(a, b)| text[*a..*b].iter().collect()).collect();
    assert_eq!(parts, vec!["1.0", "2.0", "-3", "4", "5e-3", "6"]);
    let values: Vec<Option<Double>> =
        parts.iter().map(|p| p.parse::<f64>().ok().map(d)).collect();
    let six = [values[0], values[1], values[2], values[3], values[4], values[5]];
    assert_eq!(all(&parse_curve_coeffs("cop_curve_coeffs", six).unwrap()), vec![1.0, 2.0, -3.0, 4.0, 5e-3, 6.0]);

    let short: Vec<char> = "1,2,3".chars().collect();
    assert!(matches!(
        coefficient_spans("cop_curve_coeffs", &short),
        Err(HaresError::Equipment(Fault::CoefficientCount { key: "cop_curve_coeffs", count: 3 }))
    ));
    let unread = [some(1.0), some(2.0), None, some(4.0), None, some(6.0)];
    assert!(matches!(
        parse_curve_coeffs("capacity_curve_coeffs", unread),
        Err(HaresError::Equipment(Fault::UnreadCoefficient {
            key: "capacity_curve_coeffs",
            coefficient: 2
        }))
    ));
}

#[test]
fn heat_pump_figures_are_exact() {
    let mut eq = heater(&HeatPumpWaterHeaterConfig {
        cop: some(3.0),
        cop_biquadratic_coeffs: Some([d(1.0), d(0.0), d(0.0), d(0.0), d(0.0), d(0.0)]),
        capacity_biquadratic_coeffs: Some([d(1.0), d(0.0), d(0.0), d(0.0), d(0.0), d(0.0)]),
        ..base_config("")
    });
    let p = step(&mut eq, &env_state(), 60);
    let t = eq.state.telemetry;
    assert_eq!(f(t.cop), 3.0);
    assert_eq!(f(t.compressor_power_w), 400.0);
    assert_eq!(f(t.zone_heat_extraction_w), 800.0);
    assert!((p.electric_w - 435.0).abs() < 1e-9);
    assert!((p.dehumidification_w - (35.0 - 0.88 * 800.0)).abs() < 1e-9);
    assert!((p.latent_w + 0.12 * 800.0).abs() < 1e-9);
}

#[test]
fn heat_pump_demand_of_appliances_is_drawn() {
    let mut eq = heater(&HeatPumpWaterHeaterConfig {
        draw_flow_rate_kg_s: some(0.05),
        ..base_typed_config()
    });
    let fluid = [FluidAccumulator {
        loop_id: DHW_DEMAND_LOOP,
        total_flow_kg_s: d(0.02),
        mean_supply_temp_c: d(0.0),
    }];
    let (p, _) = step_with(&mut eq, &env_state(), 60, &fluid);
    assert!((p.flow_kg_s - 0.07).abs() < 1e-12);
    assert_eq!(p.supply_temp_c, 40.0);
}

#[test]
fn heat_pump_signals_and_configs_are_checked() {
    let mut eq = heater(&base_typed_config());
    let bad = ControlSignal::DutyCycle {
        on_fraction: d(2.0),
        component: Some(DutyCycleComponent::Compressor),
    };
    assert!(matches!(
        eq.apply_control(bad),
        Err(HaresError::Control(ControlFault::DutyCycle { equipment: "HeatPumpWH", .. }))
    ));
    assert_eq!(f(eq.state.hp_duty_cycle), 1.0);
    let bad = HeatPumpWaterHeaterConfig {
        min_ambient_temp_c: some(10.0),
        max_ambient_temp_c: some(10.0),
        ..base_typed_config()
    };
    assert!(matches!(
        eq.init_typed(&bad, low_power_coeffs(), d(1.0), d(10.0)),
        Err(HaresError::Equipment(Fault::AmbientBounds { .. }))
    ));
}

#[test]
fn heat_pump_states_carry_over() {
    let mut eq = heater(&base_config("Simultaneous"));
    step(&mut eq, &env_state(), 60);
    let mut restored = heater(&base_config("Simultaneous"));
    restored.load_state(eq.save_state()).unwrap();
    assert_eq!(restored.tank.node_temps(), eq.tank.node_temps());
    assert_eq!(restored.state.compressor_on, eq.state.compressor_on);
    assert_eq!(restored.state.compressor_on_since_s, eq.state.compressor_on_since_s);
    assert_eq!(restored.state.telemetry.cop, eq.state.telemetry.cop);
}

#[test]
fn low_power_units_have_their_own_curves() {
    let low = low_power_coeffs();
    let standard = heater(&bare_config()).state;
    let with = |low_power_hpwh: Option<bool>, uef: Option<f64>| {
        heater(&HeatPumpWaterHeaterConfig {
            low_power_hpwh,
            uniform_energy_factor: uef.map(d),
            ..bare_config()
        })
        .state
    };
    let by_flag = with(Some(true), None);
    assert_eq!(by_flag.cop_curve.coeffs, low.cop);
    assert_eq!(by_flag.capacity_curve.coeffs, low.capacity);
    assert_eq!(by_flag.cop_curve.x1_bounds, standard.cop_curve.x1_bounds);
    for state in [with(Some(false), Some(5.5)), with(None, None), with(None, Some(4.8))] {
        assert_eq!(state.cop_curve.coeffs, standard.cop_curve.coeffs);
        assert_eq!(state.capacity_curve.coeffs, standard.capacity_curve.coeffs);
    }
    for (uef, share) in [(4.85, 0.25), (4.9, 0.5), (5.0, 1.0), (6.0, 1.0)] {
        let state = with(None, Some(uef));
        for k in 0..6 {
            let (a, b) = (f(standard.cop_curve.coeffs[k]), f(low.cop[k]));
            assert!((f(state.cop_curve.coeffs[k]) - (a + (b - a) * share)).abs() < 1e-12);
            let (a, b) = (f(standard.capacity_curve.coeffs[k]), f(low.capacity[k]));
            assert!((f(state.capacity_curve.coeffs[k]) - (a + (b - a) * share)).abs() < 1e-12);
        }
    }
    let own = [d(1.0), d(0.0), d(0.0), d(0.0), d(0.0), d(0.0)];
    let eq = heater(&HeatPumpWaterHeaterConfig {
        low_power_hpwh: Some(true),
        cop_biquadratic_coeffs: Some(own),
        ..bare_config()
    });
    assert_eq!(eq.state.cop_curve.coeffs, own);
    assert_eq!(eq.state.capacity_curve.coeffs, low.capacity);
}

#[test]
fn saved_heat_pump_setpoints_are_taken_over_as_they_are() {
    let mut eq = heater(&bare_config());
    eq.state.setpoint_ramp_rate_c_per_s = some(0.5);
    let mut saved = eq.save_state();
    let start = f(saved.setpoint_c);
    saved.target_setpoint_c = d(f64::NEG_INFINITY);
    assert!(eq.load_state(saved).is_ok());
    assert!(eq.state.can_ramp(d(4.0)));
    assert_eq!(f(eq.state.later(d(4.0)).setpoint_c), start - 2.0);

    let mut saved = eq.save_state();
    saved.setpoint_c = d(f64::NAN);
    assert!(eq.load_state(saved).is_ok());
    assert!(f(eq.state.setpoint_c).is_nan());
    assert!(!eq.state.can_ramp(d(4.0)));
}

#[test]
fn power_is_finite_up_to_overflow() {
    let mut eq = heater(&bare_config());
    eq.state.compressor_on = true;
    let outside = |cop: f64| HpOutside {
        water_density_kg_m3: d(1000.0),
        cop_curve_value: d(cop),
        capacity_curve_value: d(1.0),
    };
    for cop in [0.0, -1.0, 100.0, f64::INFINITY, f64::NAN] {
        for watts in [1200.0, 1.0e200, 1.7e302] {
            eq.state.compressor_power_w = d(watts);
            let p = eq.state.performance(outside(cop));
            assert!(f(p.compressor_power_w).is_finite(), "{cop} {watts}");
            assert!(f(p.rated_electric_w()).is_finite(), "{cop} {watts}");
        }
    }
    eq.state.compressor_power_w = d(1.8e302);
    assert!(!f(eq.state.performance(outside(0.0)).compressor_power_w).is_finite());
}
