//! Tests of the stratified tank.
use hares_water_heater::error::{Fault, HaresError};
use hares_water_heater::tank::{
    blend_ratio, hot_draw_volume, overlap_length, tempered_draw_volume, unmet_load,
};
use hares_water_heater::time::Duration;
use hares_water_heater::{Double, StratifiedTank, StratifiedTankConfig, TemperedDrawConfig};

const EPSILON: f64 = 1.0e-9;
const WATER_DENSITY_KG_PER_M3: f64 = 1000.0;
const WATER_SPECIFIC_HEAT_J_PER_KG_K: f64 = 4183.0;

fn d(x: f64) -> Double {
    Double { bits: x.to_bits() }
}

fn f(x: Double) -> f64 {
    f64::from_bits(x.bits)
}

fn all(xs: &[Double]) -> Vec<f64> {
    xs.iter().map(|x| f(*x)).collect()
}

fn config(n_nodes: usize, ua_w_per_k: f64, conductivity: f64, temp_c: f64) -> StratifiedTankConfig {
    StratifiedTankConfig {
        n_nodes,
        height_m: d(1.2),
        diameter_m: d(0.5),
        ua_w_per_k: d(ua_w_per_k),
        conductivity_w_m_k: d(conductivity),
        initial_temp_c: d(temp_c),
        element_nodes: [Some(0), Some(n_nodes - 1)],
        node_volumes_m3: None,
        ua_end_cap_w_per_k: None,
    }
}

fn test_tank(n_nodes: usize, initial_temp_c: f64) -> StratifiedTank {
    StratifiedTank::new(config(n_nodes, 0.0, 0.0, initial_temp_c)).expect("tank construction")
}

fn test_tank_with_ua(n_nodes: usize, ua_w_per_k: f64) -> StratifiedTank {
    StratifiedTank::new(config(n_nodes, ua_w_per_k, 0.0, 50.0)).expect("tank construction")
}

fn set_temps(tank: &mut StratifiedTank, temps: &[f64]) {
    for (node, temp) in temps.iter().enumerate() {
        tank.node_temps_mut()[node] = d(*temp);
    }
}

fn total_energy_j(tank: &StratifiedTank) -> f64 {
    tank.node_temps()
        .iter()
        .zip(tank.node_volumes_m3().iter())
        .map(|(temp_c, volume_m3)| {
            WATER_DENSITY_KG_PER_M3 * WATER_SPECIFIC_HEAT_J_PER_KG_K * f(*volume_m3) * f(*temp_c)
        })
        .sum()
}

fn fault(result: Result<StratifiedTank, HaresError>) -> Fault {
    match result {
        Err(HaresError::Equipment(fault)) => fault,
        _ => panic!("expected a fault"),
    }
}

#[test]
fn single_node_heating_matches_analytic_delta_t() {
    let mut tank = test_tank(1, 50.0);
    let power_w = 4_500.0;
    let dt = Duration::from_secs(60);
    let mcp = WATER_DENSITY_KG_PER_M3 * f(tank.node_volumes_m3()[0]) * WATER_SPECIFIC_HEAT_J_PER_KG_K;
    let expected_delta_t = power_w * f(dt.as_secs()) / mcp;

    tank.heat_node(0, d(power_w), dt).expect("heat top node");

    assert!((f(tank.node_temps()[0]) - (50.0 + expected_delta_t)).abs() < 1.0e-12);
}

#[test]
fn draw_event_cools_top_and_pushes_bottom_toward_mains() {
    let mut tank = test_tank(6, 60.0);
    set_temps(&mut tank, &[70.0, 68.0, 66.0, 64.0, 62.0, 60.0]);

    let draw_volume = f(tank.node_volumes_m3()[0]) * 1.5;
    let draw = tank
        .step(d(20.0), d(draw_volume), d(10.0), &[], Duration::from_secs(60))
        .expect("draw step");

    assert!((f(draw.outlet_temp_c) - 70.0).abs() < EPSILON);
    assert!(f(tank.node_temps()[0]) < 70.0);
    assert!(f(tank.node_temps()[5]) < 20.0);
}

#[test]
fn standby_decay_uses_ua_over_mcp_dynamics() {
    let mut tank = StratifiedTank::new(StratifiedTankConfig {
        element_nodes: [Some(0), None],
        ..config(1, 8.0, 0.0, 60.0)
    })
    .expect("tank");

    let dt = Duration::from_secs(30);
    let ambient = 20.0;
    let mcp = WATER_DENSITY_KG_PER_M3 * f(tank.node_volumes_m3()[0]) * WATER_SPECIFIC_HEAT_J_PER_KG_K;
    // Use the actual per-node UA (includes end-cap contribution) for the expected value.
    let effective_ua = f(tank.ua_per_node()[0]);
    let expected = 60.0 - (effective_ua * (60.0 - ambient) * f(dt.as_secs())) / mcp;

    tank.step(d(ambient), d(0.0), d(12.0), &[], dt).expect("standby step");
    assert!((f(tank.node_temps()[0]) - expected).abs() < 1.0e-12);
}

#[test]
fn outlet_temp_matches_pre_draw_top_and_bottom_reaches_mains_with_large_draw() {
    let mut tank = test_tank(6, 55.0);
    set_temps(&mut tank, &[65.0, 63.0, 61.0, 59.0, 57.0, 55.0]);

    let volume = f(tank.node_volumes_m3()[0]) * 0.25;
    let first = tank
        .step(d(20.0), d(volume), d(12.0), &[], Duration::from_secs(60))
        .expect("first draw");
    assert!((f(first.outlet_temp_c) - 65.0).abs() < EPSILON);

    let volume = f(tank.total_volume_m3()) * 0.95;
    let second = tank
        .step(d(20.0), d(volume), d(12.0), &[], Duration::from_secs(60))
        .expect("second draw");
    assert!(f(second.outlet_temp_c).is_finite());
    assert!((f(tank.node_temps()[5]) - 12.0).abs() < 1.0e-9);
}

#[test]
fn draw_energy_balance_is_conserved_to_within_one_joule() {
    let mut tank = test_tank(6, 50.0);
    set_temps(&mut tank, &[62.0, 60.0, 58.0, 56.0, 54.0, 52.0]);

    let before = total_energy_j(&tank);
    let volume = f(tank.total_volume_m3()) * 0.37;
    let draw = tank
        .step(d(20.0), d(volume), d(11.0), &[], Duration::from_secs(60))
        .expect("draw step");
    let after = total_energy_j(&tank);

    let expected_after = before - f(draw.energy_out_j) + f(draw.energy_in_j);
    assert!((after - expected_after).abs() <= 1.0);
}

#[test]
fn dual_element_nodes_heat_correctly() {
    let mut tank = test_tank(6, 45.0);
    let dt = Duration::from_secs(120);
    let power_w = 3_000.0;
    let node_mass_cp =
        WATER_DENSITY_KG_PER_M3 * f(tank.node_volumes_m3()[0]) * WATER_SPECIFIC_HEAT_J_PER_KG_K;
    let expected_delta = power_w * f(dt.as_secs()) / node_mass_cp;

    tank.heat_node(0, d(power_w), dt).expect("heat top");
    tank.heat_node(5, d(power_w), dt).expect("heat bottom");

    assert!((f(tank.node_temps()[0]) - (45.0 + expected_delta)).abs() < 1.0e-12);
    assert!((f(tank.node_temps()[5]) - (45.0 + expected_delta)).abs() < 1.0e-12);
    assert_eq!(tank.element_nodes(), [Some(0), Some(5)]);
}

#[test]
fn save_load_round_trip_restores_temperatures() {
    let mut tank = test_tank(4, 50.0);
    set_temps(&mut tank, &[58.0, 54.0, 50.0, 46.0]);
    let state = tank.save_state();

    tank.heat_node(0, d(2_000.0), Duration::from_secs(60)).expect("mutate");
    tank.load_state(state).expect("restore");
    assert_eq!(all(tank.node_temps()), &[58.0, 54.0, 50.0, 46.0]);
}

#[test]
fn inversion_mixing_converges_within_n_passes_and_stabilizes_profile() {
    let mut tank = test_tank(12, 20.0);
    let temps: Vec<f64> = (0..12).map(|idx| 20.0 + idx as f64).collect();
    set_temps(&mut tank, &temps);

    let swaps = tank.mix_inversions();
    assert!(swaps > 0);
    for pair in all(tank.node_temps()).windows(2) {
        assert!(pair[0] >= pair[1]);
    }
}

#[test]
fn inversion_mixing_conserves_energy_to_within_one_joule() {
    let mut tank = test_tank(10, 20.0);
    let temps: Vec<f64> = (0..10).map(|idx| 38.0 + idx as f64 * 1.25).collect();
    set_temps(&mut tank, &temps);

    let before = total_energy_j(&tank);
    let merges = tank.mix_inversions();
    let after = total_energy_j(&tank);

    assert!(merges > 0);
    assert!((after - before).abs() <= 1.0);
}

#[test]
fn uniform_profile_mixing_has_zero_swaps() {
    let mut tank = test_tank(8, 49.0);
    let swaps = tank.mix_inversions();
    assert_eq!(swaps, 0);
}

#[test]
fn construction_validates_node_count_and_element_bounds() {
    let err = StratifiedTank::new(StratifiedTankConfig {
        element_nodes: [Some(0), None],
        ..config(13, 5.0, 0.6, 50.0)
    })
    .expect_err("invalid node count should fail");
    assert!(err.message().contains("n_nodes"));

    let err = StratifiedTank::new(StratifiedTankConfig {
        element_nodes: [Some(0), Some(6)],
        ..config(6, 5.0, 0.6, 50.0)
    })
    .expect_err("invalid element node should fail");
    assert!(err.message().contains("element_nodes"));
}

/// End-cap UA: boundary nodes (first and last) must have higher UA than interior nodes.
#[test]
fn end_cap_ua_boundary_nodes_higher_than_interior() {
    let tank = test_tank_with_ua(6, 4.0);
    let ua = all(tank.ua_per_node());
    let interior_ua = ua[1];
    assert!(ua[0] > interior_ua);
    assert!(ua[5] > interior_ua);
    // Interior nodes (1..=4) should all be equal.
    for idx in 1..5 {
        assert!((ua[idx] - interior_ua).abs() < 1e-12);
    }
}

/// Single-node tank: end-cap is only added once (same index for top and bottom).
#[test]
fn end_cap_ua_single_node_added_once() {
    let tank = test_tank_with_ua(1, 2.0);
    let expected = 2.0 + 2.0 * 0.1;
    assert!((f(tank.ua_per_node()[0]) - expected).abs() < 1e-12);
}

/// For two nodes without explicit volumes, the top node gets 1/3 and the bottom 2/3.
#[test]
fn two_node_volumes_follow_ochre_one_third_two_thirds_split() {
    let tank = test_tank(2, 50.0);
    let total = f(tank.total_volume_m3());
    let expected_top = total / 3.0;
    let expected_bot = 2.0 * total / 3.0;
    assert!((f(tank.node_volumes_m3()[0]) - expected_top).abs() < 1e-12);
    assert!((f(tank.node_volumes_m3()[1]) - expected_bot).abs() < 1e-12);
}

fn ochre_draw_general_reference(
    states_c: &[f64],
    vol_fractions: &[f64],
    draw_fraction: f64,
    mains_temp_c: f64,
) -> (f64, Vec<f64>) {
    let n = states_c.len();
    let mut vols_pre = vec![0.0_f64; n + 1];
    let mut vols_post = vec![0.0_f64; n + 1];
    let mut temps = vec![0.0_f64; n + 1];

    let mut running = 0.0_f64;
    for (i, vf) in vol_fractions.iter().enumerate() {
        running += *vf;
        vols_pre[i] = running;
        temps[i] = states_c[i];
    }
    vols_pre[n] = running + draw_fraction;
    vols_post[0] = draw_fraction;
    temps[n] = mains_temp_c;

    running = draw_fraction;
    for (i, vf) in vol_fractions.iter().enumerate() {
        running += *vf;
        vols_post[i + 1] = running;
    }

    let mut outlet_temp = 0.0_f64;
    let mut prev = 0.0_f64;
    for (i, vol_pre) in vols_pre.iter().enumerate() {
        let clipped = (*vol_pre).min(draw_fraction);
        let vol_del = clipped - prev;
        outlet_temp += temps[i] * vol_del;
        prev = clipped;
    }
    outlet_temp /= draw_fraction;

    let mut t_end = vec![0.0_f64; n];
    for i in 0..n {
        let mut weighted_temp = 0.0_f64;
        let mut prev_v = vols_post[i];
        for j in 0..=n {
            let clipped = vols_pre[j].max(vols_post[i]).min(vols_post[i + 1]);
            let vol_del = clipped - prev_v;
            weighted_temp += temps[j] * vol_del;
            prev_v = clipped;
        }
        t_end[i] = weighted_temp / vol_fractions[i];
    }

    (outlet_temp, t_end)
}

#[test]
fn draw_step_matches_ochre_general_algorithm_for_equal_node_volumes() {
    let mut tank = test_tank(6, 50.0);
    set_temps(&mut tank, &[62.0, 59.0, 56.0, 53.0, 50.0, 47.0]);

    let draw_volume = f(tank.total_volume_m3()) * 0.12;
    let draw_fraction = draw_volume / f(tank.total_volume_m3());
    let old_temps = all(tank.node_temps());
    let vol_fraction = 1.0 / tank.n_nodes() as f64;
    let vol_fractions = vec![vol_fraction; tank.n_nodes()];
    let (expected_outlet_temp, expected_temps) =
        ochre_draw_general_reference(&old_temps, &vol_fractions, draw_fraction, 12.0);

    let draw = tank
        .step(d(20.0), d(draw_volume), d(12.0), &[], Duration::from_secs(60))
        .expect("draw step");

    assert!((f(draw.outlet_temp_c) - expected_outlet_temp).abs() < 1.0e-12);
    for (actual, expected) in all(tank.node_temps()).iter().zip(expected_temps.iter()) {
        assert!((*actual - *expected).abs() < 1.0e-12);
    }
}

fn tmv() -> TemperedDrawConfig {
    TemperedDrawConfig {
        tempered_draw_temp_c: d(40.6),
        hot_draw_temp_c: d(51.7),
        setpoint_temp_c: d(51.7),
    }
}

/// When the outlet is at the fixture temperature, no mixing: the raw draw volume is used.
#[test]
fn tmv_no_reduction_when_outlet_at_fixture_temp() {
    let mut tank = test_tank(6, 40.6); // initial temp exactly at fixture setpoint
    let flow_m3_s = 1e-4; // 0.1 L/s
    let draw = tank
        .step_tempered(d(20.0), d(flow_m3_s), d(0.0), d(15.0), &[], tmv(), Duration::from_secs(60))
        .expect("step_tempered");

    assert_eq!(f(draw.unmet_load_w), 0.0);
}

/// When the outlet is colder than the fixtures want, the unmet load is proportional to the
/// deficit.
#[test]
fn tmv_unmet_load_when_outlet_below_fixture_temp() {
    let mut tank = test_tank(1, 30.0); // cold tank
    let flow_m3_s = 1e-4;
    let mains_temp_c = 15.0;
    let draw = tank
        .step_tempered(
            d(20.0),
            d(flow_m3_s),
            d(0.0),
            d(mains_temp_c),
            &[],
            tmv(),
            Duration::from_secs(60),
        )
        .expect("step_tempered");

    assert!(f(draw.unmet_load_w) > 0.0);
    let deficit = (40.6 - f(draw.outlet_temp_c)).max(0.0);
    let expected = flow_m3_s * WATER_DENSITY_KG_PER_M3 * WATER_SPECIFIC_HEAT_J_PER_KG_K * deficit;
    assert!((f(draw.unmet_load_w) - expected).abs() < 1.0);
}

/// When the outlet is hotter than the fixtures want, less is drawn than asked for.
#[test]
fn tmv_reduces_draw_when_outlet_above_fixture_temp() {
    let mut tank = test_tank(1, 65.0); // very hot tank
    let mains_temp_c = 15.0;
    let flow_m3_s = 1e-4;
    let dt = Duration::from_secs(60);

    let draw = tank
        .step_tempered(d(20.0), d(flow_m3_s), d(0.0), d(mains_temp_c), &[], tmv(), dt)
        .expect("step_tempered");

    let raw_draw_energy = WATER_DENSITY_KG_PER_M3
        * WATER_SPECIFIC_HEAT_J_PER_KG_K
        * (flow_m3_s * f(dt.as_secs()))
        * 65.0;
    assert!(f(draw.energy_out_j) < raw_draw_energy);
    assert_eq!(f(draw.unmet_load_w), 0.0, "no unmet load when outlet > fixture temp");
}

#[test]
fn raw_step_has_zero_unmet_load() {
    let mut tank = test_tank(1, 55.0);
    let volume = f(tank.total_volume_m3()) * 0.1;
    let draw =
        tank.step(d(20.0), d(volume), d(15.0), &[], Duration::from_secs(60)).expect("step");
    assert_eq!(f(draw.unmet_load_w), 0.0);
}

/// With element heat and a draw in the same step, the outlet is the top node before the
/// step.
#[test]
fn outlet_temp_not_inflated_by_same_step_element_heat() {
    let mut tank = test_tank(6, 50.0);
    let pre_step_top = f(tank.node_temps()[0]);

    let draw_volume = f(tank.node_volumes_m3()[0]) * 0.5;
    let element_power_w = 10_000.0; // large power to make the effect obvious
    let draw = tank
        .step(
            d(20.0),
            d(draw_volume),
            d(15.0),
            &[(0, d(element_power_w))],
            Duration::from_secs(60),
        )
        .expect("step with heat + draw");

    assert!((f(draw.outlet_temp_c) - pre_step_top).abs() < 1e-12);
}

/// The exact temperatures of a profile with several inversions: nodes 0 and 1 merge to 40,
/// nodes 2 and 3 to 30, nodes 4 and 5 to 35 and then with nodes 2 and 3 to 32.5.
#[test]
fn pav_deterministic_multi_inversion_fixture() {
    let mut tank = test_tank(6, 0.0);
    let input = [20.0, 60.0, 10.0, 50.0, 30.0, 40.0];
    set_temps(&mut tank, &input);

    let merges = tank.mix_inversions();
    assert!(merges > 0, "multi-inversion profile must require merges");

    let expected = [40.0, 40.0, 32.5, 32.5, 32.5, 32.5];
    let output = all(tank.node_temps());
    for (i, (got, exp)) in output.iter().zip(expected.iter()).enumerate() {
        assert!((got - exp).abs() < 1e-9, "node {i}: expected {exp}, got {got}");
    }

    // Energy conservation: sum of temps must be preserved (equal volumes).
    let input_sum: f64 = input.iter().sum();
    let output_sum: f64 = output.iter().sum();
    assert!((output_sum - input_sum).abs() < 1e-9);
}

// ---------------------------------------------------------------------------
// Faults
// ---------------------------------------------------------------------------

#[test]
fn every_fault_of_a_tank_is_named() {
    let base = || config(6, 5.0, 0.6, 50.0);
    assert!(matches!(
        fault(StratifiedTank::new(StratifiedTankConfig { n_nodes: 0, ..base() })),
        Fault::NodeCount { n_nodes: 0 }
    ));
    assert!(matches!(
        fault(StratifiedTank::new(StratifiedTankConfig { height_m: d(0.0), ..base() })),
        Fault::NotPositive { field: "height_m", .. }
    ));
    assert!(matches!(
        fault(StratifiedTank::new(StratifiedTankConfig { diameter_m: d(f64::NAN), ..base() })),
        Fault::NotPositive { field: "diameter_m", .. }
    ));
    assert!(matches!(
        fault(StratifiedTank::new(StratifiedTankConfig { ua_w_per_k: d(-1.0), ..base() })),
        Fault::Negative { field: "ua_w_per_k", .. }
    ));
    assert!(matches!(
        fault(StratifiedTank::new(StratifiedTankConfig {
            conductivity_w_m_k: d(f64::INFINITY),
            ..base()
        })),
        Fault::Negative { field: "conductivity_w_m_k", .. }
    ));
    assert!(matches!(
        fault(StratifiedTank::new(StratifiedTankConfig { initial_temp_c: d(f64::NAN), ..base() })),
        Fault::NotFinite { field: "initial_temp_c", .. }
    ));
    assert!(matches!(
        fault(StratifiedTank::new(StratifiedTankConfig {
            element_nodes: [None, Some(7)],
            ..base()
        })),
        Fault::ElementNode { element: 1, node: 7, n_nodes: 6 }
    ));
    assert!(matches!(
        fault(StratifiedTank::new(StratifiedTankConfig {
            node_volumes_m3: Some(vec![d(0.1); 5]),
            ..base()
        })),
        Fault::VolumeCount { len: 5, n_nodes: 6 }
    ));
    let mut volumes = vec![d(0.1); 6];
    volumes[3] = d(0.0);
    assert!(matches!(
        fault(StratifiedTank::new(StratifiedTankConfig {
            node_volumes_m3: Some(volumes),
            ..base()
        })),
        Fault::NotPositive { field: "node_volumes_m3", index: Some(3), .. }
    ));
}

#[test]
fn refused_steps_leave_the_tank_alone() {
    let mut tank = test_tank(3, 50.0);
    set_temps(&mut tank, &[60.0, 55.0, 50.0]);
    let before = all(tank.node_temps());
    let dt = Duration::from_secs(60);

    let too_much = f(tank.total_volume_m3()) * 1.01;
    let r = tank.step(d(20.0), d(too_much), d(10.0), &[], dt);
    assert!(matches!(r, Err(HaresError::Equipment(Fault::DrawExceedsTank { .. }))));
    let r = tank.step(d(20.0), d(-0.001), d(10.0), &[], dt);
    assert!(matches!(r, Err(HaresError::Equipment(Fault::Negative { .. }))));
    let r = tank.step(d(f64::NAN), d(0.0), d(10.0), &[], dt);
    assert!(matches!(r, Err(HaresError::Equipment(Fault::NotFinite { .. }))));
    let r = tank.heat_node(3, d(100.0), dt);
    assert!(matches!(
        r,
        Err(HaresError::Equipment(Fault::NodeIndex { node: 3, n_nodes: 3 }))
    ));
    assert_eq!(all(tank.node_temps()), before);

    let other = test_tank(4, 50.0).save_state();
    assert!(matches!(
        tank.load_state(other),
        Err(HaresError::Equipment(Fault::StateNodeCount { len: 4, n_nodes: 3 }))
    ));
    assert_eq!(all(tank.node_temps()), before);
}

// ---------------------------------------------------------------------------
// Figures
// ---------------------------------------------------------------------------

#[test]
fn geometry_has_exact_figures() {
    let tank = test_tank(6, 50.0);
    let area = std::f64::consts::PI * 0.5 * 0.5 / 4.0;
    let by_radius = std::f64::consts::PI * 0.25 * 0.25;
    let total: f64 = all(tank.node_volumes_m3()).iter().sum();
    assert!((total - area * 1.2).abs() < 1e-12);
    assert!((total - by_radius * 1.2).abs() < 1e-12);
    assert_eq!(f(tank.height_m()), 1.2);
    assert_eq!(f(tank.diameter_m()), 0.5);
    assert_eq!(f(tank.ua_w_per_k()), 0.0);
    assert_eq!(tank.n_nodes(), 6);
}

#[test]
fn overlaps_of_intervals() {
    assert_eq!(f(overlap_length(d(0.0), d(2.0), d(1.0), d(5.0))), 1.0);
    assert_eq!(f(overlap_length(d(0.0), d(2.0), d(2.0), d(5.0))), 0.0);
    assert_eq!(f(overlap_length(d(0.0), d(2.0), d(3.0), d(5.0))), 0.0);
    assert_eq!(f(overlap_length(d(0.0), d(9.0), d(3.0), d(5.0))), 2.0);
}

#[test]
fn blending_has_exact_figures() {
    // 40 °C out of 60 °C and 10 °C: three parts in five are hot.
    assert_eq!(f(blend_ratio(d(40.0), d(60.0), d(10.0))), 0.6);
    assert_eq!(f(tempered_draw_volume(d(0.001), tmv(), d(40.0), d(10.0), d(60.0))), 0.06);
    let blended = f(tempered_draw_volume(d(0.001), tmv(), d(60.0), d(10.0), d(60.0)));
    assert!((blended - 0.06 * (40.6 - 10.0) / 50.0).abs() < 1e-15);
    // A hot draw is blended only where the setpoint is above its temperature.
    assert_eq!(f(hot_draw_volume(d(0.001), tmv(), d(60.0), d(10.0), d(60.0))), 0.06);
    assert_eq!(f(unmet_load(d(1e-4), tmv(), d(45.0))), 0.0);
    let unmet = f(unmet_load(d(1e-4), tmv(), d(30.6)));
    assert!((unmet - 0.1 * 4183.0 * 10.0).abs() < 1e-9);
}

// ---------------------------------------------------------------------------
// Laws on concrete values
// ---------------------------------------------------------------------------

#[test]
fn a_step_leaves_no_inversion() {
    let mut tank = test_tank_with_ua(6, 3.0);
    set_temps(&mut tank, &[20.0, 60.0, 10.0, 50.0, 30.0, 40.0]);
    tank.step(d(20.0), d(0.0), d(10.0), &[(5, d(9000.0))], Duration::from_secs(300)).unwrap();
    for pair in all(tank.node_temps()).windows(2) {
        assert!(pair[0] >= pair[1]);
    }
}

#[test]
fn drawn_energy_does_not_depend_on_the_heat_of_the_step() {
    let run = |heat: f64| {
        let mut tank = test_tank_with_ua(6, 3.0);
        set_temps(&mut tank, &[62.0, 60.0, 58.0, 56.0, 54.0, 52.0]);
        let volume = f(tank.total_volume_m3()) * 0.2;
        tank.step(d(20.0), d(volume), d(11.0), &[(2, d(heat))], Duration::from_secs(60)).unwrap()
    };
    assert_eq!(run(0.0), run(5000.0));
}

#[test]
fn nothing_changes_in_no_time() {
    let mut tank = StratifiedTank::new(config(4, 3.0, 0.6, 50.0)).unwrap();
    set_temps(&mut tank, &[60.0, 58.0, 50.0, 40.0]);
    let draw = tank
        .step(d(20.0), d(0.0), d(11.0), &[(2, d(5000.0))], Duration::from_secs(0))
        .unwrap();
    assert_eq!(all(tank.node_temps()), vec![60.0, 58.0, 50.0, 40.0]);
    assert_eq!(f(draw.energy_out_j), 0.0);
    assert_eq!(f(draw.outlet_temp_c), 60.0);
}

#[test]
fn conduction_moves_heat_downwards() {
    let mut tank = StratifiedTank::new(config(2, 0.0, 0.6, 50.0)).unwrap();
    set_temps(&mut tank, &[60.0, 40.0]);
    tank.step(d(20.0), d(0.0), d(11.0), &[], Duration::from_secs(600)).unwrap();
    let temps = all(tank.node_temps());
    assert!(temps[0] < 60.0 && temps[0] > 40.0);
    assert!(temps[1] > 40.0 && temps[1] < 60.0);
}

#[test]
fn conduction_moves_heat_between_nodes_only() {
    let mut tank = StratifiedTank::new(config(6, 0.0, 0.6, 50.0)).expect("tank construction");
    set_temps(&mut tank, &[62.0, 60.0, 58.0, 44.0, 30.0, 12.0]);
    let before = total_energy_j(&tank);
    tank.step(d(20.0), d(0.0), d(11.0), &[], Duration::from_secs(3600)).expect("step");
    assert!(f(tank.node_temps()[5]) > 12.0);
    assert!(f(tank.node_temps()[0]) < 62.0);
    assert!((total_energy_j(&tank) - before).abs() < 1.0e-6);
}

#[test]
fn standby_losses_account_for_the_heat_lost() {
    let mut tank = StratifiedTank::new(config(6, 5.0, 0.6, 50.0)).expect("tank construction");
    set_temps(&mut tank, &[62.0, 60.0, 58.0, 44.0, 30.0, 12.0]);
    let before = total_energy_j(&tank);
    let lost: f64 = all(tank.ua_per_node())
        .iter()
        .zip(all(tank.node_temps()))
        .map(|(ua, temp)| ua * (temp - 20.0) * 60.0)
        .sum();
    assert!(lost > 0.0);
    tank.step(d(20.0), d(0.0), d(11.0), &[], Duration::from_secs(60)).expect("step");
    assert!((before - total_energy_j(&tank) - lost).abs() < 1.0e-6);
}

#[test]
fn uneven_tanks_keep_their_heat_in_draws() {
    let volumes = [0.01, 0.05, 0.002, 0.09];
    let mut tank = StratifiedTank::new(StratifiedTankConfig {
        node_volumes_m3: Some(volumes.iter().map(|v| d(*v)).collect()),
        ..config(4, 0.0, 0.0, 50.0)
    })
    .expect("tank construction");
    set_temps(&mut tank, &[70.0, 55.5, 41.0, 17.25]);
    for share in [0.001, 0.3, 0.77, 1.0] {
        let before = total_energy_j(&tank);
        let volume = f(tank.total_volume_m3()) * share;
        let draw = tank
            .step(d(20.0), d(volume), d(9.5), &[], Duration::from_secs(60))
            .expect("draw");
        let expected = before - f(draw.energy_out_j) + f(draw.energy_in_j);
        assert!((total_energy_j(&tank) - expected).abs() < 1.0e-6);
    }
}

/// The squares of the differences between a profile and a column, by volume.
fn misfit(profile: &[f64], column: &[f64], volumes: &[f64]) -> f64 {
    profile
        .iter()
        .zip(column)
        .zip(volumes)
        .map(|((p, c), v)| v * (p - c) * (p - c))
        .sum()
}

#[test]
fn mixing_gives_the_closest_stratified_profile() {
    let volumes = [0.01, 0.05, 0.002, 0.09, 0.03];
    let mut tank = StratifiedTank::new(StratifiedTankConfig {
        node_volumes_m3: Some(volumes.iter().map(|v| d(*v)).collect()),
        ..config(5, 0.0, 0.0, 50.0)
    })
    .expect("tank construction");
    let column = [20.0, 60.0, 10.0, 50.0, 30.0];
    set_temps(&mut tank, &column);
    tank.mix_inversions();
    let mixed = all(tank.node_temps());
    let volumes = all(tank.node_volumes_m3());
    let least = misfit(&mixed, &column, &volumes);
    let others = [
        vec![60.0, 60.0, 50.0, 50.0, 30.0],
        vec![53.0, 53.0, 49.0, 49.0, 30.0],
        vec![50.0; 5],
        vec![55.0, 54.0, 50.0, 49.0, 29.0],
        mixed.iter().map(|t| t + 0.01).collect(),
        mixed.iter().map(|t| t - 0.01).collect(),
    ];
    for other in others {
        assert!(misfit(&other, &column, &volumes) > least, "{other:?}");
    }
}

#[test]
fn a_tank_at_ambient_stays_as_it_is() {
    let mut tank = StratifiedTank::new(config(6, 5.0, 0.6, 20.7)).expect("tank construction");
    tank.step(d(20.7), d(0.0), d(11.0), &[], Duration::from_secs(3600)).expect("step");
    assert_eq!(all(tank.node_temps()), vec![20.7; 6]);
}

#[test]
fn whole_steps_balance() {
    let start = [62.0, 60.0, 58.0, 44.0, 30.0, 12.0];
    let lost = |tank: &StratifiedTank| -> f64 {
        let per_node = all(tank.ua_per_node());
        per_node.iter().zip(all(tank.node_temps())).map(|(ua, t)| ua * (t - 20.0) * 60.0).sum()
    };

    // Injected heat and losses.
    let mut tank = StratifiedTank::new(config(6, 5.0, 0.6, 50.0)).expect("tank construction");
    set_temps(&mut tank, &start);
    let before = total_energy_j(&tank);
    let loss = lost(&tank);
    let injections = [(5, d(4500.0)), (1, d(750.0))];
    tank.step(d(20.0), d(0.0), d(11.0), &injections, Duration::from_secs(60)).expect("step");
    let expected = before + 5250.0 * 60.0 - loss;
    assert!((total_energy_j(&tank) - expected).abs() < 1.0e-6);

    // Drawn water and losses.
    let mut tank = StratifiedTank::new(config(6, 5.0, 0.6, 50.0)).expect("tank construction");
    set_temps(&mut tank, &start);
    let before = total_energy_j(&tank);
    let loss = lost(&tank);
    let volume = f(tank.total_volume_m3()) * 0.37;
    let draw = tank.step(d(20.0), d(volume), d(9.5), &[], Duration::from_secs(60)).expect("step");
    let expected = before - f(draw.energy_out_j) + f(draw.energy_in_j) - loss;
    assert!((total_energy_j(&tank) - expected).abs() < 1.0e-6);
}

#[test]
fn mixing_twice_is_mixing_once() {
    for temps in [[20.0, 60.0, 10.0, 50.0, 30.0], [20.0, f64::NAN, 10.0, 50.0, 30.0], [1e308; 5]] {
        let mut tank = test_tank(5, 0.0);
        set_temps(&mut tank, &temps);
        tank.mix_inversions();
        let once: Vec<u64> = tank.node_temps().iter().map(|t| t.bits).collect();
        tank.mix_inversions();
        let again: Vec<u64> = tank.node_temps().iter().map(|t| t.bits).collect();
        assert_eq!(once, again);
    }
}
