//! The tank that a storage heater has before it is configured.
use vstd::prelude::*;

use crate::double::Double;
use crate::shared::{
    default_conductivity_w_m_k, default_setpoint_c, default_tank_diameter_m,
    default_tank_height_m, default_ua_w_per_k,
};
use crate::tank::{
    cylinder_cross_section_area, cylinder_volume, pi, StratifiedTank, StratifiedTankConfig,
    MAX_NODES, MIN_NODES,
};

verus! {

/// The default tank with `n_nodes` nodes and elements on the given ones.
pub open spec fn default_tank_config(
    n_nodes: usize,
    element_nodes: [Option<usize>; 2],
) -> StratifiedTankConfig {
    StratifiedTankConfig {
        n_nodes,
        height_m: default_tank_height_m(),
        diameter_m: default_tank_diameter_m(),
        ua_w_per_k: default_ua_w_per_k(),
        conductivity_w_m_k: default_conductivity_w_m_k(),
        initial_temp_c: default_setpoint_c(),
        element_nodes,
        node_volumes_m3: None,
        ua_end_cap_w_per_k: None,
    }
}

/// A sum of positive numbers of a size is of about that size.
proof fn lemma_sum_bounds(values: Seq<Double>, k: int, j: int)
    requires
        0 < values.len() <= 12,
        0 <= k <= 900,
        0 <= j <= 900,
        forall|i: int|
            0 <= i < values.len() ==> crate::double_laws::at_most(#[trigger] values[i], k)
                && crate::double_laws::at_least(values[i], j),
    ensures
        crate::double_laws::at_most(crate::tank::sum(values), k + values.len()),
        crate::double_laws::at_least(crate::tank::sum(values), j),
    decreases values.len(),
{
    let front = values.drop_last();
    let last = values.last();
    let n = values.len() as int;
    assert(last == values[n - 1]);
    let before = crate::tank::sum(front);
    if n == 1 {
        assert(front.len() == 0);
        assert(before == Double::zero());
    } else {
        lemma_sum_bounds(front, k, j);
    }
    assert(crate::double_laws::at_most(before, k + n - 1));
    assert(crate::double_laws::at_most(last, k + n - 1));
    crate::double_laws::plus_at_most(before, last, k + n - 1);
    crate::double_laws::plus_commutes(before, last);
    crate::double_laws::plus_at_least(last, j, before);
}

/// The default tank can be built for every number of nodes.
pub proof fn default_tank_is_valid(n_nodes: usize, element_nodes: [Option<usize>; 2])
    requires
        MIN_NODES <= n_nodes <= MAX_NODES,
        crate::tank::element_fault(n_nodes, element_nodes) is None,
    ensures
        default_tank_config(n_nodes, element_nodes).fault() is None,
{
    let config = default_tank_config(n_nodes, element_nodes);
    let height = config.height_m;
    let diameter = config.diameter_m;
    let half = Double::ratio(1, 2);
    let count = Double::whole(n_nodes as u64);
    crate::double_laws::ratio_is_moderate(12, 10);
    crate::double_laws::ratio_is_moderate(1, 2);
    crate::double_laws::ratio_is_moderate(6, 10);
    crate::double_laws::ratio_is_moderate(516_666_667, 10_000_000);
    crate::double_laws::bounded_is_positive(height, 53);
    crate::double_laws::bounded_is_positive(diameter, 53);
    crate::double_laws::bounded_is_positive(config.conductivity_w_m_k, 53);
    crate::double_laws::bounded_is_positive(config.initial_temp_c, 53);
    crate::double_laws::whole_is_small(2);
    crate::double_laws::whole_is_small(3);
    crate::double_laws::whole_is_small(n_nodes as u64);
    crate::double_laws::bounded_is_positive(config.ua_w_per_k, 0);
    crate::double_laws::bounded_is_positive(count, 0);
    // The cross section.
    let radius = diameter.times(half);
    crate::double_laws::times_at_most(diameter, 53, half, 53);
    crate::double_laws::times_at_least(diameter, 53, half, 53);
    let square = radius.times(radius);
    crate::double_laws::times_at_most(radius, 106, radius, 106);
    crate::double_laws::times_at_least(radius, 106, radius, 106);
    let area = cylinder_cross_section_area(diameter);
    assert(crate::double_laws::at_most(pi(), 2));
    assert(crate::double_laws::at_least(pi(), 0));
    crate::double_laws::times_at_most(pi(), 2, square, 212);
    crate::double_laws::times_at_least(pi(), 0, square, 212);
    assert(area == pi().times(square));
    crate::double_laws::bounded_is_positive(area, 212);
    // The volume and the nodes' shares of it.
    let volume = cylinder_volume(height, diameter);
    crate::double_laws::times_at_most(area, 214, height, 53);
    crate::double_laws::times_at_least(area, 212, height, 53);
    crate::double_laws::bounded_is_positive(volume, 265);
    let volumes = config.volumes();
    if n_nodes == 2 {
        let three = Double::whole(3);
        let two = Double::whole(2);
        crate::double_laws::bounded_is_positive(three, 0);
        crate::double_laws::times_at_most(two, 64, volume, 267);
        crate::double_laws::times_at_least(two, 0, volume, 265);
        crate::double_laws::over_at_most(volume, 267, three, 0);
        crate::double_laws::over_at_least(volume, 265, three, 64);
        crate::double_laws::over_at_most(two.times(volume), 331, three, 0);
        crate::double_laws::over_at_least(two.times(volume), 265, three, 64);
        assert(crate::double_laws::at_most(volume.over(three), 331));
    } else {
        crate::double_laws::over_at_most(volume, 267, count, 0);
        crate::double_laws::over_at_least(volume, 265, count, 64);
        assert(crate::double_laws::at_most(volume.over(count), 331));
    }
    lemma_sum_bounds(volumes, 331, 329);
    crate::double_laws::bounded_is_positive(crate::tank::sum(volumes), 329);
    // The height of a node.
    crate::double_laws::over_at_most(height, 53, count, 0);
    crate::double_laws::over_at_least(height, 53, count, 64);
    crate::double_laws::bounded_is_positive(config.node_height(), 117);
}

/// Build the default tank.
pub fn default_tank(n_nodes: usize, element_nodes: [Option<usize>; 2]) -> (tank: StratifiedTank)
    requires
        MIN_NODES <= n_nodes <= MAX_NODES,
        crate::tank::element_fault(n_nodes, element_nodes) is None,
    ensures
        tank@ == default_tank_config(n_nodes, element_nodes).model(),
        tank@.wf(),
{
    proof {
        default_tank_is_valid(n_nodes, element_nodes);
    }
    let config = StratifiedTankConfig {
        n_nodes,
        height_m: default_tank_height_m(),
        diameter_m: default_tank_diameter_m(),
        ua_w_per_k: default_ua_w_per_k(),
        conductivity_w_m_k: default_conductivity_w_m_k(),
        initial_temp_c: default_setpoint_c(),
        element_nodes,
        node_volumes_m3: None,
        ua_end_cap_w_per_k: None,
    };
    StratifiedTank::new(config).unwrap()
}

} // verus!
