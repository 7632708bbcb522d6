//! What the storage heaters have in common: how a configuration sizes their tank, what
//! a step takes from the outside, and how they list what they give to their ports.
use vstd::prelude::*;

use crate::config::jacketed_ua;
use crate::double::Double;
use crate::error::Result;
use crate::shared::{
    default_conductivity_w_m_k, default_tank_height_m, default_tank_volume_m3,
    default_ua_w_per_k, or_default,
};
use crate::tank::{pi, StratifiedTank, StratifiedTankConfig};
use crate::types::{PortContribution, ThermalCategory};

verus! {

/// A number of nodes as configured, six by default, held between one and twelve.
#[verifier::allow_in_spec]
pub fn node_count(configured: Option<usize>) -> usize
    returns
        (match configured {
            Some(n) => if n < 1 {
                1
            } else if n > 12 {
                12
            } else {
                n
            },
            None => 6,
        }),
{
    match configured {
        Some(n) => if n < 1 {
            1
        } else if n > 12 {
            12
        } else {
            n
        },
        None => 6,
    }
}

/// A node as configured, or a default, but no lower than the lowest.
#[verifier::allow_in_spec]
pub fn node_index(configured: Option<usize>, default: usize, n_nodes: usize) -> usize
    requires
        n_nodes > 0,
    returns
        (if (match configured {
            Some(n) => n,
            None => default,
        }) < n_nodes {
            match configured {
                Some(n) => n,
                None => default,
            }
        } else {
            (n_nodes - 1) as usize
        }),
{
    let node: usize = match configured {
        Some(n) => n,
        None => default,
    };
    if node < n_nodes {
        node
    } else {
        n_nodes - 1
    }
}

/// The number of nodes of a typed configuration: six by default, at least one.
#[verifier::allow_in_spec]
pub fn typed_node_count(tank_nodes: Option<u8>) -> usize
    returns
        (match tank_nodes {
            Some(n) => if n < 1 {
                1
            } else {
                n as usize
            },
            None => 6,
        }),
{
    match tank_nodes {
        Some(n) => if n < 1 {
            1
        } else {
            n as usize
        },
        None => 6,
    }
}

/// The height of a tank [m]: at least 20 cm.
#[verifier::allow_in_spec]
pub fn tank_height(tank_height_m: Option<Double>) -> Double
    returns
        or_default(tank_height_m, default_tank_height_m()).max(Double::ratio(2, 10)),
{
    or_default(tank_height_m, default_tank_height_m()).max(Double::ratio(2, 10))
}

/// The diameter of a cylinder [m] of a volume and a height.
#[verifier::allow_in_spec]
pub fn tank_diameter(tank_volume_m3: Option<Double>, height_m: Double) -> Double
    returns
        Double::whole(4).times(or_default(tank_volume_m3, default_tank_volume_m3())).over(
            pi().times(height_m),
        ).max(Double::ratio(1, 1_000_000)).sqrt(),
{
    Double::whole(4).times(or_default(tank_volume_m3, default_tank_volume_m3())).over(
        pi().times(height_m),
    ).max(Double::ratio(1, 1_000_000)).sqrt()
}

/// The tank that the figures of a typed configuration describe.
pub open spec fn typed_tank_config(
    tank_nodes: Option<u8>,
    tank_volume_m3: Option<Double>,
    tank_height_m: Option<Double>,
    ua_w_per_k: Option<Double>,
    jacket_r_value_m2_k_w: Option<Double>,
    initial_temp_c: Double,
    element_nodes: [Option<usize>; 2],
) -> StratifiedTankConfig {
    let height_m = tank_height(tank_height_m);
    let diameter_m = tank_diameter(tank_volume_m3, height_m);
    StratifiedTankConfig {
        n_nodes: typed_node_count(tank_nodes),
        height_m,
        diameter_m,
        ua_w_per_k: jacketed_ua(
            or_default(ua_w_per_k, default_ua_w_per_k()),
            height_m,
            diameter_m,
            jacket_r_value_m2_k_w,
        ),
        conductivity_w_m_k: default_conductivity_w_m_k(),
        initial_temp_c,
        element_nodes,
        node_volumes_m3: None,
        ua_end_cap_w_per_k: None,
    }
}

/// Build the tank that the figures of a typed configuration describe.
pub fn build_typed_tank(
    tank_nodes: Option<u8>,
    tank_volume_m3: Option<Double>,
    tank_height_m: Option<Double>,
    ua_w_per_k: Option<Double>,
    jacket_r_value_m2_k_w: Option<Double>,
    initial_temp_c: Double,
    element_nodes: [Option<usize>; 2],
) -> (r: Result<StratifiedTank>)
    ensures
        ({
            let config = typed_tank_config(
                tank_nodes,
                tank_volume_m3,
                tank_height_m,
                ua_w_per_k,
                jacket_r_value_m2_k_w,
                initial_temp_c,
                element_nodes,
            );
            match r {
                Ok(tank) => config.fault() is None && tank@ == config.model() && tank@.wf(),
                Err(error) => config.fault() is Some && error
                    == crate::error::HaresError::Equipment(config.fault()->0),
            }
        }),
{
    let height_m: Double = tank_height(tank_height_m);
    let diameter_m: Double = tank_diameter(tank_volume_m3, height_m);
    let config = StratifiedTankConfig {
        n_nodes: typed_node_count(tank_nodes),
        height_m,
        diameter_m,
        ua_w_per_k: jacketed_ua(
            or_default(ua_w_per_k, default_ua_w_per_k()),
            height_m,
            diameter_m,
            jacket_r_value_m2_k_w,
        ),
        conductivity_w_m_k: default_conductivity_w_m_k(),
        initial_temp_c,
        element_nodes,
        node_volumes_m3: None,
        ua_end_cap_w_per_k: None,
    };
    StratifiedTank::new(config)
}

/// A contribution, if there is one to make.
pub open spec fn when(wanted: bool, contribution: PortContribution) -> Seq<PortContribution> {
    if wanted {
        seq![contribution]
    } else {
        Seq::empty()
    }
}

/// Append a contribution, if there is one to make.
pub(crate) fn push_when(
    list: &mut Vec<PortContribution>,
    wanted: bool,
    contribution: PortContribution,
)
    ensures
        final(list)@ == old(list)@ + when(wanted, contribution),
{
    if wanted {
        list.push(contribution);
    }
    assert(list@ =~= old(list)@ + when(wanted, contribution));
}

pub open spec fn spec_jacket_loss(zone: Option<u16>, skin_loss_w: Double) -> Option<PortContribution> {
    match zone {
        Some(zone) if skin_loss_w.abs().gt(Double::ratio(1, 1000)) => Some(
            PortContribution::Thermal {
                zone,
                sensible_gain_w: skin_loss_w,
                latent_gain_w: Double::zero(),
                category: ThermalCategory::JacketLoss,
            },
        ),
        _ => None,
    }
}

/// What the loss through the skin of a tank [W] gives to its zone, unless it is less than
/// a milliwatt.
#[verifier::when_used_as_spec(spec_jacket_loss)]
pub fn jacket_loss(zone: Option<u16>, skin_loss_w: Double) -> (r: Option<PortContribution>)
    ensures
        r == jacket_loss(zone, skin_loss_w),
{
    if let Some(zone) = zone {
        if skin_loss_w.abs().gt(Double::ratio(1, 1000)) {
            return Some(
                PortContribution::Thermal {
                    zone,
                    sensible_gain_w: skin_loss_w,
                    latent_gain_w: Double::zero(),
                    category: ThermalCategory::JacketLoss,
                },
            );
        }
    }
    None
}

} // verus!
