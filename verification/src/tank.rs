//! Stratified tank thermal model shared by storage water heaters.
//!
//! A tank is a column of nodes, the topmost first. A step conducts heat between
//! neighbours and to the surroundings, injects the heat of elements or condensers,
//! draws hot water off the top while mains water enters at the bottom, and mixes
//! layers that would lie colder above warmer.
use vstd::prelude::*;

use crate::double::Double;
use crate::error::{Fault, HaresError, Result};
use crate::time::Duration;

verus! {

pub const MIN_NODES: usize = 1;

pub const MAX_NODES: usize = 12;

/// The bits of the number nearest to pi.
pub const PI_BITS: u64 = 0x4009_21FB_5444_2D18;

/// Configuration for a stratified tank.
#[derive(Debug)]
pub struct StratifiedTankConfig {
    pub n_nodes: usize,
    pub height_m: Double,
    pub diameter_m: Double,
    pub ua_w_per_k: Double,
    pub conductivity_w_m_k: Double,
    pub initial_temp_c: Double,
    pub element_nodes: [Option<usize>; 2],
    pub node_volumes_m3: Option<Vec<Double>>,
    /// Additional UA (W/K) added to the top and bottom boundary nodes to account
    /// for flat end-cap heat losses. When `None`, a tenth of `ua_w_per_k`.
    pub ua_end_cap_w_per_k: Option<Double>,
}

/// Draw-step summary values.
#[derive(Debug, Clone, Copy, PartialEq, Eq, Structural)]
pub struct DrawResult {
    /// Outlet temperature at the beginning of the draw.
    pub outlet_temp_c: Double,
    /// Thermal energy removed from the tank by the draw [J].
    pub energy_out_j: Double,
    /// Thermal energy added to the tank by incoming mains water [J].
    pub energy_in_j: Double,
    /// Heat [W] that the fixtures did not receive because the outlet was colder than
    /// their delivery temperature.
    pub unmet_load_w: Double,
}

/// Parameters of a tempered (mixed) water draw: a mixing valve blends hot tank water
/// with cold mains water to reach a target temperature.
#[derive(Debug, Clone, Copy, PartialEq, Eq, Structural)]
pub struct TemperedDrawConfig {
    /// Target delivery temperature for fixture draws [°C].
    pub tempered_draw_temp_c: Double,
    /// Target delivery temperature for "hot" draws (e.g. dishwasher) [°C].
    pub hot_draw_temp_c: Double,
    /// Tank setpoint [°C]; decides whether hot draws are blended at all.
    pub setpoint_temp_c: Double,
}

// ---------------------------------------------------------------------------
// Constants
// ---------------------------------------------------------------------------

pub open spec fn spec_pi() -> Double {
    Double { bits: PI_BITS }
}

/// The number nearest to pi.
#[verifier::when_used_as_spec(spec_pi)]
pub fn pi() -> (r: Double)
    ensures
        r == pi(),
{
    Double { bits: PI_BITS }
}

pub open spec fn spec_water_density() -> Double {
    Double::whole(1000)
}

/// The density that the tank's energy balance uses [kg/m³].
#[verifier::when_used_as_spec(spec_water_density)]
pub fn water_density() -> (r: Double)
    ensures
        r == water_density(),
{
    Double::whole(1000)
}

pub open spec fn spec_water_specific_heat() -> Double {
    Double::whole(4183)
}

/// The specific heat that the tank's energy balance uses [J/(kg K)].
#[verifier::when_used_as_spec(spec_water_specific_heat)]
pub fn water_specific_heat() -> (r: Double)
    ensures
        r == water_specific_heat(),
{
    Double::whole(4183)
}

// ---------------------------------------------------------------------------
// Checks
// ---------------------------------------------------------------------------

/// Finite and above zero.
pub open spec fn is_positive(v: Double) -> bool {
    v.is_finite() && v.gt(Double::zero())
}

/// Finite and not below zero.
pub open spec fn is_nonnegative(v: Double) -> bool {
    v.is_finite() && v.ge(Double::zero())
}

pub(crate) fn validate_positive(field: &'static str, index: Option<usize>, value: Double) -> (r:
    Result<()>)
    ensures
        r == (if is_positive(value) {
            Ok::<(), HaresError>(())
        } else {
            Err(HaresError::Equipment(Fault::NotPositive { field, index, value }))
        }),
{
    if !value.is_finite() || value.le(Double::zero()) {
        return Err(HaresError::Equipment(Fault::NotPositive { field, index, value }));
    }
    Ok(())
}

pub(crate) fn validate_nonnegative(field: &'static str, value: Double) -> (r: Result<()>)
    ensures
        r == (if is_nonnegative(value) {
            Ok::<(), HaresError>(())
        } else {
            Err(HaresError::Equipment(Fault::Negative { field, index: None, value }))
        }),
{
    if !value.is_finite() || value.lt(Double::zero()) {
        return Err(HaresError::Equipment(Fault::Negative { field, index: None, value }));
    }
    Ok(())
}

pub(crate) fn validate_finite(field: &'static str, index: Option<usize>, value: Double) -> (r:
    Result<()>)
    ensures
        r == (if value.is_finite() {
            Ok::<(), HaresError>(())
        } else {
            Err(HaresError::Equipment(Fault::NotFinite { field, index }))
        }),
{
    if !value.is_finite() {
        return Err(HaresError::Equipment(Fault::NotFinite { field, index }));
    }
    Ok(())
}

/// Whether each assigned element has a node to sit on, and otherwise the first that
/// has none.
pub open spec fn element_fault(n_nodes: usize, element_nodes: [Option<usize>; 2]) -> Option<Fault> {
    match element_nodes[0] {
        Some(node) if node >= n_nodes => Some(Fault::ElementNode { element: 0, node, n_nodes }),
        _ => match element_nodes[1] {
            Some(node) if node >= n_nodes => Some(
                Fault::ElementNode { element: 1, node, n_nodes },
            ),
            _ => None,
        },
    }
}

fn validate_element_nodes(n_nodes: usize, element_nodes: [Option<usize>; 2]) -> (r: Result<()>)
    ensures
        r == (match element_fault(n_nodes, element_nodes) {
            Some(fault) => Err(HaresError::Equipment(fault)),
            None => Ok::<(), HaresError>(()),
        }),
{
    if let Some(node) = element_nodes[0] {
        if node >= n_nodes {
            return Err(HaresError::Equipment(Fault::ElementNode { element: 0, node, n_nodes }));
        }
    }
    if let Some(node) = element_nodes[1] {
        if node >= n_nodes {
            return Err(HaresError::Equipment(Fault::ElementNode { element: 1, node, n_nodes }));
        }
    }
    Ok(())
}

// ---------------------------------------------------------------------------
// Geometry
// ---------------------------------------------------------------------------

pub open spec fn spec_cylinder_cross_section_area(diameter_m: Double) -> Double {
    let radius = diameter_m.times(Double::ratio(1, 2));
    pi().times(radius.times(radius))
}

#[verifier::when_used_as_spec(spec_cylinder_cross_section_area)]
pub fn cylinder_cross_section_area(diameter_m: Double) -> (r: Double)
    ensures
        r == cylinder_cross_section_area(diameter_m),
{
    let radius: Double = diameter_m.times(Double::ratio(1, 2));
    pi().times(radius.times(radius))
}

pub open spec fn spec_cylinder_volume(height_m: Double, diameter_m: Double) -> Double {
    cylinder_cross_section_area(diameter_m).times(height_m)
}

#[verifier::when_used_as_spec(spec_cylinder_volume)]
pub fn cylinder_volume(height_m: Double, diameter_m: Double) -> (r: Double)
    ensures
        r == cylinder_volume(height_m, diameter_m),
{
    cylinder_cross_section_area(diameter_m).times(height_m)
}

/// The sum of a list, from the left.
pub open spec fn sum(values: Seq<Double>) -> Double
    decreases values.len(),
{
    if values.len() == 0 {
        Double::zero()
    } else {
        sum(values.drop_last()).plus(values.last())
    }
}

/// The boundaries of the nodes, by the volume above them: the partial sums.
pub open spec fn node_edges(volumes: Seq<Double>) -> Seq<Double> {
    Seq::new(volumes.len() + 1, |i: int| sum(volumes.take(i)))
}

fn build_node_edges(volumes: &Vec<Double>) -> (edges: Vec<Double>)
    requires
        volumes@.len() <= MAX_NODES,
    ensures
        edges@ == node_edges(volumes@),
{
    let mut edges: Vec<Double> = Vec::new();
    let mut running: Double = Double::zero();
    edges.push(running);
    let mut i: usize = 0;
    assert(volumes@.take(0) =~= Seq::<Double>::empty());
    while i < volumes.len()
        invariant
            i <= volumes@.len(),
            volumes@.len() <= MAX_NODES,
            running == sum(volumes@.take(i as int)),
            edges@.len() == i + 1,
            forall|j: int| 0 <= j <= i ==> #[trigger] edges@[j] == sum(volumes@.take(j)),
        decreases volumes@.len() - i,
    {
        assert(volumes@.take(i + 1).drop_last() =~= volumes@.take(i as int));
        running = running.plus(volumes[i]);
        edges.push(running);
        i += 1;
    }
    assert(edges@ =~= node_edges(volumes@));
    edges
}

fn sum_of(values: &Vec<Double>) -> (r: Double)
    ensures
        r == sum(values@),
{
    let mut total: Double = Double::zero();
    let mut i: usize = 0;
    assert(values@.take(0) =~= Seq::<Double>::empty());
    while i < values.len()
        invariant
            i <= values@.len(),
            total == sum(values@.take(i as int)),
        decreases values@.len() - i,
    {
        assert(values@.take(i + 1).drop_last() =~= values@.take(i as int));
        total = total.plus(values[i]);
        i += 1;
    }
    assert(values@.take(i as int) =~= values@);
    total
}

pub open spec fn spec_overlap_length(a0: Double, a1: Double, b0: Double, b1: Double) -> Double {
    a1.min(b1).minus(a0.max(b0)).max(Double::zero())
}

/// How much the intervals `a` and `b` share.
#[verifier::when_used_as_spec(spec_overlap_length)]
pub fn overlap_length(a0: Double, a1: Double, b0: Double, b1: Double) -> (r: Double)
    ensures
        r == overlap_length(a0, a1, b0, b1),
{
    a1.min(b1).minus(a0.max(b0)).max(Double::zero())
}

/// The first `n` nodes' share of volume times temperature between `start` and `end`,
/// the node boundaries being moved up by `shift`.
pub open spec fn overlap_energy(
    edges: Seq<Double>,
    temps: Seq<Double>,
    shift: Option<Double>,
    start: Double,
    end: Double,
    n: nat,
) -> Double
    decreases n,
{
    if n == 0 {
        Double::zero()
    } else {
        let above = overlap_energy(edges, temps, shift, start, end, (n - 1) as nat);
        let overlap = overlap_length(
            start,
            end,
            shifted(edges[n - 1], shift),
            shifted(edges[n as int], shift),
        );
        if overlap.gt(Double::zero()) {
            above.plus(overlap.times(temps[n - 1]))
        } else {
            above
        }
    }
}

pub open spec fn spec_shifted(edge: Double, shift: Option<Double>) -> Double {
    match shift {
        Some(by) => edge.minus(by),
        None => edge,
    }
}

/// An edge moved up by `shift`, if any.
#[verifier::when_used_as_spec(spec_shifted)]
pub fn shifted(edge: Double, shift: Option<Double>) -> (r: Double)
    ensures
        r == shifted(edge, shift),
{
    match shift {
        Some(by) => edge.minus(by),
        None => edge,
    }
}

fn overlap_energy_of(
    edges: &Vec<Double>,
    temps: &Vec<Double>,
    shift: Option<Double>,
    start: Double,
    end: Double,
) -> (r: Double)
    requires
        edges@.len() == temps@.len() + 1,
    ensures
        r == overlap_energy(edges@, temps@, shift, start, end, temps@.len()),
{
    let mut energy: Double = Double::zero();
    let mut i: usize = 0;
    while i < temps.len()
        invariant
            i <= temps@.len(),
            edges@.len() == temps@.len() + 1,
            energy == overlap_energy(edges@, temps@, shift, start, end, i as nat),
        decreases temps@.len() - i,
    {
        let overlap: Double = overlap_length(
            start,
            end,
            shifted(edges[i], shift),
            shifted(edges[i + 1], shift),
        );
        if overlap.gt(Double::zero()) {
            energy = energy.plus(overlap.times(temps[i]));
        }
        i += 1;
    }
    energy
}

// ---------------------------------------------------------------------------
// The tank
// ---------------------------------------------------------------------------

/// What a tank is: its geometry, its losses, and the temperatures of its nodes from the
/// top down.
#[verifier::ext_equal]
pub struct TankModel {
    pub height_m: Double,
    pub diameter_m: Double,
    pub ua_w_per_k: Double,
    pub conductivity_w_m_k: Double,
    pub node_volumes_m3: Seq<Double>,
    pub node_temps_c: Seq<Double>,
    pub node_edges_m3: Seq<Double>,
    pub total_volume_m3: Double,
    pub cross_section_area_m2: Double,
    pub node_height_m: Double,
    pub element_nodes: [Option<usize>; 2],
    pub ua_per_node: Seq<Double>,
}

impl StratifiedTankConfig {
    /// The volumes of the nodes: as given, or even shares of the cylinder, but for two
    /// nodes a third above and two thirds below.
    pub open spec fn volumes(&self) -> Seq<Double> {
        match self.node_volumes_m3 {
            Some(volumes) => volumes@,
            None => {
                let total = cylinder_volume(self.height_m, self.diameter_m);
                if self.n_nodes == 2 {
                    seq![
                        total.over(Double::whole(3)),
                        Double::whole(2).times(total).over(Double::whole(3)),
                    ]
                } else {
                    Seq::new(
                        self.n_nodes as nat,
                        |i: int| total.over(Double::whole(self.n_nodes as u64)),
                    )
                }
            },
        }
    }

    pub open spec fn end_cap(&self) -> Double {
        match self.ua_end_cap_w_per_k {
            Some(ua) => ua,
            None => self.ua_w_per_k.times(Double::ratio(1, 10)),
        }
    }

    /// The loss coefficient of a node: its share by volume, and the end cap on the first
    /// node and on the last.
    pub open spec fn node_ua(&self, i: int) -> Double {
        let share = self.ua_w_per_k.times(self.volumes()[i]).over(sum(self.volumes()));
        if i == 0 || i == self.n_nodes - 1 {
            share.plus(self.end_cap())
        } else {
            share
        }
    }

    pub open spec fn node_height(&self) -> Double {
        self.height_m.over(Double::whole(self.n_nodes as u64))
    }

    /// The first reason for which no tank can be built, if there is one.
    pub open spec fn fault(&self) -> Option<Fault> {
        let n = self.n_nodes;
        let area = cylinder_cross_section_area(self.diameter_m);
        if !(MIN_NODES <= n <= MAX_NODES) {
            Some(Fault::NodeCount { n_nodes: n })
        } else if !is_positive(self.height_m) {
            Some(Fault::NotPositive { field: "height_m", index: None, value: self.height_m })
        } else if !is_positive(self.diameter_m) {
            Some(Fault::NotPositive { field: "diameter_m", index: None, value: self.diameter_m })
        } else if !is_nonnegative(self.ua_w_per_k) {
            Some(Fault::Negative { field: "ua_w_per_k", index: None, value: self.ua_w_per_k })
        } else if !is_nonnegative(self.conductivity_w_m_k) {
            Some(
                Fault::Negative {
                    field: "conductivity_w_m_k",
                    index: None,
                    value: self.conductivity_w_m_k,
                },
            )
        } else if !self.initial_temp_c.is_finite() {
            Some(Fault::NotFinite { field: "initial_temp_c", index: None })
        } else if element_fault(n, self.element_nodes) is Some {
            element_fault(n, self.element_nodes)
        } else if self.node_volumes_m3 is Some && self.node_volumes_m3->0@.len() != n {
            Some(Fault::VolumeCount { len: self.node_volumes_m3->0@.len() as usize, n_nodes: n })
        } else if self.node_volumes_m3 is Some && volume_fault(self.node_volumes_m3->0@, 0) is Some {
            volume_fault(self.node_volumes_m3->0@, 0)
        } else if !is_positive(sum(self.volumes())) {
            Some(
                Fault::NotPositive {
                    field: "total_volume_m3",
                    index: None,
                    value: sum(self.volumes()),
                },
            )
        } else if !is_positive(area) {
            Some(Fault::NotPositive { field: "cross_section_area_m2", index: None, value: area })
        } else if !is_positive(self.node_height()) {
            Some(
                Fault::NotPositive {
                    field: "node_height_m",
                    index: None,
                    value: self.node_height(),
                },
            )
        } else {
            None
        }
    }

    /// The tank that this configuration describes.
    pub open spec fn model(&self) -> TankModel {
        TankModel {
            height_m: self.height_m,
            diameter_m: self.diameter_m,
            ua_w_per_k: self.ua_w_per_k,
            conductivity_w_m_k: self.conductivity_w_m_k,
            node_volumes_m3: self.volumes(),
            node_temps_c: Seq::new(self.n_nodes as nat, |i: int| self.initial_temp_c),
            node_edges_m3: node_edges(self.volumes()),
            total_volume_m3: sum(self.volumes()),
            cross_section_area_m2: cylinder_cross_section_area(self.diameter_m),
            node_height_m: self.node_height(),
            element_nodes: self.element_nodes,
            ua_per_node: Seq::new(self.n_nodes as nat, |i: int| self.node_ua(i)),
        }
    }
}

/// The first volume from `from` on that is not positive.
pub open spec fn volume_fault(volumes: Seq<Double>, from: int) -> Option<Fault>
    decreases volumes.len() - from,
{
    if !(0 <= from < volumes.len()) {
        None
    } else if is_positive(volumes[from]) {
        volume_fault(volumes, from + 1)
    } else {
        Some(
            Fault::NotPositive {
                field: "node_volumes_m3",
                index: Some(from as usize),
                value: volumes[from],
            },
        )
    }
}

/// The first temperature from `from` on that is not finite.
pub open spec fn temp_fault(temps: Seq<Double>, from: int) -> Option<Fault>
    decreases temps.len() - from,
{
    if !(0 <= from < temps.len()) {
        None
    } else if temps[from].is_finite() {
        temp_fault(temps, from + 1)
    } else {
        Some(Fault::NotFinite { field: "node_temps_c", index: Some(from as usize) })
    }
}

/// Whether a tank takes over saved temperatures: there must be as many as nodes, and each
/// must be finite.
pub open spec fn load_outcome(tank: TankModel, temps: Seq<Double>) -> Result<()> {
    if temps.len() != tank.n() {
        Err(
            HaresError::Equipment(
                Fault::StateNodeCount { len: temps.len() as usize, n_nodes: tank.n() as usize },
            ),
        )
    } else {
        match temp_fault(temps, 0) {
            Some(fault) => Err(HaresError::Equipment(fault)),
            None => Ok(()),
        }
    }
}

impl TankModel {
    /// Between one and twelve nodes, each with a volume, a temperature, two edges and a
    /// loss coefficient; elements sit on existing nodes.
    pub open spec fn wf(&self) -> bool {
        &&& MIN_NODES <= self.n() <= MAX_NODES
        &&& self.node_volumes_m3.len() == self.n()
        &&& self.node_edges_m3.len() == self.n() + 1
        &&& self.ua_per_node.len() == self.n()
        &&& element_fault(self.n() as usize, self.element_nodes) is None
        &&& is_positive(self.total_volume_m3)
    }

    pub open spec fn n(&self) -> nat {
        self.node_temps_c.len()
    }

    pub open spec fn with_temps(self, node_temps_c: Seq<Double>) -> TankModel {
        TankModel { node_temps_c, ..self }
    }

    /// Everything but the temperatures is as in `other`.
    pub open spec fn same_shape(self, other: TankModel) -> bool {
        self == other.with_temps(self.node_temps_c)
    }

    /// The heat [J] that flows into node `i` from the node below it.
    pub open spec fn transfer(&self, i: int, seconds: Double) -> Double {
        self.conductivity_w_m_k.times(self.cross_section_area_m2).over(self.node_height_m).times(
            self.node_temps_c[i + 1].minus(self.node_temps_c[i]),
        ).times(seconds)
    }

    /// The heat [J] that node `i` gains by conduction, less what it loses to the
    /// surroundings.
    pub open spec fn gain(&self, i: int, ambient_temp_c: Double, seconds: Double) -> Double {
        let given = if i > 0 {
            Double::zero().minus(self.transfer(i - 1, seconds))
        } else {
            Double::zero()
        };
        let kept = if i < self.n() - 1 {
            given.plus(self.transfer(i, seconds))
        } else {
            given
        };
        let loss_w = self.ua_per_node[i].times(self.node_temps_c[i].minus(ambient_temp_c));
        kept.minus(loss_w.times(seconds))
    }

    /// The tank after conduction and standby losses.
    pub open spec fn conducted(self, ambient_temp_c: Double, seconds: Double) -> TankModel {
        if seconds.same(Double::zero()) {
            self
        } else {
            self.with_temps(
                Seq::new(
                    self.n(),
                    |i: int|
                        self.node_temps_c[i].plus(
                            self.gain(i, ambient_temp_c, seconds).over(
                                water_density().times(self.node_volumes_m3[i]).times(
                                    water_specific_heat(),
                                ),
                            ),
                        ),
                ),
            )
        }
    }

    /// The warming of node `node` by `power_w` over `seconds`.
    pub open spec fn warming(&self, node: int, power_w: Double, seconds: Double) -> Double {
        power_w.times(seconds).over(
            water_density().times(self.node_volumes_m3[node]).times(water_specific_heat()),
        )
    }

    /// The tank after the injections from `from` on, in order, and the fault that cut
    /// them short, if one did. Injections of no power are passed over unchecked.
    pub open spec fn injected(
        self,
        injections: Seq<(usize, Double)>,
        seconds: Double,
        from: int,
    ) -> (TankModel, Option<Fault>)
        decreases injections.len() - from,
    {
        if !(0 <= from < injections.len()) {
            (self, None)
        } else {
            let (node, power_w) = injections[from];
            if power_w.same(Double::zero()) {
                self.injected(injections, seconds, from + 1)
            } else if !power_w.is_finite() {
                (self, Some(Fault::NotFinite { field: "heat_injection_power_w", index: None }))
            } else if node >= self.n() {
                (self, Some(Fault::NodeIndex { node, n_nodes: self.n() as usize }))
            } else {
                self.with_temps(
                    self.node_temps_c.update(
                        node as int,
                        self.node_temps_c[node as int].plus(
                            self.warming(node as int, power_w, seconds),
                        ),
                    ),
                ).injected(injections, seconds, from + 1)
            }
        }
    }

    /// The tank after all injections; in no time nothing is injected.
    pub open spec fn heated(self, injections: Seq<(usize, Double)>, seconds: Double) -> (
        TankModel,
        Option<Fault>,
    ) {
        if seconds.same(Double::zero()) {
            (self, None)
        } else {
            self.injected(injections, seconds, 0)
        }
    }

    /// The temperature of node `i` after a draw: the water moves up by the volume drawn,
    /// and mains water fills the bottom.
    pub open spec fn displaced_temp(
        &self,
        i: int,
        draw_volume_m3: Double,
        mains_temp_c: Double,
    ) -> Double {
        let start = self.node_edges_m3[i];
        let end = self.node_edges_m3[i + 1];
        let moved = overlap_energy(
            self.node_edges_m3,
            self.node_temps_c,
            Some(draw_volume_m3),
            start,
            end,
            self.n(),
        );
        let mains = overlap_length(
            start,
            end,
            self.total_volume_m3.minus(draw_volume_m3),
            self.total_volume_m3,
        );
        let total = if mains.gt(Double::zero()) {
            moved.plus(mains.times(mains_temp_c))
        } else {
            moved
        };
        total.over(self.node_volumes_m3[i])
    }

    /// The tank after a draw.
    pub open spec fn drawn(self, draw_volume_m3: Double, mains_temp_c: Double) -> TankModel {
        if draw_volume_m3.same(Double::zero()) {
            self
        } else {
            self.with_temps(
                Seq::new(self.n(), |i: int| self.displaced_temp(i, draw_volume_m3, mains_temp_c)),
            )
        }
    }

    /// The summary of a draw that leaves at `outlet_temp_c`, its energy being that of the
    /// water that was on top before the step's heating.
    pub open spec fn draw_summary(
        &self,
        draw_volume_m3: Double,
        mains_temp_c: Double,
        outlet_temp_c: Double,
        unmet_load_w: Double,
    ) -> DrawResult {
        let heat = water_density().times(water_specific_heat());
        if draw_volume_m3.same(Double::zero()) {
            DrawResult {
                outlet_temp_c,
                energy_out_j: Double::zero(),
                energy_in_j: Double::zero(),
                unmet_load_w,
            }
        } else {
            DrawResult {
                outlet_temp_c,
                energy_out_j: heat.times(
                    overlap_energy(
                        self.node_edges_m3,
                        self.node_temps_c,
                        None,
                        Double::zero(),
                        draw_volume_m3,
                        self.n(),
                    ).over(draw_volume_m3.minus(Double::zero())),
                ).times(draw_volume_m3),
                energy_in_j: heat.times(mains_temp_c).times(draw_volume_m3),
                unmet_load_w,
            }
        }
    }

    /// The tank after its inversions have mixed.
    pub open spec fn settled(self) -> TankModel {
        self.with_temps(crate::mixing::mixed(self.node_temps_c, self.node_volumes_m3))
    }

    /// One step with a given draw: conduction and losses, heat injection, draw, mixing.
    /// A fault in the injections leaves the tank as it was when it was found.
    pub open spec fn advanced(
        self,
        ambient_temp_c: Double,
        draw_volume_m3: Double,
        mains_temp_c: Double,
        injections: Seq<(usize, Double)>,
        unmet_load_w: Double,
        seconds: Double,
    ) -> (TankModel, Result<DrawResult>) {
        let conducted = self.conducted(ambient_temp_c, seconds);
        let (heated, fault) = conducted.heated(injections, seconds);
        match fault {
            Some(fault) => (heated, Err(HaresError::Equipment(fault))),
            None => (
                heated.drawn(draw_volume_m3, mains_temp_c).settled(),
                Ok(
                    conducted.draw_summary(
                        draw_volume_m3,
                        mains_temp_c,
                        self.node_temps_c[0],
                        unmet_load_w,
                    ),
                ),
            ),
        }
    }
}

/// A stratified tank.
#[derive(Debug)]
pub struct StratifiedTank {
    height_m: Double,
    diameter_m: Double,
    ua_w_per_k: Double,
    conductivity_w_m_k: Double,
    node_volumes_m3: Vec<Double>,
    node_temps_c: Vec<Double>,
    node_edges_m3: Vec<Double>,
    total_volume_m3: Double,
    cross_section_area_m2: Double,
    node_height_m: Double,
    element_nodes: [Option<usize>; 2],
    /// Per-node UA (W/K). Boundary nodes include the end-cap contribution.
    ua_per_node: Vec<Double>,
}

/// What a tank saves: the temperatures of its nodes.
#[derive(Debug)]
pub struct StratifiedTankState {
    pub node_temps_c: Vec<Double>,
}

impl View for StratifiedTank {
    type V = TankModel;

    closed spec fn view(&self) -> TankModel {
        TankModel {
            height_m: self.height_m,
            diameter_m: self.diameter_m,
            ua_w_per_k: self.ua_w_per_k,
            conductivity_w_m_k: self.conductivity_w_m_k,
            node_volumes_m3: self.node_volumes_m3@,
            node_temps_c: self.node_temps_c@,
            node_edges_m3: self.node_edges_m3@,
            total_volume_m3: self.total_volume_m3,
            cross_section_area_m2: self.cross_section_area_m2,
            node_height_m: self.node_height_m,
            element_nodes: self.element_nodes,
            ua_per_node: self.ua_per_node@,
        }
    }
}

fn filled(value: Double, n: usize) -> (v: Vec<Double>)
    ensures
        v@ == Seq::new(n as nat, |i: int| value),
{
    let mut v: Vec<Double> = Vec::new();
    while v.len() < n
        invariant
            v@.len() <= n,
            v@ == Seq::new(v@.len(), |i: int| value),
        decreases n - v@.len(),
    {
        v.push(value);
        assert(v@ =~= Seq::new(v@.len(), |i: int| value));
    }
    v
}

/// A copy of a list of numbers.
pub fn copied(values: &Vec<Double>) -> (v: Vec<Double>)
    ensures
        v@ == values@,
{
    let mut v: Vec<Double> = Vec::new();
    while v.len() < values.len()
        invariant
            v@.len() <= values@.len(),
            v@ == values@.take(v@.len() as int),
        decreases values@.len() - v@.len(),
    {
        let next: Double = values[v.len()];
        v.push(next);
        assert(v@ =~= values@.take(v@.len() as int));
    }
    assert(v@ =~= values@);
    v
}

fn first_volume_fault(volumes: &Vec<Double>) -> (r: Result<()>)
    ensures
        r == (match volume_fault(volumes@, 0) {
            Some(fault) => Err(HaresError::Equipment(fault)),
            None => Ok::<(), HaresError>(()),
        }),
{
    let mut i: usize = 0;
    while i < volumes.len()
        invariant
            i <= volumes@.len(),
            volume_fault(volumes@, 0) == volume_fault(volumes@, i as int),
        decreases volumes@.len() - i,
    {
        match validate_positive("node_volumes_m3", Some(i), volumes[i]) {
            Ok(_) => {},
            Err(error) => {
                return Err(error);
            },
        }
        i += 1;
    }
    Ok(())
}

fn first_temp_fault(temps: &Vec<Double>) -> (r: Result<()>)
    ensures
        r == (match temp_fault(temps@, 0) {
            Some(fault) => Err(HaresError::Equipment(fault)),
            None => Ok::<(), HaresError>(()),
        }),
{
    let mut i: usize = 0;
    while i < temps.len()
        invariant
            i <= temps@.len(),
            temp_fault(temps@, 0) == temp_fault(temps@, i as int),
        decreases temps@.len() - i,
    {
        match validate_finite("node_temps_c", Some(i), temps[i]) {
            Ok(_) => {},
            Err(error) => {
                return Err(error);
            },
        }
        i += 1;
    }
    Ok(())
}

impl StratifiedTank {
    /// Build the tank that `config` describes.
    #[verifier::rlimit(40)]
    pub fn new(config: StratifiedTankConfig) -> (r: Result<StratifiedTank>)
        ensures
            match r {
                Ok(tank) => config.fault() is None && tank@ == config.model() && tank@.wf(),
                Err(error) => config.fault() is Some && error == HaresError::Equipment(
                    config.fault()->0,
                ),
            },
    {
        let n: usize = config.n_nodes;
        if n < MIN_NODES || n > MAX_NODES {
            return Err(HaresError::Equipment(Fault::NodeCount { n_nodes: n }));
        }
        validate_positive("height_m", None, config.height_m)?;
        validate_positive("diameter_m", None, config.diameter_m)?;
        validate_nonnegative("ua_w_per_k", config.ua_w_per_k)?;
        validate_nonnegative("conductivity_w_m_k", config.conductivity_w_m_k)?;
        validate_finite("initial_temp_c", None, config.initial_temp_c)?;
        validate_element_nodes(n, config.element_nodes)?;
        let node_volumes_m3: Vec<Double> = match &config.node_volumes_m3 {
            Some(volumes) => {
                if volumes.len() != n {
                    return Err(
                        HaresError::Equipment(Fault::VolumeCount { len: volumes.len(), n_nodes: n }),
                    );
                }
                first_volume_fault(volumes)?;
                copied(volumes)
            },
            None => {
                let total: Double = cylinder_volume(config.height_m, config.diameter_m);
                if n == 2 {
                    let mut volumes: Vec<Double> = Vec::new();
                    volumes.push(total.over(Double::whole(3)));
                    volumes.push(Double::whole(2).times(total).over(Double::whole(3)));
                    volumes
                } else {
                    filled(total.over(Double::whole(n as u64)), n)
                }
            },
        };
        assert(node_volumes_m3@ =~= config.volumes());
        let total_volume_m3: Double = sum_of(&node_volumes_m3);
        validate_positive("total_volume_m3", None, total_volume_m3)?;
        let node_edges_m3: Vec<Double> = build_node_edges(&node_volumes_m3);
        let cross_section_area_m2: Double = cylinder_cross_section_area(config.diameter_m);
        validate_positive("cross_section_area_m2", None, cross_section_area_m2)?;
        let node_height_m: Double = config.height_m.over(Double::whole(n as u64));
        validate_positive("node_height_m", None, node_height_m)?;
        let ua_end: Double = match config.ua_end_cap_w_per_k {
            Some(ua) => ua,
            None => config.ua_w_per_k.times(Double::ratio(1, 10)),
        };
        let mut ua_per_node: Vec<Double> = Vec::new();
        let mut i: usize = 0;
        while i < n
            invariant
                i <= n,
                n == config.n_nodes,
                node_volumes_m3@ == config.volumes(),
                node_volumes_m3@.len() == n,
                total_volume_m3 == sum(config.volumes()),
                ua_end == config.end_cap(),
                ua_per_node@.len() == i,
                forall|j: int| 0 <= j < i ==> #[trigger] ua_per_node@[j] == config.node_ua(j),
            decreases n - i,
        {
            let share: Double = config.ua_w_per_k.times(node_volumes_m3[i]).over(total_volume_m3);
            if i == 0 || i == n - 1 {
                ua_per_node.push(share.plus(ua_end));
            } else {
                ua_per_node.push(share);
            }
            i += 1;
        }
        let tank = StratifiedTank {
            height_m: config.height_m,
            diameter_m: config.diameter_m,
            ua_w_per_k: config.ua_w_per_k,
            conductivity_w_m_k: config.conductivity_w_m_k,
            node_temps_c: filled(config.initial_temp_c, n),
            node_volumes_m3,
            node_edges_m3,
            total_volume_m3,
            cross_section_area_m2,
            node_height_m,
            element_nodes: config.element_nodes,
            ua_per_node,
        };
        assert(tank@ =~= config.model());
        Ok(tank)
    }

    pub fn n_nodes(&self) -> (n: usize)
        ensures
            n == self@.n(),
    {
        self.node_temps_c.len()
    }

    pub fn height_m(&self) -> (r: Double)
        ensures
            r == self@.height_m,
    {
        self.height_m
    }

    pub fn diameter_m(&self) -> (r: Double)
        ensures
            r == self@.diameter_m,
    {
        self.diameter_m
    }

    pub fn ua_w_per_k(&self) -> (r: Double)
        ensures
            r == self@.ua_w_per_k,
    {
        self.ua_w_per_k
    }

    pub fn element_nodes(&self) -> (r: [Option<usize>; 2])
        ensures
            r == self@.element_nodes,
    {
        self.element_nodes
    }

    pub fn ua_per_node(&self) -> (r: &[Double])
        ensures
            r@ == self@.ua_per_node,
    {
        self.ua_per_node.as_slice()
    }

    pub fn node_temps(&self) -> (r: &[Double])
        ensures
            r@ == self@.node_temps_c,
    {
        self.node_temps_c.as_slice()
    }

    /// The temperatures of the nodes, to be changed in place.
    pub fn node_temps_mut(&mut self) -> (r: &mut [Double])
        ensures
            r@ == old(self)@.node_temps_c,
            final(self)@ == old(self)@.with_temps(final(r)@),
    {
        self.node_temps_c.as_mut_slice()
    }

    pub fn node_volumes_m3(&self) -> (r: &[Double])
        ensures
            r@ == self@.node_volumes_m3,
    {
        self.node_volumes_m3.as_slice()
    }

    pub fn total_volume_m3(&self) -> (r: Double)
        ensures
            r == self@.total_volume_m3,
    {
        self.total_volume_m3
    }

    /// Directly heat a single node.
    pub fn heat_node(&mut self, node: usize, power_w: Double, dt: Duration) -> (r: Result<()>)
        requires
            old(self)@.wf(),
        ensures
            final(self)@.wf(),
            final(self)@.n() == old(self)@.n(),
            final(self)@.same_shape(old(self)@),
            !power_w.is_finite() ==> r == Err::<(), HaresError>(
                HaresError::Equipment(Fault::NotFinite { field: "power_w", index: None }),
            ) && final(self)@ == old(self)@,
            power_w.is_finite() && node >= old(self)@.n() ==> r == Err::<(), HaresError>(
                HaresError::Equipment(
                    Fault::NodeIndex { node, n_nodes: old(self)@.n() as usize },
                ),
            ) && final(self)@ == old(self)@,
            power_w.is_finite() && node < old(self)@.n() ==> r == Ok::<(), HaresError>(())
                && final(self)@ == old(self)@.with_temps(
                old(self)@.node_temps_c.update(
                    node as int,
                    old(self)@.node_temps_c[node as int].plus(
                        old(self)@.warming(node as int, power_w, dt.as_secs()),
                    ),
                ),
            ),
    {
        validate_finite("power_w", None, power_w)?;
        let seconds: Double = dt.as_secs();
        let volume_m3: Double = self.node_volume(node)?;
        let delta_t_c: Double = power_w.times(seconds).over(
            water_density().times(volume_m3).times(water_specific_heat()),
        );
        let new_temp: Double = self.node_temps_c[node].plus(delta_t_c);
        self.node_temps_c.set(node, new_temp);
        Ok(())
    }

    fn node_volume(&self, node: usize) -> (r: Result<Double>)
        requires
            self@.wf(),
        ensures
            r == (if node < self@.n() {
                Ok::<Double, HaresError>(self@.node_volumes_m3[node as int])
            } else {
                Err(
                    HaresError::Equipment(Fault::NodeIndex { node, n_nodes: self@.n() as usize }),
                )
            }),
    {
        if node < self.node_volumes_m3.len() {
            Ok(self.node_volumes_m3[node])
        } else {
            Err(HaresError::Equipment(Fault::NodeIndex { node, n_nodes: self.n_nodes() }))
        }
    }

    /// Mix layers that lie colder above warmer; gives the number of merges.
    pub fn mix_inversions(&mut self) -> (merges: usize)
        requires
            old(self)@.wf(),
        ensures
            final(self)@.wf(),
            final(self)@.n() == old(self)@.n(),
            final(self)@.same_shape(old(self)@),
            final(self)@ == old(self)@.settled(),
            crate::mixing::non_increasing(final(self)@.node_temps_c),
            merges == crate::mixing::merges(
                old(self)@.node_temps_c,
                old(self)@.node_volumes_m3,
            ),
    {
        proof {
            crate::mixing::mixing_removes_inversions(
                self@.node_temps_c,
                self@.node_volumes_m3,
            );
        }
        let (temps, merges) = crate::mixing::mix(&self.node_temps_c, &self.node_volumes_m3);
        self.node_temps_c = temps;
        merges
    }

    pub fn save_state(&self) -> (state: StratifiedTankState)
        ensures
            state.node_temps_c@ == self@.node_temps_c,
    {
        StratifiedTankState { node_temps_c: copied(&self.node_temps_c) }
    }

    /// Take over saved temperatures, if there is a finite one for each node.
    pub fn load_state(&mut self, state: StratifiedTankState) -> (r: Result<()>)
        requires
            old(self)@.wf(),
        ensures
            final(self)@.wf(),
            final(self)@.n() == old(self)@.n(),
            final(self)@.same_shape(old(self)@),
            r == load_outcome(old(self)@, state.node_temps_c@),
            r is Ok ==> final(self)@ == old(self)@.with_temps(state.node_temps_c@),
            r is Err ==> final(self)@ == old(self)@,
    {
        if state.node_temps_c.len() != self.n_nodes() {
            return Err(
                HaresError::Equipment(
                    Fault::StateNodeCount { len: state.node_temps_c.len(), n_nodes: self.n_nodes() },
                ),
            );
        }
        first_temp_fault(&state.node_temps_c)?;
        self.node_temps_c = state.node_temps_c;
        Ok(())
    }

    fn apply_conduction_and_standby(&mut self, ambient_temp_c: Double, seconds: Double)
        requires
            old(self)@.wf(),
        ensures
            final(self)@.wf(),
            final(self)@.n() == old(self)@.n(),
            final(self)@.same_shape(old(self)@),
            final(self)@ == old(self)@.conducted(ambient_temp_c, seconds),
    {
        if seconds.same(Double::zero()) {
            return;
        }
        let n: usize = self.n_nodes();
        let ghost model = self@;
        let conduction_w_per_k: Double = self.conductivity_w_m_k.times(
            self.cross_section_area_m2,
        ).over(self.node_height_m);
        // The transfer into each node from the one below it.
        let mut transfers: Vec<Double> = Vec::new();
        let mut t: usize = 0;
        while t + 1 < n
            invariant
                t < n,
                n <= MAX_NODES,
                model == self@,
                self@.wf(),
                n == self@.n(),
                conduction_w_per_k == model.conductivity_w_m_k.times(
                    model.cross_section_area_m2,
                ).over(model.node_height_m),
                transfers@.len() == t,
                forall|j: int| 0 <= j < t ==> #[trigger] transfers@[j] == model.transfer(j, seconds),
            decreases n - t,
        {
            let heat_flow_w: Double = conduction_w_per_k.times(
                self.node_temps_c[t + 1].minus(self.node_temps_c[t]),
            );
            transfers.push(heat_flow_w.times(seconds));
            t += 1;
        }
        let mut temps: Vec<Double> = Vec::new();
        let mut i: usize = 0;
        while i < n
            invariant
                i <= n,
                n <= MAX_NODES,
                model == self@,
                self@.wf(),
                n == self@.n(),
                transfers@.len() == n - 1,
                forall|j: int|
                    0 <= j < n - 1 ==> #[trigger] transfers@[j] == model.transfer(j, seconds),
                !seconds.same(Double::zero()),
                temps@.len() == i,
                forall|j: int|
                    0 <= j < i ==> #[trigger] temps@[j] == model.conducted(
                        ambient_temp_c,
                        seconds,
                    ).node_temps_c[j],
            decreases n - i,
        {
            let given: Double = if i > 0 {
                Double::zero().minus(transfers[i - 1])
            } else {
                Double::zero()
            };
            let kept: Double = if i < n - 1 {
                given.plus(transfers[i])
            } else {
                given
            };
            let loss_w: Double = self.ua_per_node[i].times(
                self.node_temps_c[i].minus(ambient_temp_c),
            );
            let gain: Double = kept.minus(loss_w.times(seconds));
            let thermal_mass_j_per_k: Double = water_density().times(self.node_volumes_m3[i]).times(
                water_specific_heat(),
            );
            temps.push(self.node_temps_c[i].plus(gain.over(thermal_mass_j_per_k)));
            i += 1;
        }
        self.node_temps_c = temps;
        assert(self@.node_temps_c =~= model.conducted(ambient_temp_c, seconds).node_temps_c);
    }

    fn apply_heat_injections(&mut self, injections: &[(usize, Double)], seconds: Double) -> (r:
        Result<()>)
        requires
            old(self)@.wf(),
        ensures
            final(self)@.wf(),
            final(self)@.n() == old(self)@.n(),
            final(self)@.same_shape(old(self)@),
            final(self)@ == old(self)@.heated(injections@, seconds).0,
            r == (match old(self)@.heated(injections@, seconds).1 {
                Some(fault) => Err(HaresError::Equipment(fault)),
                None => Ok::<(), HaresError>(()),
            }),
    {
        if seconds.same(Double::zero()) {
            return Ok(());
        }
        let ghost outcome = self@.injected(injections@, seconds, 0);
        let mut i: usize = 0;
        while i < injections.len()
            invariant
                i <= injections@.len(),
                self@.wf(),
                self@.n() == old(self)@.n(),
                self@.same_shape(old(self)@),
                !seconds.same(Double::zero()),
                outcome == old(self)@.injected(injections@, seconds, 0),
                outcome == self@.injected(injections@, seconds, i as int),
            decreases injections@.len() - i,
        {
            let (node, power_w) = injections[i];
            if !power_w.same(Double::zero()) {
                validate_finite("heat_injection_power_w", None, power_w)?;
                let volume_m3: Double = self.node_volume(node)?;
                let delta_t_c: Double = power_w.times(seconds).over(
                    water_density().times(volume_m3).times(water_specific_heat()),
                );
                let new_temp: Double = self.node_temps_c[node].plus(delta_t_c);
                let ghost before = self@;
                self.node_temps_c.set(node, new_temp);
                assert(self@ =~= before.with_temps(
                    before.node_temps_c.update(
                        node as int,
                        before.node_temps_c[node as int].plus(
                            before.warming(node as int, power_w, seconds),
                        ),
                    ),
                ));
            }
            i += 1;
        }
        Ok(())
    }

    /// Displace the water by a draw.
    fn apply_draw(&mut self, draw_volume_m3: Double, mains_temp_c: Double)
        requires
            old(self)@.wf(),
        ensures
            final(self)@.wf(),
            final(self)@.n() == old(self)@.n(),
            final(self)@.same_shape(old(self)@),
            final(self)@ == old(self)@.drawn(draw_volume_m3, mains_temp_c),
    {
        if draw_volume_m3.same(Double::zero()) {
            return;
        }
        let ghost model = self@;
        let n: usize = self.n_nodes();
        let mains_start_m3: Double = self.total_volume_m3.minus(draw_volume_m3);
        let mut temps: Vec<Double> = Vec::new();
        let mut i: usize = 0;
        while i < n
            invariant
                i <= n,
                n <= MAX_NODES,
                model == self@,
                self@.wf(),
                n == self@.n(),
                mains_start_m3 == model.total_volume_m3.minus(draw_volume_m3),
                temps@.len() == i,
                forall|j: int|
                    0 <= j < i ==> #[trigger] temps@[j] == model.displaced_temp(
                        j,
                        draw_volume_m3,
                        mains_temp_c,
                    ),
            decreases n - i,
        {
            let start: Double = self.node_edges_m3[i];
            let end: Double = self.node_edges_m3[i + 1];
            let moved: Double = overlap_energy_of(
                &self.node_edges_m3,
                &self.node_temps_c,
                Some(draw_volume_m3),
                start,
                end,
            );
            let mains: Double = overlap_length(start, end, mains_start_m3, self.total_volume_m3);
            let total: Double = if mains.gt(Double::zero()) {
                moved.plus(mains.times(mains_temp_c))
            } else {
                moved
            };
            temps.push(total.over(self.node_volumes_m3[i]));
            i += 1;
        }
        self.node_temps_c = temps;
        assert(self@ =~= model.drawn(draw_volume_m3, mains_temp_c));
    }

    /// The energies of a draw, from the temperatures before the step's heating.
    fn summarize_draw(
        &self,
        draw_volume_m3: Double,
        mains_temp_c: Double,
        outlet_temp_c: Double,
        unmet_load_w: Double,
    ) -> (r: DrawResult)
        requires
            self@.wf(),
        ensures
            r == self@.draw_summary(draw_volume_m3, mains_temp_c, outlet_temp_c, unmet_load_w),
    {
        if draw_volume_m3.same(Double::zero()) {
            return DrawResult {
                outlet_temp_c,
                energy_out_j: Double::zero(),
                energy_in_j: Double::zero(),
                unmet_load_w,
            };
        }
        let heat: Double = water_density().times(water_specific_heat());
        let drawn: Double = overlap_energy_of(
            &self.node_edges_m3,
            &self.node_temps_c,
            None,
            Double::zero(),
            draw_volume_m3,
        );
        DrawResult {
            outlet_temp_c,
            energy_out_j: heat.times(drawn.over(draw_volume_m3.minus(Double::zero()))).times(
                draw_volume_m3,
            ),
            energy_in_j: heat.times(mains_temp_c).times(draw_volume_m3),
            unmet_load_w,
        }
    }

    /// One step with a draw that fits the tank.
    fn advance(
        &mut self,
        ambient_temp_c: Double,
        draw_volume_m3: Double,
        mains_temp_c: Double,
        heat_injections: &[(usize, Double)],
        unmet_load_w: Double,
        seconds: Double,
    ) -> (r: Result<DrawResult>)
        requires
            old(self)@.wf(),
        ensures
            final(self)@.wf(),
            final(self)@.n() == old(self)@.n(),
            final(self)@.same_shape(old(self)@),
            (final(self)@, r) == old(self)@.advanced(
                ambient_temp_c,
                draw_volume_m3,
                mains_temp_c,
                heat_injections@,
                unmet_load_w,
                seconds,
            ),
    {
        let outlet_temp_c: Double = self.node_temps_c[0];
        self.apply_conduction_and_standby(ambient_temp_c, seconds);
        let summary: DrawResult = self.summarize_draw(
            draw_volume_m3,
            mains_temp_c,
            outlet_temp_c,
            unmet_load_w,
        );
        self.apply_heat_injections(heat_injections, seconds)?;
        self.apply_draw(draw_volume_m3, mains_temp_c);
        self.mix_inversions();
        Ok(summary)
    }

    /// Advance the tank by one time step with a raw (untempered) draw volume.
    ///
    /// `heat_injections` lists `(node_index, power_w)` pairs: element or condenser heat
    /// during this step. The outlet temperature is that of the top node before the step.
    pub fn step(
        &mut self,
        ambient_temp_c: Double,
        draw_volume_m3: Double,
        mains_temp_c: Double,
        heat_injections: &[(usize, Double)],
        dt: Duration,
    ) -> (r: Result<DrawResult>)
        requires
            old(self)@.wf(),
        ensures
            final(self)@.wf(),
            final(self)@.n() == old(self)@.n(),
            final(self)@.same_shape(old(self)@),
            (final(self)@, r) == old(self)@.stepped(
                ambient_temp_c,
                draw_volume_m3,
                mains_temp_c,
                heat_injections@,
                dt.as_secs(),
            ),
    {
        validate_finite("ambient_temp_c", None, ambient_temp_c)?;
        validate_finite("mains_temp_c", None, mains_temp_c)?;
        validate_nonnegative("draw_volume_m3", draw_volume_m3)?;
        if draw_volume_m3.gt(self.total_volume_m3) {
            return Err(
                HaresError::Equipment(
                    Fault::DrawExceedsTank {
                        draw_volume_m3,
                        total_volume_m3: self.total_volume_m3,
                    },
                ),
            );
        }
        self.advance(
            ambient_temp_c,
            draw_volume_m3,
            mains_temp_c,
            heat_injections,
            Double::zero(),
            dt.as_secs(),
        )
    }

    /// Advance the tank by one time step with a draw through a mixing valve.
    ///
    /// `tempered_flow_m3_s` is the flow that the fixtures ask for at
    /// `tmv.tempered_draw_temp_c`, `hot_flow_m3_s` the flow asked for at
    /// `tmv.hot_draw_temp_c`. What leaves the tank is the hot part of both, never more
    /// than the tank holds. The result reports the heat that the fixtures missed.
    pub fn step_tempered(
        &mut self,
        ambient_temp_c: Double,
        tempered_flow_m3_s: Double,
        hot_flow_m3_s: Double,
        mains_temp_c: Double,
        heat_injections: &[(usize, Double)],
        tmv: TemperedDrawConfig,
        dt: Duration,
    ) -> (r: Result<DrawResult>)
        requires
            old(self)@.wf(),
        ensures
            final(self)@.wf(),
            final(self)@.n() == old(self)@.n(),
            final(self)@.same_shape(old(self)@),
            (final(self)@, r) == old(self)@.stepped_tempered(
                ambient_temp_c,
                tempered_flow_m3_s,
                hot_flow_m3_s,
                mains_temp_c,
                heat_injections@,
                tmv,
                dt.as_secs(),
            ),
    {
        validate_finite("ambient_temp_c", None, ambient_temp_c)?;
        validate_finite("mains_temp_c", None, mains_temp_c)?;
        validate_nonnegative("tempered_flow_m3_s", tempered_flow_m3_s)?;
        validate_nonnegative("hot_flow_m3_s", hot_flow_m3_s)?;
        let outlet_temp_c: Double = self.node_temps_c[0];
        let seconds: Double = dt.as_secs();
        let hot_draw_m3: Double = hot_draw_volume(
            hot_flow_m3_s,
            tmv,
            outlet_temp_c,
            mains_temp_c,
            seconds,
        );
        let tempered_draw_m3: Double = tempered_draw_volume(
            tempered_flow_m3_s,
            tmv,
            outlet_temp_c,
            mains_temp_c,
            seconds,
        );
        let draw_m3: Double = hot_draw_m3.plus(tempered_draw_m3).min(self.total_volume_m3);
        self.advance(
            ambient_temp_c,
            draw_m3,
            mains_temp_c,
            heat_injections,
            unmet_load(tempered_flow_m3_s, tmv, outlet_temp_c),
            seconds,
        )
    }
}

// ---------------------------------------------------------------------------
// The mixing valve
// ---------------------------------------------------------------------------

pub open spec fn spec_blend_ratio(target_c: Double, outlet_c: Double, mains_c: Double) -> Double {
    target_c.minus(mains_c).over(outlet_c.minus(mains_c).max(Double::ratio(1, 1_000_000_000))).clamp(
        Double::zero(),
        Double::one(),
    )
}

/// The share of outlet water in a blend with mains water at the target temperature.
#[verifier::when_used_as_spec(spec_blend_ratio)]
pub fn blend_ratio(target_c: Double, outlet_c: Double, mains_c: Double) -> (r: Double)
    ensures
        r == blend_ratio(target_c, outlet_c, mains_c),
{
    target_c.minus(mains_c).over(outlet_c.minus(mains_c).max(Double::ratio(1, 1_000_000_000))).clamp(
        Double::zero(),
        Double::one(),
    )
}

pub open spec fn spec_hot_draw_volume(
    hot_flow_m3_s: Double,
    tmv: TemperedDrawConfig,
    outlet_c: Double,
    mains_c: Double,
    seconds: Double,
) -> Double {
    if tmv.setpoint_temp_c.gt(tmv.hot_draw_temp_c) && !outlet_c.le(tmv.hot_draw_temp_c) {
        hot_flow_m3_s.times(seconds).times(blend_ratio(tmv.hot_draw_temp_c, outlet_c, mains_c))
    } else {
        hot_flow_m3_s.times(seconds)
    }
}

/// The tank water in a hot draw: blended only if both the setpoint and the outlet are
/// above the delivery temperature.
#[verifier::when_used_as_spec(spec_hot_draw_volume)]
pub fn hot_draw_volume(
    hot_flow_m3_s: Double,
    tmv: TemperedDrawConfig,
    outlet_c: Double,
    mains_c: Double,
    seconds: Double,
) -> (r: Double)
    ensures
        r == hot_draw_volume(hot_flow_m3_s, tmv, outlet_c, mains_c, seconds),
{
    if tmv.setpoint_temp_c.gt(tmv.hot_draw_temp_c) && !outlet_c.le(tmv.hot_draw_temp_c) {
        hot_flow_m3_s.times(seconds).times(blend_ratio(tmv.hot_draw_temp_c, outlet_c, mains_c))
    } else {
        hot_flow_m3_s.times(seconds)
    }
}

pub open spec fn spec_tempered_draw_volume(
    tempered_flow_m3_s: Double,
    tmv: TemperedDrawConfig,
    outlet_c: Double,
    mains_c: Double,
    seconds: Double,
) -> Double {
    if !tempered_flow_m3_s.gt(Double::zero()) {
        Double::zero()
    } else if outlet_c.le(tmv.tempered_draw_temp_c) {
        tempered_flow_m3_s.times(seconds)
    } else {
        tempered_flow_m3_s.times(seconds).times(
            blend_ratio(tmv.tempered_draw_temp_c, outlet_c, mains_c),
        )
    }
}

/// The tank water in a fixture draw: blended if the outlet is above the delivery
/// temperature.
#[verifier::when_used_as_spec(spec_tempered_draw_volume)]
pub fn tempered_draw_volume(
    tempered_flow_m3_s: Double,
    tmv: TemperedDrawConfig,
    outlet_c: Double,
    mains_c: Double,
    seconds: Double,
) -> (r: Double)
    ensures
        r == tempered_draw_volume(tempered_flow_m3_s, tmv, outlet_c, mains_c, seconds),
{
    if !tempered_flow_m3_s.gt(Double::zero()) {
        Double::zero()
    } else if outlet_c.le(tmv.tempered_draw_temp_c) {
        tempered_flow_m3_s.times(seconds)
    } else {
        tempered_flow_m3_s.times(seconds).times(
            blend_ratio(tmv.tempered_draw_temp_c, outlet_c, mains_c),
        )
    }
}

pub open spec fn spec_unmet_load(
    tempered_flow_m3_s: Double,
    tmv: TemperedDrawConfig,
    outlet_c: Double,
) -> Double {
    if tempered_flow_m3_s.gt(Double::zero()) {
        tempered_flow_m3_s.times(water_density()).times(water_specific_heat()).times(
            tmv.tempered_draw_temp_c.minus(outlet_c).max(Double::zero()),
        )
    } else {
        Double::zero()
    }
}

/// The heat [W] that a fixture draw misses when the outlet is colder than the delivery
/// temperature.
#[verifier::when_used_as_spec(spec_unmet_load)]
pub fn unmet_load(tempered_flow_m3_s: Double, tmv: TemperedDrawConfig, outlet_c: Double) -> (r:
    Double)
    ensures
        r == unmet_load(tempered_flow_m3_s, tmv, outlet_c),
{
    if tempered_flow_m3_s.gt(Double::zero()) {
        tempered_flow_m3_s.times(water_density()).times(water_specific_heat()).times(
            tmv.tempered_draw_temp_c.minus(outlet_c).max(Double::zero()),
        )
    } else {
        Double::zero()
    }
}

impl TankModel {
    /// One step with a raw draw, or the reason why there is none.
    pub open spec fn stepped(
        self,
        ambient_temp_c: Double,
        draw_volume_m3: Double,
        mains_temp_c: Double,
        injections: Seq<(usize, Double)>,
        seconds: Double,
    ) -> (TankModel, Result<DrawResult>) {
        if !ambient_temp_c.is_finite() {
            self.refused(Fault::NotFinite { field: "ambient_temp_c", index: None })
        } else if !mains_temp_c.is_finite() {
            self.refused(Fault::NotFinite { field: "mains_temp_c", index: None })
        } else if !is_nonnegative(draw_volume_m3) {
            self.refused(
                Fault::Negative { field: "draw_volume_m3", index: None, value: draw_volume_m3 },
            )
        } else if draw_volume_m3.gt(self.total_volume_m3) {
            self.refused(
                Fault::DrawExceedsTank { draw_volume_m3, total_volume_m3: self.total_volume_m3 },
            )
        } else {
            self.advanced(
                ambient_temp_c,
                draw_volume_m3,
                mains_temp_c,
                injections,
                Double::zero(),
                seconds,
            )
        }
    }

    /// The tank left as it is, and why.
    pub open spec fn refused(self, fault: Fault) -> (TankModel, Result<DrawResult>) {
        (self, Err(HaresError::Equipment(fault)))
    }

    /// What a tempered draw takes from the tank.
    pub open spec fn tempered_draw(
        &self,
        tempered_flow_m3_s: Double,
        hot_flow_m3_s: Double,
        mains_temp_c: Double,
        tmv: TemperedDrawConfig,
        seconds: Double,
    ) -> Double {
        let outlet_c = self.node_temps_c[0];
        hot_draw_volume(hot_flow_m3_s, tmv, outlet_c, mains_temp_c, seconds).plus(
            tempered_draw_volume(tempered_flow_m3_s, tmv, outlet_c, mains_temp_c, seconds),
        ).min(self.total_volume_m3)
    }

    /// One step with a tempered draw, or the reason why there is none.
    pub open spec fn stepped_tempered(
        self,
        ambient_temp_c: Double,
        tempered_flow_m3_s: Double,
        hot_flow_m3_s: Double,
        mains_temp_c: Double,
        injections: Seq<(usize, Double)>,
        tmv: TemperedDrawConfig,
        seconds: Double,
    ) -> (TankModel, Result<DrawResult>) {
        if !ambient_temp_c.is_finite() {
            self.refused(Fault::NotFinite { field: "ambient_temp_c", index: None })
        } else if !mains_temp_c.is_finite() {
            self.refused(Fault::NotFinite { field: "mains_temp_c", index: None })
        } else if !is_nonnegative(tempered_flow_m3_s) {
            self.refused(
                Fault::Negative {
                    field: "tempered_flow_m3_s",
                    index: None,
                    value: tempered_flow_m3_s,
                },
            )
        } else if !is_nonnegative(hot_flow_m3_s) {
            self.refused(
                Fault::Negative { field: "hot_flow_m3_s", index: None, value: hot_flow_m3_s },
            )
        } else {
            self.advanced(
                ambient_temp_c,
                self.tempered_draw(
                    tempered_flow_m3_s,
                    hot_flow_m3_s,
                    mains_temp_c,
                    tmv,
                    seconds,
                ),
                mains_temp_c,
                injections,
                unmet_load(tempered_flow_m3_s, tmv, self.node_temps_c[0]),
                seconds,
            )
        }
    }
}

} // verus!
