//! The compressor of a heat pump water heater: its default figures, its performance
//! curves, and how its condenser spreads heat over the tank.
use vstd::prelude::*;

use crate::double::Double;
use crate::error::{Fault, HaresError, Result};
use crate::shared::sum_of_slice;

verus! {

/// Whether the compressor and the backup element of a heater may run together.
#[derive(Debug, Clone, Copy, PartialEq, Eq, Structural)]
pub enum ElementHpControlMode {
    /// While one runs the other is locked out. The compressor comes first when neither
    /// runs.
    MutuallyExclusive,
    /// Both can run at the same time.
    Simultaneous,
}

impl Default for ElementHpControlMode {
    fn default() -> (r: ElementHpControlMode)
        ensures
            r == ElementHpControlMode::MutuallyExclusive,
    {
        ElementHpControlMode::MutuallyExclusive
    }
}

// ---------------------------------------------------------------------------
// Defaults
// ---------------------------------------------------------------------------

/// The default deadband: 14.7 °F [°C].
#[verifier::allow_in_spec]
pub fn default_deadband_c() -> Double
    returns
        Double::ratio(8_166_666_667, 1_000_000_000),
{
    Double::ratio(8_166_666_667, 1_000_000_000)
}

/// The coefficient of performance at rated conditions.
#[verifier::allow_in_spec]
pub fn default_rated_cop() -> Double
    returns
        Double::ratio(345, 100),
{
    Double::ratio(345, 100)
}

/// The heat that the heat pump delivers at rated conditions [W]: 500 W of input at the
/// rated coefficient of performance.
#[verifier::allow_in_spec]
pub fn default_compressor_power_w() -> Double
    returns
        Double::whole(1725),
{
    Double::whole(1725)
}

/// The power of the backup element [W].
#[verifier::allow_in_spec]
pub fn default_backup_element_power_w() -> Double
    returns
        Double::whole(4500),
{
    Double::whole(4500)
}

/// How far below the setpoint the backup element comes in [°C].
#[verifier::allow_in_spec]
pub fn default_backup_enable_offset_c() -> Double
    returns
        Double::whole(8),
{
    Double::whole(8)
}

/// Fahrenheit in Celsius, of a temperature above freezing.
#[verifier::allow_in_spec]
pub fn celsius_of(fahrenheit: u64) -> Double
    requires
        fahrenheit < 1000,
    returns
        Double::whole(5).times(Double::whole(fahrenheit).minus(Double::whole(32))).over(
            Double::whole(9),
        ),
{
    Double::whole(5).times(Double::whole(fahrenheit).minus(Double::whole(32))).over(
        Double::whole(9),
    )
}

/// The lowest ambient temperature at which a compressor runs [°C]; a low-power unit goes
/// lower.
#[verifier::allow_in_spec]
pub fn default_min_ambient_temp_c(low_power: bool) -> Double
    returns
        (if low_power {
            celsius_of(37)
        } else {
            celsius_of(45)
        }),
{
    if low_power {
        celsius_of(37)
    } else {
        celsius_of(45)
    }
}

/// The highest ambient temperature at which a compressor runs [°C]; a low-power unit goes
/// higher.
#[verifier::allow_in_spec]
pub fn default_max_ambient_temp_c(low_power: bool) -> Double
    returns
        (if low_power {
            celsius_of(145)
        } else {
            celsius_of(110)
        }),
{
    if low_power {
        celsius_of(145)
    } else {
        celsius_of(110)
    }
}

/// Whether a unit is of the low-power class: as configured, or else by its uniform energy
/// factor.
#[verifier::allow_in_spec]
pub fn is_low_power(low_power_hpwh: Option<bool>, uniform_energy_factor: Option<Double>) -> bool
    returns
        (match low_power_hpwh {
            Some(low_power) => low_power,
            None => match uniform_energy_factor {
                Some(uef) => uef.ge(Double::ratio(49, 10)),
                None => false,
            },
        }),
{
    match low_power_hpwh {
        Some(low_power) => low_power,
        None => match uniform_energy_factor {
            Some(uef) => uef.ge(Double::ratio(49, 10)),
            None => false,
        },
    }
}

/// How far a unit is of the low-power class by its uniform energy factor: from not at all
/// at 4.8 to all the way at 5.
#[verifier::allow_in_spec]
pub fn low_power_share(uniform_energy_factor: Double) -> Double
    returns
        uniform_energy_factor.minus(Double::ratio(48, 10)).over(Double::ratio(2, 10)).clamp(
            Double::zero(),
            Double::one(),
        ),
{
    uniform_energy_factor.minus(Double::ratio(48, 10)).over(Double::ratio(2, 10)).clamp(
        Double::zero(),
        Double::one(),
    )
}

/// A coefficient between a standard one and a low-power one.
#[verifier::allow_in_spec]
pub fn blended(standard: Double, low_power: Double, share: Double) -> Double
    returns
        standard.plus(low_power.minus(standard).times(share)),
{
    standard.plus(low_power.minus(standard).times(share))
}

/// The coefficients of a unit that has none of its own: the low-power ones or the standard
/// ones as configured, or else a blend of them by the uniform energy factor.
#[verifier::allow_in_spec]
pub fn class_coeffs(
    low_power_hpwh: Option<bool>,
    uniform_energy_factor: Option<Double>,
    standard: [Double; 6],
    low_power: [Double; 6],
) -> [Double; 6]
    returns
        (match (low_power_hpwh, uniform_energy_factor) {
            (Some(true), _) => low_power,
            (Some(false), _) => standard,
            (None, None) => standard,
            (None, Some(uef)) => {
                let share = low_power_share(uef);
                [
                    blended(standard[0], low_power[0], share),
                    blended(standard[1], low_power[1], share),
                    blended(standard[2], low_power[2], share),
                    blended(standard[3], low_power[3], share),
                    blended(standard[4], low_power[4], share),
                    blended(standard[5], low_power[5], share),
                ]
            },
        }),
{
    match (low_power_hpwh, uniform_energy_factor) {
        (Some(true), _) => low_power,
        (Some(false), _) => standard,
        (None, None) => standard,
        (None, Some(uef)) => {
            let share: Double = low_power_share(uef);
            [
                blended(standard[0], low_power[0], share),
                blended(standard[1], low_power[1], share),
                blended(standard[2], low_power[2], share),
                blended(standard[3], low_power[3], share),
                blended(standard[4], low_power[4], share),
                blended(standard[5], low_power[5], share),
            ]
        },
    }
}

/// The sensible share of the heat that the evaporator takes from the air.
#[verifier::allow_in_spec]
pub fn default_shr() -> Double
    returns
        Double::ratio(88, 100),
{
    Double::ratio(88, 100)
}

/// The power of the evaporator fan [W], while the compressor runs.
#[verifier::allow_in_spec]
pub fn default_fan_power_w() -> Double
    returns
        Double::whole(35),
{
    Double::whole(35)
}

/// The standby power [W], while the compressor rests.
#[verifier::allow_in_spec]
pub fn default_parasitic_power_w() -> Double
    returns
        Double::one(),
{
    Double::one()
}

/// The share of its power that the backup element turns into heat.
#[verifier::allow_in_spec]
pub fn default_backup_efficiency() -> Double
    returns
        Double::one(),
{
    Double::one()
}

/// How long the compressor runs at least [s].
#[verifier::allow_in_spec]
pub fn default_min_on_time_s() -> Double
    returns
        Double::whole(600),
{
    Double::whole(600)
}

// ---------------------------------------------------------------------------
// Curves
// ---------------------------------------------------------------------------

/// A function of two temperatures: a quadratic polynomial with six coefficients, held
/// within bounds of its arguments and of its result.
#[derive(Debug, Clone, Copy)]
pub struct BiquadraticCurve {
    pub coeffs: [Double; 6],
    pub x1_bounds: (Double, Double),
    pub x2_bounds: (Double, Double),
    pub output_min: Option<Double>,
    pub output_max: Option<Double>,
}

/// The coefficients of the curves of low-power units, which are a compressor family of
/// their own.
#[derive(Debug, Clone, Copy)]
pub struct LowPowerCoeffs {
    pub cop: [Double; 6],
    pub capacity: [Double; 6],
}

/// The default coefficients of the coefficient of performance, by wet-bulb temperature
/// and tank temperature [°C].
#[verifier::allow_in_spec]
pub fn default_cop_coeffs() -> [Double; 6]
    returns
        [
            Double::ratio(10_132, 10_000),
            Double::ratio(436, 10_000),
            Double::ratio(117, 10_000_000),
            Double::ratio(1_113, 100_000).negate(),
            Double::ratio(3_688, 100_000_000),
            Double::ratio(498, 1_000_000).negate(),
        ],
{
    [
        Double::ratio(10_132, 10_000),
        Double::ratio(436, 10_000),
        Double::ratio(117, 10_000_000),
        Double::ratio(1_113, 100_000).negate(),
        Double::ratio(3_688, 100_000_000),
        Double::ratio(498, 1_000_000).negate(),
    ]
}

/// The default coefficients of the capacity, by wet-bulb temperature and tank
/// temperature [°C].
#[verifier::allow_in_spec]
pub fn default_capacity_coeffs() -> [Double; 6]
    returns
        [
            Double::ratio(563, 1_000),
            Double::ratio(437, 10_000),
            Double::ratio(39, 1_000_000),
            Double::ratio(55, 10_000),
            Double::ratio(148, 1_000_000).negate(),
            Double::ratio(145, 1_000_000).negate(),
        ],
{
    [
        Double::ratio(563, 1_000),
        Double::ratio(437, 10_000),
        Double::ratio(39, 1_000_000),
        Double::ratio(55, 10_000),
        Double::ratio(148, 1_000_000).negate(),
        Double::ratio(145, 1_000_000).negate(),
    ]
}

/// The curve of the coefficient of performance, by default or with coefficients of its
/// own.
#[verifier::allow_in_spec]
pub fn cop_curve(coeffs: Option<[Double; 6]>) -> BiquadraticCurve
    returns
        (BiquadraticCurve {
            coeffs: match coeffs {
                Some(coeffs) => coeffs,
                None => default_cop_coeffs(),
            },
            x1_bounds: (Double::whole(5), Double::whole(45)),
            x2_bounds: (Double::whole(20), Double::whole(70)),
            output_min: None,
            output_max: None,
        }),
{
    BiquadraticCurve {
        coeffs: match coeffs {
            Some(coeffs) => coeffs,
            None => default_cop_coeffs(),
        },
        x1_bounds: (Double::whole(5), Double::whole(45)),
        x2_bounds: (Double::whole(20), Double::whole(70)),
        output_min: None,
        output_max: None,
    }
}

/// The curve of the capacity, by default or with coefficients of its own. It is never
/// negative.
#[verifier::allow_in_spec]
pub fn capacity_curve(coeffs: Option<[Double; 6]>) -> BiquadraticCurve
    returns
        (BiquadraticCurve {
            coeffs: match coeffs {
                Some(coeffs) => coeffs,
                None => default_capacity_coeffs(),
            },
            x1_bounds: (Double::whole(5), Double::whole(45)),
            x2_bounds: (Double::whole(20), Double::whole(70)),
            output_min: Some(Double::zero()),
            output_max: None,
        }),
{
    BiquadraticCurve {
        coeffs: match coeffs {
            Some(coeffs) => coeffs,
            None => default_capacity_coeffs(),
        },
        x1_bounds: (Double::whole(5), Double::whole(45)),
        x2_bounds: (Double::whole(20), Double::whole(70)),
        output_min: Some(Double::zero()),
        output_max: None,
    }
}

impl BiquadraticCurve {
    /// The conditions at which a curve is held against the rated figures: the middle of
    /// its bounds.
    #[verifier::allow_in_spec]
    pub fn reference_point(self) -> (Double, Double)
        returns
            (
                self.x1_bounds.0.plus(self.x1_bounds.1).times(Double::ratio(1, 2)),
                self.x2_bounds.0.plus(self.x2_bounds.1).times(Double::ratio(1, 2)),
            ),
    {
        (
            self.x1_bounds.0.plus(self.x1_bounds.1).times(Double::ratio(1, 2)),
            self.x2_bounds.0.plus(self.x2_bounds.1).times(Double::ratio(1, 2)),
        )
    }
}

/// The factor that brings a curve to the rated coefficient of performance, given its
/// value at the reference point.
#[verifier::allow_in_spec]
pub fn cop_scale_for(
    cop: Option<Double>,
    performance_adjustment: Option<Double>,
    value_at_reference: Double,
) -> Double
    returns
        crate::shared::or_default(cop, default_rated_cop()).times(
            crate::shared::or_default(performance_adjustment, Double::one()),
        ).over(value_at_reference.max(Double::ratio(1, 1_000_000))).max(Double::ratio(1, 10)),
{
    crate::shared::or_default(cop, default_rated_cop()).times(
        crate::shared::or_default(performance_adjustment, Double::one()),
    ).over(value_at_reference.max(Double::ratio(1, 1_000_000))).max(Double::ratio(1, 10))
}

// ---------------------------------------------------------------------------
// The condenser
// ---------------------------------------------------------------------------

/// The weight of a node of a tank of twelve: most of the heat enters near the bottom.
#[verifier::allow_in_spec]
pub fn twelve_node_weight(node: usize) -> Double
    returns
        (if node < 5 {
            Double::zero()
        } else if node == 5 {
            Double::whole(5)
        } else if node == 6 {
            Double::whole(10)
        } else if node == 7 {
            Double::whole(15)
        } else if node == 8 {
            Double::whole(20)
        } else if node == 9 {
            Double::whole(25)
        } else if node == 10 {
            Double::whole(30)
        } else {
            Double::whole(5)
        }),
{
    if node < 5 {
        Double::zero()
    } else if node == 5 {
        Double::whole(5)
    } else if node == 6 {
        Double::whole(10)
    } else if node == 7 {
        Double::whole(15)
    } else if node == 8 {
        Double::whole(20)
    } else if node == 9 {
        Double::whole(25)
    } else if node == 10 {
        Double::whole(30)
    } else {
        Double::whole(5)
    }
}

/// How the condenser of a tank spreads its heat: over the lower nodes of a tank of
/// twelve, else in the middle node alone.
pub open spec fn condenser_weights(n_nodes: nat) -> Seq<Double> {
    Seq::new(
        n_nodes,
        |i: int|
            if n_nodes == 12 {
                twelve_node_weight(i as usize)
            } else if i == n_nodes / 2 {
                Double::one()
            } else {
                Double::zero()
            },
    )
}

/// How the condenser of a tank spreads its heat by default.
pub fn default_condenser_weights(n_nodes: usize) -> (weights: Vec<Double>)
    ensures
        weights@ == condenser_weights(n_nodes as nat),
{
    let mut weights: Vec<Double> = Vec::new();
    let mut i: usize = 0;
    while i < n_nodes
        invariant
            i <= n_nodes,
            weights@ =~= condenser_weights(n_nodes as nat).take(i as int),
        decreases n_nodes - i,
    {
        let weight: Double = if n_nodes == 12 {
            twelve_node_weight(i)
        } else if i == n_nodes / 2 {
            Double::one()
        } else {
            Double::zero()
        };
        weights.push(weight);
        i += 1;
    }
    assert(condenser_weights(n_nodes as nat).take(i as int) =~= condenser_weights(n_nodes as nat));
    weights
}

/// What the first `upto` nodes get of `q_w`: each with a weight gets its share.
pub open spec fn condenser_shares(
    weights: Seq<Double>,
    q_w: Double,
    n_nodes: nat,
    upto: int,
) -> Seq<(usize, Double)>
    decreases upto,
{
    if upto <= 0 {
        Seq::empty()
    } else {
        let earlier = condenser_shares(weights, q_w, n_nodes, upto - 1);
        let weight = weights[upto - 1];
        if weight.gt(Double::zero()) && upto - 1 < n_nodes {
            earlier.push(
                ((upto - 1) as usize, q_w.times(weight).over(crate::tank::sum(weights))),
            )
        } else {
            earlier
        }
    }
}

/// What each node gets of the condenser's heat: a share by its weight, or all of it in
/// the lowest node if the weights come to nothing.
pub open spec fn condenser_injections(weights: Seq<Double>, q_w: Double, n_nodes: nat) -> Seq<
    (usize, Double),
> {
    if q_w.same(Double::zero()) {
        Seq::empty()
    } else if crate::tank::sum(weights).le(Double::zero()) {
        seq![
            (
                if n_nodes > 0 {
                    (n_nodes - 1) as usize
                } else {
                    0
                },
                q_w,
            ),
        ]
    } else {
        condenser_shares(weights, q_w, n_nodes, weights.len() as int)
    }
}

/// What each node gets of the condenser's heat.
pub fn build_heat_injections(weights: &[Double], q_w: Double, n_nodes: usize) -> (r: Vec<
    (usize, Double),
>)
    ensures
        r@ == condenser_injections(weights@, q_w, n_nodes as nat),
{
    let mut list: Vec<(usize, Double)> = Vec::new();
    if q_w.same(Double::zero()) {
        assert(list@ =~= condenser_injections(weights@, q_w, n_nodes as nat));
        return list;
    }
    let total: Double = sum_of_slice(weights);
    if total.le(Double::zero()) {
        list.push(
            (
                if n_nodes > 0 {
                    n_nodes - 1
                } else {
                    0
                },
                q_w,
            ),
        );
        assert(list@ =~= condenser_injections(weights@, q_w, n_nodes as nat));
        return list;
    }
    let mut node: usize = 0;
    while node < weights.len()
        invariant
            node <= weights@.len(),
            total == crate::tank::sum(weights@),
            list@ == condenser_shares(weights@, q_w, n_nodes as nat, node as int),
        decreases weights@.len() - node,
    {
        let weight: Double = weights[node];
        if weight.gt(Double::zero()) && node < n_nodes {
            list.push((node, q_w.times(weight).over(total)));
        }
        node += 1;
    }
    list
}

/// Only nodes of the tank are heated, none twice, and those above come first.
pub proof fn condenser_heats_tank_nodes(weights: Seq<Double>, q_w: Double, n_nodes: nat)
    requires
        0 < n_nodes <= usize::MAX,
        weights.len() <= usize::MAX,
    ensures
        forall|i: int|
            0 <= i < condenser_injections(weights, q_w, n_nodes).len()
                ==> (#[trigger] condenser_injections(weights, q_w, n_nodes)[i]).0 < n_nodes,
        forall|i: int, j: int|
            0 <= i < j < condenser_injections(weights, q_w, n_nodes).len() ==> (
            #[trigger] condenser_injections(weights, q_w, n_nodes)[i]).0 < (
            #[trigger] condenser_injections(weights, q_w, n_nodes)[j]).0,
{
    lemma_shares_ascend(weights, q_w, n_nodes, weights.len() as int);
}

proof fn lemma_shares_ascend(weights: Seq<Double>, q_w: Double, n_nodes: nat, upto: int)
    requires
        n_nodes <= usize::MAX,
        0 <= upto <= weights.len() <= usize::MAX,
    ensures
        forall|i: int|
            0 <= i < condenser_shares(weights, q_w, n_nodes, upto).len() ==> (
            #[trigger] condenser_shares(weights, q_w, n_nodes, upto)[i]).0 < n_nodes && (
            condenser_shares(weights, q_w, n_nodes, upto)[i]).0 < upto,
        forall|i: int, j: int|
            0 <= i < j < condenser_shares(weights, q_w, n_nodes, upto).len() ==> (
            #[trigger] condenser_shares(weights, q_w, n_nodes, upto)[i]).0 < (
            #[trigger] condenser_shares(weights, q_w, n_nodes, upto)[j]).0,
    decreases upto,
{
    if upto > 0 {
        lemma_shares_ascend(weights, q_w, n_nodes, upto - 1);
        let earlier = condenser_shares(weights, q_w, n_nodes, upto - 1);
        let all = condenser_shares(weights, q_w, n_nodes, upto);
        assert forall|i: int| 0 <= i < all.len() implies (#[trigger] all[i]).0 < n_nodes
            && all[i].0 < upto by {
            assert(i < earlier.len() ==> all[i] == earlier[i]);
        }
        assert forall|i: int, j: int| 0 <= i < j < all.len() implies (#[trigger] all[i]).0 < (
        #[trigger] all[j]).0 by {
            assert(all[i] == earlier[i]);
            assert(j < earlier.len() ==> all[j] == earlier[j]);
        }
    }
}

// ---------------------------------------------------------------------------
// Curves as text
// ---------------------------------------------------------------------------

/// Whether a character is white space, as Unicode has it.
#[verifier::allow_in_spec]
pub fn is_white(c: char) -> bool
    returns
        ('\u{9}' <= c && c <= '\u{d}') || c == ' ' || c == '\u{85}' || c == '\u{a0}' || c
            == '\u{1680}' || ('\u{2000}' <= c && c <= '\u{200a}') || c == '\u{2028}' || c
            == '\u{2029}' || c == '\u{202f}' || c == '\u{205f}' || c == '\u{3000}',
{
    ('\u{9}' <= c && c <= '\u{d}') || c == ' ' || c == '\u{85}' || c == '\u{a0}' || c
        == '\u{1680}' || ('\u{2000}' <= c && c <= '\u{200a}') || c == '\u{2028}' || c
        == '\u{2029}' || c == '\u{202f}' || c == '\u{205f}' || c == '\u{3000}'
}

/// Where the part of a list that begins at `from` ends: at the next comma, or at the end.
pub open spec fn part_end(text: Seq<char>, from: int) -> int
    decreases text.len() - from,
{
    if from >= text.len() || text[from] == ',' {
        from
    } else {
        part_end(text, from + 1)
    }
}

/// The first place from `from` on, and before `end`, that is not white.
pub open spec fn skip_white(text: Seq<char>, from: int, end: int) -> int
    decreases end - from,
{
    if from >= end || !is_white(text[from]) {
        from
    } else {
        skip_white(text, from + 1, end)
    }
}

/// The place after the last one before `end`, and not before `from`, that is not white.
pub open spec fn trim_end(text: Seq<char>, from: int, end: int) -> int
    decreases end - from,
{
    if from >= end || !is_white(text[end - 1]) {
        end
    } else {
        trim_end(text, from, end - 1)
    }
}

/// Where the parts of a list of numbers between commas begin and end, without the white
/// space around them and without those that are empty, from `from` on.
pub open spec fn number_spans(text: Seq<char>, from: int) -> Seq<(usize, usize)>
    decreases text.len() + 1 - from,
{
    if from > text.len() {
        Seq::empty()
    } else {
        proof {
            lemma_part_end(text, from);
        }
        let stop = part_end(text, from);
        let start = skip_white(text, from, stop);
        let end = trim_end(text, start, stop);
        (if start < end {
            seq![(start as usize, end as usize)]
        } else {
            Seq::empty()
        }) + number_spans(text, stop + 1)
    }
}

/// A part ends no sooner than it begins, and not after the text.
pub proof fn lemma_part_end(text: Seq<char>, from: int)
    requires
        from <= text.len(),
    ensures
        from <= part_end(text, from) <= text.len(),
    decreases text.len() - from,
{
    if !(from >= text.len() || text[from] == ',') {
        lemma_part_end(text, from + 1);
    }
}

fn find_part_end(text: &[char], from: usize) -> (r: usize)
    requires
        from <= text@.len(),
    ensures
        r == part_end(text@, from as int),
        from <= r <= text@.len(),
{
    let mut i: usize = from;
    while i < text.len() && text[i] != ','
        invariant
            from <= i <= text@.len(),
            part_end(text@, from as int) == part_end(text@, i as int),
        decreases text@.len() - i,
    {
        i += 1;
    }
    i
}

fn find_start(text: &[char], from: usize, end: usize) -> (r: usize)
    requires
        from <= end <= text@.len(),
    ensures
        r == skip_white(text@, from as int, end as int),
        from <= r <= end,
{
    let mut i: usize = from;
    while i < end && is_white(text[i])
        invariant
            from <= i <= end <= text@.len(),
            skip_white(text@, from as int, end as int) == skip_white(text@, i as int, end as int),
        decreases end - i,
    {
        i += 1;
    }
    i
}

fn find_end(text: &[char], from: usize, end: usize) -> (r: usize)
    requires
        from <= end <= text@.len(),
    ensures
        r == trim_end(text@, from as int, end as int),
        from <= r <= end,
{
    let mut i: usize = end;
    while i > from && is_white(text[i - 1])
        invariant
            from <= i <= end <= text@.len(),
            trim_end(text@, from as int, end as int) == trim_end(text@, from as int, i as int),
        decreases i,
    {
        i -= 1;
    }
    i
}

/// Where the six coefficients stand in the text of the curve `key`. Any other number of them is
/// an error.
pub fn coefficient_spans(key: &'static str, text: &[char]) -> (r: Result<Vec<(usize, usize)>>)
    requires
        text@.len() < usize::MAX,
    ensures
        number_spans(text@, 0).len() == 6 ==> r is Ok && r->Ok_0@ == number_spans(text@, 0),
        number_spans(text@, 0).len() != 6 ==> r == Err::<Vec<(usize, usize)>, HaresError>(
            HaresError::Equipment(
                Fault::CoefficientCount { key, count: number_spans(text@, 0).len() as usize },
            ),
        ),
{
    let mut spans: Vec<(usize, usize)> = Vec::new();
    let mut from: usize = 0;
    assert(spans@ + number_spans(text@, 0) =~= number_spans(text@, 0));
    while from <= text.len()
        invariant
            from <= text@.len() + 1,
            text@.len() < usize::MAX,
            spans@ + number_spans(text@, from as int) == number_spans(text@, 0),
        decreases text@.len() + 1 - from,
    {
        let stop: usize = find_part_end(text, from);
        let start: usize = find_start(text, from, stop);
        let end: usize = find_end(text, start, stop);
        let ghost before = spans@;
        if start < end {
            spans.push((start, end));
        }
        assert(spans@ + number_spans(text@, stop + 1) =~= before + number_spans(
            text@,
            from as int,
        ));
        from = stop + 1;
    }
    assert(spans@ =~= number_spans(text@, 0));
    if spans.len() == 6 {
        Ok(spans)
    } else {
        Err(HaresError::Equipment(Fault::CoefficientCount { key, count: spans.len() }))
    }
}

/// The first of some numbers, from `from` on, that could not be read.
pub open spec fn first_unread(parsed: Seq<Option<Double>>, from: int) -> Option<int>
    decreases parsed.len() - from,
{
    if !(0 <= from < parsed.len()) {
        None
    } else if parsed[from] is None {
        Some(from)
    } else {
        first_unread(parsed, from + 1)
    }
}

/// The coefficients of the curve `key`, given what was read at each of their six places. The
/// first that could not be read is an error.
pub fn parse_curve_coeffs(key: &'static str, parsed: [Option<Double>; 6]) -> (r: Result<
    [Double; 6],
>)
    ensures
        match first_unread(parsed@, 0) {
            Some(index) => r == Err::<[Double; 6], HaresError>(
                HaresError::Equipment(
                    Fault::UnreadCoefficient { key, coefficient: index as usize },
                ),
            ),
            None => r is Ok && forall|i: int|
                0 <= i < 6 ==> parsed@[i] == Some(#[trigger] r->Ok_0@[i]),
        },
{
    let mut coeffs: [Double; 6] = [Double::zero(); 6];
    let mut i: usize = 0;
    while i < 6
        invariant
            i <= 6,
            first_unread(parsed@, 0) == first_unread(parsed@, i as int),
            forall|j: int| 0 <= j < i ==> parsed@[j] == Some(#[trigger] coeffs@[j]),
        decreases 6 - i,
    {
        match parsed[i] {
            Some(v) => {
                coeffs[i] = v;
            },
            None => {
                return Err(
                    HaresError::Equipment(Fault::UnreadCoefficient { key, coefficient: i }),
                );
            },
        }
        i += 1;
    }
    Ok(coeffs)
}

} // verus!
