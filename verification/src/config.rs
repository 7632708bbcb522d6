//! Untyped equipment configuration: numbers under names.
use vstd::prelude::*;

use crate::double::Double;
use crate::tank::pi;
use crate::types::{BoundaryPolicy, ScheduleSource};

verus! {

/// A number under a name.
#[derive(Debug)]
pub struct ConfigValue {
    pub key: String,
    pub value: Double,
}

/// The configuration of a piece of equipment before it is typed: who it is, where it
/// stands, and numbers under names.
#[derive(Debug)]
pub struct EquipmentConfig {
    pub name: String,
    pub equipment_id: Option<u32>,
    pub zone_id: Option<u16>,
    pub loop_id: Option<u16>,
    pub values: Vec<ConfigValue>,
}

/// The first value under a name, from `from` on.
pub open spec fn value_at(values: Seq<ConfigValue>, key: Seq<char>, from: int) -> Option<Double>
    decreases values.len() - from,
{
    if !(0 <= from < values.len()) {
        None
    } else if values[from].key@ == key {
        Some(values[from].value)
    } else {
        value_at(values, key, from + 1)
    }
}

impl EquipmentConfig {
    /// The number under a name.
    pub open spec fn value(&self, key: Seq<char>) -> Option<Double> {
        value_at(self.values@, key, 0)
    }

    /// The number under a name, if there is one.
    pub fn get_f64(&self, key: &str) -> (r: Option<Double>)
        ensures
            r == self.value(key@),
    {
        let wanted: String = key.to_owned();
        let mut i: usize = 0;
        while i < self.values.len()
            invariant
                i <= self.values@.len(),
                wanted@ == key@,
                value_at(self.values@, key@, 0) == value_at(self.values@, key@, i as int),
            decreases self.values@.len() - i,
        {
            if self.values[i].key == wanted {
                return Some(self.values[i].value);
            }
            i += 1;
        }
        None
    }
}

/// Whether a text that may be given is a certain one.
pub open spec fn text_is(text: Option<String>, wanted: Seq<char>) -> bool {
    text is Some && text->0@ == wanted
}

/// Whether a text that may be given is a certain one.
pub fn is_text(text: &Option<String>, wanted: &str) -> (r: bool)
    ensures
        r == text_is(*text, wanted@),
{
    match text {
        Some(text) => *text == wanted.to_owned(),
        None => false,
    }
}

/// Both texts are given and the same, or neither is given.
pub open spec fn same_text(a: Option<String>, b: Option<String>) -> bool {
    &&& a is Some == b is Some
    &&& a is Some ==> a->0@ == b->0@
}

/// A copy of a text that may be given.
pub fn copied_text(text: &Option<String>) -> (r: Option<String>)
    ensures
        same_text(r, *text),
{
    match text {
        Some(text) => Some(text.clone()),
        None => None,
    }
}

// ---------------------------------------------------------------------------
// Whole numbers and schedule columns
// ---------------------------------------------------------------------------

/// A number as an index: `None` for what is not finite, negative or fractional.
#[verifier::allow_in_spec]
pub fn parse_usize(raw: Option<Double>) -> Option<usize>
    returns
        (match raw {
            Some(value) if value.is_finite() && value.ge(Double::zero()) && value.is_whole() =>
                Some(value.to_usize()),
            _ => None,
        }),
{
    match raw {
        Some(value) => {
            if !value.is_finite() || value.lt(Double::zero()) || !value.is_whole() {
                None
            } else {
                Some(value.to_usize())
            }
        },
        None => None,
    }
}

/// The column under the first of some names that holds an index, from `from` on.
pub open spec fn schedule_col(config: &EquipmentConfig, keys: Seq<&str>, from: int) -> Option<usize>
    decreases keys.len() - from,
{
    if !(0 <= from < keys.len()) {
        None
    } else {
        match parse_usize(config.value(keys[from]@)) {
            Some(col) => Some(col),
            None => schedule_col(config, keys, from + 1),
        }
    }
}

/// The column under the first of some names that holds an index.
pub fn resolve_schedule_col(config: &EquipmentConfig, keys: &[&str]) -> (r: Option<usize>)
    ensures
        r == schedule_col(config, keys@, 0),
{
    let mut i: usize = 0;
    while i < keys.len()
        invariant
            i <= keys@.len(),
            schedule_col(config, keys@, 0) == schedule_col(config, keys@, i as int),
        decreases keys@.len() - i,
    {
        if let Some(col) = parse_usize(config.get_f64(keys[i])) {
            return Some(col);
        }
        i += 1;
    }
    None
}

/// A column of the schedule, beyond whose ends the nearest row counts.
#[verifier::allow_in_spec]
pub fn column(col: Option<usize>) -> Option<ScheduleSource>
    returns
        (match col {
            Some(col_idx) => Some(
                ScheduleSource::ColumnRef { col_idx, boundary: BoundaryPolicy::Clamp },
            ),
            None => None,
        }),
{
    match col {
        Some(col_idx) => Some(
            ScheduleSource::ColumnRef { col_idx, boundary: BoundaryPolicy::Clamp },
        ),
        None => None,
    }
}

/// The names under which the column of the draw may stand.
pub open spec fn draw_keys() -> Seq<&'static str> {
    seq![
        "draw_flow_rate_schedule_col",
        "draw_rate_schedule_col",
        "draw_schedule_col",
        "hot_water_draw_schedule_col",
        "hot_water_delivered_schedule_col",
    ]
}

/// Where the draw is scheduled, if it is.
pub fn draw_schedule_source(config: &EquipmentConfig) -> (r: Option<ScheduleSource>)
    ensures
        r == column(schedule_col(config, draw_keys(), 0)),
{
    let keys: [&'static str; 5] = [
        "draw_flow_rate_schedule_col",
        "draw_rate_schedule_col",
        "draw_schedule_col",
        "hot_water_draw_schedule_col",
        "hot_water_delivered_schedule_col",
    ];
    assert(keys@ =~= draw_keys());
    column(resolve_schedule_col(config, keys.as_slice()))
}

/// The names under which the column of the mains temperature may stand.
pub open spec fn mains_temp_keys() -> Seq<&'static str> {
    seq![
        "mains_temp_schedule_col",
        "inlet_temp_schedule_col",
        "water_mains_temp_schedule_col",
    ]
}

/// Where the mains temperature is scheduled, if it is.
pub fn mains_temp_schedule_source(config: &EquipmentConfig) -> (r: Option<ScheduleSource>)
    ensures
        r == column(schedule_col(config, mains_temp_keys(), 0)),
{
    let keys: [&'static str; 3] = [
        "mains_temp_schedule_col",
        "inlet_temp_schedule_col",
        "water_mains_temp_schedule_col",
    ];
    assert(keys@ =~= mains_temp_keys());
    column(resolve_schedule_col(config, keys.as_slice()))
}

// ---------------------------------------------------------------------------
// Tank and draw
// ---------------------------------------------------------------------------

pub open spec fn spec_jacketed_ua(
    ua_base: Double,
    height_m: Double,
    diameter_m: Double,
    jacket_r: Option<Double>,
) -> Double {
    match jacket_r {
        Some(r) if !r.le(Double::zero()) && !ua_base.le(Double::zero()) => {
            let lateral_area_m2 = pi().times(diameter_m).times(height_m);
            Double::one().over(
                Double::one().over(ua_base).plus(r.over(lateral_area_m2)),
            )
        },
        _ => ua_base,
    }
}

/// The loss coefficient of a tank with an insulation jacket of the given R-value: the
/// resistances of the tank and of the jacket round its side in series.
#[verifier::when_used_as_spec(spec_jacketed_ua)]
pub fn jacketed_ua(
    ua_base: Double,
    height_m: Double,
    diameter_m: Double,
    jacket_r: Option<Double>,
) -> (r: Double)
    ensures
        r == jacketed_ua(ua_base, height_m, diameter_m, jacket_r),
{
    if let Some(r) = jacket_r {
        if !r.le(Double::zero()) && !ua_base.le(Double::zero()) {
            let lateral_area_m2: Double = pi().times(diameter_m).times(height_m);
            return Double::one().over(
                Double::one().over(ua_base).plus(r.over(lateral_area_m2)),
            );
        }
    }
    ua_base
}

/// The loss coefficient of a tank with the jacket that a configuration names.
pub fn apply_jacket_r_value(
    ua_base: Double,
    height_m: Double,
    diameter_m: Double,
    config: &EquipmentConfig,
) -> (r: Double)
    ensures
        r == jacketed_ua(
            ua_base,
            height_m,
            diameter_m,
            config.value("jacket_r_value_m2_k_w"@),
        ),
{
    jacketed_ua(ua_base, height_m, diameter_m, config.get_f64("jacket_r_value_m2_k_w"))
}

/// The draw [kg/s] that a configuration gives: the average of the daily draw, if a share
/// of a profile is given too and both are positive; else as given directly; else none.
pub open spec fn draw_rate(config: &EquipmentConfig) -> Double {
    match (
        config.value("draw_profile_fraction"@),
        config.value("avg_water_draw_l_per_day"@),
    ) {
        (Some(f), Some(avg_l)) if f.gt(Double::zero()) && avg_l.gt(Double::zero()) =>
            avg_l.over(Double::whole(86_400)),
        _ => match (config.value("draw_flow_rate_kg_s"@), config.value("draw_rate_kg_s"@)) {
            (Some(v), _) => v.max(Double::zero()),
            (None, Some(v)) => v.max(Double::zero()),
            (None, None) => Double::zero(),
        },
    }
}

/// The draw [kg/s] that a configuration gives.
pub fn resolve_draw_rate_kg_s(config: &EquipmentConfig) -> (r: Double)
    ensures
        r == draw_rate(config),
{
    if let Some(f) = config.get_f64("draw_profile_fraction") {
        if let Some(avg_l) = config.get_f64("avg_water_draw_l_per_day") {
            if f.gt(Double::zero()) && avg_l.gt(Double::zero()) {
                return avg_l.over(Double::whole(86_400));
            }
        }
    }
    if let Some(v) = config.get_f64("draw_flow_rate_kg_s") {
        return v.max(Double::zero());
    }
    if let Some(v) = config.get_f64("draw_rate_kg_s") {
        return v.max(Double::zero());
    }
    Double::zero()
}

} // verus!
