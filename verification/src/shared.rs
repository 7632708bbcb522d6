//! Rules that several water heaters share.
use vstd::prelude::*;

use crate::double::Double;
use crate::tank::StratifiedTank;
use crate::types::{CustomDomain, DRLevel, EnvironmentState, FluidAccumulator, ZoneState};

verus! {

/// The loop on which appliances ask for domestic hot water. Appliances write the flow
/// that they demand there; water heaters read it and add it to their scheduled draw.
pub const DHW_DEMAND_LOOP: u16 = 65_534;

/// The domain under which the temperature of the mains water [°C] is published.
pub const MAINS_WATER_DOMAIN_ID: u16 = 65_534;

// ---------------------------------------------------------------------------
// Defaults
// ---------------------------------------------------------------------------

/// The default setpoint [°C].
#[verifier::allow_in_spec]
pub fn default_setpoint_c() -> Double
    returns
        Double::ratio(516_666_667, 10_000_000),
{
    Double::ratio(516_666_667, 10_000_000)
}

/// The default loss coefficient of a tank [W/K].
#[verifier::allow_in_spec]
pub fn default_ua_w_per_k() -> Double
    returns
        Double::whole(2),
{
    Double::whole(2)
}

/// The default height of a tank [m].
#[verifier::allow_in_spec]
pub fn default_tank_height_m() -> Double
    returns
        Double::ratio(12, 10),
{
    Double::ratio(12, 10)
}

/// The default diameter of a tank [m].
#[verifier::allow_in_spec]
pub fn default_tank_diameter_m() -> Double
    returns
        Double::ratio(1, 2),
{
    Double::ratio(1, 2)
}

/// The conductivity of water [W/(m K)].
#[verifier::allow_in_spec]
pub fn default_conductivity_w_m_k() -> Double
    returns
        Double::ratio(6, 10),
{
    Double::ratio(6, 10)
}

/// 50 US gallons [m³].
#[verifier::allow_in_spec]
pub fn default_tank_volume_m3() -> Double
    returns
        Double::ratio(1_892_705_892, 10_000_000_000),
{
    Double::ratio(1_892_705_892, 10_000_000_000)
}

/// The default temperature at which heating is cut off [°C].
#[verifier::allow_in_spec]
pub fn default_max_tank_temp_c() -> Double
    returns
        Double::whole(60),
{
    Double::whole(60)
}

/// The default deadband of a storage heater: 10 °F [°C].
#[verifier::allow_in_spec]
pub fn default_deadband_c() -> Double
    returns
        Double::ratio(5_555_555_556, 1_000_000_000),
{
    Double::ratio(5_555_555_556, 1_000_000_000)
}

/// The default delivery temperature at fixtures: about 105 °F [°C].
#[verifier::allow_in_spec]
pub fn default_fixture_temp_c() -> Double
    returns
        Double::ratio(406, 10),
{
    Double::ratio(406, 10)
}

/// A value in kilowatts, given in watts.
#[verifier::allow_in_spec]
pub fn power_w_to_kw(power_w: Double) -> Double
    returns
        power_w.over(Double::whole(1000)),
{
    power_w.over(Double::whole(1000))
}

/// A value in watts, given in kilowatts.
#[verifier::allow_in_spec]
pub fn power_kw_to_w(power_kw: Double) -> Double
    returns
        power_kw.times(Double::whole(1000)),
{
    power_kw.times(Double::whole(1000))
}

/// The value given, or a default.
#[verifier::allow_in_spec]
pub fn or_default(value: Option<Double>, default: Double) -> Double
    returns
        (match value {
            Some(v) => v,
            None => default,
        }),
{
    match value {
        Some(v) => v,
        None => default,
    }
}

// ---------------------------------------------------------------------------
// Thermostats
// ---------------------------------------------------------------------------

/// Whether a thermostat calls for heat. One that is off turns on at or below the floor
/// of the deadband; one that is on stays on until the setpoint is reached.
#[verifier::allow_in_spec]
pub fn hysteresis_call(
    sensor_temp_c: Double,
    setpoint_c: Double,
    deadband_c: Double,
    currently_on: bool,
) -> bool
    returns
        (if currently_on {
            sensor_temp_c.lt(setpoint_c)
        } else {
            sensor_temp_c.le(setpoint_c.minus(deadband_c))
        }),
{
    if currently_on {
        sensor_temp_c.lt(setpoint_c)
    } else {
        sensor_temp_c.le(setpoint_c.minus(deadband_c))
    }
}

/// Whether a setpoint can move at a rate, if there is one, for `dt_s` seconds: the ends of
/// its reach are in order. They are not where the setpoint is no number, nor where an
/// infinite setpoint has an infinite reach.
#[verifier::allow_in_spec]
pub fn can_move(current_c: Double, max_rate_c_per_s: Option<Double>, dt_s: Double) -> bool
    returns
        (match max_rate_c_per_s {
            Some(rate) => current_c.minus(rate.times(dt_s)).le(current_c.plus(rate.times(dt_s))),
            None => true,
        }),
{
    match max_rate_c_per_s {
        Some(rate) => current_c.minus(rate.times(dt_s)).le(current_c.plus(rate.times(dt_s))),
        None => true,
    }
}

/// The target, moved to within `max_rate_c_per_s * dt_s` of the current setpoint.
#[verifier::allow_in_spec]
pub fn ramp_limited_setpoint(
    current_c: Double,
    target_c: Double,
    max_rate_c_per_s: Double,
    dt_s: Double,
) -> Double
    requires
        can_move(current_c, Some(max_rate_c_per_s), dt_s),
    returns
        target_c.clamp(
            current_c.minus(max_rate_c_per_s.times(dt_s)),
            current_c.plus(max_rate_c_per_s.times(dt_s)),
        ),
{
    let max_delta: Double = max_rate_c_per_s.times(dt_s);
    target_c.clamp(current_c.minus(max_delta), current_c.plus(max_delta))
}

/// A setpoint moves by no more than the rate allows: to its target where that is within
/// reach, else to the end of its reach. A target may be infinite.
pub proof fn ramp_is_limited(
    current_c: Double,
    target_c: Double,
    max_rate_c_per_s: Double,
    dt_s: Double,
)
    requires
        can_move(current_c, Some(max_rate_c_per_s), dt_s),
        !target_c.is_nan(),
    ensures
        ({
            let delta = max_rate_c_per_s.times(dt_s);
            let low = current_c.minus(delta);
            let high = current_c.plus(delta);
            let next = ramp_limited_setpoint(current_c, target_c, max_rate_c_per_s, dt_s);
            &&& low.le(next)
            &&& next.le(high)
            &&& low.le(target_c) && target_c.le(high) ==> next == target_c
            &&& target_c.gt(high) ==> next == high
            &&& target_c.lt(low) ==> next == low
        }),
{
}

/// A finite setpoint can always move at a rate that is not negative, and stays finite on its
/// way to a finite target.
pub proof fn finite_setpoints_can_move(
    current_c: Double,
    target_c: Double,
    max_rate_c_per_s: Double,
    dt_s: Double,
)
    requires
        current_c.is_finite(),
        crate::tank::is_nonnegative(max_rate_c_per_s),
        crate::tank::is_nonnegative(dt_s),
    ensures
        can_move(current_c, Some(max_rate_c_per_s), dt_s),
        target_c.is_finite() ==> ramp_limited_setpoint(
            current_c,
            target_c,
            max_rate_c_per_s,
            dt_s,
        ).is_finite(),
{
    let delta = max_rate_c_per_s.times(dt_s);
    crate::double_laws::product_is_nonnegative(max_rate_c_per_s, dt_s);
    crate::double_laws::steps_are_ordered(current_c, delta);
    if target_c.is_finite() {
        crate::double_laws::clamp_within_reach(target_c, current_c, delta);
    }
}

/// The largest of some temperatures, a NaN giving way to any other.
pub open spec fn hottest(temps: Seq<Double>) -> Double
    decreases temps.len(),
{
    if temps.len() <= 1 {
        temps[0]
    } else {
        hottest(temps.drop_last()).max(temps.last())
    }
}

/// The largest of some temperatures.
pub fn hottest_of(temps: &[Double]) -> (r: Double)
    requires
        temps@.len() > 0,
    ensures
        r == hottest(temps@),
{
    let mut top: Double = temps[0];
    let mut i: usize = 1;
    while i < temps.len()
        invariant
            1 <= i <= temps@.len(),
            top == hottest(temps@.take(i as int)),
        decreases temps@.len() - i,
    {
        assert(temps@.take(i + 1).drop_last() =~= temps@.take(i as int));
        top = top.max(temps[i]);
        i += 1;
    }
    assert(temps@.take(i as int) =~= temps@);
    top
}

pub open spec fn overheated(temps: Seq<Double>, max_tank_temp_c: Double) -> bool {
    !hottest(temps).is_finite() || hottest(temps).gt(max_tank_temp_c)
}

/// Whether the hottest node is above the limit, or is no number at all.
pub fn is_overheated(tank: &StratifiedTank, max_tank_temp_c: Double) -> (r: bool)
    requires
        tank@.wf(),
    ensures
        r == overheated(tank@.node_temps_c, max_tank_temp_c),
{
    let top: Double = hottest_of(tank.node_temps());
    !top.is_finite() || top.gt(max_tank_temp_c)
}

/// The products of two lists, as far as both go.
pub open spec fn products(a: Seq<Double>, b: Seq<Double>) -> Seq<Double> {
    Seq::new(
        if a.len() <= b.len() {
            a.len()
        } else {
            b.len()
        },
        |i: int| a[i].times(b[i]),
    )
}

/// The average temperature by volume; zero where there is no volume.
pub open spec fn weighted_average(temps: Seq<Double>, volumes: Seq<Double>) -> Double {
    let total = crate::tank::sum(volumes);
    if total.le(Double::zero()) {
        Double::zero()
    } else {
        crate::tank::sum(products(temps, volumes)).over(total)
    }
}

/// The average temperature of a tank by volume.
pub fn weighted_average_tank_temp(node_temps: &[Double], node_volumes_m3: &[Double]) -> (r: Double)
    ensures
        r == weighted_average(node_temps@, node_volumes_m3@),
{
    let total: Double = sum_of_slice(node_volumes_m3);
    if total.le(Double::zero()) {
        return Double::zero();
    }
    let mut weighted: Double = Double::zero();
    let mut i: usize = 0;
    let ghost all = products(node_temps@, node_volumes_m3@);
    assert(all.take(0) =~= Seq::<Double>::empty());
    while i < node_temps.len() && i < node_volumes_m3.len()
        invariant
            i <= all.len(),
            all == products(node_temps@, node_volumes_m3@),
            weighted == crate::tank::sum(all.take(i as int)),
        decreases all.len() - i,
    {
        assert(all.take(i + 1).drop_last() =~= all.take(i as int));
        weighted = weighted.plus(node_temps[i].times(node_volumes_m3[i]));
        i += 1;
    }
    assert(all.take(i as int) =~= all);
    weighted.over(total)
}

/// The sum of a list, from the left.
pub fn sum_of_slice(values: &[Double]) -> (r: Double)
    ensures
        r == crate::tank::sum(values@),
{
    let mut total: Double = Double::zero();
    let mut i: usize = 0;
    assert(values@.take(0) =~= Seq::<Double>::empty());
    while i < values.len()
        invariant
            i <= values@.len(),
            total == crate::tank::sum(values@.take(i as int)),
        decreases values@.len() - i,
    {
        assert(values@.take(i + 1).drop_last() =~= values@.take(i as int));
        total = total.plus(values[i]);
        i += 1;
    }
    assert(values@.take(i as int) =~= values@);
    total
}

// ---------------------------------------------------------------------------
// Demand response
// ---------------------------------------------------------------------------

/// What the grid asks of a heater: a lower setpoint, less load, and for how long.
#[derive(Debug, Clone, Copy, PartialEq, Eq, Structural)]
pub struct DemandResponse {
    pub level: DRLevel,
    pub setpoint_offset_c: Double,
    pub load_fraction: Double,
    pub duration_remaining_s: Option<Double>,
}

/// By how much a level moves the setpoint [°C].
#[verifier::allow_in_spec]
pub fn dr_setpoint_offset_c(level: DRLevel) -> Double
    returns
        (match level {
            DRLevel::Normal => Double::zero(),
            DRLevel::Moderate => Double::whole(3).negate(),
            DRLevel::High => Double::whole(6).negate(),
            DRLevel::Critical => Double::whole(10).negate(),
            DRLevel::GridEmergency => Double::zero(),
        }),
{
    match level {
        DRLevel::Normal => Double::zero(),
        DRLevel::Moderate => Double::whole(3).negate(),
        DRLevel::High => Double::whole(6).negate(),
        DRLevel::Critical => Double::whole(10).negate(),
        DRLevel::GridEmergency => Double::zero(),
    }
}

/// The share of its load that a level leaves to a heater.
#[verifier::allow_in_spec]
pub fn dr_load_fraction(level: DRLevel) -> Double
    returns
        (match level {
            DRLevel::Normal => Double::one(),
            DRLevel::Moderate => Double::one(),
            DRLevel::High => Double::ratio(8, 10),
            DRLevel::Critical => Double::ratio(1, 2),
            DRLevel::GridEmergency => Double::zero(),
        }),
{
    match level {
        DRLevel::Normal => Double::one(),
        DRLevel::Moderate => Double::one(),
        DRLevel::High => Double::ratio(8, 10),
        DRLevel::Critical => Double::ratio(1, 2),
        DRLevel::GridEmergency => Double::zero(),
    }
}

impl DemandResponse {
    /// A level for a time, or until further notice.
    #[verifier::allow_in_spec]
    pub fn at(level: DRLevel, duration_remaining_s: Option<Double>) -> DemandResponse
        returns
            (DemandResponse {
                level,
                setpoint_offset_c: dr_setpoint_offset_c(level),
                load_fraction: dr_load_fraction(level),
                duration_remaining_s,
            }),
    {
        DemandResponse {
            level,
            setpoint_offset_c: dr_setpoint_offset_c(level),
            load_fraction: dr_load_fraction(level),
            duration_remaining_s,
        }
    }

    /// Normal operation.
    #[verifier::allow_in_spec]
    pub fn normal() -> DemandResponse
        returns
            DemandResponse::at(DRLevel::Normal, None),
    {
        DemandResponse::at(DRLevel::Normal, None)
    }

    /// The state `dt_s` seconds later: normal operation once the time is up.
    #[verifier::allow_in_spec]
    pub fn after(self, dt_s: Double) -> DemandResponse
        returns
            (match self.duration_remaining_s {
                Some(remaining) if remaining.minus(dt_s).le(Double::zero()) =>
                    DemandResponse::normal(),
                Some(remaining) => DemandResponse {
                    duration_remaining_s: Some(remaining.minus(dt_s)),
                    ..self
                },
                None => self,
            }),
    {
        match self.duration_remaining_s {
            Some(remaining) => {
                let next: Double = remaining.minus(dt_s);
                if next.le(Double::zero()) {
                    DemandResponse::normal()
                } else {
                    DemandResponse { duration_remaining_s: Some(next), ..self }
                }
            },
            None => self,
        }
    }
}

// ---------------------------------------------------------------------------
// The surroundings
// ---------------------------------------------------------------------------

/// The first zone with a number, from `from` on.
pub open spec fn zone_at(zones: Seq<ZoneState>, id: u16, from: int) -> Option<ZoneState>
    decreases zones.len() - from,
{
    if !(0 <= from < zones.len()) {
        None
    } else if zones[from].id == id {
        Some(zones[from])
    } else {
        zone_at(zones, id, from + 1)
    }
}

/// The zone that a heater stands in.
pub open spec fn zone_of(env: &EnvironmentState, zone: Option<u16>) -> Option<ZoneState> {
    match zone {
        Some(id) => zone_at(env.zones@, id, 0),
        None => None,
    }
}

pub fn find_zone(env: &EnvironmentState, zone: Option<u16>) -> (r: Option<ZoneState>)
    ensures
        r == zone_of(env, zone),
{
    if let Some(id) = zone {
        let mut i: usize = 0;
        while i < env.zones.len()
            invariant
                i <= env.zones@.len(),
                zone == Some(id),
                zone_at(env.zones@, id, 0) == zone_at(env.zones@, id, i as int),
            decreases env.zones@.len() - i,
        {
            if env.zones[i].id == id {
                return Some(env.zones[i]);
            }
            i += 1;
        }
    }
    None
}

/// The temperature around a heater: that of its zone, or outdoors.
pub open spec fn ambient(env: &EnvironmentState, zone: Option<u16>) -> Double {
    match zone_of(env, zone) {
        Some(z) => z.temperature_c,
        None => env.outdoor_temp_c,
    }
}

/// The temperature around a heater.
pub fn ambient_temp_c(env: &EnvironmentState, zone: Option<u16>) -> (r: Double)
    ensures
        r == ambient(env, zone),
{
    match find_zone(env, zone) {
        Some(z) => z.temperature_c,
        None => env.outdoor_temp_c,
    }
}

/// The first loop with a number, from `from` on.
pub open spec fn loop_at(fluid: Seq<FluidAccumulator>, id: u16, from: int) -> Option<
    FluidAccumulator,
>
    decreases fluid.len() - from,
{
    if !(0 <= from < fluid.len()) {
        None
    } else if fluid[from].loop_id == id {
        Some(fluid[from])
    } else {
        loop_at(fluid, id, from + 1)
    }
}

pub fn find_loop(fluid: &[FluidAccumulator], id: u16) -> (r: Option<FluidAccumulator>)
    ensures
        r == loop_at(fluid@, id, 0),
{
    let mut i: usize = 0;
    while i < fluid.len()
        invariant
            i <= fluid@.len(),
            loop_at(fluid@, id, 0) == loop_at(fluid@, id, i as int),
        decreases fluid@.len() - i,
    {
        if fluid[i].loop_id == id {
            return Some(fluid[i]);
        }
        i += 1;
    }
    None
}

/// The flow [kg/s] that appliances ask for; none if there is no such loop.
pub open spec fn dhw_demand(fluid: Seq<FluidAccumulator>) -> Double {
    match loop_at(fluid, DHW_DEMAND_LOOP, 0) {
        Some(acc) => acc.total_flow_kg_s.max(Double::zero()),
        None => Double::zero(),
    }
}

/// The flow [kg/s] that appliances ask for.
pub fn read_dhw_demand_kg_s(fluid: &[FluidAccumulator]) -> (r: Double)
    ensures
        r == dhw_demand(fluid@),
{
    match find_loop(fluid, DHW_DEMAND_LOOP) {
        Some(acc) => acc.total_flow_kg_s.max(Double::zero()),
        None => Double::zero(),
    }
}

/// The first domain with a number, from `from` on: its payload's first value.
pub open spec fn domain_value(domains: Seq<CustomDomain>, id: u16, from: int) -> Option<Double>
    decreases domains.len() - from,
{
    if !(0 <= from < domains.len()) {
        None
    } else if domains[from].domain_id == id {
        match domains[from].payload {
            Some(payload) if payload@.len() > 0 => Some(payload@[0]),
            _ => None,
        }
    } else {
        domain_value(domains, id, from + 1)
    }
}

fn find_domain_value(domains: &Vec<CustomDomain>, id: u16) -> (r: Option<Double>)
    ensures
        r == domain_value(domains@, id, 0),
{
    let mut i: usize = 0;
    while i < domains.len()
        invariant
            i <= domains@.len(),
            domain_value(domains@, id, 0) == domain_value(domains@, id, i as int),
        decreases domains@.len() - i,
    {
        if domains[i].domain_id == id {
            return match &domains[i].payload {
                Some(payload) => if payload.len() > 0 {
                    Some(payload[0])
                } else {
                    None
                },
                None => None,
            };
        }
        i += 1;
    }
    None
}

/// A value, if it is given and finite.
#[verifier::allow_in_spec]
pub fn if_finite(value: Option<Double>) -> Option<Double>
    returns
        (match value {
            Some(v) if v.is_finite() => Some(v),
            _ => None,
        }),
{
    match value {
        Some(v) => if v.is_finite() {
            Some(v)
        } else {
            None
        },
        None => None,
    }
}

/// The temperature of the mains water: as published, if that is a finite number, or else
/// the fallback.
pub open spec fn mains_temp(env: &EnvironmentState, fallback_mains_temp_c: Double) -> Double {
    or_default(
        if_finite(domain_value(env.custom_domains@, MAINS_WATER_DOMAIN_ID, 0)),
        fallback_mains_temp_c,
    )
}

/// The temperature of the mains water in this step.
pub fn resolve_mains_temp_c(env: &EnvironmentState, fallback_mains_temp_c: Double) -> (r: Double)
    ensures
        r == mains_temp(env, fallback_mains_temp_c),
{
    or_default(
        if_finite(find_domain_value(&env.custom_domains, MAINS_WATER_DOMAIN_ID)),
        fallback_mains_temp_c,
    )
}

/// What the schedules of a heater give in one step; `None` where there is no schedule,
/// or where it gave an error.
#[derive(Debug, Clone, Copy, PartialEq, Eq, Structural)]
pub struct ScheduleReadings {
    /// The draw [kg/s].
    pub draw_rate_kg_s: Option<Double>,
    /// The temperature of the mains water [°C].
    pub mains_temp_c: Option<Double>,
}

/// The mains temperature and the draw of a step: as scheduled, if that is finite, a
/// negative draw counting as none; else the mains temperature as published, and the
/// configured draw.
pub open spec fn storage_step_inputs(
    env: &EnvironmentState,
    fallback_mains_temp_c: Double,
    fallback_draw_rate_kg_s: Double,
    readings: ScheduleReadings,
) -> (Double, Double) {
    (
        match if_finite(readings.mains_temp_c) {
            Some(v) => v,
            None => mains_temp(env, fallback_mains_temp_c),
        },
        match if_finite(readings.draw_rate_kg_s) {
            Some(v) => v.max(Double::zero()),
            None => fallback_draw_rate_kg_s,
        },
    )
}

/// The mains temperature and the draw of a step.
pub fn resolve_storage_step_inputs(
    env: &EnvironmentState,
    fallback_mains_temp_c: Double,
    fallback_draw_rate_kg_s: Double,
    readings: ScheduleReadings,
) -> (r: (Double, Double))
    ensures
        r == storage_step_inputs(env, fallback_mains_temp_c, fallback_draw_rate_kg_s, readings),
{
    let mains_temp_c: Double = match if_finite(readings.mains_temp_c) {
        Some(v) => v,
        None => resolve_mains_temp_c(env, fallback_mains_temp_c),
    };
    let draw_rate_kg_s: Double = match if_finite(readings.draw_rate_kg_s) {
        Some(v) => v.max(Double::zero()),
        None => fallback_draw_rate_kg_s,
    };
    (mains_temp_c, draw_rate_kg_s)
}

} // verus!
