//! What holds of every configuration that passes its checks.
use vstd::prelude::*;

use crate::double::Double;
use crate::wh_config::{
    ElectricResistanceWaterHeaterConfig, GasWaterHeaterConfig, HeatPumpWaterHeaterConfig,
    IndirectTankConfig,
};

verus! {

/// A setpoint between 40 and 85 °C, a deadband and a loss coefficient above zero, and a
/// setpoint that is below the limit of the tank by more than the deadband, each as far as
/// it is given.
pub open spec fn sound_storage(
    setpoint_c: Option<Double>,
    deadband_c: Option<Double>,
    ua_w_per_k: Option<Double>,
    max_tank_temp_c: Option<Double>,
) -> bool {
    &&& setpoint_c matches Some(sp) ==> sp.is_finite() && Double::whole(40).le(sp) && sp.le(
        Double::whole(85),
    )
    &&& deadband_c matches Some(db) ==> db.is_finite() && db.gt(Double::zero())
    &&& ua_w_per_k matches Some(ua) ==> ua.is_finite() && ua.gt(Double::zero())
    &&& setpoint_c is Some && max_tank_temp_c is Some ==> !setpoint_c->0.ge(
        crate::checks::setpoint_limit(max_tank_temp_c->0, deadband_c),
    )
}

/// A configuration of a gas heater that passes its checks is sound; one that is not sound is
/// refused.
pub proof fn valid_gas_is_sound(c: GasWaterHeaterConfig)
    requires
        c.fault() is None,
    ensures
        sound_storage(c.setpoint_c, c.deadband_c, c.ua_w_per_k, c.max_tank_temp_c),
{
    let checks = c.spec_checks();
    crate::checks::first_fault_is_first(checks);
    assert(checks[6].passes() && checks[6].value == c.setpoint_c);
    assert(checks[7].passes() && checks[7].value == c.deadband_c);
    assert(checks[5].passes() && checks[5].value == c.ua_w_per_k);
}

/// A configuration of a resistance heater that passes its checks is sound; one that is not sound is
/// refused.
pub proof fn valid_resistance_is_sound(c: ElectricResistanceWaterHeaterConfig)
    requires
        c.fault() is None,
    ensures
        sound_storage(c.setpoint_c, c.deadband_c, c.ua_w_per_k, c.max_tank_temp_c),
{
    let checks = c.spec_checks();
    crate::checks::first_fault_is_first(checks);
    assert(checks[6].passes() && checks[6].value == c.setpoint_c);
    assert(checks[7].passes() && checks[7].value == c.deadband_c);
    assert(checks[5].passes() && checks[5].value == c.ua_w_per_k);
}

/// A configuration of a heat pump heater that passes its checks is sound; one that is not sound is
/// refused.
pub proof fn valid_heat_pump_is_sound(c: HeatPumpWaterHeaterConfig)
    requires
        c.fault() is None,
    ensures
        sound_storage(c.setpoint_c, c.deadband_c, c.ua_w_per_k, c.max_tank_temp_c),
{
    let checks = c.spec_checks();
    crate::checks::first_fault_is_first(checks);
    assert(checks[5].passes() && checks[5].value == c.setpoint_c);
    assert(checks[6].passes() && checks[6].value == c.deadband_c);
    assert(checks[4].passes() && checks[4].value == c.ua_w_per_k);
}

/// A configuration of a indirect tank that passes its checks is sound; one that is not sound is
/// refused.
pub proof fn valid_indirect_is_sound(c: IndirectTankConfig)
    requires
        c.fault() is None,
    ensures
        sound_storage(c.setpoint_c, c.deadband_c, c.ua_w_per_k, c.max_tank_temp_c),
{
    let checks = c.spec_checks();
    crate::checks::first_fault_is_first(checks);
    assert(checks[4].passes() && checks[4].value == c.setpoint_c);
    assert(checks[5].passes() && checks[5].value == c.deadband_c);
    assert(checks[2].passes() && checks[2].value == c.ua_w_per_k);
}

} // verus!
