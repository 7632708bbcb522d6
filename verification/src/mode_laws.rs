//! Laws of operating modes: what an override lets run, and what the mode of a heater tells; and of
//! the places that heaters are put in.
use vstd::arithmetic::power2::*;
use vstd::prelude::*;

use crate::approx::{one_is_tame, tame_units, whole_is_tame};
use crate::double::Double;
use crate::gas::GasWH;
use crate::heat_pump_wh::{mode_number, mode_of, HeatPumpWH, HpState};
use crate::hpwh_compressor::ElementHpControlMode;
use crate::indirect_tank::IndirectTank;
use crate::resistance::ResistanceWH;
use crate::tankless::TanklessState;
use crate::thermostat_laws::{calls, is_sensible, lemma_calls};
use crate::types::{FuelType, OperatingMode, PortDeclaration};
use crate::wh_config::{
    ElectricResistanceWaterHeaterConfig, GasWaterHeaterConfig, HeatPumpWaterHeaterConfig,
    IndirectTankConfig,
};

verus! {

// ---------------------------------------------------------------------------
// Overrides
// ---------------------------------------------------------------------------

/// A heat pump as it is switched under an override.
pub open spec fn overridden(
    s: HpState,
    mode: OperatingMode,
    control_c: Double,
    ambient_c: Double,
) -> HpState {
    (HpState { mode_override: Some(mode), ..s }).switched(false, control_c, ambient_c)
}

/// An override chooses which parts of a heat pump may run, and the thermostat whether they do: an
/// override to both runs each as an override to it alone does.
pub proof fn overrides_choose_the_parts(s: HpState, control_c: Double, ambient_c: Double)
    requires
        !s.dr.load_fraction.le(Double::zero()),
        s.duty_cycle.gt(Double::zero()),
        is_sensible(control_c, s.setpoint_c.plus(s.dr.setpoint_offset_c), s.deadband_c),
        ambient_c.is_finite(),
        s.min_ambient_temp_c.is_finite(),
        s.max_ambient_temp_c.is_finite(),
    ensures
        ({
            let target_c = s.setpoint_c.plus(s.dr.setpoint_offset_c);
            let ran = s.compressor_on || s.backup_on;
            let suits = s.min_ambient_temp_c.units() <= ambient_c.units()
                <= s.max_ambient_temp_c.units();
            let compressor = overridden(s, OperatingMode::HeatPumpWH, control_c, ambient_c);
            let element = overridden(s, OperatingMode::BackupElement, control_c, ambient_c);
            let both = overridden(s, OperatingMode::HeatingHPAndER, control_c, ambient_c);
            let neither = overridden(s, OperatingMode::Off, control_c, ambient_c);
            &&& !compressor.backup_on
            &&& !element.compressor_on
            &&& both.compressor_on == compressor.compressor_on
            &&& both.backup_on == element.backup_on
            &&& !neither.compressor_on && !neither.backup_on
            &&& !suits ==> !compressor.compressor_on
            &&& suits && s.compressor_off_since_s is None ==> calls(
                control_c,
                target_c,
                s.deadband_c,
                ran,
                compressor.compressor_on,
            )
            &&& s.hp_only_mode ==> !element.backup_on
            &&& !s.hp_only_mode ==> calls(
                control_c,
                target_c,
                s.deadband_c,
                ran,
                element.backup_on,
            )
            // The names that any heater has for these modes mean the same.
            &&& overridden(s, OperatingMode::HeatingHP, control_c, ambient_c).mode()
                == compressor.mode()
            &&& overridden(s, OperatingMode::HeatingER, control_c, ambient_c).mode()
                == element.mode()
        }),
{
    let target_c = s.setpoint_c.plus(s.dr.setpoint_offset_c);
    lemma_calls(control_c, target_c, s.deadband_c, s.compressor_on || s.backup_on);
    crate::double_laws::order_agrees_with_value(s.min_ambient_temp_c, ambient_c);
    crate::double_laws::order_agrees_with_value(ambient_c, s.max_ambient_temp_c);
}

/// Where the parts of a heat pump exclude each other, a backup element that runs goes on alone
/// while it is wanted, and the compressor does not start beside it.
pub proof fn backup_elements_finish_alone(s: HpState, control_c: Double, ambient_c: Double)
    requires
        s.element_hp_control == ElementHpControlMode::MutuallyExclusive,
        s.backup_on,
        !s.compressor_on,
        !s.hp_only_mode,
        s.mode_override is None,
        !s.dr.load_fraction.le(Double::zero()),
        s.duty_cycle.gt(Double::zero()),
        is_sensible(control_c, s.setpoint_c.plus(s.dr.setpoint_offset_c), s.deadband_c),
        is_sensible(
            control_c,
            s.setpoint_c.plus(s.dr.setpoint_offset_c),
            s.backup_enable_offset_c,
        ),
        ambient_c.is_finite(),
        s.min_ambient_temp_c.is_finite(),
        s.max_ambient_temp_c.is_finite(),
        s.min_ambient_temp_c.units() <= ambient_c.units() <= s.max_ambient_temp_c.units(),
    ensures
        ({
            let after = s.switched(false, control_c, ambient_c);
            let target_c = s.setpoint_c.plus(s.dr.setpoint_offset_c);
            &&& !after.compressor_on
            &&& control_c.units() < target_c.units() ==> calls(
                control_c,
                target_c,
                s.backup_enable_offset_c,
                false,
                after.backup_on,
            )
            &&& control_c.units() >= target_c.units() ==> !after.backup_on
        }),
{
    let target_c = s.setpoint_c.plus(s.dr.setpoint_offset_c);
    tame_units(control_c, 40);
    tame_units(target_c, 40);
    lemma_calls(control_c, target_c, s.deadband_c, true);
    lemma_calls(control_c, target_c, s.backup_enable_offset_c, false);
    crate::double_laws::order_agrees_with_value(s.min_ambient_temp_c, ambient_c);
    crate::double_laws::order_agrees_with_value(ambient_c, s.max_ambient_temp_c);
}

// ---------------------------------------------------------------------------
// Reported modes
// ---------------------------------------------------------------------------

/// The mode of a heat pump tells which of its parts run: its number counts one for the compressor
/// and two for the backup element.
pub proof fn modes_tell_what_runs(compressor_on: bool, backup_on: bool)
    ensures
        ({
            let h = pow2(1074) as int;
            let compressor: int = if compressor_on {
                1
            } else {
                0
            };
            let element: int = if backup_on {
                2
            } else {
                0
            };
            let mode = mode_of(compressor_on, backup_on);
            &&& mode_number(mode).is_finite()
            &&& mode_number(mode).units() == (compressor + element) * h
            &&& mode == OperatingMode::Off <==> !compressor_on && !backup_on
            &&& mode == OperatingMode::HeatPumpWH <==> compressor_on && !backup_on
            &&& mode == OperatingMode::BackupElement <==> !compressor_on && backup_on
            &&& mode == OperatingMode::HeatingHPAndER <==> compressor_on && backup_on
        }),
{
    one_is_tame();
    whole_is_tame(2);
    whole_is_tame(3);
    tame_units(Double::whole(2), 53);
    tame_units(Double::whole(3), 53);
    let h = pow2(1074) as int;
    assert(0 * h == 0 && 1 * h == h);
}

/// A tankless heater heats exactly where it is not overridden, has a duty cycle and a load left,
/// and has power if it needs it.
pub proof fn tankless_heaters_heat_unless_held(s: TanklessState, bus_energized: bool)
    requires
        s.duty_cycle.is_finite(),
        s.dr.load_fraction.is_finite(),
    ensures
        s.mode(bus_energized) == OperatingMode::Heating || s.mode(bus_energized)
            == OperatingMode::Off,
        s.mode(bus_energized) == OperatingMode::Heating <==> {
            &&& s.mode_override != Some(OperatingMode::Off)
            &&& 0 < s.duty_cycle.units()
            &&& 0 < s.dr.load_fraction.units()
            &&& s.fuel_type == FuelType::Electric ==> bus_energized
        },
{
    one_is_tame();
    crate::double_laws::order_agrees_with_value(Double::zero(), s.duty_cycle);
    crate::double_laws::order_agrees_with_value(Double::zero(), s.dr.load_fraction);
}

// ---------------------------------------------------------------------------
// Places
// ---------------------------------------------------------------------------

/// The zone that a heater stands in: as configured, or as before.
pub open spec fn stands_in(
    given: Option<u16>,
    before: Option<u16>,
    after: Option<u16>,
    ports: Seq<PortDeclaration>,
) -> bool {
    &&& given is Some ==> after == given
    &&& given is None ==> after == before
    &&& ports.contains(PortDeclaration::Thermal { zone: after })
}

/// Heaters stand in the zone of their configuration, and have a port to it.
pub proof fn heaters_are_put_in_their_zone(
    gas: (GasWH, GasWH, GasWaterHeaterConfig),
    resistance: (ResistanceWH, ResistanceWH, ElectricResistanceWaterHeaterConfig),
    hp: (HeatPumpWH, HeatPumpWH, HeatPumpWaterHeaterConfig),
    indirect: (IndirectTank, IndirectTank, IndirectTankConfig),
)
    requires
        gas.0.ports@.len() == 5,
        resistance.0.ports@.len() == 4,
        hp.0.ports@.len() == 4,
        indirect.0.ports@.len() == 3,
        GasWH::placed(&gas.0, &gas.1, &gas.2),
        ResistanceWH::placed(&resistance.0, &resistance.1, &resistance.2),
        HeatPumpWH::placed(&hp.0, &hp.1, &hp.2),
        IndirectTank::placed(&indirect.0, &indirect.1, &indirect.2),
    ensures
        stands_in(
            gas.2.zone_id,
            gas.0.descriptor.zone,
            gas.1.descriptor.zone,
            gas.1.ports@,
        ),
        stands_in(
            resistance.2.zone_id,
            resistance.0.descriptor.zone,
            resistance.1.descriptor.zone,
            resistance.1.ports@,
        ),
        stands_in(hp.2.zone_id, hp.0.descriptor.zone, hp.1.descriptor.zone, hp.1.ports@),
        stands_in(
            indirect.2.zone_id,
            indirect.0.descriptor.zone,
            indirect.1.descriptor.zone,
            indirect.1.ports@,
        ),
        gas.2.equipment_id is Some ==> gas.1.descriptor.id == gas.2.equipment_id->0,
        resistance.2.equipment_id is Some ==> resistance.1.descriptor.id
            == resistance.2.equipment_id->0,
        hp.2.equipment_id is Some ==> hp.1.descriptor.id == hp.2.equipment_id->0,
        indirect.2.equipment_id is Some ==> indirect.1.descriptor.id
            == indirect.2.equipment_id->0,
        gas.2.loop_id is Some ==> gas.1.ports@.contains(
            PortDeclaration::Fluid { loop_id: gas.2.loop_id->0 },
        ),
        resistance.2.loop_id is Some ==> resistance.1.ports@.contains(
            PortDeclaration::Fluid { loop_id: resistance.2.loop_id->0 },
        ),
        hp.2.loop_id is Some ==> hp.1.ports@.contains(
            PortDeclaration::Fluid { loop_id: hp.2.loop_id->0 },
        ),
        indirect.2.boiler_loop_id is Some ==> indirect.1.ports@.contains(
            PortDeclaration::Fluid { loop_id: indirect.2.boiler_loop_id->0 },
        ),
{
    assert(gas.1.ports@[2] == PortDeclaration::Thermal { zone: gas.1.descriptor.zone });
    assert(gas.2.loop_id is Some ==> gas.1.ports@[3] == PortDeclaration::Fluid {
        loop_id: gas.2.loop_id->0,
    });
    assert(resistance.1.ports@[1] == PortDeclaration::Thermal {
        zone: resistance.1.descriptor.zone,
    });
    assert(resistance.2.loop_id is Some ==> resistance.1.ports@[2] == PortDeclaration::Fluid {
        loop_id: resistance.2.loop_id->0,
    });
    assert(hp.1.ports@[1] == PortDeclaration::Thermal { zone: hp.1.descriptor.zone });
    assert(hp.2.loop_id is Some ==> hp.1.ports@[2] == PortDeclaration::Fluid {
        loop_id: hp.2.loop_id->0,
    });
    assert(indirect.1.ports@[2] == PortDeclaration::Thermal { zone: indirect.1.descriptor.zone });
    assert(indirect.2.boiler_loop_id is Some ==> indirect.1.ports@[0] == PortDeclaration::Fluid {
        loop_id: indirect.2.boiler_loop_id->0,
    });
}

/// Where the parts of a configured heater are in its tank: every one within it, the upper element
/// no lower than the lower one, the condenser in the middle, and the sensors of a heat pump at the
/// ends.
pub proof fn parts_are_within_the_tank(n_nodes: usize, hp: HpState, c: HeatPumpWaterHeaterConfig)
    requires
        0 < n_nodes,
    ensures
        ({
            let upper = crate::resistance::typed_upper_node(n_nodes) as int;
            let lower = crate::resistance::typed_lower_node(n_nodes) as int;
            let burner = crate::gas::typed_burner_node(n_nodes) as int;
            let n = crate::storage::typed_node_count(c.tank_nodes) as int;
            let placed = hp.placed(&c);
            &&& 0 <= upper <= lower < n_nodes
            &&& n_nodes == 12 ==> upper == n_nodes - 1 - lower
            &&& n_nodes < 12 ==> upper == 0 && lower == n_nodes - 1
            &&& n_nodes >= 12 ==> upper == 2 && lower == 9
            &&& 0 <= burner < n_nodes
            &&& burner < 5 ==> burner == n_nodes - 1
            &&& burner <= 5
            &&& placed.thermostat_upper_node == 0
            &&& placed.thermostat_node == n - 1
            &&& 2 * placed.condenser_node <= n < 2 * placed.condenser_node + 2
            &&& c.setpoint_c is Some ==> placed.setpoint_c == c.setpoint_c->0
            &&& c.deadband_c is Some ==> placed.deadband_c == c.deadband_c->0
            &&& placed.target_setpoint_c == placed.setpoint_c
            &&& placed.setpoint_ramp_rate_c_per_s is None
        }),
{
}

} // verus!
