//! Electric resistance water heater model.
use vstd::prelude::*;

use crate::config::{copied_text, is_text, parse_usize, EquipmentConfig};
use crate::defaults::default_tank;
use crate::double::Double;
use crate::error::{ControlFault, HaresError, Result};
use crate::registry::{EquipmentRegistry, HeaterKind, Registration};
use crate::shared::{
    ambient_temp_c, default_deadband_c, default_fixture_temp_c, default_max_tank_temp_c,
    default_setpoint_c, hysteresis_call, is_overheated, or_default, power_kw_to_w, power_w_to_kw,
    can_move, ramp_limited_setpoint, read_dhw_demand_kg_s, resolve_storage_step_inputs,
    weighted_average_tank_temp, DemandResponse, ScheduleReadings, DHW_DEMAND_LOOP,
};
use crate::storage::{
    build_typed_tank, node_count, node_index, push_when, typed_node_count,
};
use crate::tank::{DrawResult, StratifiedTank, StratifiedTankState, TemperedDrawConfig};
use crate::time::Duration;
use crate::types::{
    push_node_fields, ActivePower, ControlCapabilities, ControlSignal, CoreCapabilities,
    CoreOutput, EnvironmentState, EquipmentDescriptor, FluidAccumulator, FuelType, OperatingMode,
    PortContribution, PortDeclaration, ScheduleSource, TelemetryField, TelemetryKey,
};
use crate::wh_config::ElectricResistanceWaterHeaterConfig;
use crate::zip::WaterHeaterZip;

verus! {

/// How the two elements of a heater share the work.
#[derive(Debug, Clone, Copy, PartialEq, Eq, Structural)]
pub enum ElementPriorityMode {
    /// The upper element (master) locks out the lower one (slave) while it heats. This is
    /// the usual wiring of residential heaters.
    MasterSlave,
    /// Both elements follow their own thermostats.
    Simultaneous,
}

impl Default for ElementPriorityMode {
    fn default() -> (r: ElementPriorityMode)
        ensures
            r == ElementPriorityMode::MasterSlave,
    {
        ElementPriorityMode::MasterSlave
    }
}

/// The default power of an element [W].
#[verifier::allow_in_spec]
pub fn default_element_power_w() -> Double
    returns
        Double::whole(4500),
{
    Double::whole(4500)
}

/// The figures that the heater records.
#[derive(Debug, Clone, Copy, PartialEq, Eq, Structural)]
pub struct ResistanceTelemetry {
    pub tank_avg_temp_c: Double,
    pub upper_element_power_w: Double,
    pub lower_element_power_w: Double,
    pub electric_kw: Double,
    pub element_kw: Double,
    pub electric_power_w: Double,
    pub draw_flow_rate_kg_s: Double,
    pub unmet_load_w: Double,
    pub operating_mode: Double,
    pub outlet_temp_c: Double,
}

impl ResistanceTelemetry {
    /// Nothing recorded yet.
    #[verifier::allow_in_spec]
    pub fn empty() -> ResistanceTelemetry
        returns
            (ResistanceTelemetry {
                tank_avg_temp_c: Double::zero(),
                upper_element_power_w: Double::zero(),
                lower_element_power_w: Double::zero(),
                electric_kw: Double::zero(),
                element_kw: Double::zero(),
                electric_power_w: Double::zero(),
                draw_flow_rate_kg_s: Double::zero(),
                unmet_load_w: Double::zero(),
                operating_mode: Double::zero(),
                outlet_temp_c: Double::zero(),
            }),
    {
        ResistanceTelemetry {
            tank_avg_temp_c: Double::zero(),
            upper_element_power_w: Double::zero(),
            lower_element_power_w: Double::zero(),
            electric_kw: Double::zero(),
            element_kw: Double::zero(),
            electric_power_w: Double::zero(),
            draw_flow_rate_kg_s: Double::zero(),
            unmet_load_w: Double::zero(),
            operating_mode: Double::zero(),
            outlet_temp_c: Double::zero(),
        }
    }
}

/// The settings of the heater, and what it is doing.
#[derive(Debug, Clone, Copy, PartialEq, Eq, Structural)]
pub struct ResistanceState {
    pub upper_node: usize,
    pub lower_node: usize,
    pub upper_element_power_w: Double,
    pub lower_element_power_w: Double,
    /// Limit of the power of both elements together, where they may run together.
    pub max_combined_power_w: Option<Double>,
    pub setpoint_c: Double,
    pub deadband_c: Double,
    pub max_tank_temp_c: Double,
    pub duty_cycle: Double,
    pub mode_override: Option<OperatingMode>,
    pub element_priority: ElementPriorityMode,
    pub upper_element_on: bool,
    pub lower_element_on: bool,
    pub loop_id: u16,
    pub mains_temp_c: Double,
    pub draw_flow_rate_kg_s: Double,
    pub draw_source: Option<ScheduleSource>,
    pub mains_temp_c_source: Option<ScheduleSource>,
    pub zip: WaterHeaterZip,
    /// Where the setpoint is moving to.
    pub target_setpoint_c: Double,
    /// How fast the setpoint moves; at once if `None`.
    pub setpoint_ramp_rate_c_per_s: Option<Double>,
    pub fixture_delivery_temp_c: Double,
    pub hot_draw_temp_c: Option<Double>,
    pub dr: DemandResponse,
    /// Load fraction asked for by a controller; for one step only.
    pub ctrl_load_fraction: Double,
    /// Whether the zone was configured, or is the default one.
    pub zone_id_explicit: bool,
    pub telemetry: ResistanceTelemetry,
    pub core_output: CoreOutput,
}

/// What only the outside can tell about a step.
#[derive(Debug, Clone, Copy, PartialEq, Eq, Structural)]
pub struct ResistanceOutside {
    /// The density of water at the temperature of the top node [kg/m³].
    pub water_density_kg_m3: Double,
    /// The heat [W] that would hold the upper node at the setpoint over the step.
    pub ideal_upper_w: Double,
    /// The heat [W] that would hold the lower node at the setpoint over the step.
    pub ideal_lower_w: Double,
}

/// What a step came to.
#[derive(Debug, Clone, Copy, PartialEq, Eq, Structural)]
pub struct ResistanceFigures {
    pub mode: OperatingMode,
    pub upper_power_w: Double,
    pub lower_power_w: Double,
    pub electric_power_w: Double,
    pub reactive_power_kvar: Double,
    pub total_draw_kg_s: Double,
    pub mains_temp_c: Double,
    pub draw: DrawResult,
}

/// The temperature at the lower thermostat: the average of the lower node and the one
/// above it, in a tank of three nodes or more.
pub open spec fn lower_sensor(temps: Seq<Double>, lower_node: int) -> Double {
    if temps.len() >= 3 && lower_node > 0 {
        temps[lower_node].plus(temps[lower_node - 1]).times(Double::ratio(1, 2))
    } else {
        temps[lower_node]
    }
}

impl ResistanceState {
    /// The setpoint with what the grid asks for.
    #[verifier::allow_in_spec]
    pub fn effective_setpoint_c(self) -> Double
        returns
            self.setpoint_c.plus(self.dr.setpoint_offset_c),
    {
        self.setpoint_c.plus(self.dr.setpoint_offset_c)
    }

    /// Whether the setpoint can move for `dt_s` seconds.
    #[verifier::allow_in_spec]
    pub fn can_ramp(self, dt_s: Double) -> bool
        returns
            can_move(self.setpoint_c, self.setpoint_ramp_rate_c_per_s, dt_s),
    {
        can_move(self.setpoint_c, self.setpoint_ramp_rate_c_per_s, dt_s)
    }

    /// Where the setpoint moves at a rate, both it and its target are finite.
    pub open spec fn ramps_finitely(self) -> bool {
        self.setpoint_ramp_rate_c_per_s is Some ==> {
            &&& crate::tank::is_nonnegative(self.setpoint_ramp_rate_c_per_s->0)
            &&& self.setpoint_c.is_finite()
            &&& self.target_setpoint_c.is_finite()
        }
    }

    /// The state `dt_s` seconds later: the setpoint has moved towards its target, and the
    /// time of a demand response has run on.
    pub open spec fn spec_later(self, dt_s: Double) -> ResistanceState {
        ResistanceState {
            setpoint_c: match self.setpoint_ramp_rate_c_per_s {
                Some(rate) => ramp_limited_setpoint(
                    self.setpoint_c,
                    self.target_setpoint_c,
                    rate,
                    dt_s,
                ),
                None => self.setpoint_c,
            },
            dr: self.dr.after(dt_s),
            ..self
        }
    }

    #[verifier::when_used_as_spec(spec_later)]
    pub fn later(self, dt_s: Double) -> (r: ResistanceState)
        requires
            self.can_ramp(dt_s),
        ensures
            r == self.later(dt_s),
    {
        let setpoint_c: Double = match self.setpoint_ramp_rate_c_per_s {
            Some(rate) => ramp_limited_setpoint(
                self.setpoint_c,
                self.target_setpoint_c,
                rate,
                dt_s,
            ),
            None => self.setpoint_c,
        };
        ResistanceState { setpoint_c, dr: self.dr.after(dt_s), ..self }
    }

    /// Whether the load is shed, switched off or cut to nothing.
    #[verifier::allow_in_spec]
    pub fn is_shed(self) -> bool
        returns
            self.dr.load_fraction.le(Double::zero()) || self.mode_override == Some(
                OperatingMode::Off,
            ) || self.duty_cycle.le(Double::zero()),
    {
        let switched_off: bool = match self.mode_override {
            Some(mode) => mode == OperatingMode::Off,
            None => false,
        };
        self.dr.load_fraction.le(Double::zero()) || switched_off || self.duty_cycle.le(
            Double::zero(),
        )
    }

    /// The elements after the thermostats have spoken; a master that heats locks out its
    /// slave.
    pub open spec fn spec_switched(
        self,
        overheated: bool,
        upper_temp_c: Double,
        lower_temp_c: Double,
    ) -> ResistanceState {
        if overheated || self.is_shed() {
            ResistanceState { upper_element_on: false, lower_element_on: false, ..self }
        } else {
            let upper = hysteresis_call(
                upper_temp_c,
                self.effective_setpoint_c(),
                self.deadband_c,
                self.upper_element_on,
            );
            let lower = hysteresis_call(
                lower_temp_c,
                self.effective_setpoint_c(),
                self.deadband_c,
                self.lower_element_on,
            );
            ResistanceState {
                upper_element_on: upper,
                lower_element_on: lower && !(upper && self.element_priority
                    == ElementPriorityMode::MasterSlave),
                ..self
            }
        }
    }

    #[verifier::when_used_as_spec(spec_switched)]
    pub fn switched(self, overheated: bool, upper_temp_c: Double, lower_temp_c: Double) -> (r:
        ResistanceState)
        ensures
            r == self.switched(overheated, upper_temp_c, lower_temp_c),
    {
        if overheated || self.is_shed() {
            return ResistanceState { upper_element_on: false, lower_element_on: false, ..self };
        }
        let upper: bool = hysteresis_call(
            upper_temp_c,
            self.effective_setpoint_c(),
            self.deadband_c,
            self.upper_element_on,
        );
        let lower: bool = hysteresis_call(
            lower_temp_c,
            self.effective_setpoint_c(),
            self.deadband_c,
            self.lower_element_on,
        );
        ResistanceState {
            upper_element_on: upper,
            lower_element_on: lower && !(upper && self.element_priority
                == ElementPriorityMode::MasterSlave),
            ..self
        }
    }

    /// What the heater is doing.
    #[verifier::allow_in_spec]
    pub fn mode(self) -> OperatingMode
        returns
            (if self.upper_element_on || self.lower_element_on {
                OperatingMode::Heating
            } else {
                OperatingMode::Off
            }),
    {
        if self.upper_element_on || self.lower_element_on {
            OperatingMode::Heating
        } else {
            OperatingMode::Off
        }
    }

    /// The share of their power at which controllers let the elements run.
    #[verifier::allow_in_spec]
    pub fn control_duty(self) -> Double
        returns
            self.duty_cycle.times(self.dr.load_fraction).times(self.ctrl_load_fraction).clamp(
                Double::zero(),
                Double::one(),
            ),
    {
        self.duty_cycle.times(self.dr.load_fraction).times(self.ctrl_load_fraction).clamp(
            Double::zero(),
            Double::one(),
        )
    }

    /// The power of an element. In coarse steps (`ideal_w`) it heats only as much as holds
    /// the setpoint.
    pub open spec fn spec_element_power(
        self,
        on: bool,
        rated_w: Double,
        ideal_w: Option<Double>,
    ) -> Double {
        match ideal_w {
            Some(ideal_w) => if on && rated_w.gt(Double::zero()) {
                rated_w.times(
                    ideal_w.over(rated_w).clamp(Double::zero(), Double::one()),
                ).times(self.control_duty())
            } else {
                Double::zero()
            },
            None => if on {
                rated_w.times(self.control_duty())
            } else {
                Double::zero()
            },
        }
    }

    #[verifier::when_used_as_spec(spec_element_power)]
    pub fn element_power(self, on: bool, rated_w: Double, ideal_w: Option<Double>) -> (r: Double)
        ensures
            r == self.element_power(on, rated_w, ideal_w),
    {
        match ideal_w {
            Some(ideal_w) => if on && rated_w.gt(Double::zero()) {
                rated_w.times(
                    ideal_w.over(rated_w).clamp(Double::zero(), Double::one()),
                ).times(self.control_duty())
            } else {
                Double::zero()
            },
            None => if on {
                rated_w.times(self.control_duty())
            } else {
                Double::zero()
            },
        }
    }

    /// The power that the limit leaves to the upper element.
    #[verifier::allow_in_spec]
    pub fn capped_upper(self, upper_w: Double) -> Double
        returns
            (match self.max_combined_power_w {
                Some(max_w) if self.element_priority == ElementPriorityMode::Simultaneous
                    && upper_w.gt(max_w) => max_w.max(Double::zero()),
                _ => upper_w,
            }),
    {
        if let Some(max_w) = self.max_combined_power_w {
            if self.element_priority == ElementPriorityMode::Simultaneous && upper_w.gt(max_w) {
                return max_w.max(Double::zero());
            }
        }
        upper_w
    }

    /// The power that the limit leaves to the lower element beside the upper one, which
    /// comes first.
    pub open spec fn spec_capped_lower(self, upper_w: Double, lower_w: Double) -> Double {
        match self.max_combined_power_w {
            Some(max_w) if self.element_priority == ElementPriorityMode::Simultaneous
                && upper_w.plus(lower_w).gt(max_w) => max_w.minus(upper_w).max(Double::zero()),
            _ => lower_w,
        }
    }

    #[verifier::when_used_as_spec(spec_capped_lower)]
    pub fn capped_lower(self, upper_w: Double, lower_w: Double) -> (r: Double)
        ensures
            r == self.capped_lower(upper_w, lower_w),
    {
        if let Some(max_w) = self.max_combined_power_w {
            if self.element_priority == ElementPriorityMode::Simultaneous && upper_w.plus(
                lower_w,
            ).gt(max_w) {
                return max_w.minus(upper_w).max(Double::zero());
            }
        }
        lower_w
    }

    /// Whether both elements may run at once at more than a usual branch circuit carries,
    /// each having at least the default power, while nothing limits them together.
    #[verifier::allow_in_spec]
    pub fn may_overload_circuit(self) -> bool
        returns
            self.element_priority == ElementPriorityMode::Simultaneous
                && self.max_combined_power_w is None && self.upper_element_power_w.ge(
                default_element_power_w(),
            ) && self.lower_element_power_w.ge(default_element_power_w()),
    {
        self.element_priority == ElementPriorityMode::Simultaneous
            && self.max_combined_power_w.is_none() && self.upper_element_power_w.ge(
            default_element_power_w(),
        ) && self.lower_element_power_w.ge(default_element_power_w())
    }

    /// The power of the upper and of the lower element in a step, within their limit.
    pub open spec fn spec_powers(
        self,
        mode: OperatingMode,
        coarse: bool,
        outside: ResistanceOutside,
    ) -> (Double, Double) {
        let ideal = coarse && mode == OperatingMode::Heating;
        let upper_w = self.element_power(
            self.upper_element_on,
            self.upper_element_power_w,
            if ideal {
                Some(outside.ideal_upper_w)
            } else {
                None
            },
        );
        let lower_w = self.element_power(
            self.lower_element_on,
            self.lower_element_power_w,
            if ideal {
                Some(outside.ideal_lower_w)
            } else {
                None
            },
        );
        let upper_w = self.capped_upper(upper_w);
        (upper_w, self.capped_lower(upper_w, lower_w))
    }

    #[verifier::when_used_as_spec(spec_powers)]
    pub fn powers(self, mode: OperatingMode, coarse: bool, outside: ResistanceOutside) -> (r: (
        Double,
        Double,
    ))
        ensures
            r == self.powers(mode, coarse, outside),
    {
        let ideal: bool = coarse && mode == OperatingMode::Heating;
        let upper_w: Double = self.element_power(
            self.upper_element_on,
            self.upper_element_power_w,
            if ideal {
                Some(outside.ideal_upper_w)
            } else {
                None
            },
        );
        let lower_w: Double = self.element_power(
            self.lower_element_on,
            self.lower_element_power_w,
            if ideal {
                Some(outside.ideal_lower_w)
            } else {
                None
            },
        );
        let upper_w: Double = self.capped_upper(upper_w);
        (upper_w, self.capped_lower(upper_w, lower_w))
    }

    /// The mixing valve.
    #[verifier::allow_in_spec]
    pub fn tmv(self) -> TemperedDrawConfig
        returns
            (TemperedDrawConfig {
                tempered_draw_temp_c: self.fixture_delivery_temp_c,
                hot_draw_temp_c: or_default(self.hot_draw_temp_c, self.setpoint_c),
                setpoint_temp_c: self.setpoint_c,
            }),
    {
        TemperedDrawConfig {
            tempered_draw_temp_c: self.fixture_delivery_temp_c,
            hot_draw_temp_c: or_default(self.hot_draw_temp_c, self.setpoint_c),
            setpoint_temp_c: self.setpoint_c,
        }
    }

    pub open spec fn spec_finished(self, f: ResistanceFigures, tank_avg_temp_c: Double) -> ResistanceState {
        ResistanceState {
            ctrl_load_fraction: Double::one(),
            telemetry: ResistanceTelemetry {
                tank_avg_temp_c,
                upper_element_power_w: f.upper_power_w,
                lower_element_power_w: f.lower_power_w,
                electric_kw: power_w_to_kw(f.electric_power_w),
                element_kw: power_w_to_kw(f.electric_power_w),
                electric_power_w: f.electric_power_w,
                draw_flow_rate_kg_s: f.total_draw_kg_s,
                unmet_load_w: f.draw.unmet_load_w,
                operating_mode: if f.mode == OperatingMode::Heating {
                    Double::one()
                } else {
                    Double::zero()
                },
                outlet_temp_c: f.draw.outlet_temp_c,
            },
            core_output: CoreOutput {
                electric_kw: Some(power_w_to_kw(f.electric_power_w).max(Double::zero())),
                reactive_power_kvar: None,
                fuel: None,
                thermal_output_w: None,
                operating_mode: Some(f.mode),
            },
            ..self
        }
    }

    /// The state after a step has been reported: its figures are recorded, and what a
    /// controller asked for one step is over.
    #[verifier::when_used_as_spec(spec_finished)]
    pub fn finished(self, f: ResistanceFigures, tank_avg_temp_c: Double) -> (r: ResistanceState)
        ensures
            r == self.finished(f, tank_avg_temp_c),
    {
        ResistanceState {
            ctrl_load_fraction: Double::one(),
            telemetry: ResistanceTelemetry {
                tank_avg_temp_c,
                upper_element_power_w: f.upper_power_w,
                lower_element_power_w: f.lower_power_w,
                electric_kw: power_w_to_kw(f.electric_power_w),
                element_kw: power_w_to_kw(f.electric_power_w),
                electric_power_w: f.electric_power_w,
                draw_flow_rate_kg_s: f.total_draw_kg_s,
                unmet_load_w: f.draw.unmet_load_w,
                operating_mode: if f.mode == OperatingMode::Heating {
                    Double::one()
                } else {
                    Double::zero()
                },
                outlet_temp_c: f.draw.outlet_temp_c,
            },
            core_output: CoreOutput {
                electric_kw: Some(power_w_to_kw(f.electric_power_w).max(Double::zero())),
                reactive_power_kvar: None,
                fuel: None,
                thermal_output_w: None,
                operating_mode: Some(f.mode),
            },
            ..self
        }
    }

    /// The state after a setpoint request, and the fault in it. The setpoint moves at once
    /// unless it moves at a rate.
    pub open spec fn with_setpoint(self, setpoint: Option<Double>, deadband: Option<Double>) -> (
        ResistanceState,
        Option<ControlFault>,
    ) {
        if setpoint is Some && !setpoint->0.is_finite() {
            (self, Some(ControlFault::Setpoint { value: setpoint->0 }))
        } else {
            let moved = ResistanceState {
                target_setpoint_c: or_default(setpoint, self.target_setpoint_c),
                setpoint_c: if self.setpoint_ramp_rate_c_per_s is None {
                    or_default(setpoint, self.setpoint_c)
                } else {
                    self.setpoint_c
                },
                ..self
            };
            match deadband {
                Some(db) if !(db.is_finite() && db.ge(Double::zero())) => (
                    moved,
                    Some(ControlFault::Deadband { value: db }),
                ),
                Some(db) => (ResistanceState { deadband_c: db, ..moved }, None),
                None => (moved, None),
            }
        }
    }

    /// The state after a control signal, and the fault in it.
    pub open spec fn applied(self, signal: ControlSignal) -> (ResistanceState, Option<ControlFault>) {
        match signal {
            ControlSignal::ThermalSetpoint { heating_setpoint_c, cooling_setpoint_c, deadband_c } =>
                self.with_setpoint(
                if heating_setpoint_c is Some {
                    heating_setpoint_c
                } else {
                    cooling_setpoint_c
                },
                deadband_c,
            ),
            ControlSignal::DutyCycle { on_fraction, component } => if on_fraction.is_finite()
                && Double::zero().le(on_fraction) && on_fraction.le(Double::one()) {
                (ResistanceState { duty_cycle: on_fraction, ..self }, None)
            } else {
                (
                    self,
                    Some(ControlFault::DutyCycle { equipment: "ResistanceWH", value: on_fraction }),
                )
            },
            ControlSignal::ModeOverride { mode } => (
                ResistanceState { mode_override: Some(mode), ..self },
                None,
            ),
            ControlSignal::LoadFraction { fraction } => (
                ResistanceState {
                    ctrl_load_fraction: fraction.clamp(Double::zero(), Double::one()),
                    ..self
                },
                None,
            ),
            ControlSignal::PowerLimit { max_power_kw } => {
                let total_w = self.upper_element_power_w.plus(self.lower_element_power_w);
                if total_w.gt(Double::zero()) {
                    (
                        ResistanceState {
                            ctrl_load_fraction: self.ctrl_load_fraction.min(
                                power_kw_to_w(max_power_kw).over(total_w).clamp(
                                    Double::zero(),
                                    Double::one(),
                                ),
                            ),
                            ..self
                        },
                        None,
                    )
                } else {
                    (self, None)
                }
            },
            ControlSignal::DemandResponse { level, duration_s } => (
                ResistanceState { dr: DemandResponse::at(level, duration_s), ..self },
                None,
            ),
            ControlSignal::Other => (self, None),
        }
    }

    /// The settings of a configuration, in operation for the first time.
    pub open spec fn configured(
        self,
        c: &ElectricResistanceWaterHeaterConfig,
        mains_temp_c: Double,
    ) -> ResistanceState {
        let capacity_w = configured_capacity(c).max(Double::zero());
        let setpoint_c = or_default(c.setpoint_c, default_setpoint_c());
        ResistanceState {
            upper_node: typed_upper_node(typed_node_count(c.tank_nodes)),
            lower_node: typed_lower_node(typed_node_count(c.tank_nodes)),
            upper_element_power_w: capacity_w,
            lower_element_power_w: capacity_w,
            max_combined_power_w: c.max_combined_power_w,
            setpoint_c,
            deadband_c: or_default(c.deadband_c, default_deadband_c()),
            max_tank_temp_c: or_default(c.max_tank_temp_c, default_max_tank_temp_c()),
            duty_cycle: Double::one(),
            mode_override: None,
            element_priority: configured_priority(c),
            upper_element_on: false,
            lower_element_on: false,
            loop_id: match c.loop_id {
                Some(id) => id,
                None => self.loop_id,
            },
            mains_temp_c,
            draw_flow_rate_kg_s: or_default(c.draw_flow_rate_kg_s, Double::zero()),
            draw_source: c.draw_flow_rate_source,
            mains_temp_c_source: c.mains_temp_c_source,
            zip: WaterHeaterZip::constant_power(),
            target_setpoint_c: setpoint_c,
            setpoint_ramp_rate_c_per_s: match c.max_setpoint_ramp_rate_c_per_min {
                Some(rate) => Some(rate.over(Double::whole(60))),
                None => None,
            },
            fixture_delivery_temp_c: or_default(c.fixture_delivery_temp_c, default_fixture_temp_c()),
            hot_draw_temp_c: c.hot_draw_temp_c,
            dr: DemandResponse::normal(),
            ctrl_load_fraction: Double::one(),
            zone_id_explicit: self.zone_id_explicit,
            telemetry: ResistanceTelemetry::empty(),
            core_output: CoreOutput::empty(),
        }
    }
}

/// The element power that a configuration gives.
pub open spec fn configured_capacity(c: &ElectricResistanceWaterHeaterConfig) -> Double {
    match c.element_power_w {
        Some(w) => w,
        None => or_default(c.heating_capacity_w, default_element_power_w()),
    }
}

/// Whether a configuration lets both elements run together.
pub open spec fn configured_priority(c: &ElectricResistanceWaterHeaterConfig) -> ElementPriorityMode {
    if crate::config::text_is(c.element_priority_mode, "Simultaneous"@) || crate::config::text_is(
        c.element_priority_mode,
        "simultaneous"@,
    ) {
        ElementPriorityMode::Simultaneous
    } else {
        ElementPriorityMode::MasterSlave
    }
}

/// The node of the upper element in a configured tank.
#[verifier::allow_in_spec]
pub fn typed_upper_node(n_nodes: usize) -> usize
    returns
        (if n_nodes >= 12 {
            2usize
        } else {
            0
        }),
{
    if n_nodes >= 12 {
        2
    } else {
        0
    }
}

/// The node of the lower element in a configured tank.
#[verifier::allow_in_spec]
pub fn typed_lower_node(n_nodes: usize) -> usize
    requires
        n_nodes > 0,
    returns
        (if n_nodes >= 12 {
            9
        } else {
            (n_nodes - 1) as usize
        }),
{
    if n_nodes >= 12 {
        9
    } else {
        n_nodes - 1
    }
}

/// The tank of a configuration.
pub open spec fn configured_tank(
    c: &ElectricResistanceWaterHeaterConfig,
) -> crate::tank::StratifiedTankConfig {
    let n = typed_node_count(c.tank_nodes);
    crate::storage::typed_tank_config(
        c.tank_nodes,
        c.tank_volume_m3,
        c.tank_height_m,
        c.ua_w_per_k,
        c.jacket_r_value_m2_k_w,
        or_default(c.initial_tank_temp_c, or_default(c.setpoint_c, default_setpoint_c())),
        [Some(typed_upper_node(n)), Some(typed_lower_node(n))],
    )
}

/// The default settings.
#[verifier::allow_in_spec]
pub fn initial_state(upper_node: usize, lower_node: usize, loop_id: u16, zone_id_explicit: bool) -> ResistanceState
    returns
        (ResistanceState {
            upper_node,
            lower_node,
            upper_element_power_w: default_element_power_w(),
            lower_element_power_w: default_element_power_w(),
            max_combined_power_w: None,
            setpoint_c: default_setpoint_c(),
            deadband_c: default_deadband_c(),
            max_tank_temp_c: default_max_tank_temp_c(),
            duty_cycle: Double::one(),
            mode_override: None,
            element_priority: ElementPriorityMode::MasterSlave,
            upper_element_on: false,
            lower_element_on: false,
            loop_id,
            mains_temp_c: Double::whole(10),
            draw_flow_rate_kg_s: Double::zero(),
            draw_source: None,
            mains_temp_c_source: None,
            zip: WaterHeaterZip::constant_power(),
            target_setpoint_c: default_setpoint_c(),
            setpoint_ramp_rate_c_per_s: None,
            fixture_delivery_temp_c: default_fixture_temp_c(),
            hot_draw_temp_c: None,
            dr: DemandResponse::normal(),
            ctrl_load_fraction: Double::one(),
            zone_id_explicit,
            telemetry: ResistanceTelemetry::empty(),
            core_output: CoreOutput::empty(),
        }),
{
    ResistanceState {
        upper_node,
        lower_node,
        upper_element_power_w: default_element_power_w(),
        lower_element_power_w: default_element_power_w(),
        max_combined_power_w: None,
        setpoint_c: default_setpoint_c(),
        deadband_c: default_deadband_c(),
        max_tank_temp_c: default_max_tank_temp_c(),
        duty_cycle: Double::one(),
        mode_override: None,
        element_priority: ElementPriorityMode::MasterSlave,
        upper_element_on: false,
        lower_element_on: false,
        loop_id,
        mains_temp_c: Double::whole(10),
        draw_flow_rate_kg_s: Double::zero(),
        draw_source: None,
        mains_temp_c_source: None,
        zip: WaterHeaterZip::constant_power(),
        target_setpoint_c: default_setpoint_c(),
        setpoint_ramp_rate_c_per_s: None,
        fixture_delivery_temp_c: default_fixture_temp_c(),
        hot_draw_temp_c: None,
        dr: DemandResponse::normal(),
        ctrl_load_fraction: Double::one(),
        zone_id_explicit,
        telemetry: ResistanceTelemetry::empty(),
        core_output: CoreOutput::empty(),
    }
}

// ---------------------------------------------------------------------------
// Telemetry fields
// ---------------------------------------------------------------------------

/// The figures that this heater records, those of its tank nodes among them.
pub open spec fn telemetry_fields(n_nodes: nat) -> Seq<TelemetryField> {
    seq![
        TelemetryField {
            key: TelemetryKey::TankAvgTempC,
            unit: "C",
            description: "Volume-weighted average tank temperature",
        },
        TelemetryField {
            key: TelemetryKey::UpperElementPowerW,
            unit: "W",
            description: "Upper element electric power",
        },
        TelemetryField {
            key: TelemetryKey::LowerElementPowerW,
            unit: "W",
            description: "Lower element electric power",
        },
        TelemetryField {
            key: TelemetryKey::ElectricKw,
            unit: "kW",
            description: "Total electric draw",
        },
        TelemetryField {
            key: TelemetryKey::ElementKw,
            unit: "kW",
            description: "Heating element electric power",
        },
        TelemetryField {
            key: TelemetryKey::ElectricPowerW,
            unit: "W",
            description: "Total electric draw",
        },
        TelemetryField {
            key: TelemetryKey::DrawFlowRateKgS,
            unit: "kg/s",
            description: "Domestic hot water draw flow rate",
        },
        TelemetryField {
            key: TelemetryKey::UnmetLoadW,
            unit: "W",
            description: "Unmet fixture load when tank below delivery temp",
        },
        TelemetryField {
            key: TelemetryKey::OperatingMode,
            unit: "enum",
            description: "0=Off, 1=Heating",
        },
        TelemetryField {
            key: TelemetryKey::OutletTempC,
            unit: "C",
            description: "Hot water outlet temperature delivered to fixture",
        },
    ] + crate::types::node_fields(n_nodes) + seq![
        TelemetryField {
            key: TelemetryKey::SkinLossW,
            unit: "W",
            description: "Tank jacket (skin) heat loss to zone",
        },
    ]
}

fn build_telemetry_fields(n_nodes: usize) -> (fields: Vec<TelemetryField>)
    ensures
        fields@ == telemetry_fields(n_nodes as nat),
{
    let mut fields: Vec<TelemetryField> = vec![
        TelemetryField {
            key: TelemetryKey::TankAvgTempC,
            unit: "C",
            description: "Volume-weighted average tank temperature",
        },
        TelemetryField {
            key: TelemetryKey::UpperElementPowerW,
            unit: "W",
            description: "Upper element electric power",
        },
        TelemetryField {
            key: TelemetryKey::LowerElementPowerW,
            unit: "W",
            description: "Lower element electric power",
        },
        TelemetryField {
            key: TelemetryKey::ElectricKw,
            unit: "kW",
            description: "Total electric draw",
        },
        TelemetryField {
            key: TelemetryKey::ElementKw,
            unit: "kW",
            description: "Heating element electric power",
        },
        TelemetryField {
            key: TelemetryKey::ElectricPowerW,
            unit: "W",
            description: "Total electric draw",
        },
        TelemetryField {
            key: TelemetryKey::DrawFlowRateKgS,
            unit: "kg/s",
            description: "Domestic hot water draw flow rate",
        },
        TelemetryField {
            key: TelemetryKey::UnmetLoadW,
            unit: "W",
            description: "Unmet fixture load when tank below delivery temp",
        },
        TelemetryField {
            key: TelemetryKey::OperatingMode,
            unit: "enum",
            description: "0=Off, 1=Heating",
        },
        TelemetryField {
            key: TelemetryKey::OutletTempC,
            unit: "C",
            description: "Hot water outlet temperature delivered to fixture",
        },
    ];
    push_node_fields(&mut fields, n_nodes);
    fields.push(
        TelemetryField {
            key: TelemetryKey::SkinLossW,
            unit: "W",
            description: "Tank jacket (skin) heat loss to zone",
        },
    );
    assert(fields@ =~= telemetry_fields(n_nodes as nat));
    fields
}

// ---------------------------------------------------------------------------
// The heater
// ---------------------------------------------------------------------------

/// An electric resistance storage water heater.
#[derive(Debug)]
pub struct ResistanceWH {
    pub descriptor: EquipmentDescriptor,
    pub ports: Vec<PortDeclaration>,
    pub tank: StratifiedTank,
    pub state: ResistanceState,
}

/// What a step came to, and what it gives to the ports, in order.
#[derive(Debug)]
pub struct ResistanceStep {
    pub figures: ResistanceFigures,
    pub contributions: Vec<PortContribution>,
}

/// What a resistance heater saves.
#[derive(Debug)]
pub struct ResistanceWhState {
    pub setpoint_c: Double,
    pub target_setpoint_c: Double,
    pub deadband_c: Double,
    pub upper_element_on: bool,
    pub lower_element_on: bool,
    pub duty_cycle: Double,
    pub mode_override: Option<OperatingMode>,
    pub element_priority: ElementPriorityMode,
    pub tank_state: StratifiedTankState,
    pub tank_avg_temp_c: Double,
    pub upper_element_power_w: Double,
    pub lower_element_power_w: Double,
    pub max_combined_power_w: Option<Double>,
    pub electric_kw: Double,
    pub draw_flow_rate_kg_s: Double,
    pub dr: DemandResponse,
}

/// The heat injected in a step: that of the upper element, then that of the lower one.
pub open spec fn injections(s: ResistanceState, upper_w: Double, lower_w: Double) -> Seq<
    (usize, Double),
> {
    (if upper_w.gt(Double::zero()) {
        seq![(s.upper_node, upper_w)]
    } else {
        Seq::empty()
    }) + (if lower_w.gt(Double::zero()) {
        seq![(s.lower_node, lower_w)]
    } else {
        Seq::empty()
    })
}

impl ResistanceWH {
    /// The tank is in order, the elements sit on its nodes, a moving setpoint can move,
    /// and the ports are those for electricity, the zone, the hot water loop and the
    /// appliances.
    pub open spec fn wf(&self) -> bool {
        &&& self.tank@.wf()
        &&& self.state.upper_node < self.tank@.n()
        &&& self.state.lower_node < self.tank@.n()
        &&& self.ports@.len() == 4
    }

    /// A heater with the default tank and settings, in the configured zone and loop.
    pub fn new(config: EquipmentConfig) -> (r: ResistanceWH)
        ensures
            r.wf(),
            ({
                let n = node_count(parse_usize(config.value("tank_nodes"@)));
                let upper = node_index(parse_usize(config.value("upper_element_node"@)), 0, n);
                let lower = node_index(
                    parse_usize(config.value("lower_element_node"@)),
                    (n - 1) as usize,
                    n,
                );
                let zone = match config.zone_id {
                    Some(id) => id,
                    None => 1u16,
                };
                let loop_id = match config.loop_id {
                    Some(id) => id,
                    None => 0u16,
                };
                &&& r.tank@ == crate::defaults::default_tank_config(
                    n,
                    [Some(upper), Some(lower)],
                ).model()
                &&& r.descriptor.id == (match config.equipment_id {
                    Some(id) => id,
                    None => 0u32,
                })
                &&& r.descriptor.name == config.name
                &&& r.descriptor.equipment_type == "Resistance Water Heater"
                &&& r.descriptor.zone == Some(zone)
                &&& r.descriptor.fuel == FuelType::Electric
                &&& r.descriptor.control_capabilities == (ControlCapabilities {
                    thermal_setpoint: true,
                    duty_cycle: true,
                    mode_override: true,
                    load_fraction: true,
                    power_limit: true,
                    demand_response: true,
                })
                &&& r.descriptor.core_capabilities == (CoreCapabilities {
                    electric: true,
                    reactive: false,
                    fuel: false,
                    thermal: false,
                    has_mode: true,
                })
                &&& r.descriptor.telemetry_fields@ == telemetry_fields(n as nat)
                &&& r.descriptor.zone_type is None
                &&& r.ports@ == seq![
                    PortDeclaration::Electrical,
                    PortDeclaration::Thermal { zone: Some(zone) },
                    PortDeclaration::Fluid { loop_id },
                    PortDeclaration::Fluid { loop_id: DHW_DEMAND_LOOP },
                ]
                &&& r.state == initial_state(upper, lower, loop_id, config.zone_id is Some)
            }),
    {
        let n_nodes: usize = node_count(parse_usize(config.get_f64("tank_nodes")));
        let upper_node: usize = node_index(
            parse_usize(config.get_f64("upper_element_node")),
            0,
            n_nodes,
        );
        let lower_node: usize = node_index(
            parse_usize(config.get_f64("lower_element_node")),
            n_nodes - 1,
            n_nodes,
        );
        let zone: u16 = match config.zone_id {
            Some(id) => id,
            None => 1,
        };
        let loop_id: u16 = match config.loop_id {
            Some(id) => id,
            None => 0,
        };
        let tank: StratifiedTank = default_tank(n_nodes, [Some(upper_node), Some(lower_node)]);
        let descriptor = EquipmentDescriptor {
            id: match config.equipment_id {
                Some(id) => id,
                None => 0,
            },
            name: config.name,
            equipment_type: "Resistance Water Heater",
            zone: Some(zone),
            fuel: FuelType::Electric,
            control_capabilities: ControlCapabilities {
                    thermal_setpoint: true,
                    duty_cycle: true,
                    mode_override: true,
                    load_fraction: true,
                    power_limit: true,
                    demand_response: true,
                },
            core_capabilities: CoreCapabilities {
                electric: true,
                reactive: false,
                fuel: false,
                thermal: false,
                has_mode: true,
            },
            telemetry_fields: build_telemetry_fields(n_nodes),
            zone_type: None,
        };
        let ports: Vec<PortDeclaration> = vec![
            PortDeclaration::Electrical,
            PortDeclaration::Thermal { zone: Some(zone) },
            PortDeclaration::Fluid { loop_id },
            PortDeclaration::Fluid { loop_id: DHW_DEMAND_LOOP },
        ];
        ResistanceWH {
            descriptor,
            ports,
            tank,
            state: initial_state(upper_node, lower_node, loop_id, config.zone_id.is_some()),
        }
    }

    /// `after` is `before` with the identity, the zone and the loop of a configuration.
    pub open spec fn placed(
        before: &ResistanceWH,
        after: &ResistanceWH,
        c: &ElectricResistanceWaterHeaterConfig,
    ) -> bool {
        let zone = if c.zone_id is Some {
            c.zone_id
        } else {
            before.descriptor.zone
        };
        let loop_id = match c.loop_id {
            Some(id) => id,
            None => before.state.loop_id,
        };
        &&& after.descriptor.id == (match c.equipment_id {
            Some(id) => id,
            None => before.descriptor.id,
        })
        &&& after.descriptor.name == before.descriptor.name
        &&& after.descriptor.equipment_type == before.descriptor.equipment_type
        &&& after.descriptor.zone == zone
        &&& after.descriptor.fuel == before.descriptor.fuel
        &&& crate::config::same_text(after.descriptor.zone_type, c.zone_type)
        &&& after.descriptor.control_capabilities == before.descriptor.control_capabilities
        &&& after.descriptor.core_capabilities == before.descriptor.core_capabilities
        &&& after.ports@ == before.ports@.update(1, PortDeclaration::Thermal { zone }).update(
            2,
            PortDeclaration::Fluid { loop_id },
        )
    }

    /// The state once the heater is placed: the elements are where the configured tank
    /// will have them.
    pub open spec fn placed_state(
        before: ResistanceState,
        c: &ElectricResistanceWaterHeaterConfig,
    ) -> ResistanceState {
        ResistanceState {
            loop_id: match c.loop_id {
                Some(id) => id,
                None => before.loop_id,
            },
            upper_node: typed_upper_node(typed_node_count(c.tank_nodes)),
            lower_node: typed_lower_node(typed_node_count(c.tank_nodes)),
            ..before
        }
    }

    fn place(&mut self, c: &ElectricResistanceWaterHeaterConfig)
        requires
            old(self).ports@.len() == 4,
        ensures
            ResistanceWH::placed(old(self), final(self), c),
            final(self).descriptor.telemetry_fields == old(self).descriptor.telemetry_fields,
            final(self).tank == old(self).tank,
            final(self).state == ResistanceWH::placed_state(old(self).state, c),
    {
        if let Some(id) = c.equipment_id {
            self.descriptor.id = id;
        }
        if let Some(id) = c.zone_id {
            self.descriptor.zone = Some(id);
        }
        self.descriptor.zone_type = copied_text(&c.zone_type);
        let zone: Option<u16> = self.descriptor.zone;
        self.ports.set(1, PortDeclaration::Thermal { zone });
        if let Some(id) = c.loop_id {
            self.state.loop_id = id;
        }
        let loop_id: u16 = self.state.loop_id;
        self.ports.set(2, PortDeclaration::Fluid { loop_id });
        let n_nodes: usize = typed_node_count(c.tank_nodes);
        self.state.upper_node = typed_upper_node(n_nodes);
        self.state.lower_node = typed_lower_node(n_nodes);
    }

    /// Give the heater another name.
    pub fn rename(&mut self, name: String)
        ensures
            *final(self) == (ResistanceWH {
                descriptor: EquipmentDescriptor { name, ..old(self).descriptor },
                ..*old(self)
            }),
    {
        self.descriptor.name = name;
    }

    /// Take over a typed configuration. `mains_temp_c` is the temperature of the mains
    /// water that the surroundings give. A configuration that breaks its limits changes
    /// nothing; one whose tank cannot be built leaves the heater placed but not set.
    #[verifier::rlimit(60)]
    pub fn init_typed(
        &mut self,
        c: &ElectricResistanceWaterHeaterConfig,
        mains_temp_c: Double,
    ) -> (r: Result<()>)
        requires
            old(self).ports@.len() == 4,
        ensures
            c.fault() is Some ==> r == Err::<(), HaresError>(
                HaresError::Equipment(c.fault()->0),
            ) && *final(self) == *old(self),
            c.fault() is None ==> ResistanceWH::placed(old(self), final(self), c),
            c.fault() is None && configured_tank(c).fault() is Some ==> {
                &&& r == Err::<(), HaresError>(HaresError::Equipment(configured_tank(c).fault()->0))
                &&& final(self).descriptor.telemetry_fields
                    == old(self).descriptor.telemetry_fields
                &&& final(self).tank == old(self).tank
                &&& final(self).state == ResistanceWH::placed_state(old(self).state, c)
            },
            c.fault() is None && configured_tank(c).fault() is None ==> {
                &&& r == Ok::<(), HaresError>(())
                &&& final(self).wf()
                &&& final(self).descriptor.telemetry_fields@ == telemetry_fields(
                    typed_node_count(c.tank_nodes) as nat,
                )
                &&& final(self).tank@ == configured_tank(c).model()
                &&& final(self).state == old(self).state.configured(c, mains_temp_c)
            },
    {
        c.validate()?;
        self.place(c);
        let n_nodes: usize = typed_node_count(c.tank_nodes);
        let tank: StratifiedTank = build_typed_tank(
            c.tank_nodes,
            c.tank_volume_m3,
            c.tank_height_m,
            c.ua_w_per_k,
            c.jacket_r_value_m2_k_w,
            or_default(c.initial_tank_temp_c, or_default(c.setpoint_c, default_setpoint_c())),
            [Some(self.state.upper_node), Some(self.state.lower_node)],
        )?;
        self.tank = tank;
        let capacity_w: Double = match c.element_power_w {
            Some(w) => w,
            None => or_default(c.heating_capacity_w, default_element_power_w()),
        }.max(Double::zero());
        let setpoint_c: Double = or_default(c.setpoint_c, default_setpoint_c());
        let element_priority: ElementPriorityMode = if is_text(
            &c.element_priority_mode,
            "Simultaneous",
        ) || is_text(&c.element_priority_mode, "simultaneous") {
            ElementPriorityMode::Simultaneous
        } else {
            ElementPriorityMode::MasterSlave
        };
        let setpoint_ramp_rate_c_per_s: Option<Double> = match c.max_setpoint_ramp_rate_c_per_min {
            Some(rate) => Some(rate.over(Double::whole(60))),
            None => None,
        };
        self.state = ResistanceState {
            upper_node: self.state.upper_node,
            lower_node: self.state.lower_node,
            upper_element_power_w: capacity_w,
            lower_element_power_w: capacity_w,
            max_combined_power_w: c.max_combined_power_w,
            setpoint_c,
            deadband_c: or_default(c.deadband_c, default_deadband_c()),
            max_tank_temp_c: or_default(c.max_tank_temp_c, default_max_tank_temp_c()),
            duty_cycle: Double::one(),
            mode_override: None,
            element_priority,
            upper_element_on: false,
            lower_element_on: false,
            loop_id: self.state.loop_id,
            mains_temp_c,
            draw_flow_rate_kg_s: or_default(c.draw_flow_rate_kg_s, Double::zero()),
            draw_source: c.draw_flow_rate_source,
            mains_temp_c_source: c.mains_temp_c_source,
            zip: WaterHeaterZip::constant_power(),
            target_setpoint_c: setpoint_c,
            setpoint_ramp_rate_c_per_s,
            fixture_delivery_temp_c: or_default(c.fixture_delivery_temp_c, default_fixture_temp_c()),
            hot_draw_temp_c: c.hot_draw_temp_c,
            dr: DemandResponse::normal(),
            ctrl_load_fraction: Double::one(),
            zone_id_explicit: self.state.zone_id_explicit,
            telemetry: ResistanceTelemetry::empty(),
            core_output: CoreOutput::empty(),
        };
        self.descriptor.telemetry_fields = build_telemetry_fields(n_nodes);
        Ok(())
    }

    /// Override the temperature above which heating is cut off.
    pub fn set_max_tank_temp_c(&mut self, temp_c: Double)
        ensures
            final(self).state == (ResistanceState { max_tank_temp_c: temp_c, ..old(self).state }),
            final(self).descriptor == old(self).descriptor,
            final(self).ports == old(self).ports,
            final(self).tank == old(self).tank,
    {
        self.state.max_tank_temp_c = temp_c;
    }

    /// The temperature at the lower thermostat.
    pub fn lower_sensor_temp(&self) -> (r: Double)
        requires
            self.wf(),
        ensures
            r == lower_sensor(self.tank@.node_temps_c, self.state.lower_node as int),
    {
        let temps: &[Double] = self.tank.node_temps();
        let lower_node: usize = self.state.lower_node;
        if temps.len() >= 3 && lower_node > 0 {
            temps[lower_node].plus(temps[lower_node - 1]).times(Double::ratio(1, 2))
        } else {
            temps[lower_node]
        }
    }

    /// Decide which elements heat in this step.
    pub fn update_control(&mut self, env: &EnvironmentState) -> (mode: OperatingMode)
        requires
            old(self).wf(),
            env.time_res.wf(),
            old(self).state.can_ramp(env.time_res.length_s()),
        ensures
            final(self).wf(),
            final(self).state == old(self).state.later(env.time_res.length_s()).switched(
                crate::shared::overheated(
                    old(self).tank@.node_temps_c,
                    old(self).state.max_tank_temp_c,
                ),
                old(self).tank@.node_temps_c[old(self).state.upper_node as int],
                lower_sensor(old(self).tank@.node_temps_c, old(self).state.lower_node as int),
            ),
            mode == final(self).state.mode(),
            final(self).descriptor == old(self).descriptor,
            final(self).ports == old(self).ports,
            final(self).tank == old(self).tank,
    {
        let overheated: bool = is_overheated(&self.tank, self.state.max_tank_temp_c);
        let upper_temp_c: Double = self.tank.node_temps()[self.state.upper_node];
        let lower_temp_c: Double = self.lower_sensor_temp();
        self.state = self.state.later(env.time_res.length_s()).switched(
            overheated,
            upper_temp_c,
            lower_temp_c,
        );
        self.state.mode()
    }

    /// The power of the two elements in a step.
    pub open spec fn step_powers(
        &self,
        env: &EnvironmentState,
        mode: OperatingMode,
        outside: ResistanceOutside,
    ) -> (Double, Double) {
        self.state.powers(mode, env.time_res.is_coarse(), outside)
    }

    /// The mains temperature, the scheduled draw and the appliances' demand of a step.
    pub open spec fn step_flows(
        &self,
        env: &EnvironmentState,
        fluid: Seq<FluidAccumulator>,
        readings: ScheduleReadings,
    ) -> (Double, Double, Double) {
        let (mains_temp_c, draw_kg_s) = crate::shared::storage_step_inputs(
            env,
            self.state.mains_temp_c,
            self.state.draw_flow_rate_kg_s,
            readings,
        );
        (mains_temp_c, draw_kg_s, crate::shared::dhw_demand(fluid))
    }

    /// The tank after a step, and the draw.
    pub open spec fn step_tank(
        &self,
        env: &EnvironmentState,
        mode: OperatingMode,
        outside: ResistanceOutside,
        fluid: Seq<FluidAccumulator>,
        readings: ScheduleReadings,
        dt: Duration,
    ) -> (crate::tank::TankModel, Result<DrawResult>) {
        let (mains_temp_c, draw_kg_s, demand_kg_s) = self.step_flows(env, fluid, readings);
        let (upper_w, lower_w) = self.step_powers(env, mode, outside);
        self.tank@.stepped_tempered(
            crate::shared::ambient(env, self.descriptor.zone),
            draw_kg_s.over(outside.water_density_kg_m3),
            demand_kg_s.over(outside.water_density_kg_m3),
            mains_temp_c,
            injections(self.state, upper_w, lower_w),
            self.state.tmv(),
            dt.as_secs(),
        )
    }

    /// What a step with a draw comes to.
    pub open spec fn step_figures(
        &self,
        env: &EnvironmentState,
        mode: OperatingMode,
        outside: ResistanceOutside,
        fluid: Seq<FluidAccumulator>,
        readings: ScheduleReadings,
        draw: DrawResult,
    ) -> ResistanceFigures {
        let (mains_temp_c, draw_kg_s, demand_kg_s) = self.step_flows(env, fluid, readings);
        let (upper_power_w, lower_power_w) = self.step_powers(env, mode, outside);
        let (electric_power_w, reactive_power_kvar) = self.state.zip.apply(
            upper_power_w.plus(lower_power_w),
            env.voltage_pu,
        );
        ResistanceFigures {
            mode,
            upper_power_w,
            lower_power_w,
            electric_power_w,
            reactive_power_kvar,
            total_draw_kg_s: draw_kg_s.plus(demand_kg_s),
            mains_temp_c,
            draw,
        }
    }

    /// What a step gives to the ports: electric power and hot water.
    pub open spec fn step_contributions(&self, f: ResistanceFigures) -> Seq<PortContribution> {
        crate::storage::when(
            f.electric_power_w.gt(Double::zero()),
            PortContribution::Electrical {
                active_power: ActivePower::Watts(f.electric_power_w),
                reactive_power_kvar: f.reactive_power_kvar,
            },
        ) + crate::storage::when(
            f.total_draw_kg_s.gt(Double::zero()),
            PortContribution::Fluid {
                loop_id: self.state.loop_id,
                flow_rate_kg_s: f.total_draw_kg_s,
                supply_temp_c: f.draw.outlet_temp_c,
                return_temp_c: f.mains_temp_c,
            },
        )
    }

    /// Advance the heater by one step, after [`ResistanceWH::update_control`] has given
    /// its `mode`. What the step gives to the ports comes back with its figures, which
    /// [`ResistanceWH::finish_step`] records once the ports have taken it. The heat that
    /// the tank gives to the zone is [`crate::storage::jacket_loss`], and comes last.
    pub fn step(
        &mut self,
        env: &EnvironmentState,
        mode: OperatingMode,
        outside: ResistanceOutside,
        fluid: &[FluidAccumulator],
        readings: ScheduleReadings,
        dt: Duration,
    ) -> (r: Result<ResistanceStep>)
        requires
            old(self).wf(),
            env.time_res.wf(),
        ensures
            final(self).wf(),
            final(self).tank@ == old(self).step_tank(env, mode, outside, fluid@, readings, dt).0,
            match old(self).step_tank(env, mode, outside, fluid@, readings, dt).1 {
                Ok(draw) => {
                    let figures = old(self).step_figures(env, mode, outside, fluid@, readings, draw);
                    r is Ok && r->Ok_0.figures == figures && r->Ok_0.contributions@ == old(
                        self,
                    ).step_contributions(figures)
                },
                Err(error) => r is Err && r->Err_0 == error,
            },
            final(self).state == old(self).state,
            final(self).descriptor == old(self).descriptor,
            final(self).ports == old(self).ports,
    {
        let ambient_c: Double = ambient_temp_c(env, self.descriptor.zone);
        let (upper_power_w, lower_power_w) = self.state.powers(
            mode,
            env.time_res.is_coarse(),
            outside,
        );
        let mut heat: Vec<(usize, Double)> = Vec::new();
        if upper_power_w.gt(Double::zero()) {
            heat.push((self.state.upper_node, upper_power_w));
        }
        if lower_power_w.gt(Double::zero()) {
            heat.push((self.state.lower_node, lower_power_w));
        }
        assert(heat@ =~= injections(self.state, upper_power_w, lower_power_w));
        let (mains_temp_c, draw_kg_s) = resolve_storage_step_inputs(
            env,
            self.state.mains_temp_c,
            self.state.draw_flow_rate_kg_s,
            readings,
        );
        let demand_kg_s: Double = read_dhw_demand_kg_s(fluid);
        let total_draw_kg_s: Double = draw_kg_s.plus(demand_kg_s);
        let draw: DrawResult = self.tank.step_tempered(
            ambient_c,
            draw_kg_s.over(outside.water_density_kg_m3),
            demand_kg_s.over(outside.water_density_kg_m3),
            mains_temp_c,
            heat.as_slice(),
            self.state.tmv(),
            dt,
        )?;
        let (electric_power_w, reactive_power_kvar) = self.state.zip.apply(
            upper_power_w.plus(lower_power_w),
            env.voltage_pu,
        );
        let figures = ResistanceFigures {
            mode,
            upper_power_w,
            lower_power_w,
            electric_power_w,
            reactive_power_kvar,
            total_draw_kg_s,
            mains_temp_c,
            draw,
        };
        let mut contributions: Vec<PortContribution> = Vec::new();
        push_when(
            &mut contributions,
            electric_power_w.gt(Double::zero()),
            PortContribution::Electrical {
                active_power: ActivePower::Watts(electric_power_w),
                reactive_power_kvar,
            },
        );
        push_when(
            &mut contributions,
            total_draw_kg_s.gt(Double::zero()),
            PortContribution::Fluid {
                loop_id: self.state.loop_id,
                flow_rate_kg_s: total_draw_kg_s,
                supply_temp_c: draw.outlet_temp_c,
                return_temp_c: mains_temp_c,
            },
        );
        assert(contributions@ =~= old(self).step_contributions(figures));
        Ok(ResistanceStep { figures, contributions })
    }

    /// Record the figures of a step, and end what a controller asked for one step.
    pub fn finish_step(&mut self, figures: ResistanceFigures)
        requires
            old(self).wf(),
        ensures
            final(self).wf(),
            final(self).state == old(self).state.finished(
                figures,
                crate::shared::weighted_average(
                    old(self).tank@.node_temps_c,
                    old(self).tank@.node_volumes_m3,
                ),
            ),
            final(self).descriptor == old(self).descriptor,
            final(self).ports == old(self).ports,
            final(self).tank == old(self).tank,
    {
        let average: Double = weighted_average_tank_temp(
            self.tank.node_temps(),
            self.tank.node_volumes_m3(),
        );
        self.state = self.state.finished(figures, average);
    }

    /// Obey a control signal.
    pub fn apply_control(&mut self, signal: ControlSignal) -> (r: Result<()>)
        ensures
            old(self).wf() ==> final(self).wf(),
            final(self).state == old(self).state.applied(signal).0,
            r == (match old(self).state.applied(signal).1 {
                Some(fault) => Err(HaresError::Control(fault)),
                None => Ok::<(), HaresError>(()),
            }),
            final(self).descriptor == old(self).descriptor,
            final(self).ports == old(self).ports,
            final(self).tank == old(self).tank,
    {
        match signal {
            ControlSignal::ThermalSetpoint { heating_setpoint_c, cooling_setpoint_c, deadband_c } => {
                let setpoint: Option<Double> = match heating_setpoint_c {
                    Some(sp) => Some(sp),
                    None => cooling_setpoint_c,
                };
                if let Some(sp) = setpoint {
                    if !sp.is_finite() {
                        return Err(HaresError::Control(ControlFault::Setpoint { value: sp }));
                    }
                    self.state.target_setpoint_c = sp;
                    if self.state.setpoint_ramp_rate_c_per_s.is_none() {
                        self.state.setpoint_c = sp;
                    }
                }
                if let Some(db) = deadband_c {
                    if !db.is_finite() || db.lt(Double::zero()) {
                        return Err(HaresError::Control(ControlFault::Deadband { value: db }));
                    }
                    self.state.deadband_c = db;
                }
            },
            ControlSignal::DutyCycle { on_fraction, component } => {
                if !on_fraction.is_finite() || !(Double::zero().le(on_fraction) && on_fraction.le(
                    Double::one(),
                )) {
                    return Err(
                        HaresError::Control(
                            ControlFault::DutyCycle {
                                equipment: "ResistanceWH",
                                value: on_fraction,
                            },
                        ),
                    );
                }
                self.state.duty_cycle = on_fraction;
            },
            ControlSignal::ModeOverride { mode } => {
                self.state.mode_override = Some(mode);
            },
            ControlSignal::LoadFraction { fraction } => {
                self.state.ctrl_load_fraction = fraction.clamp(Double::zero(), Double::one());
            },
            ControlSignal::PowerLimit { max_power_kw } => {
                let total_w: Double = self.state.upper_element_power_w.plus(
                    self.state.lower_element_power_w,
                );
                if total_w.gt(Double::zero()) {
                    let max_fraction: Double = power_kw_to_w(max_power_kw).over(total_w).clamp(
                        Double::zero(),
                        Double::one(),
                    );
                    self.state.ctrl_load_fraction = self.state.ctrl_load_fraction.min(max_fraction);
                }
            },
            ControlSignal::DemandResponse { level, duration_s } => {
                self.state.dr = DemandResponse::at(level, duration_s);
            },
            ControlSignal::Other => {},
        }
        Ok(())
    }

    /// `saved` holds what a heater with this state and tank saves.
    pub open spec fn saved_as(&self, saved: ResistanceWhState) -> bool {
        &&& saved.setpoint_c == self.state.setpoint_c
        &&& saved.target_setpoint_c == self.state.target_setpoint_c
        &&& saved.deadband_c == self.state.deadband_c
        &&& saved.upper_element_on == self.state.upper_element_on
        &&& saved.lower_element_on == self.state.lower_element_on
        &&& saved.duty_cycle == self.state.duty_cycle
        &&& saved.mode_override == self.state.mode_override
        &&& saved.element_priority == self.state.element_priority
        &&& saved.tank_state.node_temps_c@ == self.tank@.node_temps_c
        &&& saved.tank_avg_temp_c == self.state.telemetry.tank_avg_temp_c
        &&& saved.upper_element_power_w == self.state.telemetry.upper_element_power_w
        &&& saved.lower_element_power_w == self.state.telemetry.lower_element_power_w
        &&& saved.max_combined_power_w == self.state.max_combined_power_w
        &&& saved.electric_kw == self.state.telemetry.electric_kw
        &&& saved.draw_flow_rate_kg_s == self.state.telemetry.draw_flow_rate_kg_s
        &&& saved.dr == self.state.dr
    }

    pub fn save_state(&self) -> (saved: ResistanceWhState)
        ensures
            self.saved_as(saved),
    {
        ResistanceWhState {
            setpoint_c: self.state.setpoint_c,
            target_setpoint_c: self.state.target_setpoint_c,
            deadband_c: self.state.deadband_c,
            upper_element_on: self.state.upper_element_on,
            lower_element_on: self.state.lower_element_on,
            duty_cycle: self.state.duty_cycle,
            mode_override: self.state.mode_override,
            element_priority: self.state.element_priority,
            tank_state: self.tank.save_state(),
            tank_avg_temp_c: self.state.telemetry.tank_avg_temp_c,
            upper_element_power_w: self.state.telemetry.upper_element_power_w,
            lower_element_power_w: self.state.telemetry.lower_element_power_w,
            max_combined_power_w: self.state.max_combined_power_w,
            electric_kw: self.state.telemetry.electric_kw,
            draw_flow_rate_kg_s: self.state.telemetry.draw_flow_rate_kg_s,
            dr: self.state.dr,
        }
    }

    /// Take over a saved state. If its tank does not fit, the control settings are taken
    /// over and the rest stays as it was.
    pub fn load_state(&mut self, saved: ResistanceWhState) -> (r: Result<()>)
        requires
            old(self).wf(),
        ensures
            final(self).wf(),
            r == crate::tank::load_outcome(old(self).tank@, saved.tank_state.node_temps_c@),
            r is Err ==> final(self).state == old(self).state.with_saved_control(saved)
                && final(self).tank@ == old(self).tank@,
            r is Ok ==> final(self).state == old(self).state.with_saved(saved)
                && final(self).tank@ == old(self).tank@.with_temps(
                saved.tank_state.node_temps_c@,
            ),
            final(self).descriptor == old(self).descriptor,
            final(self).ports == old(self).ports,
    {
        self.state.setpoint_c = saved.setpoint_c;
        self.state.target_setpoint_c = saved.target_setpoint_c;
        self.state.deadband_c = saved.deadband_c;
        self.state.upper_element_on = saved.upper_element_on;
        self.state.lower_element_on = saved.lower_element_on;
        self.state.duty_cycle = saved.duty_cycle;
        self.state.mode_override = saved.mode_override;
        self.state.element_priority = saved.element_priority;
        self.state.max_combined_power_w = saved.max_combined_power_w;
        self.state.dr = saved.dr;
        self.tank.load_state(saved.tank_state)?;
        self.state.telemetry = ResistanceTelemetry {
            tank_avg_temp_c: saved.tank_avg_temp_c,
            upper_element_power_w: saved.upper_element_power_w,
            lower_element_power_w: saved.lower_element_power_w,
            electric_kw: saved.electric_kw,
            element_kw: saved.electric_kw,
            electric_power_w: power_kw_to_w(saved.electric_kw),
            draw_flow_rate_kg_s: saved.draw_flow_rate_kg_s,
            operating_mode: if saved.upper_element_on || saved.lower_element_on {
                Double::one()
            } else {
                Double::zero()
            },
            ..self.state.telemetry
        };
        self.state.core_output = CoreOutput::empty();
        Ok(())
    }
}

impl ResistanceState {
    /// The state with the control settings of a saved one.
    pub open spec fn with_saved_control(self, saved: ResistanceWhState) -> ResistanceState {
        ResistanceState {
            setpoint_c: saved.setpoint_c,
            target_setpoint_c: saved.target_setpoint_c,
            deadband_c: saved.deadband_c,
            upper_element_on: saved.upper_element_on,
            lower_element_on: saved.lower_element_on,
            duty_cycle: saved.duty_cycle,
            mode_override: saved.mode_override,
            element_priority: saved.element_priority,
            max_combined_power_w: saved.max_combined_power_w,
            dr: saved.dr,
            ..self
        }
    }

    /// The state with all of a saved one.
    pub open spec fn with_saved(self, saved: ResistanceWhState) -> ResistanceState {
        ResistanceState {
            telemetry: ResistanceTelemetry {
                tank_avg_temp_c: saved.tank_avg_temp_c,
                upper_element_power_w: saved.upper_element_power_w,
                lower_element_power_w: saved.lower_element_power_w,
                electric_kw: saved.electric_kw,
                element_kw: saved.electric_kw,
                electric_power_w: power_kw_to_w(saved.electric_kw),
                draw_flow_rate_kg_s: saved.draw_flow_rate_kg_s,
                operating_mode: if saved.upper_element_on || saved.lower_element_on {
                    Double::one()
                } else {
                    Double::zero()
                },
                ..self.telemetry
            },
            core_output: CoreOutput::empty(),
            ..self.with_saved_control(saved)
        }
    }
}

/// A valid configuration gives a setpoint that can move at its rate.
pub proof fn configured_setpoints_ramp(
    s: ResistanceState,
    c: &ElectricResistanceWaterHeaterConfig,
    mains_temp_c: Double,
)
    requires
        c.fault() is None,
    ensures
        s.configured(c, mains_temp_c).ramps_finitely(),
{
    let checks = c.spec_checks();
    crate::checks::first_fault_is_first(checks);
    assert(checks[6].passes());
    assert(checks[15].passes());
    assert(checks[6].name == "resistance_wh: setpoint_c" && checks[6].value == c.setpoint_c);
    assert(checks[15].value == c.max_setpoint_ramp_rate_c_per_min);
    crate::double_laws::ratio_is_moderate(516_666_667, 10_000_000);
    crate::double_laws::bounded_is_positive(default_setpoint_c(), 53);
    if let Some(rate) = c.max_setpoint_ramp_rate_c_per_min {
        crate::double_laws::whole_is_small(60);
        crate::double_laws::quotient_is_nonnegative(rate, Double::whole(60));
    }
}

/// Let the names of this heater stand for it.
pub fn register_with_registry(registry: &mut EquipmentRegistry)
    ensures
        final(registry)@ == old(registry)@.insert(
            "Resistance Water Heater"@,
            Registration::Heater(HeaterKind::Resistance),
        ).insert(
            "Electric Resistance Water Heater"@,
            Registration::Heater(HeaterKind::Resistance),
        ),
{
    registry.register("Resistance Water Heater", HeaterKind::Resistance);
    registry.register("Electric Resistance Water Heater", HeaterKind::Resistance);
}

} // verus!
