//! What goes wrong, with the values that a message would show.
use vstd::prelude::*;
use vstd::string::*;

use crate::checks::Rule;
use crate::double::Double;

verus! {

/// An error of the water heater models.
#[derive(Clone, Copy, Debug)]
pub enum HaresError {
    /// A configuration, an input or a saved state is not acceptable.
    Equipment(Fault),
    /// A control signal carries a value that is not acceptable.
    Control(ControlFault),
}

/// Why a configuration, an input or a saved state is refused. `index` tells the
/// elements of a list apart.
#[derive(Clone, Copy, Debug)]
pub enum Fault {
    /// `n_nodes` lies outside `[1, 12]`.
    NodeCount { n_nodes: usize },
    /// An element is assigned to a node that does not exist.
    ElementNode { element: usize, node: usize, n_nodes: usize },
    /// There are not as many node volumes as nodes.
    VolumeCount { len: usize, n_nodes: usize },
    /// A value is not finite, or not above zero.
    NotPositive { field: &'static str, index: Option<usize>, value: Double },
    /// A value is not finite, or below zero.
    Negative { field: &'static str, index: Option<usize>, value: Double },
    /// A value is not finite.
    NotFinite { field: &'static str, index: Option<usize> },
    /// A draw is larger than the tank.
    DrawExceedsTank { draw_volume_m3: Double, total_volume_m3: Double },
    /// A node does not exist.
    NodeIndex { node: usize, n_nodes: usize },
    /// A saved state has another number of nodes.
    StateNodeCount { len: usize, n_nodes: usize },
    /// A configured number breaks its limit.
    OutOfLimits { name: &'static str, rule: Rule },
    /// The setpoint does not stay below the tank limit, less the deadband if one is given.
    SetpointAboveLimit {
        prefix: &'static str,
        setpoint_c: Double,
        max_tank_temp_c: Double,
        deadband_c: Option<Double>,
    },
    /// The lower ambient bound is not below the upper one.
    AmbientBounds { min: Double, max: Double },
    /// A curve does not have six coefficients.
    CurveLength { name: &'static str },
    /// The real-power ZIP fractions do not add up to one.
    ZipSum { z: Double, i: Double, p: Double },
    /// The reactive-power ZIP fractions do not add up to one.
    ZipReactiveSum { zq: Double, iq: Double, pq: Double },
    /// The text of the curve `key` holds this many coefficients, not six.
    CoefficientCount { key: &'static str, count: usize },
    /// This coefficient of the text of the curve `key` could not be read.
    UnreadCoefficient { key: &'static str, coefficient: usize },
}

/// Why a control signal is refused.
#[derive(Clone, Copy, Debug)]
pub enum ControlFault {
    /// The setpoint is not a finite number.
    Setpoint { value: Double },
    /// The deadband is not acceptable.
    Deadband { value: Double },
    /// The duty cycle lies outside `[0, 1]`.
    DutyCycle { equipment: &'static str, value: Double },
}

impl Fault {
    /// What is refused.
    #[verifier::allow_in_spec]
    pub fn subject(self) -> &'static str
        returns
            (match self {
                Fault::NodeCount { .. } => "n_nodes",
                Fault::ElementNode { .. } => "element_nodes",
                Fault::VolumeCount { .. } => "node_volumes_m3",
                Fault::NotPositive { field, .. } => field,
                Fault::Negative { field, .. } => field,
                Fault::NotFinite { field, .. } => field,
                Fault::DrawExceedsTank { .. } => "draw_volume_m3",
                Fault::NodeIndex { .. } => "node index",
                Fault::StateNodeCount { .. } => "state node count",
                Fault::OutOfLimits { name, .. } => name,
                Fault::SetpointAboveLimit { prefix, .. } => prefix,
                Fault::AmbientBounds { .. } => "hpwh: min_ambient_temp_c",
                Fault::CurveLength { name } => name,
                Fault::ZipSum { .. } => "ZIP z+i+p",
                Fault::ZipReactiveSum { .. } => "ZIP zq+iq+pq",
                Fault::CoefficientCount { .. } => "coefficients",
                Fault::UnreadCoefficient { .. } => "coefficient",
            }),
    {
        match self {
            Fault::NodeCount { .. } => "n_nodes",
            Fault::ElementNode { .. } => "element_nodes",
            Fault::VolumeCount { .. } => "node_volumes_m3",
            Fault::NotPositive { field, .. } => field,
            Fault::Negative { field, .. } => field,
            Fault::NotFinite { field, .. } => field,
            Fault::DrawExceedsTank { .. } => "draw_volume_m3",
            Fault::NodeIndex { .. } => "node index",
            Fault::StateNodeCount { .. } => "state node count",
            Fault::OutOfLimits { name, .. } => name,
            Fault::SetpointAboveLimit { prefix, .. } => prefix,
            Fault::AmbientBounds { .. } => "hpwh: min_ambient_temp_c",
            Fault::CurveLength { name } => name,
            Fault::ZipSum { .. } => "ZIP z+i+p",
            Fault::ZipReactiveSum { .. } => "ZIP zq+iq+pq",
            Fault::CoefficientCount { .. } => "coefficients",
            Fault::UnreadCoefficient { .. } => "coefficient",
        }
    }

    /// Why it is refused, as the end of a sentence that starts with the subject.
    #[verifier::allow_in_spec]
    pub fn reason(self) -> &'static str
        returns
            (match self {
                Fault::NodeCount { .. } => " must be in [1, 12]",
                Fault::ElementNode { .. } => " out of bounds",
                Fault::VolumeCount { .. } => " length does not match n_nodes",
                Fault::NotPositive { .. } => " must be finite and > 0",
                Fault::Negative { .. } => " must be finite and >= 0",
                Fault::NotFinite { .. } => " must be finite",
                Fault::DrawExceedsTank { .. } => " exceeds tank volume",
                Fault::NodeIndex { .. } => " out of bounds",
                Fault::StateNodeCount { .. } => " does not match tank node count",
                Fault::OutOfLimits { rule: Rule::Finite, .. } => " must be finite",
                Fault::OutOfLimits { rule: Rule::Nonnegative, .. } => " must be finite and >= 0",
                Fault::OutOfLimits { rule: Rule::Positive, .. } => " must be finite and > 0",
                Fault::OutOfLimits { rule: Rule::PositiveAtMostOne, .. } =>
                    " must be finite and within (0, 1]",
                Fault::OutOfLimits { rule: Rule::Within { .. }, .. } =>
                    " must be finite and within its range",
                Fault::SetpointAboveLimit { deadband_c: None, .. } =>
                    ": setpoint_c must be strictly less than max_tank_temp_c",
                Fault::SetpointAboveLimit { deadband_c: Some(_), .. } =>
                    ": setpoint_c must be strictly less than max_tank_temp_c minus deadband_c",
                Fault::AmbientBounds { .. } => " must be < max_ambient_temp_c",
                Fault::CurveLength { .. } => " must have six coefficients",
                Fault::ZipSum { .. } => " must sum to 1.0",
                Fault::ZipReactiveSum { .. } => " must sum to 1.0",
                Fault::CoefficientCount { .. } => " must be six in number",
                Fault::UnreadCoefficient { .. } => " could not be read",
            }),
    {
        match self {
            Fault::NodeCount { .. } => " must be in [1, 12]",
            Fault::ElementNode { .. } => " out of bounds",
            Fault::VolumeCount { .. } => " length does not match n_nodes",
            Fault::NotPositive { .. } => " must be finite and > 0",
            Fault::Negative { .. } => " must be finite and >= 0",
            Fault::NotFinite { .. } => " must be finite",
            Fault::DrawExceedsTank { .. } => " exceeds tank volume",
            Fault::NodeIndex { .. } => " out of bounds",
            Fault::StateNodeCount { .. } => " does not match tank node count",
            Fault::OutOfLimits { rule: Rule::Finite, .. } => " must be finite",
            Fault::OutOfLimits { rule: Rule::Nonnegative, .. } => " must be finite and >= 0",
            Fault::OutOfLimits { rule: Rule::Positive, .. } => " must be finite and > 0",
            Fault::OutOfLimits { rule: Rule::PositiveAtMostOne, .. } =>
                " must be finite and within (0, 1]",
            Fault::OutOfLimits { rule: Rule::Within { .. }, .. } =>
                " must be finite and within its range",
            Fault::SetpointAboveLimit { deadband_c: None, .. } =>
                ": setpoint_c must be strictly less than max_tank_temp_c",
            Fault::SetpointAboveLimit { deadband_c: Some(_), .. } =>
                ": setpoint_c must be strictly less than max_tank_temp_c minus deadband_c",
            Fault::AmbientBounds { .. } => " must be < max_ambient_temp_c",
            Fault::CurveLength { .. } => " must have six coefficients",
            Fault::ZipSum { .. } => " must sum to 1.0",
            Fault::ZipReactiveSum { .. } => " must sum to 1.0",
            Fault::CoefficientCount { .. } => " must be six in number",
            Fault::UnreadCoefficient { .. } => " could not be read",
        }
    }
}

impl ControlFault {
    /// What is refused; of a duty cycle, the equipment that it was meant for.
    #[verifier::allow_in_spec]
    pub fn subject(self) -> &'static str
        returns
            (match self {
                ControlFault::Setpoint { .. } => "water-heater setpoint",
                ControlFault::Deadband { .. } => "water-heater deadband",
                ControlFault::DutyCycle { equipment, .. } => equipment,
            }),
    {
        match self {
            ControlFault::Setpoint { .. } => "water-heater setpoint",
            ControlFault::Deadband { .. } => "water-heater deadband",
            ControlFault::DutyCycle { equipment, .. } => equipment,
        }
    }

    /// Why it is refused, as the end of a sentence that starts with the subject.
    #[verifier::allow_in_spec]
    pub fn reason(self) -> &'static str
        returns
            (match self {
                ControlFault::Setpoint { .. } => " is invalid",
                ControlFault::Deadband { .. } => " is invalid",
                ControlFault::DutyCycle { .. } => ": invalid duty cycle",
            }),
    {
        match self {
            ControlFault::Setpoint { .. } => " is invalid",
            ControlFault::Deadband { .. } => " is invalid",
            ControlFault::DutyCycle { .. } => ": invalid duty cycle",
        }
    }
}

impl HaresError {
    /// The error in words, without the values: those stand in its fields.
    pub fn message(&self) -> (r: String)
        ensures
            r@ == match *self {
                HaresError::Equipment(fault) => fault.subject()@ + fault.reason()@,
                HaresError::Control(fault) => fault.subject()@ + fault.reason()@,
            },
    {
        match *self {
            HaresError::Equipment(fault) => {
                let mut text: String = fault.subject().to_owned();
                text.append(fault.reason());
                text
            },
            HaresError::Control(fault) => {
                let mut text: String = fault.subject().to_owned();
                text.append(fault.reason());
                text
            },
        }
    }
}

pub type Result<T> = core::result::Result<T, HaresError>;

} // verus!
