//! Checks of configured numbers against their limits.
use vstd::prelude::*;

use crate::double::Double;
use crate::error::{Fault, HaresError, Result};

verus! {

/// The limit of a number; every one of them asks for a finite number.
#[derive(Debug, Clone, Copy)]
pub enum Rule {
    Finite,
    Nonnegative,
    Positive,
    PositiveAtMostOne,
    Within { min: Double, max: Double },
}

/// A number that may be given, by its name, and its limit.
#[derive(Debug, Clone, Copy)]
pub struct Check {
    pub name: &'static str,
    pub value: Option<Double>,
    pub rule: Rule,
}

impl Rule {
    pub open spec fn spec_admits(self, v: Double) -> bool {
        v.is_finite() && match self {
            Rule::Finite => true,
            Rule::Nonnegative => v.ge(Double::zero()),
            Rule::Positive => v.gt(Double::zero()),
            Rule::PositiveAtMostOne => v.gt(Double::zero()) && v.le(Double::one()),
            Rule::Within { min, max } => min.le(v) && v.le(max),
        }
    }

    /// Whether a number keeps the limit.
    #[verifier::when_used_as_spec(spec_admits)]
    pub fn admits(self, v: Double) -> (r: bool)
        ensures
            r == self.admits(v),
    {
        v.is_finite() && match self {
            Rule::Finite => true,
            Rule::Nonnegative => v.ge(Double::zero()),
            Rule::Positive => v.gt(Double::zero()),
            Rule::PositiveAtMostOne => v.gt(Double::zero()) && v.le(Double::one()),
            Rule::Within { min, max } => min.le(v) && v.le(max),
        }
    }
}

impl Check {
    /// What is not given passes.
    pub open spec fn passes(self) -> bool {
        match self.value {
            Some(v) => self.rule.admits(v),
            None => true,
        }
    }
}

/// The fault of the first check from `from` on that does not pass.
pub open spec fn first_fault(checks: Seq<Check>, from: int) -> Option<Fault>
    decreases checks.len() - from,
{
    if !(0 <= from < checks.len()) {
        None
    } else if checks[from].passes() {
        first_fault(checks, from + 1)
    } else {
        Some(Fault::OutOfLimits { name: checks[from].name, rule: checks[from].rule })
    }
}

/// No fault is found exactly where every check passes; otherwise it is the fault of a
/// check that does not pass, all earlier ones passing.
pub proof fn first_fault_is_first(checks: Seq<Check>)
    ensures
        first_fault(checks, 0) is None <==> forall|i: int|
            0 <= i < checks.len() ==> (#[trigger] checks[i]).passes(),
        first_fault(checks, 0) is Some ==> exists|i: int|
            #![trigger checks[i]]
            0 <= i < checks.len() && !checks[i].passes() && first_fault(checks, 0) == Some(
                Fault::OutOfLimits { name: checks[i].name, rule: checks[i].rule },
            ) && forall|j: int| 0 <= j < i ==> (#[trigger] checks[j]).passes(),
{
    lemma_first_fault(checks, 0);
}

proof fn lemma_first_fault(checks: Seq<Check>, from: int)
    requires
        0 <= from <= checks.len(),
        forall|j: int| 0 <= j < from ==> (#[trigger] checks[j]).passes(),
    ensures
        first_fault(checks, from) is None <==> forall|i: int|
            0 <= i < checks.len() ==> (#[trigger] checks[i]).passes(),
        first_fault(checks, from) is Some ==> exists|i: int|
            #![trigger checks[i]]
            0 <= i < checks.len() && !checks[i].passes() && first_fault(checks, from) == Some(
                Fault::OutOfLimits { name: checks[i].name, rule: checks[i].rule },
            ) && forall|j: int| 0 <= j < i ==> (#[trigger] checks[j]).passes(),
    decreases checks.len() - from,
{
    if from < checks.len() && checks[from].passes() {
        lemma_first_fault(checks, from + 1);
    }
}

pub open spec fn outcome(fault: Option<Fault>) -> Result<()> {
    match fault {
        Some(fault) => Err(HaresError::Equipment(fault)),
        None => Ok(()),
    }
}

pub open spec fn first_of(first: Option<Fault>, second: Option<Fault>) -> Option<Fault> {
    match first {
        Some(fault) => Some(fault),
        None => second,
    }
}

/// Run checks in order; the first that does not pass decides.
pub(crate) fn run_checks(checks: &[Check]) -> (r: Result<()>)
    ensures
        r == outcome(first_fault(checks@, 0)),
{
    let mut i: usize = 0;
    while i < checks.len()
        invariant
            i <= checks@.len(),
            first_fault(checks@, 0) == first_fault(checks@, i as int),
        decreases checks@.len() - i,
    {
        let check: Check = checks[i];
        if let Some(v) = check.value {
            if !check.rule.admits(v) {
                return Err(
                    HaresError::Equipment(
                        Fault::OutOfLimits { name: check.name, rule: check.rule },
                    ),
                );
            }
        }
        i += 1;
    }
    Ok(())
}

pub open spec fn spec_setpoint_limit(max_tank_temp_c: Double, deadband_c: Option<Double>) -> Double {
    match deadband_c {
        Some(db) => max_tank_temp_c.minus(db),
        None => max_tank_temp_c,
    }
}

/// What the setpoint must stay below: the tank limit, less the deadband if one is given.
#[verifier::when_used_as_spec(spec_setpoint_limit)]
pub fn setpoint_limit(max_tank_temp_c: Double, deadband_c: Option<Double>) -> (r: Double)
    ensures
        r == setpoint_limit(max_tank_temp_c, deadband_c),
{
    match deadband_c {
        Some(db) => max_tank_temp_c.minus(db),
        None => max_tank_temp_c,
    }
}

pub open spec fn setpoint_fault(
    prefix: &'static str,
    setpoint_c: Option<Double>,
    max_tank_temp_c: Option<Double>,
    deadband_c: Option<Double>,
) -> Option<Fault> {
    match (setpoint_c, max_tank_temp_c) {
        (Some(sp), Some(max_t)) if sp.ge(setpoint_limit(max_t, deadband_c)) => Some(
            Fault::SetpointAboveLimit {
                prefix,
                setpoint_c: sp,
                max_tank_temp_c: max_t,
                deadband_c,
            },
        ),
        _ => None,
    }
}

pub(crate) fn check_setpoint_vs_max_temp(
    prefix: &'static str,
    setpoint_c: Option<Double>,
    max_tank_temp_c: Option<Double>,
    deadband_c: Option<Double>,
) -> (r: Result<()>)
    ensures
        r == outcome(setpoint_fault(prefix, setpoint_c, max_tank_temp_c, deadband_c)),
{
    if let Some(sp) = setpoint_c {
        if let Some(max_t) = max_tank_temp_c {
            if sp.ge(setpoint_limit(max_t, deadband_c)) {
                return Err(
                    HaresError::Equipment(
                        Fault::SetpointAboveLimit {
                            prefix,
                            setpoint_c: sp,
                            max_tank_temp_c: max_t,
                            deadband_c,
                        },
                    ),
                );
            }
        }
    }
    Ok(())
}

pub open spec fn ambient_fault(min_c: Option<Double>, max_c: Option<Double>) -> Option<Fault> {
    match (min_c, max_c) {
        (Some(min), Some(max)) if min.ge(max) => Some(Fault::AmbientBounds { min, max }),
        _ => None,
    }
}

pub(crate) fn check_ambient_bounds(min_c: Option<Double>, max_c: Option<Double>) -> (r: Result<()>)
    ensures
        r == outcome(ambient_fault(min_c, max_c)),
{
    if let Some(min) = min_c {
        if let Some(max) = max_c {
            if min.ge(max) {
                return Err(HaresError::Equipment(Fault::AmbientBounds { min, max }));
            }
        }
    }
    Ok(())
}

/// A curve has six coefficients.
pub open spec fn curve_fault(name: &'static str, coeffs: Option<Vec<Double>>) -> Option<Fault> {
    match coeffs {
        Some(coeffs) if coeffs@.len() != 6 => Some(Fault::CurveLength { name }),
        _ => None,
    }
}

pub(crate) fn check_curve(name: &'static str, coeffs: &Option<Vec<Double>>) -> (r: Result<()>)
    ensures
        r == outcome(curve_fault(name, *coeffs)),
{
    if let Some(coeffs) = coeffs {
        if coeffs.len() != 6 {
            return Err(HaresError::Equipment(Fault::CurveLength { name }));
        }
    }
    Ok(())
}

} // verus!
