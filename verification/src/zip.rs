//! The ZIP model of how a load depends on voltage.
use vstd::prelude::*;

use crate::config::EquipmentConfig;
use crate::double::Double;
use crate::error::{Fault, HaresError, Result};
use crate::shared::or_default;

verus! {

/// The fractions of a load that behave as a constant impedance, current and power, for
/// real and for reactive power.
#[derive(Debug, Clone, Copy, PartialEq, Eq, Structural)]
pub struct WaterHeaterZip {
    /// Real-power impedance fraction.
    pub z: Double,
    /// Real-power current fraction.
    pub i: Double,
    /// Real-power constant-power fraction.
    pub p: Double,
    /// Reference voltage [per unit].
    pub v0: Double,
    /// Reactive-power impedance fraction.
    pub zq: Double,
    /// Reactive-power current fraction.
    pub iq: Double,
    /// Reactive-power constant fraction.
    pub pq: Double,
    /// Power factor magnitude.
    pub pf: Double,
}

/// Whether three fractions miss a sum of one by a hundredth or more.
#[verifier::allow_in_spec]
pub fn sum_is_off(a: Double, b: Double, c: Double) -> bool
    returns
        a.plus(b).plus(c).minus(Double::one()).abs().ge(Double::ratio(1, 100)),
{
    a.plus(b).plus(c).minus(Double::one()).abs().ge(Double::ratio(1, 100))
}

/// The fault in ZIP fractions: they do not add up to one. Reactive fractions that are
/// all zero are left alone.
pub open spec fn zip_fault(
    z: Double,
    i: Double,
    p: Double,
    zq: Double,
    iq: Double,
    pq: Double,
) -> Option<Fault> {
    if sum_is_off(z, i, p) {
        Some(Fault::ZipSum { z, i, p })
    } else if !(zq.same(Double::zero()) && iq.same(Double::zero()) && pq.same(Double::zero()))
        && sum_is_off(zq, iq, pq) {
        Some(Fault::ZipReactiveSum { zq, iq, pq })
    } else {
        None
    }
}

pub fn validate_zip_terms(
    z: Double,
    i: Double,
    p: Double,
    zq: Double,
    iq: Double,
    pq: Double,
) -> (r: Result<()>)
    ensures
        r == crate::checks::outcome(zip_fault(z, i, p, zq, iq, pq)),
{
    if sum_is_off(z, i, p) {
        return Err(HaresError::Equipment(Fault::ZipSum { z, i, p }));
    }
    if !(zq.same(Double::zero()) && iq.same(Double::zero()) && pq.same(Double::zero()))
        && sum_is_off(zq, iq, pq) {
        return Err(HaresError::Equipment(Fault::ZipReactiveSum { zq, iq, pq }));
    }
    Ok(())
}

impl WaterHeaterZip {
    /// A load of constant power.
    #[verifier::allow_in_spec]
    pub fn constant_power() -> WaterHeaterZip
        returns
            (WaterHeaterZip {
                z: Double::zero(),
                i: Double::zero(),
                p: Double::one(),
                v0: Double::one(),
                zq: Double::zero(),
                iq: Double::zero(),
                pq: Double::one(),
                pf: Double::zero(),
            }),
    {
        WaterHeaterZip {
            z: Double::zero(),
            i: Double::zero(),
            p: Double::one(),
            v0: Double::one(),
            zq: Double::zero(),
            iq: Double::zero(),
            pq: Double::one(),
            pf: Double::zero(),
        }
    }

    /// The coefficients under `zip_z`, `zip_i` and so on; those of a constant power where
    /// there are none.
    pub open spec fn configured(config: &EquipmentConfig) -> WaterHeaterZip {
        WaterHeaterZip {
            z: or_default(config.value("zip_z"@), Double::zero()),
            i: or_default(config.value("zip_i"@), Double::zero()),
            p: or_default(config.value("zip_p"@), Double::one()),
            v0: or_default(config.value("zip_v0"@), Double::one()),
            zq: or_default(config.value("zip_zq"@), Double::zero()),
            iq: or_default(config.value("zip_iq"@), Double::zero()),
            pq: or_default(config.value("zip_pq"@), Double::one()),
            pf: or_default(config.value("zip_pf"@), Double::zero()),
        }
    }

    pub open spec fn fault(self) -> Option<Fault> {
        zip_fault(self.z, self.i, self.p, self.zq, self.iq, self.pq)
    }

    /// Read the coefficients of a configuration.
    pub fn from_config(config: &EquipmentConfig) -> (r: Result<WaterHeaterZip>)
        ensures
            r == (match WaterHeaterZip::configured(config).fault() {
                Some(fault) => Err(HaresError::Equipment(fault)),
                None => Ok::<WaterHeaterZip, HaresError>(WaterHeaterZip::configured(config)),
            }),
    {
        let zip = WaterHeaterZip {
            z: or_default(config.get_f64("zip_z"), Double::zero()),
            i: or_default(config.get_f64("zip_i"), Double::zero()),
            p: or_default(config.get_f64("zip_p"), Double::one()),
            v0: or_default(config.get_f64("zip_v0"), Double::one()),
            zq: or_default(config.get_f64("zip_zq"), Double::zero()),
            iq: or_default(config.get_f64("zip_iq"), Double::zero()),
            pq: or_default(config.get_f64("zip_pq"), Double::one()),
            pf: or_default(config.get_f64("zip_pf"), Double::zero()),
        };
        validate_zip_terms(zip.z, zip.i, zip.p, zip.zq, zip.iq, zip.pq)?;
        Ok(zip)
    }

    pub open spec fn spec_polynomial(a: Double, b: Double, c: Double, v: Double) -> Double {
        a.times(v).times(v).plus(b.times(v)).plus(c)
    }

    /// The multiplier at a voltage.
    #[verifier::when_used_as_spec(spec_polynomial)]
    pub fn polynomial(a: Double, b: Double, c: Double, v: Double) -> (r: Double)
        ensures
            r == WaterHeaterZip::polynomial(a, b, c, v),
    {
        a.times(v).times(v).plus(b.times(v)).plus(c)
    }

    pub open spec fn spec_apply(self, rated_w: Double, voltage_pu: Double) -> (
        Double,
        Double,
    ) {
        if rated_w.same(Double::zero()) || voltage_pu.same(Double::zero()) {
            (Double::zero(), Double::zero())
        } else {
            let v = voltage_pu.over(self.v0);
            let actual_w = rated_w.times(WaterHeaterZip::polynomial(self.z, self.i, self.p, v));
            (
                actual_w,
                actual_w.over(Double::whole(1000)).times(self.pf).times(
                    WaterHeaterZip::polynomial(self.zq, self.iq, self.pq, v),
                ),
            )
        }
    }

    /// The real power [W] and the reactive power [kvar] of a load of `rated_w` at a
    /// voltage: `P = rated_w (z V² + i V + p)` and `Q = P pf (zq V² + iq V + pq)`, where
    /// `V` is the voltage over the reference voltage. No load and no voltage draw nothing.
    #[verifier::when_used_as_spec(spec_apply)]
    pub fn apply(self, rated_w: Double, voltage_pu: Double) -> (r: (
        Double,
        Double,
    ))
        ensures
            r == self.apply(rated_w, voltage_pu),
    {
        if rated_w.same(Double::zero()) || voltage_pu.same(Double::zero()) {
            return (Double::zero(), Double::zero());
        }
        let v: Double = voltage_pu.over(self.v0);
        let actual_w: Double = rated_w.times(
            WaterHeaterZip::polynomial(self.z, self.i, self.p, v),
        );
        let reactive_kvar: Double = actual_w.over(Double::whole(1000)).times(self.pf).times(
            WaterHeaterZip::polynomial(self.zq, self.iq, self.pq, v),
        );
        (actual_w, reactive_kvar)
    }
}

} // verus!
