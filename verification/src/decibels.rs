//! Decibels relative to overload.
//!
//! A level in dBov is `20 * log10(rms)`: zero for a full-scale signal and
//! negative below it. The logarithm is irrational, so the caller supplies
//! it; this module fixes what it is asked and what is made of its answer.
//! Silence and full scale have exact levels and never reach the logarithm.

use crate::loudness::{Rms, FULL_SCALE_Q31};
use vstd::prelude::*;

verus! {

/// A level in thousandths of a decibel.
#[derive(Clone, Copy, PartialEq, Eq, Debug, Structural)]
pub struct Decibels {
    pub millis: i32,
}

/// The level of a full-scale signal, in thousandths of a decibel.
pub const FULL_SCALE_MILLIS: i32 = 0;

impl Decibels {
    /// The level of a full-scale signal: 0 dBov.
    pub open spec fn full_scale() -> Decibels {
        Decibels { millis: FULL_SCALE_MILLIS }
    }
}

/// The level that is reported for `rms` when the logarithm answered
/// `measured`. Silence is at the floor and full scale at zero, whatever
/// the answer. Below full scale the answer is kept between the floor and
/// zero; above full scale it is kept at or above zero, and not capped.
pub open spec fn loudness_from_log_spec(rms: Rms, floor: Decibels, measured: Decibels) -> Decibels {
    if rms.q31 == 0 {
        floor
    } else if rms.q31 == FULL_SCALE_Q31 {
        Decibels::full_scale()
    } else if rms.q31 < FULL_SCALE_Q31 {
        if measured.millis < floor.millis {
            floor
        } else if measured.millis > 0 {
            Decibels::full_scale()
        } else {
            measured
        }
    } else {
        if measured.millis < 0 {
            Decibels::full_scale()
        } else {
            measured
        }
    }
}

/// Whether the level of `rms` is exact, so that no logarithm is taken.
pub open spec fn level_is_exact(rms: Rms) -> bool {
    rms.q31 == 0 || rms.q31 == FULL_SCALE_Q31
}

/// Whether `level` is a level that `log` admits for `rms`: the exact level
/// of silence or of full scale, or else what is made of some answer of
/// `log` to `rms`.
pub open spec fn is_loudness<L: Fn(Rms) -> Decibels>(
    log: L,
    rms: Rms,
    floor: Decibels,
    level: Decibels,
) -> bool {
    if level_is_exact(rms) {
        level == loudness_from_log_spec(rms, floor, Decibels::full_scale())
    } else {
        exists|measured: Decibels| #[trigger]
            call_ensures(log, (rms,), measured) && level == loudness_from_log_spec(
                rms,
                floor,
                measured,
            )
    }
}

/// Makes the reported level out of the logarithm's answer.
pub fn loudness_from_log(rms: Rms, floor: Decibels, measured: Decibels) -> (level: Decibels)
    requires
        floor.millis < 0,
    ensures
        level == loudness_from_log_spec(rms, floor, measured),
        floor.millis <= level.millis,
        rms.q31 <= FULL_SCALE_Q31 ==> level.millis <= 0,
        rms.q31 >= FULL_SCALE_Q31 ==> level.millis >= 0,
{
    if rms.q31 == 0 {
        floor
    } else if rms.q31 == FULL_SCALE_Q31 {
        Decibels { millis: FULL_SCALE_MILLIS }
    } else if rms.q31 < FULL_SCALE_Q31 {
        if measured.millis < floor.millis {
            floor
        } else if measured.millis > 0 {
            Decibels { millis: FULL_SCALE_MILLIS }
        } else {
            measured
        }
    } else {
        if measured.millis < 0 {
            Decibels { millis: FULL_SCALE_MILLIS }
        } else {
            measured
        }
    }
}

/// Converts a root mean square to dBov: `20 * log10(rms)`, and the floor
/// for silence. `log` is asked for `20 * log10` of a positive `rms` that
/// is not full scale, and never for the logarithm of zero.
pub fn to_decibels_overload<L: Fn(Rms) -> Decibels>(rms: Rms, floor: Decibels, log: &L) -> (level:
    Decibels)
    requires
        floor.millis < 0,
        forall|x: Rms| x.q31 > 0 ==> call_requires(*log, (x,)),
    ensures
        is_loudness(*log, rms, floor, level),
        rms.q31 == 0 ==> level == floor,
        rms.q31 == FULL_SCALE_Q31 ==> level == Decibels::full_scale(),
        floor.millis <= level.millis,
        rms.q31 <= FULL_SCALE_Q31 ==> level.millis <= 0,
        rms.q31 >= FULL_SCALE_Q31 ==> level.millis >= 0,
{
    if rms.q31 == 0 || rms.q31 == FULL_SCALE_Q31 {
        loudness_from_log(rms, floor, Decibels { millis: FULL_SCALE_MILLIS })
    } else {
        let measured = log(rms);
        loudness_from_log(rms, floor, measured)
    }
}

} // verus!
