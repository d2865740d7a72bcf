//! The static configuration of a meter.

use crate::decibels::Decibels;
use crate::scale::quantization_noise_millis;
use crate::scale::quantization_noise_ratio;
use vstd::prelude::*;

verus! {

/// The bit depth whose noise floor is the standard reference floor.
pub const STANDARD_BITS: u16 = 16;

/// The number of display levels of the standard meter: a bar of 16 cells,
/// one cell per bit.
pub const STANDARD_LEVELS: usize = 17;

/// What a meter is configured with: the floor, which is both the level
/// reported for silence and the zero point of the display scale, and the
/// number of display levels. The floor is below 0 dBov and there is at
/// least one level.
#[derive(Clone, Copy, PartialEq, Eq, Debug)]
pub struct MeterConfig {
    floor_db: Decibels,
    level_count: usize,
}

impl MeterConfig {
    /// The floor: the level of silence, where the display intensity is zero.
    pub closed spec fn floor(self) -> Decibels {
        self.floor_db
    }

    /// The number of display levels.
    pub closed spec fn levels(self) -> nat {
        self.level_count as nat
    }

    /// What holds of every configuration.
    pub open spec fn valid(self) -> bool {
        self.floor().millis < 0 && 1 <= self.levels() <= usize::MAX
    }

    #[verifier::type_invariant]
    spec fn checked(self) -> bool {
        self.floor_db.millis < 0 && self.level_count >= 1
    }

    /// A configuration with the given floor and number of levels, if the
    /// floor is below 0 dBov and there is a level.
    pub fn new(floor_db: Decibels, level_count: usize) -> (config: Option<MeterConfig>)
        ensures
            config.is_some() <==> floor_db.millis < 0 && level_count >= 1,
            config matches Some(c) ==> c.floor() == floor_db && c.levels() == level_count
                && c.valid(),
    {
        if floor_db.millis < 0 && level_count >= 1 {
            Some(MeterConfig { floor_db, level_count })
        } else {
            None
        }
    }

    /// The standard meter: the floor is the noise floor of a 16-bit
    /// quantisation, about -96.3 dBov, and the bar has 16 cells.
    pub fn standard() -> (config: MeterConfig)
        ensures
            config.floor().millis == -quantization_noise_millis(STANDARD_BITS as int),
            config.levels() == STANDARD_LEVELS,
            config.valid(),
    {
        let ratio = quantization_noise_ratio(STANDARD_BITS);
        MeterConfig { floor_db: Decibels { millis: -ratio.millis }, level_count: STANDARD_LEVELS }
    }

    /// The floor.
    pub fn floor_db(&self) -> (floor: Decibels)
        ensures
            floor == self.floor(),
            floor.millis < 0,
            self.valid(),
    {
        proof {
            use_type_invariant(self);
        }
        self.floor_db
    }

    /// The number of display levels.
    pub fn level_count(&self) -> (count: usize)
        ensures
            count == self.levels(),
            count >= 1,
            self.valid(),
    {
        proof {
            use_type_invariant(self);
        }
        self.level_count
    }
}

} // verus!
