//! Raw samples and their canonical form.
//!
//! A canonical sample is a signed fraction of full scale in Q15: the value
//! `numerator / 32768`. Both 16-bit encodings map onto it exactly.

use vstd::prelude::*;

verus! {

/// The denominator of every canonical sample.
pub const CANONICAL_DENOMINATOR: i32 = 32768;

/// One raw sample, tagged with its encoding.
#[derive(Clone, Copy, PartialEq, Eq, Debug, Structural)]
pub enum RawSample {
    UnsignedInt16(u16),
    SignedInt16(i16),
}

/// A sample in canonical form: `numerator / 32768`, so the range is
/// `[-1, 1)`. The lowest raw value of either encoding is exactly -1; the
/// highest stays one step short of +1.
#[derive(Clone, Copy, PartialEq, Eq, Debug, Structural)]
pub struct CanonicalSample {
    pub numerator: i16,
}

/// The Q15 numerator that a raw sample stands for.
pub open spec fn canonical_numerator(raw: RawSample) -> int {
    match raw {
        RawSample::UnsignedInt16(word) => word as int - 32768,
        RawSample::SignedInt16(word) => word as int,
    }
}

/// The canonical sample that a raw sample stands for.
pub open spec fn normalize_spec(raw: RawSample) -> CanonicalSample {
    CanonicalSample { numerator: canonical_numerator(raw) as i16 }
}

/// Maps a raw sample linearly onto the canonical range.
pub fn normalize(raw: RawSample) -> (sample: CanonicalSample)
    ensures
        sample == normalize_spec(raw),
        sample.numerator as int == canonical_numerator(raw),
{
    match raw {
        RawSample::UnsignedInt16(word) => {
            let shifted: i32 = word as i32 - 32768;
            CanonicalSample { numerator: shifted as i16 }
        },
        RawSample::SignedInt16(word) => CanonicalSample { numerator: word },
    }
}

/// Every raw sample lands in `[-1, 1)`, on the numerator that it stands
/// for.
pub proof fn lemma_normalize_range(raw: RawSample)
    ensures
        -(CANONICAL_DENOMINATOR as int) <= normalize_spec(raw).numerator < CANONICAL_DENOMINATOR,
        normalize_spec(raw).numerator as int == canonical_numerator(raw),
{
}

/// The lowest raw value of either encoding is exactly -1, and the highest
/// is one step below +1: the range is not made symmetric.
pub proof fn lemma_normalize_extremes()
    ensures
        normalize_spec(RawSample::UnsignedInt16(u16::MIN)).numerator == -CANONICAL_DENOMINATOR,
        normalize_spec(RawSample::UnsignedInt16(u16::MAX)).numerator == CANONICAL_DENOMINATOR - 1,
        normalize_spec(RawSample::SignedInt16(i16::MIN)).numerator == -CANONICAL_DENOMINATOR,
        normalize_spec(RawSample::SignedInt16(i16::MAX)).numerator == CANONICAL_DENOMINATOR - 1,
{
}

/// Within one encoding a higher raw value has a higher canonical value.
pub proof fn lemma_normalize_monotonic(lower: RawSample, higher: RawSample)
    requires
        (lower matches RawSample::UnsignedInt16(a) && higher matches RawSample::UnsignedInt16(b)
            && a <= b) || (lower matches RawSample::SignedInt16(a)
            && higher matches RawSample::SignedInt16(b) && a <= b),
    ensures
        normalize_spec(lower).numerator <= normalize_spec(higher).numerator,
{
}

} // verus!
