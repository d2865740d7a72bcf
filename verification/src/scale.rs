//! Scaling a level for display.
//!
//! An intensity is a ratio in `[0, 1]`: 1 at full scale, 0 at or below the
//! reference floor, linear in decibels between the two. It is kept as an
//! exact ratio whose denominator is the magnitude of the floor.

use crate::decibels::Decibels;
use vstd::prelude::*;
use vstd::string::StringExecFns;

verus! {

/// A ratio of two integers.
pub ghost struct Ratio {
    pub numerator: int,
    pub denominator: int,
}

impl Ratio {
    /// Whether the ratio lies in `[0, 1]`.
    pub open spec fn in_unit_interval(self) -> bool {
        0 <= self.numerator <= self.denominator && 0 < self.denominator
    }

    /// Whether `self <= other`, for ratios with positive denominators.
    pub open spec fn at_most(self, other: Ratio) -> bool {
        self.numerator * other.denominator <= other.numerator * self.denominator
    }
}

/// A display intensity in `[0, 1]`.
#[derive(Clone, Copy, PartialEq, Eq, Debug)]
pub struct Intensity {
    numerator: u32,
    denominator: u32,
}

impl View for Intensity {
    type V = Ratio;

    closed spec fn view(&self) -> Ratio {
        Ratio { numerator: self.numerator as int, denominator: self.denominator as int }
    }
}

/// `x` kept between `min` and `max`.
pub open spec fn clamp_spec(x: int, min: int, max: int) -> int {
    if x < min {
        min
    } else if x > max {
        max
    } else {
        x
    }
}

/// The intensity of a level against a floor: `clamp(1 - level / floor, 0, 1)`,
/// which is `clamp(floor_magnitude + level, 0, floor_magnitude) / floor_magnitude`.
pub open spec fn intensity_spec(level: Decibels, floor: Decibels) -> Ratio {
    Ratio {
        numerator: clamp_spec(level.millis - floor.millis, 0, -floor.millis),
        denominator: -floor.millis,
    }
}

/// The display level of an intensity among `level_count` levels:
/// `intensity * (level_count - 1)`, rounded to the nearest level, halves up.
pub open spec fn discrete_level_spec(intensity: Ratio, level_count: int) -> int {
    (2 * intensity.numerator * (level_count - 1) + intensity.denominator) / (2
        * intensity.denominator)
}

/// A bar of `width` cells of which the first `filled` are drawn.
pub open spec fn bar_spec(filled: int, width: int) -> Seq<char> {
    Seq::new(
        if width > 0 {
            width as nat
        } else {
            0
        },
        |i: int|
            if i < filled {
                '='
            } else {
                ' '
            },
    )
}

/// The noise floor of a quantisation to `bits` bits, in thousandths of a
/// decibel: `20 * log10(2)` per bit, taken as 6.0206 dB.
pub open spec fn quantization_noise_millis(bits: int) -> int {
    bits * 60206 / 10
}

/// Full scale is intensity 1, the floor and all below it intensity 0, and
/// the intensity never leaves `[0, 1]`.
pub proof fn lemma_intensity_range(level: Decibels, floor: Decibels)
    requires
        floor.millis < 0,
    ensures
        intensity_spec(level, floor).in_unit_interval(),
        level.millis >= 0 ==> intensity_spec(level, floor).numerator == intensity_spec(
            level,
            floor,
        ).denominator,
        level.millis <= floor.millis ==> intensity_spec(level, floor).numerator == 0,
{
}

/// A higher level never has a lower intensity.
pub proof fn lemma_intensity_monotonic(lower: Decibels, higher: Decibels, floor: Decibels)
    requires
        floor.millis < 0,
        lower.millis <= higher.millis,
    ensures
        intensity_spec(lower, floor).at_most(intensity_spec(higher, floor)),
        intensity_spec(lower, floor).numerator <= intensity_spec(higher, floor).numerator,
{
    let a = intensity_spec(lower, floor);
    let b = intensity_spec(higher, floor);
    assert(a.numerator * b.denominator <= b.numerator * a.denominator) by (nonlinear_arith)
        requires
            a.numerator <= b.numerator,
            a.denominator == b.denominator,
            a.denominator > 0,
    ;
}

/// The display level lies among the levels, it is the lowest for
/// intensity 0 and the highest for intensity 1.
pub proof fn lemma_discrete_level_range(intensity: Ratio, level_count: int)
    requires
        intensity.in_unit_interval(),
        level_count >= 1,
    ensures
        0 <= discrete_level_spec(intensity, level_count) <= level_count - 1,
        intensity.numerator == 0 ==> discrete_level_spec(intensity, level_count) == 0,
        intensity.numerator == intensity.denominator ==> discrete_level_spec(
            intensity,
            level_count,
        ) == level_count - 1,
{
    let n = intensity.numerator;
    let d = intensity.denominator;
    let top = level_count - 1;
    let dividend = 2 * n * top + d;
    let level = dividend / (2 * d);
    vstd::arithmetic::div_mod::lemma_fundamental_div_mod(dividend, 2 * d);
    assert(0 <= 2 * n * top <= 2 * d * top) by (nonlinear_arith)
        requires
            0 <= n <= d,
            0 <= top,
    ;
    let rest = dividend % (2 * d);
    assert(0 <= level <= top) by (nonlinear_arith)
        requires
            dividend == (2 * d) * level + rest,
            0 <= rest < 2 * d,
            d <= dividend <= 2 * d * top + d,
            0 < d,
    ;
    if n == 0 {
        assert(2 * n * top == 0) by (nonlinear_arith)
            requires
                n == 0,
        ;
        assert(level == 0) by (nonlinear_arith)
            requires
                dividend == (2 * d) * level + rest,
                0 <= rest < 2 * d,
                dividend == d,
                0 < d,
        ;
    }
    if n == d {
        assert(2 * n * top == 2 * d * top) by (nonlinear_arith)
            requires
                n == d,
        ;
        assert(level == top) by (nonlinear_arith)
            requires
                dividend == (2 * d) * level + rest,
                0 <= rest < 2 * d,
                dividend == 2 * d * top + d,
                0 < d,
        ;
    }
}

/// A higher intensity never has a lower display level.
pub proof fn lemma_discrete_level_monotonic(lower: Ratio, higher: Ratio, level_count: int)
    requires
        lower.in_unit_interval(),
        higher.in_unit_interval(),
        lower.denominator == higher.denominator,
        lower.numerator <= higher.numerator,
        level_count >= 1,
    ensures
        discrete_level_spec(lower, level_count) <= discrete_level_spec(higher, level_count),
{
    let d = lower.denominator;
    let top = level_count - 1;
    assert(2 * lower.numerator * top <= 2 * higher.numerator * top) by (nonlinear_arith)
        requires
            lower.numerator <= higher.numerator,
            0 <= top,
    ;
    vstd::arithmetic::div_mod::lemma_div_is_ordered(
        2 * lower.numerator * top + d,
        2 * higher.numerator * top + d,
        2 * d,
    );
}

/// Keeps `x` between `min` and `max`.
pub fn clamp(x: i64, min: i64, max: i64) -> (clamped: i64)
    requires
        min <= max,
    ensures
        clamped == clamp_spec(x as int, min as int, max as int),
        min <= clamped <= max,
{
    if x < min {
        min
    } else if x > max {
        max
    } else {
        x
    }
}

/// The noise floor of a quantisation to `quantization_bits` bits, as a
/// positive magnitude: about 6.02 dB per bit.
pub fn quantization_noise_ratio(quantization_bits: u16) -> (ratio: Decibels)
    ensures
        ratio.millis == quantization_noise_millis(quantization_bits as int),
        ratio.millis >= 0,
{
    let scaled: u64 = quantization_bits as u64 * 60206;
    Decibels { millis: (scaled / 10) as i32 }
}

impl Intensity {
    /// The numerator of the ratio.
    pub fn numerator(&self) -> (n: u32)
        ensures
            n == self@.numerator,
            n <= self@.denominator,
    {
        proof {
            use_type_invariant(self);
        }
        self.numerator
    }

    /// The denominator of the ratio.
    pub fn denominator(&self) -> (d: u32)
        ensures
            d == self@.denominator,
            d > 0,
    {
        proof {
            use_type_invariant(self);
        }
        self.denominator
    }

    #[verifier::type_invariant]
    spec fn within_unit_interval(self) -> bool {
        self.numerator <= self.denominator && self.denominator > 0
    }
}

/// Maps a level to a display intensity: 1 at full scale and above, 0 at
/// the reference floor and below, linear in decibels between them.
pub fn scale_to_intensity(decibel_value: Decibels, reference_floor: Decibels) -> (intensity:
    Intensity)
    requires
        reference_floor.millis < 0,
    ensures
        intensity@ == intensity_spec(decibel_value, reference_floor),
        intensity@.in_unit_interval(),
{
    let magnitude: i64 = -(reference_floor.millis as i64);
    let above_floor: i64 = decibel_value.millis as i64 - reference_floor.millis as i64;
    let numerator: i64 = clamp(above_floor, 0, magnitude);
    Intensity { numerator: numerator as u32, denominator: magnitude as u32 }
}

/// Maps an intensity to one of `level_count` display levels, the nearest
/// to `intensity * (level_count - 1)`.
pub fn scale_to_discrete_level(intensity: Intensity, level_count: usize) -> (level: usize)
    requires
        level_count >= 1,
    ensures
        level == discrete_level_spec(intensity@, level_count as int),
        level <= level_count - 1,
        intensity@.numerator == 0 ==> level == 0,
        intensity@.numerator == intensity@.denominator ==> level == level_count - 1,
{
    proof {
        use_type_invariant(intensity);
        lemma_discrete_level_range(intensity@, level_count as int);
    }
    let numerator: u128 = intensity.numerator as u128;
    let denominator: u128 = intensity.denominator as u128;
    let top: u128 = (level_count - 1) as u128;
    assert(2 * numerator * top <= 2 * 0xffff_ffff * 0xffff_ffff_ffff_ffff) by (nonlinear_arith)
        requires
            0 <= numerator <= 0xffff_ffff,
            0 <= top <= 0xffff_ffff_ffff_ffff,
    ;
    let dividend: u128 = 2 * numerator * top + denominator;
    (dividend / (2 * denominator)) as usize
}

/// Draws an intensity as a bar of `num_chars` cells: `=` for the cells up
/// to the display level, blanks after it.
pub fn horizontal_scale(intensity: Intensity, num_chars: usize) -> (bar: String)
    requires
        num_chars < usize::MAX,
    ensures
        bar@ == bar_spec(discrete_level_spec(intensity@, num_chars + 1), num_chars as int),
        bar@.len() == num_chars,
{
    let filled: usize = scale_to_discrete_level(intensity, num_chars + 1);
    let mut bar = String::new();
    let mut i: usize = 0;
    proof {
        reveal_strlit("=");
        reveal_strlit(" ");
    }
    while i < num_chars
        invariant
            i <= num_chars,
            bar@ == bar_spec(filled as int, num_chars as int).take(i as int),
            "="@ == seq!['='],
            " "@ == seq![' '],
        decreases num_chars - i,
    {
        if i < filled {
            bar.append("=");
        } else {
            bar.append(" ");
        }
        i += 1;
    }
    bar
}

} // verus!
