//! Root mean square of a channel, as an exact fixed-point measure.
//!
//! The mean of the squares of Q15 samples is a ratio of integers, so the
//! only rounding is the last one: the root is rounded up to the next Q31
//! step. Rounding up keeps zero for true silence alone.

use crate::sample::CanonicalSample;
use vstd::prelude::*;

verus! {

/// A root mean square as a Q31 fraction of full scale: `q31 / 2^31`.
/// Values above [`FULL_SCALE_Q31`] stand for a clipped signal.
#[derive(Clone, Copy, PartialEq, Eq, Debug, Structural)]
pub struct Rms {
    pub q31: u64,
}

/// The Q31 value of a full-scale signal, 1.0.
pub const FULL_SCALE_Q31: u64 = 0x8000_0000;

/// The square of the Q31 unit over the square of the Q15 unit: `2^62 / 2^30`.
pub const ENERGY_SCALE: u64 = 0x1_0000_0000;

/// The largest square of a Q15 numerator: `32768 * 32768`.
pub const MAX_SQUARE: u64 = 0x4000_0000;

/// The sum of the squared numerators of `samples`.
pub open spec fn square_sum(samples: Seq<CanonicalSample>) -> nat
    decreases samples.len(),
{
    if samples.len() == 0 {
        0
    } else {
        square_sum(samples.drop_last()) + (samples.last().numerator * samples.last().numerator) as nat
    }
}

/// Whether every sample is zero.
pub open spec fn silent(samples: Seq<CanonicalSample>) -> bool {
    forall|i: int| 0 <= i < samples.len() ==> (#[trigger] samples[i]).numerator == 0
}

/// Whether `root` is the least natural number whose square reaches `x`.
pub open spec fn is_ceil_sqrt(x: nat, root: nat) -> bool {
    &&& root * root >= x
    &&& root > 0 ==> (root - 1) * (root - 1) < x
}

/// Whether `q31` is the root mean square of `samples` in Q31, rounded up:
/// the least `q31` with `(q31 / 2^31)^2 >= square_sum / (len * 2^30)`.
pub open spec fn is_root_mean_square(samples: Seq<CanonicalSample>, q31: nat) -> bool {
    &&& q31 * q31 * samples.len() >= ENERGY_SCALE * square_sum(samples)
    &&& q31 > 0 ==> (q31 - 1) * (q31 - 1) * samples.len() < ENERGY_SCALE * square_sum(samples)
}

/// Squares grow with their roots.
pub proof fn lemma_square_monotonic(a: nat, b: nat)
    requires
        a <= b,
    ensures
        a * a <= b * b,
{
    assert(a * a <= b * b) by (nonlinear_arith)
        requires
            0 <= a <= b,
    ;
}

/// A number has one rounded-up square root.
pub proof fn lemma_ceil_sqrt_unique(x: nat, a: nat, b: nat)
    requires
        is_ceil_sqrt(x, a),
        is_ceil_sqrt(x, b),
    ensures
        a == b,
{
    if a < b {
        lemma_square_monotonic(a, (b - 1) as nat);
    } else if b < a {
        lemma_square_monotonic(b, (a - 1) as nat);
    }
}

/// A sequence of samples has one root mean square.
pub proof fn lemma_root_mean_square_unique(samples: Seq<CanonicalSample>, a: nat, b: nat)
    requires
        samples.len() > 0,
        is_root_mean_square(samples, a),
        is_root_mean_square(samples, b),
    ensures
        a == b,
{
    let n = samples.len();
    if a < b {
        lemma_square_monotonic(a, (b - 1) as nat);
        assert(a * a * n <= (b - 1) * (b - 1) * n) by (nonlinear_arith)
            requires
                a * a <= (b - 1) * (b - 1),
                n > 0,
        ;
    } else if b < a {
        lemma_square_monotonic(b, (a - 1) as nat);
        assert(b * b * n <= (a - 1) * (a - 1) * n) by (nonlinear_arith)
            requires
                b * b <= (a - 1) * (a - 1),
                n > 0,
        ;
    }
}

/// A channel with no less mean energy than another has no lower root mean
/// square: the rounding keeps the order.
pub proof fn lemma_root_mean_square_monotonic(
    quieter: Seq<CanonicalSample>,
    louder: Seq<CanonicalSample>,
    rms_of_quieter: nat,
    rms_of_louder: nat,
)
    requires
        quieter.len() > 0,
        louder.len() > 0,
        square_sum(quieter) * louder.len() <= square_sum(louder) * quieter.len(),
        is_root_mean_square(quieter, rms_of_quieter),
        is_root_mean_square(louder, rms_of_louder),
    ensures
        rms_of_quieter <= rms_of_louder,
{
    let a = rms_of_quieter;
    let b = rms_of_louder;
    let m = quieter.len();
    let n = louder.len();
    let s = square_sum(quieter);
    let t = square_sum(louder);
    if a > b {
        let below = (a - 1) as nat;
        lemma_square_monotonic(b, below);
        assert(below * below * m * n < ENERGY_SCALE * s * n) by (nonlinear_arith)
            requires
                below * below * m < ENERGY_SCALE * s,
                n > 0,
        ;
        assert(ENERGY_SCALE * s * n <= ENERGY_SCALE * t * m) by (nonlinear_arith)
            requires
                s * n <= t * m,
                ENERGY_SCALE == 0x1_0000_0000,
        ;
        assert(ENERGY_SCALE * t * m <= b * b * n * m) by (nonlinear_arith)
            requires
                b * b * n >= ENERGY_SCALE * t,
                m > 0,
        ;
        assert(b * b * n * m <= below * below * m * n) by (nonlinear_arith)
            requires
                b * b <= below * below,
                m > 0,
                n > 0,
        ;
    }
}

/// The sum of squares is at most `len * 2^30`, and it is zero for silence
/// only.
pub proof fn lemma_square_sum_bounds(samples: Seq<CanonicalSample>)
    ensures
        square_sum(samples) <= samples.len() * MAX_SQUARE,
        square_sum(samples) == 0 <==> silent(samples),
    decreases samples.len(),
{
    if samples.len() > 0 {
        let rest = samples.drop_last();
        let last = samples.last().numerator as int;
        lemma_square_sum_bounds(rest);
        assert(0 <= last * last <= 0x4000_0000) by (nonlinear_arith)
            requires
                -32768 <= last <= 32767,
        ;
        assert(last * last == 0 <==> last == 0) by (nonlinear_arith);
        assert((rest.len() + 1) * MAX_SQUARE == rest.len() * MAX_SQUARE + MAX_SQUARE)
            by (nonlinear_arith);
        if square_sum(samples) == 0 {
            assert forall|i: int| 0 <= i < samples.len() implies (#[trigger] samples[i]).numerator
                == 0 by {
                if i < rest.len() {
                    assert(rest[i] == samples[i]);
                }
            }
        }
    }
}

/// The root mean square of samples in `[-1, 1)` is at most full scale,
/// and it is zero for silence only.
pub proof fn lemma_root_mean_square_range(samples: Seq<CanonicalSample>, q31: nat)
    requires
        samples.len() > 0,
        is_root_mean_square(samples, q31),
    ensures
        q31 <= FULL_SCALE_Q31,
        q31 == 0 <==> silent(samples),
{
    let n = samples.len();
    let s = square_sum(samples);
    lemma_square_sum_bounds(samples);
    assert(ENERGY_SCALE * s <= ENERGY_SCALE * (n * MAX_SQUARE)) by (nonlinear_arith)
        requires
            s <= n * MAX_SQUARE,
    ;
    if q31 > FULL_SCALE_Q31 {
        let below = (q31 - 1) as nat;
        lemma_square_monotonic(FULL_SCALE_Q31 as nat, below);
        assert(below * below * n >= ENERGY_SCALE * (n * MAX_SQUARE)) by (nonlinear_arith)
            requires
                below * below >= 0x8000_0000 * 0x8000_0000,
                ENERGY_SCALE == 0x1_0000_0000,
                MAX_SQUARE == 0x4000_0000,
                n > 0,
        ;
    }
    if q31 == 0 {
        assert(q31 * q31 * n == 0) by (nonlinear_arith)
            requires
                q31 == 0,
        ;
        assert(s == 0) by (nonlinear_arith)
            requires
                ENERGY_SCALE * s <= 0,
                ENERGY_SCALE == 0x1_0000_0000,
                s >= 0,
        ;
    }
    if s == 0 && q31 > 0 {
        assert((q31 - 1) * (q31 - 1) * n >= 0) by (nonlinear_arith)
            requires
                q31 >= 1,
                n > 0,
        ;
    }
}

/// The least number whose square reaches `x`.
pub fn ceil_sqrt(x: u64) -> (root: u64)
    ensures
        is_ceil_sqrt(x as nat, root as nat),
        root <= 0x1_0000_0000,
{
    let mut low: u64 = 0;
    let mut high: u64 = 0x1_0000_0000;
    while low < high
        invariant
            low <= high <= 0x1_0000_0000,
            high * high >= x,
            low > 0 ==> (low - 1) * (low - 1) < x,
        decreases high - low,
    {
        let middle: u64 = low + (high - low) / 2;
        assert(middle * middle <= 0xffff_ffff * 0xffff_ffff) by (nonlinear_arith)
            requires
                0 <= middle <= 0xffff_ffff,
        ;
        if middle * middle >= x {
            high = middle;
        } else {
            low = middle + 1;
        }
    }
    low
}

/// Adds up the squared numerators of `samples`.
pub fn sum_of_squares(samples: &Vec<CanonicalSample>) -> (sum: u128)
    ensures
        sum == square_sum(samples@),
        sum <= samples.len() * MAX_SQUARE,
{
    let mut sum: u128 = 0;
    let mut i: usize = 0;
    while i < samples.len()
        invariant
            i <= samples.len(),
            sum == square_sum(samples@.take(i as int)),
            sum <= i * MAX_SQUARE,
        decreases samples.len() - i,
    {
        let numerator: i64 = samples[i].numerator as i64;
        assert(0 <= numerator * numerator <= 0x4000_0000) by (nonlinear_arith)
            requires
                -32768 <= numerator <= 32767,
        ;
        let square: u128 = (numerator * numerator) as u128;
        proof {
            let next = samples@.take(i + 1);
            assert(next.drop_last() =~= samples@.take(i as int));
            assert(i * MAX_SQUARE <= 0xffff_ffff_ffff_ffff * 0x4000_0000) by (nonlinear_arith)
                requires
                    0 <= i <= 0xffff_ffff_ffff_ffff,
                    MAX_SQUARE == 0x4000_0000,
            ;
        }
        sum = sum + square;
        i += 1;
    }
    assert(samples@.take(samples.len() as int) =~= samples@);
    sum
}

/// Measures the root mean square of a channel: the square root of the mean
/// of the squared samples, rounded up to the next Q31 step.
pub fn root_mean_square(samples: &Vec<CanonicalSample>) -> (rms: Rms)
    requires
        samples.len() > 0,
    ensures
        is_root_mean_square(samples@, rms.q31 as nat),
        rms.q31 <= FULL_SCALE_Q31,
        rms.q31 == 0 <==> silent(samples@),
{
    let count: u128 = samples.len() as u128;
    let sum: u128 = sum_of_squares(samples);
    assert(sum * ENERGY_SCALE <= count * 0x4000_0000_0000_0000) by (nonlinear_arith)
        requires
            sum <= count * MAX_SQUARE,
            MAX_SQUARE == 0x4000_0000,
            ENERGY_SCALE == 0x1_0000_0000,
    ;
    assert(count * 0x4000_0000_0000_0000 <= 0xffff_ffff_ffff_ffff * 0x4000_0000_0000_0000)
        by (nonlinear_arith)
        requires
            0 <= count <= 0xffff_ffff_ffff_ffff,
    ;
    let scaled: u128 = sum * (ENERGY_SCALE as u128);
    let quotient: u128 = scaled / count;
    let remainder: u128 = scaled % count;
    proof {
        vstd::arithmetic::div_mod::lemma_fundamental_div_mod(scaled as int, count as int);
        assert(quotient <= 0x4000_0000_0000_0000 && (remainder != 0 ==> quotient
            < 0x4000_0000_0000_0000)) by (nonlinear_arith)
            requires
                scaled == count * quotient + remainder,
                scaled <= count * 0x4000_0000_0000_0000,
                0 <= remainder < count,
                0 <= quotient,
        ;
    }
    let mean: u64 = if remainder == 0 {
        quotient as u64
    } else {
        (quotient + 1) as u64
    };
    let root: u64 = ceil_sqrt(mean);
    proof {
        let n = samples@.len();
        let r = root as nat;
        assert(mean * count >= scaled && (mean > 0 ==> (mean - 1) * count < scaled))
            by (nonlinear_arith)
            requires
                scaled == count * quotient + remainder,
                0 <= remainder < count,
                remainder == 0 ==> mean == quotient,
                remainder != 0 ==> mean == quotient + 1,
                count > 0,
        ;
        assert(r * r * n >= mean * count) by (nonlinear_arith)
            requires
                r * r >= mean,
                n == count,
                n > 0,
        ;
        if r > 0 {
            assert((r - 1) * (r - 1) * n <= (mean - 1) * count) by (nonlinear_arith)
                requires
                    (r - 1) * (r - 1) <= mean - 1,
                    n == count,
                    n > 0,
            ;
        }
        assert(scaled == ENERGY_SCALE * square_sum(samples@)) by (nonlinear_arith)
            requires
                scaled == sum * ENERGY_SCALE,
                sum == square_sum(samples@),
        ;
        lemma_root_mean_square_range(samples@, r);
    }
    Rms { q31: root }
}

} // verus!
