//! Integer PCM samples as binary32 values of unit amplitude.
//!
//! A 16-bit sample divided by 32768, and the mean of two such quotients,
//! have at most 17 significant bits, so each is a binary32 value and no
//! rounding takes place: the conversions here are exact.

use vstd::prelude::*;
use vstd::math::abs;
use vstd::arithmetic::power2::{pow2, lemma_pow2_adds, lemma_pow2_pos, lemma2_to64};
use crate::sample::{Sample, units_of_magnitude, signed_sample};
use crate::rounding::{round_half_units, round_to_sample, lemma_round_exact, lemma_round_bound};
use crate::mean::{spec_mean, spec_sum, spec_half};

verus! {

/// The sample of value `numerator * 2^(shift - 150)`, rounded to nearest;
/// zero comes out as positive zero.
pub open spec fn dyadic_sample(numerator: int, shift: nat) -> Sample {
    signed_sample(numerator < 0, round_half_units(abs(numerator) * pow2(shift)))
}

/// The value of a 16-bit sample divided by 32768.
pub open spec fn pcm16_sample(value: i16) -> Sample {
    dyadic_sample(value as int, 135)
}

/// The mean of two 16-bit samples, each divided by 32768.
pub open spec fn pcm16_mean_sample(left: i16, right: i16) -> Sample {
    dyadic_sample(left + right, 134)
}

/// A dyadic sample of at most 24 significant bits within [-1, 1] is that
/// value exactly: `scaled() / 2^149 == numerator / 2^(150 - shift)`.
pub proof fn lemma_dyadic_sample_exact(numerator: int, shift: nat)
    requires
        127 <= shift <= 150,
        abs(numerator) <= pow2((150 - shift) as nat),
    ensures
        dyadic_sample(numerator, shift).spec_in_unit_range(),
        dyadic_sample(numerator, shift).scaled() * pow2((150 - shift) as nat) == numerator * pow2(
            149,
        ),
        numerator == 0 ==> dyadic_sample(numerator, shift).bits == 0,
{
    let a = abs(numerator);
    let k = (150 - shift) as nat;
    let h = a * pow2(shift);
    lemma2_to64();
    lemma_pow2_pos(shift);
    lemma_pow2_adds(k, shift);
    lemma_pow2_adds(23, 127);
    lemma_pow2_adds(1, 149);
    vstd::arithmetic::power2::lemma_pow2_strictly_increases(k, 24);
    assert(h <= pow2(150)) by (nonlinear_arith)
        requires
            h == a * pow2(shift),
            a <= pow2(k),
            pow2(150) == pow2(k) * pow2(shift),
    ;
    lemma_round_bound(h, 127);
    lemma_round_exact(a, shift);
    let magnitude = round_half_units(h);
    let r = dyadic_sample(numerator, shift);
    assert(r.magnitude() == magnitude);
    assert(r.spec_is_negative() == (numerator < 0));
    let u = units_of_magnitude(magnitude);
    assert(u * pow2(k) == a * pow2(149)) by (nonlinear_arith)
        requires
            u * 2 == a * pow2(shift),
            pow2(150) == pow2(k) * pow2(shift),
            pow2(150) == 2 * pow2(149),
            pow2(shift) > 0,
    ;
    if numerator < 0 {
        assert((-(u as int)) * pow2(k) == numerator * pow2(149)) by (nonlinear_arith)
            requires
                u * pow2(k) == a * pow2(149),
                a == -numerator,
        ;
    }
}

/// The value and the sign of a 16-bit sample divided by 32768.
pub proof fn lemma_pcm16_sample_value(value: i16)
    ensures
        pcm16_sample(value).spec_is_finite(),
        pcm16_sample(value).scaled() == value * pow2(134),
        pcm16_sample(value).spec_is_negative() == (value < 0),
{
    let a = pcm16_sample(value);
    let step = pow2(134);
    lemma2_to64();
    lemma_pow2_adds(15, 134);
    lemma_dyadic_sample_exact(value as int, 135);
    lemma_round_exact(abs(value as int), 135);
    assert(a.scaled() == value * step) by (nonlinear_arith)
        requires
            a.scaled() * 32768 == value * pow2(149),
            pow2(149) == 32768 * step,
    ;
}

/// Halving a dyadic sample of few bits moves its binary point and rounds
/// nothing.
pub proof fn lemma_half_of_dyadic_sample(total: int)
    requires
        -0x1_0000 <= total <= 0x1_0000,
    ensures
        spec_half(dyadic_sample(total, 135)) == dyadic_sample(total, 134),
{
    let n = abs(total);
    let whole = dyadic_sample(total, 135);
    let magnitude = round_half_units(n * pow2(135));
    lemma_round_exact(n, 135);
    lemma_round_exact(n, 134);
    vstd::arithmetic::power2::lemma_pow2_unfold(135);
    assert(whole.magnitude() == magnitude);
    assert(whole.spec_is_negative() == (total < 0));
    assert(whole.units() == n * pow2(134)) by (nonlinear_arith)
        requires
            whole.units() * 2 == n * pow2(135),
            pow2(135) == 2 * pow2(134),
    ;
}

/// Adding two 16-bit samples, each divided by 32768, rounds nothing.
pub proof fn lemma_sum_of_pcm16_samples(left: i16, right: i16)
    ensures
        spec_sum(pcm16_sample(left), pcm16_sample(right)) == dyadic_sample(left + right, 135),
{
    let a = pcm16_sample(left);
    let b = pcm16_sample(right);
    let step = pow2(134);
    let total: int = left + right;
    let n = abs(total);
    let x = a.scaled() + b.scaled();
    lemma_pcm16_sample_value(left);
    lemma_pcm16_sample_value(right);
    lemma_pow2_pos(134);
    vstd::arithmetic::power2::lemma_pow2_unfold(135);
    lemma_round_exact(n, 135);
    assert(x == total * step) by (nonlinear_arith)
        requires
            x == left * step + right * step,
            total == left + right,
    ;
    if total == 0 {
        assert(x == 0) by (nonlinear_arith)
            requires
                x == total * step,
                total == 0,
        ;
    } else {
        assert(x != 0 && (x < 0 <==> total < 0) && 2 * abs(x) == n * pow2(135))
            by (nonlinear_arith)
            requires
                x == total * step,
                total != 0,
                step > 0,
                n == abs(total),
                pow2(135) == 2 * step,
        ;
    }
}

/// Averaging two 16-bit samples is what binary32 arithmetic does with
/// them: each divided by 32768, the quotients added, the sum halved. No
/// step of that rounds.
pub proof fn lemma_pcm16_mean_is_binary32_mean(left: i16, right: i16)
    ensures
        pcm16_mean_sample(left, right) == spec_mean(pcm16_sample(left), pcm16_sample(right)),
{
    lemma_sum_of_pcm16_samples(left, right);
    lemma_half_of_dyadic_sample(left + right);
}

/// The absolute value of a sum of two 16-bit samples, or of one.
fn magnitude_of(x: i32) -> (a: u64)
    requires
        -0x1_0000 <= x <= 0x1_0000,
    ensures
        a == abs(x as int),
{
    if x < 0 {
        (-x) as u64
    } else {
        x as u64
    }
}

impl Sample {
    /// A signed 16-bit sample divided by 32768, exactly.
    pub fn from_pcm16(value: i16) -> (r: Sample)
        ensures
            r == pcm16_sample(value),
            r.spec_in_unit_range(),
            r.scaled() * 32768 == value * pow2(149),
            value == 0 ==> r.bits == 0,
    {
        proof {
            lemma2_to64();
            lemma_dyadic_sample_exact(value as int, 135);
        }
        round_to_sample(value < 0, magnitude_of(value as i32), 135)
    }

    /// The mean of two signed 16-bit samples each divided by 32768, exactly:
    /// their sum divided by 65536.
    pub fn from_pcm16_pair(left: i16, right: i16) -> (r: Sample)
        ensures
            r == pcm16_mean_sample(left, right),
            r.spec_in_unit_range(),
            r.scaled() * 65536 == (left + right) * pow2(149),
            left + right == 0 ==> r.bits == 0,
    {
        let sum: i32 = left as i32 + right as i32;
        proof {
            lemma2_to64();
            lemma_dyadic_sample_exact(sum as int, 134);
        }
        round_to_sample(sum < 0, magnitude_of(sum), 134)
    }
}

} // verus!
