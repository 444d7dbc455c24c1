//! The arithmetic mean of two binary32 samples: their sum, rounded, then
//! halved, rounded again. Both steps round to nearest, ties to even.

use vstd::prelude::*;
use vstd::math::abs;
use vstd::arithmetic::power2::{pow2, lemma_pow2_adds, lemma_pow2_pos, lemma_pow2_unfold, lemma2_to64};
use vstd::arithmetic::power2::lemma_pow2_strictly_increases;
use crate::sample::{Sample, units_of_magnitude, signed_sample, quiet_nan};
use crate::sample::{SIGN_BIT, INFINITY_MAGNITUDE, QUIET_NAN, HIDDEN_BIT};
use crate::rounding::{round_half_units, round_to_sample, lemma_rounding_split};

verus! {

/// The sample nearest to `x` units. A zero takes the sign it is given: the
/// sum of two negative zeros is negative, every other zero sum positive.
pub open spec fn rounded(x: int, negative_zero: bool) -> Sample {
    if x == 0 {
        signed_sample(negative_zero, 0)
    } else {
        signed_sample(x < 0, round_half_units(2 * abs(x)))
    }
}

/// The binary32 sum. A NaN operand, or two infinities of opposite sign,
/// give the quiet NaN; an infinity otherwise gives itself; two finite
/// samples give their exact sum, rounded.
pub open spec fn spec_sum(a: Sample, b: Sample) -> Sample {
    if a.spec_is_nan() || b.spec_is_nan() {
        quiet_nan()
    } else if a.spec_is_infinite() {
        if b.spec_is_infinite() && a.spec_is_negative() != b.spec_is_negative() {
            quiet_nan()
        } else {
            a
        }
    } else if b.spec_is_infinite() {
        b
    } else {
        rounded(a.scaled() + b.scaled(), a.spec_is_negative() && b.spec_is_negative())
    }
}

/// The binary32 quotient by two. A NaN gives the quiet NaN, an infinity
/// itself, and a finite sample its exact half, rounded, with the sign kept.
pub open spec fn spec_half(a: Sample) -> Sample {
    if a.spec_is_nan() {
        quiet_nan()
    } else if a.spec_is_infinite() {
        a
    } else {
        signed_sample(a.spec_is_negative(), round_half_units(a.units()))
    }
}

/// The mean as binary32 arithmetic computes it: `(a + b) / 2`.
pub open spec fn spec_mean(a: Sample, b: Sample) -> Sample {
    spec_half(spec_sum(a, b))
}

/// `significand * 2^exponent` units, with a sign.
pub open spec fn signed_units(negative: bool, significand: nat, exponent: nat) -> int {
    if negative {
        -((significand * pow2(exponent)) as int)
    } else {
        (significand * pow2(exponent)) as int
    }
}

/// The half of a finite sample in closed form: a normal value of exponent
/// field two or more loses one from that field; below that the magnitude
/// bits are halved, and a tie goes to the even result.
pub proof fn lemma_half_closed_form(a: Sample)
    requires
        a.spec_is_finite(),
    ensures
        a.magnitude() >= 0x100_0000 ==> round_half_units(a.units()) == a.magnitude() - 0x80_0000,
        a.magnitude() < 0x100_0000 ==> round_half_units(a.units()) == a.magnitude() / 2 + (if
            a.magnitude() % 4 == 3 {
            1nat
        } else {
            0nat
        }),
{
    let magnitude = a.magnitude();
    let exponent = magnitude / 0x80_0000;
    let fraction = magnitude % 0x80_0000;
    lemma2_to64();
    if magnitude >= 0x100_0000 {
        let s = (exponent - 1) as nat;
        lemma_pow2_pos(s);
        lemma_pow2_pos((s - 1) as nat);
        lemma_rounding_split(a.units(), s, (0x80_0000 + fraction) as nat, 0);
    } else {
        if exponent == 1 {
            assert((0x80_0000 + fraction) * pow2(0) == 0x80_0000 + fraction) by (nonlinear_arith)
                requires
                    pow2(0) == 1,
            ;
        }
        assert(a.units() == magnitude);
        lemma_rounding_split(magnitude, 1, magnitude / 2, magnitude % 2);
    }
}

/// A sum whose larger operand has 24 significant bits, and whose smaller
/// is under a quarter of the larger one's last place, rounds to the larger.
pub proof fn lemma_round_absorbs(m: nat, e: nat, delta: nat, away: bool)
    requires
        0x80_0000 <= m < 0x100_0000,
        2 <= e <= 253,
        4 * delta < pow2(e),
    ensures
        m * pow2(e) > delta,
        round_half_units(
            (2 * (if away {
                (m * pow2(e) + delta) as int
            } else {
                m * pow2(e) - delta
            })) as nat,
        ) == e * 0x80_0000 + m,
{
    let p0 = pow2(e);
    let p1 = pow2(e + 1);
    lemma2_to64();
    lemma_pow2_unfold(e + 1);
    lemma_pow2_unfold(e);
    lemma_pow2_pos((e - 1) as nat);
    assert(m * p0 >= 0x80_0000 * p0) by (nonlinear_arith)
        requires
            m >= 0x80_0000,
            p0 > 0,
    ;
    assert(m * p1 == 2 * (m * p0)) by (nonlinear_arith)
        requires
            p1 == 2 * p0,
    ;
    if away || delta == 0 {
        let h = (2 * (m * p0 + delta)) as nat;
        lemma_rounding_split(h, e + 1, m, 2 * delta);
    } else if m > 0x80_0000 {
        let h = (2 * (m * p0 - delta)) as nat;
        assert(h == (m - 1) * p1 + (p1 - 2 * delta)) by (nonlinear_arith)
            requires
                h == 2 * (m * p0 - delta),
                p1 == 2 * p0,
        ;
        lemma_rounding_split(h, e + 1, (m - 1) as nat, (p1 - 2 * delta) as nat);
    } else {
        let h = (2 * (m * p0 - delta)) as nat;
        assert(h == 0xff_ffff * p0 + (p0 - 2 * delta)) by (nonlinear_arith)
            requires
                h == 2 * (m * p0 - delta),
                m == 0x80_0000,
        ;
        lemma_rounding_split(h, e, 0xff_ffff, (p0 - 2 * delta) as nat);
    }
}

/// A sample of absolute value at most 1 has at most 2^149 units.
pub proof fn lemma_unit_range_units(a: Sample)
    requires
        a.spec_in_unit_range(),
    ensures
        a.spec_is_finite(),
        a.units() <= pow2(149),
        -pow2(149) <= a.scaled() <= pow2(149),
{
    let magnitude = a.magnitude();
    let exponent = magnitude / 0x80_0000;
    let fraction = magnitude % 0x80_0000;
    lemma2_to64();
    lemma_pow2_adds(23, 126);
    lemma_pow2_pos(126);
    if exponent == 0 {
        assert(0x80_0000 * pow2(126) >= 0x80_0000) by (nonlinear_arith)
            requires
                pow2(126) > 0,
        ;
    } else if exponent == 127 {
    } else {
        let e = (exponent - 1) as nat;
        lemma_pow2_strictly_increases(e, 126);
        lemma_pow2_adds(24, 125);
        lemma_pow2_unfold(126);
        if e < 125 {
            lemma_pow2_strictly_increases(e, 125);
        }
        assert((0x80_0000 + fraction) * pow2(e) <= 0x100_0000 * pow2(125)) by (nonlinear_arith)
            requires
                fraction < 0x80_0000,
                pow2(e) <= pow2(125),
        ;
    }
}

/// The mean of two samples within [-1, 1] lies within [-1, 1].
pub proof fn lemma_mean_in_unit_range(a: Sample, b: Sample)
    requires
        a.spec_in_unit_range(),
        b.spec_in_unit_range(),
    ensures
        spec_mean(a, b).spec_in_unit_range(),
{
    lemma_unit_range_units(a);
    lemma_unit_range_units(b);
    lemma2_to64();
    let x = a.scaled() + b.scaled();
    let sum = spec_sum(a, b);
    if x == 0 {
        lemma_half_closed_form(sum);
    } else {
        let h = (2 * abs(x)) as nat;
        lemma_pow2_unfold(151);
        lemma_pow2_unfold(150);
        lemma_pow2_adds(23, 128);
        crate::rounding::lemma_round_bound(h, 128);
        assert(sum.magnitude() == round_half_units(h));
        lemma_half_closed_form(sum);
    }
}

/// The sum does not depend on the order of its operands.
pub proof fn lemma_sum_commutes(a: Sample, b: Sample)
    ensures
        spec_sum(a, b) == spec_sum(b, a),
{
}

/// The mean does not depend on the order of its operands.
pub proof fn lemma_mean_commutes(a: Sample, b: Sample)
    ensures
        spec_mean(a, b) == spec_mean(b, a),
{
    lemma_sum_commutes(a, b);
}

/// Adding a zero to a finite sample other than a zero gives the sample.
pub proof fn lemma_sum_with_zero(a: Sample, zero: Sample)
    requires
        a.spec_is_finite(),
        a.magnitude() != 0,
        zero.magnitude() == 0,
    ensures
        spec_sum(a, zero) == a,
{
    crate::rounding::lemma_round_of_representable(a.magnitude());
    lemma_units_positive(a);
}

/// A finite sample other than a zero has a value other than zero.
pub proof fn lemma_units_positive(a: Sample)
    requires
        a.spec_is_finite(),
        a.magnitude() != 0,
    ensures
        a.units() > 0,
{
    let exponent = a.magnitude() / 0x80_0000;
    let fraction = a.magnitude() % 0x80_0000;
    if exponent > 0 {
        lemma_pow2_pos((exponent - 1) as nat);
        assert((0x80_0000 + fraction) * pow2((exponent - 1) as nat) > 0) by (nonlinear_arith)
            requires
                fraction >= 0,
                pow2((exponent - 1) as nat) > 0,
        ;
    }
}

/// Twice a finite value below 2^127 is a binary32 value: these are its
/// magnitude bits.
pub open spec fn doubled_magnitude(magnitude: nat) -> nat {
    if magnitude < 0x80_0000 {
        2 * magnitude
    } else {
        magnitude + 0x80_0000
    }
}

/// The bits of `doubled_magnitude` stand for twice the value.
pub proof fn lemma_doubled_magnitude(magnitude: nat)
    requires
        magnitude < 0x7f00_0000,
    ensures
        doubled_magnitude(magnitude) < 0x7f80_0000,
        units_of_magnitude(doubled_magnitude(magnitude)) == 2 * units_of_magnitude(magnitude),
{
    let exponent = magnitude / 0x80_0000;
    let fraction = magnitude % 0x80_0000;
    lemma2_to64();
    if exponent == 0 {
        if magnitude >= 0x40_0000 {
            assert((0x80_0000 + (2 * magnitude - 0x80_0000)) * pow2(0) == 2 * magnitude)
                by (nonlinear_arith)
                requires
                    pow2(0) == 1,
            ;
        }
    } else {
        let p = pow2((exponent - 1) as nat);
        lemma_pow2_unfold(exponent);
        assert((0x80_0000 + fraction) * (2 * p) == 2 * ((0x80_0000 + fraction) * p))
            by (nonlinear_arith);
    }
}

/// Where the mean of two finite samples is itself a binary32 value other
/// than zero, and below 2^127 in magnitude, that value is the mean: no
/// step rounds.
pub proof fn lemma_mean_exact_when_representable(a: Sample, b: Sample, mean: Sample)
    requires
        a.spec_is_finite(),
        b.spec_is_finite(),
        0 < mean.magnitude() < 0x7f00_0000,
        a.scaled() + b.scaled() == 2 * mean.scaled(),
    ensures
        spec_mean(a, b) == mean,
{
    let x = a.scaled() + b.scaled();
    let twice = doubled_magnitude(mean.magnitude());
    lemma_units_positive(mean);
    lemma_doubled_magnitude(mean.magnitude());
    crate::rounding::lemma_round_of_representable(twice);
    crate::rounding::lemma_round_of_representable(mean.magnitude());
    assert(abs(x) == units_of_magnitude(twice));
    let sum = spec_sum(a, b);
    assert(sum == signed_sample(mean.spec_is_negative(), twice));
    assert(sum.magnitude() == twice);
}

/// How products by a positive factor add, subtract and compare.
proof fn lemma_common_factor(a: nat, b: nat, p: nat)
    by (nonlinear_arith)
    requires
        p > 0,
    ensures
        a * p + b * p == (a + b) * p,
        a * p - b * p == (a - b) * p,
        (a + b) * (2 * p) == 2 * ((a + b) * p),
        (a - b) * (2 * p) == 2 * ((a - b) * p),
        a > b <==> a * p > b * p,
        a == b <==> a * p == b * p,
        a == 0 <==> a * p == 0,
{
}

/// Two values on a common exponent add as their significands do.
proof fn lemma_near_sum(na: bool, wide: nat, nb: bool, mb: nat, eb: nat)
    ensures
        ({
            let x = signed_units(na, wide, eb) + signed_units(nb, mb, eb);
            let step = pow2(eb + 1);
            &&& na == nb ==> 2 * abs(x) == (wide + mb) * step && (x == 0 <==> wide + mb == 0) && (x
                < 0 ==> na) && (x > 0 ==> !na)
            &&& na != nb && wide > mb ==> 2 * abs(x) == (wide - mb) * step && x != 0 && (x < 0
                <==> na)
            &&& na != nb && wide < mb ==> 2 * abs(x) == (mb - wide) * step && x != 0 && (x < 0
                <==> nb)
            &&& na != nb && wide == mb ==> x == 0
        }),
{
    let unit = pow2(eb);
    lemma_pow2_pos(eb);
    lemma_pow2_unfold(eb + 1);
    lemma_common_factor(wide, mb, unit);
    lemma_common_factor(mb, wide, unit);
    lemma_common_factor(wide + mb, 0, unit);
}

/// A value far above another absorbs it: their sum rounds to the larger.
proof fn lemma_far_sum(na: bool, ma: nat, ea: nat, nb: bool, mb: nat, eb: nat)
    requires
        0x80_0000 <= ma < 0x100_0000,
        mb < 0x100_0000,
        eb + 26 <= ea <= 253,
    ensures
        rounded(signed_units(na, ma, ea) + signed_units(nb, mb, eb), na && nb) == signed_sample(
            na,
            ea * 0x80_0000 + ma,
        ),
{
    let unit = pow2(eb);
    let delta = mb * unit;
    let big = ma * pow2(ea);
    let x = signed_units(na, ma, ea) + signed_units(nb, mb, eb);
    lemma2_to64();
    lemma_pow2_pos(eb);
    lemma_pow2_adds(24, eb);
    lemma_pow2_adds(2, eb + 24);
    if eb + 26 < ea {
        lemma_pow2_strictly_increases(eb + 26, ea);
    }
    lemma_common_factor(mb, 0x100_0000, unit);
    assert(4 * delta < pow2(ea));
    lemma_round_absorbs(ma, ea, delta, na == nb);
    assert(abs(x) == (if na == nb {
        (big + delta) as int
    } else {
        big - delta
    }));
    assert(x != 0 && (x < 0 <==> na));
}

/// A 24-bit significand shifted left by at most 38 bits fits in 64 bits.
proof fn lemma_shift_fits(m: u64, gap: u64)
    requires
        m < 0x100_0000,
        gap <= 38,
    ensures
        m << gap == m * pow2(gap as nat),
        m * pow2(gap as nat) < 0x4000_0000_0000_0000,
{
    vstd::arithmetic::power2::lemma2_to64_rest();
    if gap < 38 {
        lemma_pow2_strictly_increases(gap as nat, 38);
    }
    assert(m * pow2(gap as nat) <= 0xff_ffff * 0x40_0000_0000) by (nonlinear_arith)
        requires
            m <= 0xff_ffff,
            pow2(gap as nat) <= 0x40_0000_0000,
    ;
    vstd::bits::lemma_u64_shl_is_mul(m, gap);
}

/// A sample is fixed by its sign and its magnitude bits.
proof fn lemma_sample_from_parts(r: Sample, negative: bool, magnitude: nat)
    requires
        r.spec_is_negative() == negative,
        r.magnitude() == magnitude,
    ensures
        r == signed_sample(negative, magnitude),
{
}

/// The sum of two finite values given by sign, significand and exponent,
/// the first with the larger exponent.
fn sum_ordered(na: bool, ma: u64, ea: u32, nb: bool, mb: u64, eb: u32) -> (r: Sample)
    requires
        ma < 0x100_0000,
        mb < 0x100_0000,
        eb <= ea <= 253,
        ea > 0 ==> ma >= 0x80_0000,
    ensures
        r == rounded(
            signed_units(na, ma as nat, ea as nat) + signed_units(nb, mb as nat, eb as nat),
            na && nb,
        ),
{
    let gap: u32 = ea - eb;
    if gap > 38 {
        proof {
            lemma_far_sum(na, ma as nat, ea as nat, nb, mb as nat, eb as nat);
        }
        let magnitude: u32 = ea * HIDDEN_BIT + ma as u32;
        return if na {
            Sample { bits: SIGN_BIT + magnitude }
        } else {
            Sample { bits: magnitude }
        };
    }
    let gap64: u64 = gap as u64;
    proof {
        lemma_shift_fits(ma, gap64);
    }
    let wide: u64 = ma << gap64;
    proof {
        lemma_pow2_adds(gap as nat, eb as nat);
        assert(ma as nat * pow2(ea as nat) == wide as nat * pow2(eb as nat)) by (nonlinear_arith)
            requires
                wide == ma * pow2(gap as nat),
                pow2(ea as nat) == pow2(gap as nat) * pow2(eb as nat),
        ;
        assert(signed_units(na, ma as nat, ea as nat) == signed_units(na, wide as nat, eb as nat));
        lemma_near_sum(na, wide as nat, nb, mb as nat, eb as nat);
        crate::rounding::lemma_round_exact(0, (eb + 1) as nat);
    }
    if na != nb && wide == mb {
        return Sample { bits: 0 };
    }
    let negative: bool = if na == nb || wide > mb {
        na
    } else {
        nb
    };
    let total: u64 = if na == nb {
        wide + mb
    } else if wide > mb {
        wide - mb
    } else {
        mb - wide
    };
    let r = round_to_sample(negative, total, eb + 1);
    proof {
        lemma_sample_from_parts(
            r,
            negative,
            round_half_units(total as nat * pow2((eb + 1) as nat)),
        );
    }
    r
}

impl Sample {
    /// The significand and the exponent of a finite sample: its magnitude
    /// is `significand * 2^exponent` units.
    fn parts(self) -> (p: (u64, u32))
        requires
            self.spec_is_finite(),
        ensures
            self.units() == p.0 * pow2(p.1 as nat),
            self.magnitude() == p.1 * 0x80_0000 + p.0,
            p.0 < 0x100_0000,
            p.1 <= 253,
            p.1 > 0 ==> p.0 >= 0x80_0000,
    {
        let magnitude: u32 = self.bits % SIGN_BIT;
        let exponent: u32 = magnitude / HIDDEN_BIT;
        let fraction: u32 = magnitude % HIDDEN_BIT;
        proof {
            lemma2_to64();
            assert(fraction as nat * pow2(0) == fraction) by (nonlinear_arith)
                requires
                    pow2(0) == 1,
            ;
        }
        if exponent == 0 {
            (fraction as u64, 0)
        } else {
            ((HIDDEN_BIT + fraction) as u64, exponent - 1)
        }
    }

    /// The binary32 sum of two samples.
    pub fn sum(self, other: Sample) -> (r: Sample)
        ensures
            r == spec_sum(self, other),
    {
        if self.is_nan() || other.is_nan() {
            return Sample { bits: QUIET_NAN };
        }
        if self.is_infinite() {
            if other.is_infinite() && self.is_negative() != other.is_negative() {
                return Sample { bits: QUIET_NAN };
            }
            return self;
        }
        if other.is_infinite() {
            return other;
        }
        let (ma, ea) = self.parts();
        let (mb, eb) = other.parts();
        if ea >= eb {
            sum_ordered(self.is_negative(), ma, ea, other.is_negative(), mb, eb)
        } else {
            sum_ordered(other.is_negative(), mb, eb, self.is_negative(), ma, ea)
        }
    }

    /// The binary32 quotient of a sample by two.
    pub fn half(self) -> (r: Sample)
        ensures
            r == spec_half(self),
    {
        if self.is_nan() {
            return Sample { bits: QUIET_NAN };
        }
        if self.is_infinite() {
            return self;
        }
        proof {
            lemma_half_closed_form(self);
        }
        let magnitude: u32 = self.bits % SIGN_BIT;
        let sign: u32 = self.bits - magnitude;
        if magnitude >= 2 * HIDDEN_BIT {
            Sample { bits: self.bits - HIDDEN_BIT }
        } else {
            let up: u32 = if magnitude % 4 == 3 {
                1
            } else {
                0
            };
            Sample { bits: sign + magnitude / 2 + up }
        }
    }

    /// The mean of two samples as binary32 arithmetic computes it:
    /// `(self + other) / 2`.
    pub fn mean(self, other: Sample) -> (r: Sample)
        ensures
            r == spec_mean(self, other),
    {
        self.sum(other).half()
    }
}

} // verus!
