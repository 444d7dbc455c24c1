//! Rounding to binary32: to nearest, ties to the even significand.
//!
//! A value to be rounded is a natural number of half units, that is of
//! multiples of 2^-150: one bit finer than the finest binary32 step.

use vstd::prelude::*;
use vstd::arithmetic::power2::{pow2, lemma_pow2_pos, lemma_pow2_unfold, lemma_pow2_adds, lemma2_to64};
use vstd::arithmetic::power2::lemma_pow2_strictly_increases;
use vstd::arithmetic::div_mod::lemma_fundamental_div_mod_converse;
use crate::sample::{Sample, units_of_magnitude, SIGN_BIT, INFINITY_MAGNITUDE};

verus! {

/// The number of low bits of `h` that rounding to 24 significant bits drops
/// when `h` counts half units: at least the one bit that tells half units
/// from whole ones.
pub open spec fn dropped_bits(h: nat) -> nat
    decreases h,
{
    if h < 0x200_0000 {
        1
    } else {
        1 + dropped_bits(h / 2)
    }
}

/// The magnitude bits of the binary32 value nearest to `h` half units, ties
/// going to the even significand, and everything at or beyond the largest
/// finite value plus half a step going to infinity.
pub open spec fn round_half_units(h: nat) -> nat {
    let s = dropped_bits(h);
    let kept = h / pow2(s);
    let rest = h % pow2(s);
    let half = pow2((s - 1) as nat);
    let up: nat = if rest > half || (rest == half && kept % 2 == 1) {
        1
    } else {
        0
    };
    let magnitude = (s - 1) * 0x80_0000 + kept + up;
    if magnitude >= 0x7f80_0000 {
        0x7f80_0000
    } else {
        magnitude as nat
    }
}

/// `dropped_bits` is the position of the leading bit, less 24, and never
/// less than one.
pub proof fn lemma_dropped_bits(h: nat, s: nat)
    requires
        s >= 1,
        h < pow2(24 + s),
        s == 1 || h >= pow2(23 + s),
    ensures
        dropped_bits(h) == s,
    decreases s,
{
    lemma2_to64();
    if s == 1 {
    } else {
        lemma_pow2_unfold(24 + s);
        lemma_pow2_unfold(23 + s);
        lemma_pow2_adds(25, (s - 2) as nat);
        lemma_pow2_pos((s - 2) as nat);
        assert(pow2(23 + s) >= 0x200_0000) by (nonlinear_arith)
            requires
                pow2(23 + s) == 0x200_0000 * pow2((s - 2) as nat),
                pow2((s - 2) as nat) > 0,
        ;
        lemma_dropped_bits(h / 2, (s - 1) as nat);
    }
}

/// Splits `h` at the bit where rounding cuts it, given any split of the
/// right shape.
pub proof fn lemma_rounding_split(h: nat, s: nat, kept: nat, rest: nat)
    requires
        s >= 1,
        h == kept * pow2(s) + rest,
        rest < pow2(s),
        kept < 0x100_0000,
        s == 1 || kept >= 0x80_0000,
    ensures
        dropped_bits(h) == s,
        h / pow2(s) == kept,
        h % pow2(s) == rest,
{
    lemma2_to64();
    lemma_pow2_pos(s);
    lemma_pow2_adds(24, s);
    lemma_pow2_adds(23, s);
    let p = pow2(s);
    assert(kept * p + rest < 0x100_0000 * p) by (nonlinear_arith)
        requires
            kept < 0x100_0000,
            rest < p,
    ;
    if kept >= 0x80_0000 {
        assert(kept * p + rest >= 0x80_0000 * p) by (nonlinear_arith)
            requires
                kept >= 0x80_0000,
                p > 0,
        ;
    }
    lemma_dropped_bits(h, s);
    lemma_fundamental_div_mod_converse(h as int, p as int, kept as int, rest as int);
}

/// The bounds that `dropped_bits` puts on its argument.
pub proof fn lemma_dropped_bits_bounds(h: nat)
    ensures
        h < pow2(24 + dropped_bits(h)),
        dropped_bits(h) == 1 || h >= pow2(23 + dropped_bits(h)),
    decreases h,
{
    lemma2_to64();
    if h < 0x200_0000 {
    } else {
        lemma_dropped_bits_bounds(h / 2);
        let s = dropped_bits(h);
        lemma_pow2_unfold(24 + s);
        lemma_pow2_unfold(23 + s);
    }
}

/// What rounding keeps has at most 24 bits, and exactly 24 unless only
/// one bit was dropped.
pub proof fn lemma_kept_bounds(h: nat)
    ensures
        h / pow2(dropped_bits(h)) < 0x100_0000,
        dropped_bits(h) == 1 || h / pow2(dropped_bits(h)) >= 0x80_0000,
{
    let s = dropped_bits(h);
    let p = pow2(s);
    lemma2_to64();
    lemma_dropped_bits_bounds(h);
    lemma_pow2_pos(s);
    lemma_pow2_adds(24, s);
    lemma_pow2_adds(23, s);
    vstd::arithmetic::div_mod::lemma_fundamental_div_mod(h as int, p as int);
    vstd::arithmetic::div_mod::lemma_mod_bound(h as int, p as int);
    let kept = h / p;
    let rest = h % p;
    assert(kept < 0x100_0000) by (nonlinear_arith)
        requires
            h == p * kept + rest,
            rest >= 0,
            h < 0x100_0000 * p,
            p > 0,
    ;
    if s != 1 {
        assert(kept >= 0x80_0000) by (nonlinear_arith)
            requires
                h == p * kept + rest,
                rest < p,
                h >= 0x80_0000 * p,
                p > 0,
        ;
    }
}

/// A value of at most 24 significant bits that is no less than a half unit
/// and within the finite range rounds to itself.
pub proof fn lemma_round_exact(m: nat, t: nat)
    requires
        m < 0x100_0000,
        1 <= t <= 254,
    ensures
        round_half_units(m * pow2(t)) < 0x7f80_0000,
        units_of_magnitude(round_half_units(m * pow2(t))) * 2 == m * pow2(t),
        m == 0 ==> round_half_units(m * pow2(t)) == 0,
    decreases t,
{
    lemma2_to64();
    lemma_pow2_pos(t);
    let h = m * pow2(t);
    if m == 0 {
        assert(h == 0) by (nonlinear_arith)
            requires
                h == m * pow2(t),
                m == 0,
        ;
        lemma_rounding_split(0, 1, 0, 0);
    } else if m >= 0x80_0000 || t == 1 {
        lemma_rounding_split(h, t, m, 0);
        lemma_pow2_pos((t - 1) as nat);
        let magnitude = (t - 1) * 0x80_0000 + m;
        assert(round_half_units(h) == magnitude);
        if m >= 0x80_0000 {
            assert(magnitude / 0x80_0000 == t);
            assert(magnitude % 0x80_0000 == m - 0x80_0000);
            lemma_pow2_unfold(t);
            assert(m * pow2((t - 1) as nat) * 2 == m * pow2(t)) by (nonlinear_arith)
                requires
                    pow2(t) == 2 * pow2((t - 1) as nat),
            ;
        } else {
            assert(magnitude == m);
        }
    } else {
        lemma_pow2_unfold(t);
        assert(m * pow2(t) == (2 * m) * pow2((t - 1) as nat)) by (nonlinear_arith)
            requires
                pow2(t) == 2 * pow2((t - 1) as nat),
        ;
        lemma_round_exact(2 * m, (t - 1) as nat);
    }
}

/// A finite binary32 value rounds to itself: the magnitude bits come back
/// from twice their units, which is their value in half units.
pub proof fn lemma_round_of_representable(magnitude: nat)
    requires
        magnitude < 0x7f80_0000,
    ensures
        round_half_units(2 * units_of_magnitude(magnitude)) == magnitude,
{
    let exponent = magnitude / 0x80_0000;
    let fraction = magnitude % 0x80_0000;
    lemma2_to64();
    if exponent == 0 {
        lemma_rounding_split(2 * fraction, 1, fraction, 0);
    } else {
        let m = (0x80_0000 + fraction) as nat;
        lemma_pow2_unfold(exponent);
        lemma_pow2_pos((exponent - 1) as nat);
        assert(2 * (m * pow2((exponent - 1) as nat)) == m * pow2(exponent)) by (nonlinear_arith)
            requires
                pow2(exponent) == 2 * pow2((exponent - 1) as nat),
        ;
        lemma_rounding_split(m * pow2(exponent), exponent, m, 0);
    }
}

/// How far apart two natural numbers are.
pub open spec fn distance(a: nat, b: nat) -> nat {
    if a <= b {
        (b - a) as nat
    } else {
        (a - b) as nat
    }
}

/// Larger magnitude bits stand for a larger value.
pub proof fn lemma_units_increase(smaller: nat, larger: nat)
    requires
        smaller < larger,
    ensures
        units_of_magnitude(smaller) < units_of_magnitude(larger),
{
    let e1 = smaller / 0x80_0000;
    let f1 = smaller % 0x80_0000;
    let e2 = larger / 0x80_0000;
    let f2 = larger % 0x80_0000;
    if e1 == e2 {
        if e1 > 0 {
            let p = pow2((e1 - 1) as nat);
            lemma_pow2_pos((e1 - 1) as nat);
            assert((0x80_0000 + f1) * p < (0x80_0000 + f2) * p) by (nonlinear_arith)
                requires
                    f1 < f2,
                    p > 0,
            ;
        }
    } else {
        let p2 = pow2((e2 - 1) as nat);
        lemma_pow2_pos((e2 - 1) as nat);
        assert((0x80_0000 + f2) * p2 >= 0x80_0000 * p2 >= 0x80_0000) by (nonlinear_arith)
            requires
                f2 >= 0,
                p2 > 0,
        ;
        if e1 > 0 {
            let p1 = pow2((e1 - 1) as nat);
            lemma_pow2_pos((e1 - 1) as nat);
            lemma_pow2_unfold(e1);
            if e1 < e2 - 1 {
                lemma_pow2_strictly_increases(e1, (e2 - 1) as nat);
            }
            assert((0x80_0000 + f1) * p1 < 0x80_0000 * p2) by (nonlinear_arith)
                requires
                    f1 < 0x80_0000,
                    p1 > 0,
                    2 * p1 <= p2,
            ;
        }
    }
}

/// The two binary32 values that enclose `h` half units: the magnitude bits
/// `below` of the one and, one more, those of the other, with their values.
proof fn lemma_neighbours(h: nat)
    ensures
        ({
            let s = dropped_bits(h);
            let kept = h / pow2(s);
            let below = ((s - 1) * 0x80_0000 + kept) as nat;
            &&& s >= 1
            &&& kept >= 0
            &&& h == kept * pow2(s) + h % pow2(s)
            &&& 0 <= h % pow2(s) < pow2(s)
            &&& h % pow2(s) <= h
            &&& pow2(s) == 2 * pow2((s - 1) as nat)
            &&& 2 * units_of_magnitude(below) == h - h % pow2(s)
            &&& 2 * units_of_magnitude(below + 1) == h - h % pow2(s) + pow2(s)
        }),
{
    let s = dropped_bits(h);
    let p = pow2(s);
    let q = pow2((s - 1) as nat);
    let kept = h / p;
    let below = ((s - 1) * 0x80_0000 + kept) as nat;
    lemma2_to64();
    lemma_kept_bounds(h);
    lemma_pow2_pos(s);
    lemma_pow2_unfold(s);
    vstd::arithmetic::div_mod::lemma_fundamental_div_mod(h as int, p as int);
    vstd::arithmetic::div_mod::lemma_mod_bound(h as int, p as int);
    lemma_dropped_bits_bounds(h);
    vstd::arithmetic::div_mod::lemma_div_pos_is_pos(h as int, p as int);
    assert(p * kept == kept * p && (kept + 1) * p == kept * p + p && kept * p >= 0)
        by (nonlinear_arith)
        requires
            kept >= 0,
            p > 0,
    ;
    if kept >= 0x80_0000 {
        assert(below / 0x80_0000 == s);
        assert(below % 0x80_0000 == kept - 0x80_0000);
        assert(2 * (kept * q) == kept * p) by (nonlinear_arith)
            requires
                p == 2 * q,
        ;
        if kept + 1 < 0x100_0000 {
            assert((below + 1) / 0x80_0000 == s);
            assert((below + 1) % 0x80_0000 == kept + 1 - 0x80_0000);
            assert(2 * ((kept + 1) * q) == (kept + 1) * p) by (nonlinear_arith)
                requires
                    p == 2 * q,
            ;
        } else {
            assert((below + 1) / 0x80_0000 == s + 1);
            assert((below + 1) % 0x80_0000 == 0);
            assert(2 * (0x80_0000 * p) == (kept + 1) * p) by (nonlinear_arith)
                requires
                    kept + 1 == 0x100_0000,
            ;
        }
    } else {
        assert(s == 1);
        assert(below == kept);
        if kept + 1 == 0x80_0000 {
            assert((below + 1) / 0x80_0000 == 1);
            assert((0x80_0000 + 0) * pow2(0) == 0x80_0000) by (nonlinear_arith)
                requires
                    pow2(0) == 1,
            ;
        }
        assert(kept * p == 2 * kept && (kept + 1) * p == 2 * kept + 2) by (nonlinear_arith)
            requires
                p == 2,
        ;
    }
}

/// How far the rounded value and any other finite value lie from `h`:
/// with `rest` for what rounding drops and `step` for the gap between the
/// two values that enclose `h`, the lower of these lies `rest` away and
/// the upper `step - rest`, and every other value lies farther than both.
proof fn lemma_distances(h: nat, other: nat)
    requires
        round_half_units(h) < 0x7f80_0000,
        other < 0x7f80_0000,
    ensures
        ({
            let s = dropped_bits(h);
            let kept = h / pow2(s);
            let rest = h % pow2(s);
            let step = 2 * pow2((s - 1) as nat);
            let below = ((s - 1) * 0x80_0000 + kept) as nat;
            let up = round_half_units(h) - below;
            let chosen = distance(2 * units_of_magnitude(round_half_units(h)), h);
            let rival = distance(2 * units_of_magnitude(other), h);
            &&& s >= 1
            &&& kept >= 0
            &&& 0 <= rest < step
            &&& up == 0 || up == 1
            &&& up == 1 <==> 2 * rest > step || (2 * rest == step && kept % 2 == 1)
            &&& chosen == if up == 0 {
                rest as int
            } else {
                step - rest
            }
            &&& other < below ==> rival > rest
            &&& other == below ==> rival == rest
            &&& other == below + 1 ==> rival == step - rest
            &&& other > below + 1 ==> rival > step - rest
        }),
{
    let s = dropped_bits(h);
    let kept = h / pow2(s);
    let below = ((s - 1) * 0x80_0000 + kept) as nat;
    lemma_neighbours(h);
    if round_half_units(h) == below {
        assert(units_of_magnitude(round_half_units(h)) == units_of_magnitude(below));
    } else {
        assert(units_of_magnitude(round_half_units(h)) == units_of_magnitude(below + 1));
    }
    if other < below {
        lemma_units_increase(other, below);
    } else if other > below + 1 {
        lemma_units_increase(below + 1, other);
    }
}

/// Rounding is to nearest: where it gives a finite value, no finite
/// binary32 value lies nearer to what was rounded.
pub proof fn lemma_round_is_nearest(h: nat, other: nat)
    requires
        round_half_units(h) < 0x7f80_0000,
        other < 0x7f80_0000,
    ensures
        distance(2 * units_of_magnitude(round_half_units(h)), h) <= distance(
            2 * units_of_magnitude(other),
            h,
        ),
{
    lemma_distances(h, other);
}

/// Ties go to even: where another finite value lies as near to what was
/// rounded as the result does, the result is the one with even bits.
pub proof fn lemma_round_ties_to_even(h: nat, other: nat)
    requires
        round_half_units(h) < 0x7f80_0000,
        other < 0x7f80_0000,
        other != round_half_units(h),
        distance(2 * units_of_magnitude(round_half_units(h)), h) == distance(
            2 * units_of_magnitude(other),
            h,
        ),
    ensures
        round_half_units(h) % 2 == 0,
{
    let s = dropped_bits(h);
    let kept = h / pow2(s);
    let below = ((s - 1) * 0x80_0000 + kept) as nat;
    lemma_distances(h, other);
    assert(2 * (h % pow2(s)) == 2 * pow2((s - 1) as nat));
    assert(below % 2 == kept % 2) by {
        assert(below == 2 * ((s - 1) * 0x40_0000) + kept);
    }
}

/// Rounding never carries a value past the next power of two:
/// at most `2^(23 + s)` half units round to a magnitude of at most `s * 2^23`.
pub proof fn lemma_round_bound(h: nat, s: nat)
    requires
        s >= 1,
        h <= 0x80_0000 * pow2(s),
    ensures
        round_half_units(h) <= s * 0x80_0000,
{
    let d = dropped_bits(h);
    let p = pow2(d);
    lemma2_to64();
    lemma_dropped_bits_bounds(h);
    lemma_kept_bounds(h);
    lemma_pow2_pos(d);
    lemma_pow2_pos((d - 1) as nat);
    lemma_pow2_adds(23, d);
    lemma_pow2_adds(23, s);
    let kept = h / p;
    let rest = h % p;
    vstd::arithmetic::div_mod::lemma_fundamental_div_mod(h as int, p as int);
    vstd::arithmetic::div_mod::lemma_mod_bound(h as int, p as int);
    if d > s {
        lemma_pow2_strictly_increases(23 + s, 23 + d);
        assert(false);
    } else if d == s {
        assert(kept <= 0x80_0000 && (kept == 0x80_0000 ==> rest == 0)) by (nonlinear_arith)
            requires
                h == p * kept + rest,
                rest >= 0,
                h <= 0x80_0000 * p,
                p > 0,
        ;
    } else {
    }
}

/// Comparing two multiples of a positive number compares the multipliers.
proof fn lemma_compare_multiples(a: nat, b: nat, p: nat)
    by (nonlinear_arith)
    requires
        p > 0,
    ensures
        a * p > b * p <==> a > b,
        a * p == b * p <==> a == b,
        a * p < b * p <==> a < b,
{
}

/// The sample of the given sign whose magnitude is `significand * 2^shift`
/// half units, rounded to nearest with ties to even.
pub(crate) fn round_to_sample(negative: bool, significand: u64, shift: u32) -> (r: Sample)
    requires
        1 <= shift <= 1024,
    ensures
        r.magnitude() == round_half_units(significand as nat * pow2(shift as nat)),
        r.spec_is_negative() == negative,
{
    let sign: u32 = if negative {
        SIGN_BIT
    } else {
        0
    };
    let ghost h: nat = significand as nat * pow2(shift as nat);
    proof {
        lemma2_to64();
        lemma_pow2_pos(shift as nat);
    }
    if significand == 0 {
        assert(h == 0) by (nonlinear_arith)
            requires
                h == significand as nat * pow2(shift as nat),
                significand == 0,
        ;
        proof {
            lemma_rounding_split(0, 1, 0, 0);
        }
        return Sample { bits: sign };
    }
    let mut kept: u64 = significand;
    let mut rest: u64 = 0;
    let mut weight: u64 = 1;
    let mut dropped: u32 = 0;
    while kept >= 0x100_0000
        invariant
            significand == kept * weight + rest,
            rest < weight,
            weight == pow2(dropped as nat),
            dropped <= 40,
            kept >= 1,
            dropped > 0 ==> kept >= 0x80_0000,
            dropped == 0 ==> rest == 0,
        decreases kept,
    {
        proof {
            assert(weight <= 0xff_ffff_ffff) by (nonlinear_arith)
                requires
                    kept * weight + rest <= u64::MAX,
                    kept >= 0x100_0000,
                    weight >= 0,
                    rest >= 0,
            ;
            lemma2_to64();
            vstd::arithmetic::power2::lemma2_to64_rest();
            if dropped >= 40 {
                if dropped > 40 {
                    lemma_pow2_strictly_increases(40, dropped as nat);
                }
                assert(false);
            }
            lemma_pow2_unfold((dropped + 1) as nat);
            assert(kept * weight + rest == (kept / 2) * (weight * 2) + (rest + (kept % 2) * weight))
                by (nonlinear_arith)
                requires
                    kept == 2 * (kept / 2) + kept % 2,
            ;
            assert((kept % 2) * weight <= weight) by (nonlinear_arith)
                requires
                    kept % 2 <= 1,
                    weight >= 0,
            ;
        }
        rest = rest + (kept % 2) * weight;
        weight = weight * 2;
        kept = kept / 2;
        dropped = dropped + 1;
    }
    let mut s: u32 = shift + dropped;
    proof {
        lemma_pow2_adds(dropped as nat, shift as nat);
        assert(h == kept * pow2(s as nat) + rest * pow2(shift as nat)) by (nonlinear_arith)
            requires
                h == significand as nat * pow2(shift as nat),
                significand == kept * weight + rest,
                pow2(s as nat) == weight * pow2(shift as nat),
        ;
    }
    while kept < 0x80_0000 && s > 1
        invariant
            1 <= s <= shift + dropped,
            dropped <= 40,
            shift <= 1024,
            1 <= kept < 0x100_0000,
            dropped == 0 ==> rest == 0,
            dropped > 0 ==> kept >= 0x80_0000 && s == shift + dropped,
            h == kept * pow2(s as nat) + rest * pow2(shift as nat),
        decreases s,
    {
        proof {
            lemma_pow2_unfold(s as nat);
            assert(kept * pow2(s as nat) == (kept * 2) * pow2((s - 1) as nat)) by (nonlinear_arith)
                requires
                    pow2(s as nat) == 2 * pow2((s - 1) as nat),
            ;
            assert(rest == 0);
        }
        kept = kept * 2;
        s = s - 1;
    }
    let up: u64 = if dropped > 0 {
        let half: u64 = weight / 2;
        if rest > half || (rest == half && kept % 2 == 1) {
            1
        } else {
            0
        }
    } else {
        0
    };
    proof {
        let unit = pow2(shift as nat);
        let rest_h: nat = rest as nat * unit;
        if dropped > 0 {
            assert(s == shift + dropped);
            lemma_pow2_unfold(dropped as nat);
            lemma_pow2_adds((dropped - 1) as nat, shift as nat);
            let half: nat = (weight / 2) as nat;
            assert(pow2((s - 1) as nat) == half * unit);
            lemma_compare_multiples(rest as nat, half, unit);
            lemma_compare_multiples(rest as nat, weight as nat, unit);
            assert(rest_h < pow2(s as nat));
        } else {
            assert(rest == 0);
            assert(rest_h == 0) by (nonlinear_arith)
                requires
                    rest_h == rest as nat * unit,
                    rest == 0,
            ;
            lemma_pow2_pos(s as nat);
            lemma_pow2_pos((s - 1) as nat);
        }
        lemma_rounding_split(h, s as nat, kept as nat, rest_h);
    }
    if s > 255 {
        return Sample { bits: sign + INFINITY_MAGNITUDE };
    }
    let magnitude: u64 = (s as u64 - 1) * 0x80_0000 + kept + up;
    if magnitude >= 0x7f80_0000 {
        Sample { bits: sign + INFINITY_MAGNITUDE }
    } else {
        Sample { bits: sign + magnitude as u32 }
    }
}

} // verus!
