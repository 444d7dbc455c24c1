//! One audio sample as an IEEE 754 binary32 bit pattern, with its value
//! stated over the integers.
//!
//! Every finite binary32 value is a whole multiple of 2^-149. A sample's
//! magnitude is therefore modelled as a natural number of such units, and a
//! value still to be rounded as a natural number of half units (2^-150).

use vstd::prelude::*;
use vstd::arithmetic::power2::pow2;

verus! {

/// The sign bit of a bit pattern.
pub const SIGN_BIT: u32 = 0x8000_0000;

/// The magnitude bits of an infinity; every larger magnitude is a NaN.
pub const INFINITY_MAGNITUDE: u32 = 0x7f80_0000;

/// The quiet NaN that arithmetic on samples hands out.
pub const QUIET_NAN: u32 = 0x7fc0_0000;

/// The magnitude bits of 1.0.
pub const ONE_MAGNITUDE: u32 = 0x3f80_0000;

/// The weight of the implicit leading bit of a normal significand, 2^23.
pub const HIDDEN_BIT: u32 = 0x80_0000;

/// A binary32 value, held as its bit pattern.
#[derive(Clone, Copy, Debug, PartialEq, Eq, Structural)]
pub struct Sample {
    /// Sign, biased exponent and fraction, from the most significant bit down.
    pub bits: u32,
}

impl Sample {
    /// The bit pattern without its sign bit.
    pub open spec fn magnitude(self) -> nat {
        (self.bits % 0x8000_0000) as nat
    }

    /// The sign bit is set.
    pub open spec fn spec_is_negative(self) -> bool {
        self.bits >= 0x8000_0000
    }

    /// Not a number.
    pub open spec fn spec_is_nan(self) -> bool {
        self.magnitude() > 0x7f80_0000
    }

    /// Positive or negative infinity.
    pub open spec fn spec_is_infinite(self) -> bool {
        self.magnitude() == 0x7f80_0000
    }

    /// Zero, subnormal or normal.
    pub open spec fn spec_is_finite(self) -> bool {
        self.magnitude() < 0x7f80_0000
    }

    /// The absolute value in units of 2^-149. Meaningful for finite samples.
    pub open spec fn units(self) -> nat {
        units_of_magnitude(self.magnitude())
    }

    /// The value in units of 2^-149. Meaningful for finite samples.
    pub open spec fn scaled(self) -> int {
        if self.spec_is_negative() {
            -(self.units() as int)
        } else {
            self.units() as int
        }
    }

    /// A finite value of absolute value at most 1.
    pub open spec fn spec_in_unit_range(self) -> bool {
        self.magnitude() <= 0x3f80_0000
    }

    /// The sample with the given bit pattern.
    pub fn from_bits(bits: u32) -> (r: Sample)
        ensures
            r.bits == bits,
    {
        Sample { bits }
    }

    /// The bit pattern.
    pub fn to_bits(self) -> (bits: u32)
        ensures
            bits == self.bits,
    {
        self.bits
    }

    /// Whether the sign bit is set.
    #[verifier::when_used_as_spec(spec_is_negative)]
    pub fn is_negative(self) -> (b: bool)
        ensures
            b == self.spec_is_negative(),
    {
        self.bits >= SIGN_BIT
    }

    /// Whether the sample is not a number.
    #[verifier::when_used_as_spec(spec_is_nan)]
    pub fn is_nan(self) -> (b: bool)
        ensures
            b == self.spec_is_nan(),
    {
        self.bits % SIGN_BIT > INFINITY_MAGNITUDE
    }

    /// Whether the sample is an infinity.
    #[verifier::when_used_as_spec(spec_is_infinite)]
    pub fn is_infinite(self) -> (b: bool)
        ensures
            b == self.spec_is_infinite(),
    {
        self.bits % SIGN_BIT == INFINITY_MAGNITUDE
    }

    /// Whether the sample is zero, subnormal or normal.
    #[verifier::when_used_as_spec(spec_is_finite)]
    pub fn is_finite(self) -> (b: bool)
        ensures
            b == self.spec_is_finite(),
    {
        self.bits % SIGN_BIT < INFINITY_MAGNITUDE
    }

    /// Whether the sample is finite and of absolute value at most 1.
    #[verifier::when_used_as_spec(spec_in_unit_range)]
    pub fn in_unit_range(self) -> (b: bool)
        ensures
            b == self.spec_in_unit_range(),
    {
        self.bits % SIGN_BIT <= ONE_MAGNITUDE
    }
}

/// The sample with the given sign and magnitude bits.
pub open spec fn signed_sample(negative: bool, magnitude: nat) -> Sample {
    if negative {
        Sample { bits: (0x8000_0000 + magnitude) as u32 }
    } else {
        Sample { bits: magnitude as u32 }
    }
}

/// The quiet NaN that arithmetic on samples hands out.
pub open spec fn quiet_nan() -> Sample {
    Sample { bits: 0x7fc0_0000 }
}

/// The absolute value, in units of 2^-149, of the finite sample with these
/// magnitude bits: the fraction alone for a subnormal, and otherwise the
/// fraction with the hidden bit, scaled by the exponent.
pub open spec fn units_of_magnitude(magnitude: nat) -> nat {
    let exponent = magnitude / 0x80_0000;
    let fraction = magnitude % 0x80_0000;
    if exponent == 0 {
        fraction
    } else {
        (0x80_0000 + fraction) * pow2((exponent - 1) as nat)
    }
}

} // verus!
