//! Voltage samples, held as the bit pattern of an IEEE-754 single-precision
//! float, with the few float operations the modules need stated and proved
//! on that bit pattern.

use vstd::prelude::*;

verus! {

/// The sign bit of a single-precision float.
pub const SIGN_BIT: u32 = 0x8000_0000;

/// All bits but the sign: the magnitude of a single-precision float.
pub const MAGNITUDE_MASK: u32 = 0x7fff_ffff;

/// The bit pattern of positive infinity. Magnitudes above it are NaNs.
pub const INFINITY_BITS: u32 = 0x7f80_0000;

/// The bit pattern of `0.0`.
pub const ZERO_BITS: u32 = 0;

/// The bit pattern of `1.0`.
pub const ONE_BITS: u32 = 0x3f80_0000;

/// The bit pattern of the positive quiet NaN.
pub const QUIET_NAN_BITS: u32 = 0x7fc0_0000;

/// A voltage: the bit pattern of a single-precision float (`f32::to_bits`).
#[derive(Clone, Copy, Debug, PartialEq, Eq, Structural)]
pub struct Voltage {
    pub bits: u32,
}

impl Voltage {
    /// `0.0`.
    pub open spec fn zero() -> Voltage {
        Voltage { bits: ZERO_BITS }
    }

    /// The sign bit is set (negative numbers, `-0.0`, `-inf`, some NaNs).
    pub open spec fn sign_is_negative(self) -> bool {
        self.bits >= SIGN_BIT
    }

    /// The bit pattern without its sign bit.
    pub open spec fn magnitude_bits(self) -> u32 {
        if self.sign_is_negative() {
            (self.bits - SIGN_BIT) as u32
        } else {
            self.bits
        }
    }

    pub open spec fn spec_is_nan(self) -> bool {
        self.magnitude_bits() > INFINITY_BITS
    }

    pub open spec fn spec_is_finite(self) -> bool {
        self.magnitude_bits() < INFINITY_BITS
    }

    /// Where a non-NaN value stands on the number line. For non-NaN floats
    /// the order of the magnitude bit patterns is the order of the
    /// magnitudes, and both zeros stand at 0.
    pub open spec fn rank(self) -> int {
        if self.sign_is_negative() {
            -(self.magnitude_bits() as int)
        } else {
            self.magnitude_bits() as int
        }
    }

    /// `self >= other` as floats: false whenever either is NaN.
    pub open spec fn spec_ge(self, other: Voltage) -> bool {
        !self.spec_is_nan() && !other.spec_is_nan() && self.rank() >= other.rank()
    }

    /// `self <= other` as floats: false whenever either is NaN.
    pub open spec fn spec_le(self, other: Voltage) -> bool {
        !self.spec_is_nan() && !other.spec_is_nan() && self.rank() <= other.rank()
    }

    /// `self == other` as floats: `0.0 == -0.0`, and a NaN equals nothing.
    pub open spec fn float_eq(self, other: Voltage) -> bool {
        !self.spec_is_nan() && !other.spec_is_nan() && self.rank() == other.rank()
    }

    /// `f32::abs`: the sign bit cleared.
    pub open spec fn spec_abs(self) -> Voltage {
        Voltage { bits: self.magnitude_bits() }
    }

    /// `f32::copysign`: the magnitude of `self` with the sign bit of `sign`.
    pub open spec fn spec_copysign(self, sign: Voltage) -> Voltage {
        if sign.sign_is_negative() {
            Voltage { bits: (self.magnitude_bits() + SIGN_BIT) as u32 }
        } else {
            Voltage { bits: self.magnitude_bits() }
        }
    }

    /// `f32::signum`: `1.0` with the sign of `self`, and a NaN (here the
    /// positive quiet NaN) for a NaN.
    pub open spec fn spec_signum(self) -> Voltage {
        if self.spec_is_nan() {
            Voltage { bits: QUIET_NAN_BITS }
        } else {
            Voltage { bits: ONE_BITS }.spec_copysign(self)
        }
    }

    pub fn is_nan(self) -> (r: bool)
        ensures
            r == self.spec_is_nan(),
    {
        let m = self.bits & MAGNITUDE_MASK;
        proof {
            lemma_magnitude_mask(self.bits);
        }
        m > INFINITY_BITS
    }

    pub fn is_finite(self) -> (r: bool)
        ensures
            r == self.spec_is_finite(),
    {
        let m = self.bits & MAGNITUDE_MASK;
        proof {
            lemma_magnitude_mask(self.bits);
        }
        m < INFINITY_BITS
    }

    pub fn abs(self) -> (r: Voltage)
        ensures
            r == self.spec_abs(),
    {
        proof {
            lemma_magnitude_mask(self.bits);
        }
        Voltage { bits: self.bits & MAGNITUDE_MASK }
    }

    pub fn copysign(self, sign: Voltage) -> (r: Voltage)
        ensures
            r == self.spec_copysign(sign),
    {
        proof {
            lemma_magnitude_mask(self.bits);
            lemma_sign_bit(sign.bits);
            lemma_join(self.bits & MAGNITUDE_MASK, sign.bits & SIGN_BIT);
        }
        Voltage { bits: (self.bits & MAGNITUDE_MASK) | (sign.bits & SIGN_BIT) }
    }

    pub fn signum(self) -> (r: Voltage)
        ensures
            r == self.spec_signum(),
            r.spec_is_nan() == self.spec_is_nan(),
    {
        if self.is_nan() {
            Voltage { bits: QUIET_NAN_BITS }
        } else {
            Voltage { bits: ONE_BITS }.copysign(self)
        }
    }

    /// The float comparison `self >= other`.
    pub fn ge(self, other: Voltage) -> (r: bool)
        ensures
            r == self.spec_ge(other),
    {
        !self.is_nan() && !other.is_nan() && self.rank_exec() >= other.rank_exec()
    }

    /// The float comparison `self <= other`.
    pub fn le(self, other: Voltage) -> (r: bool)
        ensures
            r == self.spec_le(other),
    {
        !self.is_nan() && !other.is_nan() && self.rank_exec() <= other.rank_exec()
    }

    fn rank_exec(self) -> (r: i64)
        ensures
            r as int == self.rank(),
    {
        let m = self.abs().bits as i64;
        if self.bits >= SIGN_BIT {
            -m
        } else {
            m
        }
    }
}

proof fn lemma_magnitude_mask(b: u32)
    ensures
        b & MAGNITUDE_MASK == (if b >= SIGN_BIT { (b - SIGN_BIT) as u32 } else { b }),
{
    assert(b & 0x7fff_ffffu32 == (if b >= 0x8000_0000u32 { (b - 0x8000_0000u32) as u32 } else { b })) by (bit_vector);
}

proof fn lemma_sign_bit(b: u32)
    ensures
        b & SIGN_BIT == (if b >= SIGN_BIT { SIGN_BIT } else { 0u32 }),
{
    assert(b & 0x8000_0000u32 == (if b >= 0x8000_0000u32 { 0x8000_0000u32 } else { 0u32 })) by (bit_vector);
}

proof fn lemma_join(m: u32, s: u32)
    requires
        m < SIGN_BIT,
        s == 0 || s == SIGN_BIT,
    ensures
        m | s == m + s,
{
    assert(m < 0x8000_0000u32 && (s == 0u32 || s == 0x8000_0000u32) ==> m | s == m + s) by (bit_vector);
}

} // verus!
