//! Fixed-point scalar with 48 integer bits and 16 fractional bits.
use fixed::types::I48F16;
use vstd::prelude::*;

verus! {

/// Number of raw units in one whole unit.
pub const ONE_BITS: i64 = 65536;

/// Clamps a mathematical integer into the range of `i64`.
pub open spec fn clamp64(x: int) -> int {
    if x > i64::MAX {
        i64::MAX as int
    } else if x < i64::MIN {
        i64::MIN as int
    } else {
        x
    }
}

/// Integer division that rounds toward zero.
pub open spec fn div_trunc(a: int, d: int) -> int
    recommends
        d > 0,
{
    if a >= 0 {
        a / d
    } else {
        -((-a) / d)
    }
}

/// A signed I48F16 number held by its raw bit pattern: the value is
/// `bits / 65536`.
#[derive(Clone, Copy, PartialEq, Eq, Structural, Debug, Hash)]
pub struct Scalar {
    pub bits: i64,
}

impl Scalar {
    pub open spec fn spec_add(self, o: Scalar) -> Scalar {
        Scalar { bits: clamp64(self.bits + o.bits) as i64 }
    }

    pub open spec fn spec_sub(self, o: Scalar) -> Scalar {
        Scalar { bits: clamp64(self.bits - o.bits) as i64 }
    }

    pub open spec fn spec_mul(self, o: Scalar) -> Scalar {
        Scalar { bits: clamp64((self.bits * o.bits) / 65536) as i64 }
    }

    pub open spec fn spec_half(self) -> Scalar {
        Scalar { bits: div_trunc(self.bits as int, 2) as i64 }
    }

    pub fn zero() -> (r: Scalar)
        ensures
            r.bits == 0,
    {
        Scalar { bits: 0 }
    }

    pub fn from_bits(bits: i64) -> (r: Scalar)
        ensures
            r.bits == bits,
    {
        Scalar { bits }
    }

    pub fn to_bits(self) -> (r: i64)
        ensures
            r == self.bits,
    {
        self.bits
    }

    /// The scalar whose value is the whole number `n`.
    pub fn from_int(n: i32) -> (r: Scalar)
        ensures
            r.bits == n * 65536,
    {
        Scalar { bits: (n as i64) * ONE_BITS }
    }

    /// Sum, saturating at the ends of the range.
    pub fn add(self, o: Scalar) -> (r: Scalar)
        ensures
            r == self.spec_add(o),
    {
        Scalar { bits: fixed_add(self.bits, o.bits) }
    }

    /// Difference, saturating at the ends of the range.
    pub fn sub(self, o: Scalar) -> (r: Scalar)
        ensures
            r == self.spec_sub(o),
    {
        Scalar { bits: fixed_sub(self.bits, o.bits) }
    }

    /// Product rounded toward negative infinity, saturating at the ends of the range.
    pub fn mul(self, o: Scalar) -> (r: Scalar)
        ensures
            r == self.spec_mul(o),
    {
        Scalar { bits: fixed_mul(self.bits, o.bits) }
    }

    /// Half of the value, rounded toward zero.
    pub fn half(self) -> (r: Scalar)
        ensures
            r == self.spec_half(),
    {
        Scalar { bits: fixed_half(self.bits) }
    }
}

/// Relies on fixed's `FixedI64::saturating_add`, which adds the raw bits with
/// `i64::saturating_add`.
#[verifier::external_body]
fn fixed_add(a: i64, b: i64) -> (r: i64)
    ensures
        r == clamp64(a + b),
{
    I48F16::from_bits(a).saturating_add(I48F16::from_bits(b)).to_bits()
}

/// Relies on fixed's `FixedI64::saturating_sub`, which subtracts the raw bits
/// with `i64::saturating_sub`.
#[verifier::external_body]
fn fixed_sub(a: i64, b: i64) -> (r: i64)
    ensures
        r == clamp64(a - b),
{
    I48F16::from_bits(a).saturating_sub(I48F16::from_bits(b)).to_bits()
}

/// Relies on fixed's `FixedI64::saturating_mul`: the product of the raw bits
/// is widened to 128 bits and shifted right by the 16 fractional bits (an
/// arithmetic shift, so rounding toward negative infinity); on overflow the
/// result is `MIN` when the signs differ and `MAX` otherwise.
#[verifier::external_body]
fn fixed_mul(a: i64, b: i64) -> (r: i64)
    ensures
        r == clamp64((a * b) / 65536),
{
    I48F16::from_bits(a).saturating_mul(I48F16::from_bits(b)).to_bits()
}

/// Relies on fixed's `FixedI64::saturating_div_int`, which divides the raw
/// bits with `i64::saturating_div`; by 2 this never saturates and rounds
/// toward zero.
#[verifier::external_body]
fn fixed_half(a: i64) -> (r: i64)
    ensures
        r == div_trunc(a as int, 2),
{
    I48F16::from_bits(a).saturating_div_int(2).to_bits()
}

/// An IEEE-754 single-precision number held by its bit pattern. The library
/// orders such numbers and passes them on; it does no arithmetic on them.
#[derive(Clone, Copy, PartialEq, Eq, Structural, Debug, Hash)]
pub struct FloatBits {
    pub bits: u32,
}

impl FloatBits {
    /// Position of the number on the real line: the magnitude bits, negated
    /// when the sign bit is set. Two numbers that are not NaN compare as
    /// their keys do, and `-0.0` has the key of `0.0`.
    pub open spec fn key(self) -> int {
        if self.bits >= 0x8000_0000 {
            -(self.bits - 0x8000_0000)
        } else {
            self.bits as int
        }
    }

    pub fn from_bits(bits: u32) -> (r: FloatBits)
        ensures
            r.bits == bits,
    {
        FloatBits { bits }
    }

    /// The number 0.0.
    pub fn zero() -> (r: FloatBits)
        ensures
            r.bits == 0,
    {
        FloatBits { bits: 0 }
    }

    /// The number 1.0.
    pub fn one() -> (r: FloatBits)
        ensures
            r.bits == 0x3f80_0000,
    {
        FloatBits { bits: 0x3f80_0000 }
    }

    pub fn order_key(self) -> (r: i64)
        ensures
            r == self.key(),
    {
        if self.bits >= 0x8000_0000 {
            -((self.bits - 0x8000_0000) as i64)
        } else {
            self.bits as i64
        }
    }
}

} // verus!
