use vstd::prelude::*;

verus! {

/// A 64-bit IEEE-754 number, held as its bit pattern.
///
/// Every numeric quantity of the interpreted language (integers, lengths,
/// angles, durations) travels as one of these.
#[derive(Clone, Copy, Debug)]
pub struct Number {
    pub bits: u64,
}

pub open spec fn exponent_bits(bits: u64) -> u64 {
    (bits >> 52u64) & 0x7ffu64
}

pub open spec fn mantissa_bits(bits: u64) -> u64 {
    bits & 0xf_ffff_ffff_ffffu64
}

/// The pattern encodes a NaN: all exponent bits set and a non-zero mantissa.
pub open spec fn is_nan_bits(bits: u64) -> bool {
    exponent_bits(bits) == 0x7ffu64 && mantissa_bits(bits) != 0
}

/// The pattern encodes positive or negative zero.
pub open spec fn is_zero_bits(bits: u64) -> bool {
    bits & 0x7fff_ffff_ffff_ffffu64 == 0
}

/// IEEE-754 equality: NaN equals nothing, the two zeros are equal, and
/// otherwise equal numbers have equal patterns.
pub open spec fn number_eq(a: u64, b: u64) -> bool {
    !is_nan_bits(a) && !is_nan_bits(b) && (a == b || (is_zero_bits(a) && is_zero_bits(b)))
}

impl Number {
    pub fn from_bits(bits: u64) -> (r: Number)
        ensures
            r.bits == bits,
    {
        Number { bits }
    }

    pub fn to_bits(&self) -> (r: u64)
        ensures
            r == self.bits,
    {
        self.bits
    }

    pub fn is_nan(&self) -> (r: bool)
        ensures
            r == is_nan_bits(self.bits),
    {
        (self.bits >> 52u64) & 0x7ffu64 == 0x7ffu64 && self.bits & 0xf_ffff_ffff_ffffu64 != 0
    }

    /// Compares two numbers as IEEE-754 does.
    pub fn num_eq(&self, other: &Number) -> (r: bool)
        ensures
            r == number_eq(self.bits, other.bits),
    {
        !self.is_nan() && !other.is_nan() && (self.bits == other.bits || (self.bits
            & 0x7fff_ffff_ffff_ffffu64 == 0 && other.bits & 0x7fff_ffff_ffff_ffffu64 == 0))
    }
}

} // verus!
