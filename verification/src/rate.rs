use vstd::prelude::*;

verus! {

/// An annual rate, expressed as a fraction and held as the bit pattern of an
/// IEEE 754 single-precision number.
///
/// The library never does arithmetic on a rate. It only needs to know whether
/// the rate is zero, because the compound closed forms are undefined there
/// and are replaced by their linear limits.
#[derive(Clone, Copy, Debug)]
pub struct Rate {
    pub bits: u32,
}

impl Rate {
    /// Whether the pattern encodes zero, of either sign.
    pub open spec fn is_zero_spec(self) -> bool {
        self.bits == 0 || self.bits == 0x8000_0000
    }

    /// Wraps a bit pattern.
    pub fn from_bits(bits: u32) -> (rate: Rate)
        ensures
            rate.bits == bits,
    {
        Rate { bits }
    }

    /// The wrapped bit pattern.
    pub fn to_bits(&self) -> (bits: u32)
        ensures
            bits == self.bits,
    {
        self.bits
    }

    /// A rate of exactly zero.
    pub fn zero() -> (rate: Rate)
        ensures
            rate.bits == 0,
            rate.is_zero_spec(),
    {
        Rate { bits: 0 }
    }

    /// Whether the rate is zero, of either sign.
    pub fn is_zero(&self) -> (zero: bool)
        ensures
            zero == self.is_zero_spec(),
    {
        self.bits == 0 || self.bits == 0x8000_0000
    }
}

} // verus!
