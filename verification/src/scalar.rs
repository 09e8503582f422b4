//! The numeric type of sample values and tangents.

use vstd::prelude::*;

verus! {

/// A sample value or tangent, held as the raw 32-bit pattern of an IEEE 754
/// single-precision number.
///
/// Two scalars are equal exactly when their bit patterns are equal. Equality
/// is therefore total and free of any tolerance, which is what makes the wire
/// encoding of a sample reversible bit for bit.
#[derive(Debug, Clone, Copy, PartialEq, Eq, Hash, Structural)]
pub struct Scalar {
    pub bits: u32,
}

impl Scalar {
    /// The numeric default: positive zero, whose bit pattern is all zeros.
    pub open spec fn zero_spec() -> Scalar {
        Scalar { bits: 0 }
    }

    pub fn zero() -> (z: Scalar)
        ensures
            z == Scalar::zero_spec(),
    {
        Scalar { bits: 0 }
    }

    pub fn from_bits(bits: u32) -> (s: Scalar)
        ensures
            s.bits == bits,
    {
        Scalar { bits }
    }

    pub fn to_bits(self) -> (bits: u32)
        ensures
            bits == self.bits,
    {
        self.bits
    }

    pub fn is_zero(self) -> (r: bool)
        ensures
            r == (self == Scalar::zero_spec()),
    {
        self.bits == 0
    }
}

impl Default for Scalar {
    fn default() -> (r: Self)
        ensures
            r == Scalar::zero_spec(),
    {
        Scalar { bits: 0 }
    }
}

} // verus!
