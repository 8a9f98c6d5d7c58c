//! Single-precision values carried by their IEEE-754 bit pattern.
use vstd::prelude::*;

verus! {

/// An `f32` held as its IEEE-754 bit pattern: sign bit, eight exponent bits
/// and 23 fraction bits, as `f32::to_bits` gives them.
#[derive(Clone, Copy, Debug, PartialEq, Eq, Structural)]
pub struct F32Bits(pub u32);

/// The eight exponent bits of a single-precision bit pattern.
pub open spec fn exponent_of(bits: u32) -> u32 {
    (bits / 0x80_0000) % 0x100
}

impl F32Bits {
    /// Neither an infinity nor a NaN: the exponent bits are not all set.
    pub open spec fn finite(self) -> bool {
        exponent_of(self.0) != 0xff
    }

    /// Greater than `+0.0`: a positive finite value or `+inf` (NaNs excluded).
    pub open spec fn positive(self) -> bool {
        0 < self.0 <= 0x7f80_0000
    }

    /// Equal to zero: `+0.0` or `-0.0`.
    pub open spec fn zero(self) -> bool {
        self.0 == 0 || self.0 == 0x8000_0000
    }

    /// Greater than `c`, for a nonnegative finite bound `c`: among
    /// non-NaN values with the sign bit clear, bit order is value order.
    pub open spec fn above(self, c: F32Bits) -> bool {
        c.0 < self.0 <= 0x7f80_0000
    }

    /// At most `c`, for a nonnegative finite bound `c`: a smaller
    /// nonnegative pattern, or any negative value that is not a NaN.
    pub open spec fn at_most(self, c: F32Bits) -> bool {
        self.0 <= c.0 || 0x8000_0000 <= self.0 <= 0xff80_0000
    }

    /// The magnitude: the bits with the sign cleared.
    pub open spec fn magnitude(self) -> u32 {
        self.0 % 0x8000_0000
    }

    /// Whether the value is greater than zero, as `x > 0.0` answers it.
    pub fn is_positive(self) -> (r: bool)
        ensures
            r == self.positive(),
    {
        0 < self.0 && self.0 <= 0x7f80_0000
    }

    /// Whether the value is zero, as `x == 0.0` answers it.
    pub fn is_zero(self) -> (r: bool)
        ensures
            r == self.zero(),
    {
        self.0 == 0 || self.0 == 0x8000_0000
    }

    /// Whether the value exceeds the nonnegative finite bound `c`.
    pub fn is_above(self, c: F32Bits) -> (r: bool)
        ensures
            r == self.above(c),
    {
        c.0 < self.0 && self.0 <= 0x7f80_0000
    }

    /// Whether the value is at most the nonnegative finite bound `c`.
    pub fn is_at_most(self, c: F32Bits) -> (r: bool)
        ensures
            r == self.at_most(c),
    {
        self.0 <= c.0 || (0x8000_0000 <= self.0 && self.0 <= 0xff80_0000)
    }

    /// Whether the value is finite, as `f32::is_finite` answers it.
    pub fn is_finite(self) -> (r: bool)
        ensures
            r == self.finite(),
    {
        (self.0 / 0x80_0000) % 0x100 != 0xff
    }
}

} // verus!
