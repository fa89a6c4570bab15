use vstd::prelude::*;

verus! {

/// Bit pattern of the lowest negative binary64 value, `-0.0`.
pub const SIGN_BIT: u64 = 0x8000_0000_0000_0000;

/// Position of a binary64 bit pattern in the IEEE 754 total order: patterns
/// with a clear sign bit keep their value, and the others fall below every
/// one of them, a larger magnitude lower.
pub open spec fn order_key(bits: u64) -> int {
    if bits < SIGN_BIT {
        bits as int
    } else {
        -1 - (bits - SIGN_BIT) as int
    }
}

/// A sensor reading, held as the bit pattern of an IEEE 754 binary64 number.
/// Two readings are the same when their bit patterns are, and they are
/// ordered as `f64::total_cmp` orders the numbers.
#[derive(Clone, Copy, Debug, PartialEq, Eq, Structural)]
pub struct Reading {
    pub bits: u64,
}

impl Reading {
    pub open spec fn key(self) -> int {
        order_key(self.bits)
    }

    pub fn from_bits(bits: u64) -> (r: Reading)
        ensures
            r.bits == bits,
    {
        Reading { bits }
    }

    pub fn to_bits(&self) -> (r: u64)
        ensures
            r == self.bits,
    {
        self.bits
    }

    /// Whether `self` lies strictly above `other` in the total order.
    pub fn exceeds(&self, other: &Reading) -> (r: bool)
        ensures
            r == (self.key() > other.key()),
    {
        let a = self.bits;
        let b = other.bits;
        if a < SIGN_BIT {
            if b < SIGN_BIT {
                a > b
            } else {
                true
            }
        } else if b < SIGN_BIT {
            false
        } else {
            a < b
        }
    }
}

} // verus!
