//! Real numbers as they arrive from outside: IEEE 754 binary64 values, held by their
//! bit pattern and compared as integers.

use vstd::prelude::*;

verus! {

/// The sign bit of a binary64 pattern.
pub const SIGN_BIT: u64 = 0x8000_0000_0000_0000;

/// The pattern of positive infinity; every pattern whose lower 63 bits exceed it is
/// not a number.
pub const INFINITY_BITS: u64 = 0x7FF0_0000_0000_0000;

/// The pattern of the number one.
pub const ONE_BITS: u64 = 0x3FF0_0000_0000_0000;

/// Whether `bits` encodes no number.
pub open spec fn nan_bits(bits: u64) -> bool {
    if bits >= SIGN_BIT {
        bits - SIGN_BIT > INFINITY_BITS
    } else {
        bits > INFINITY_BITS
    }
}

/// Whether `bits` encodes a number between zero and one, both included. Among the
/// patterns without sign these are the ones up to that of one, since such patterns
/// grow with the number they encode; of the others only negative zero qualifies.
pub open spec fn unit_interval_bits(bits: u64) -> bool {
    bits <= ONE_BITS || bits == SIGN_BIT
}

/// An integer that grows with the number that `bits` encodes: the two zeros give 0,
/// a positive number its pattern, a negative number the negated pattern of its
/// magnitude. What is not a number ranks below every number.
pub open spec fn order_key(bits: u64) -> int {
    if nan_bits(bits) {
        i64::MIN as int
    } else if bits >= SIGN_BIT {
        -(bits - SIGN_BIT)
    } else {
        bits as int
    }
}

/// A binary64 value held by its bit pattern.
#[derive(Clone, Copy, Debug, PartialEq, Eq, Structural)]
pub struct Binary64 {
    pub bits: u64,
}

impl Binary64 {
    /// The value with the pattern `bits`.
    pub fn from_bits(bits: u64) -> (r: Binary64)
        ensures
            r.bits == bits,
    {
        Binary64 { bits }
    }

    /// The pattern.
    pub fn to_bits(&self) -> (r: u64)
        ensures
            r == self.bits,
    {
        self.bits
    }

    /// Whether the value is not a number.
    pub fn is_nan(&self) -> (r: bool)
        ensures
            r == nan_bits(self.bits),
    {
        if self.bits >= SIGN_BIT {
            self.bits - SIGN_BIT > INFINITY_BITS
        } else {
            self.bits > INFINITY_BITS
        }
    }

    /// Whether the value lies between zero and one, both included.
    pub fn in_unit_interval(&self) -> (r: bool)
        ensures
            r == unit_interval_bits(self.bits),
    {
        self.bits <= ONE_BITS || self.bits == SIGN_BIT
    }

    /// The integer by which values are ordered.
    pub fn key(&self) -> (r: i64)
        ensures
            r == order_key(self.bits),
    {
        if self.is_nan() {
            i64::MIN
        } else if self.bits >= SIGN_BIT {
            let magnitude: u64 = self.bits - SIGN_BIT;
            -(magnitude as i64)
        } else {
            self.bits as i64
        }
    }
}

} // verus!
