//! Times in seconds, held by the bit pattern of their double-precision form.
//! Comparing is done on the pattern, so it is exact; arithmetic is left to the
//! caller.

use vstd::prelude::*;

verus! {

/// A number of seconds in double precision, by its bit pattern: a sign bit,
/// eleven bits of exponent, fifty-two bits of fraction.
#[derive(Debug, Clone, Copy)]
pub struct Seconds {
    pub bits: u64,
}

impl Seconds {
    /// The exponent and fraction bits.
    pub open spec fn magnitude(self) -> int {
        if self.bits >= 0x8000_0000_0000_0000 {
            self.bits - 0x8000_0000_0000_0000
        } else {
            self.bits as int
        }
    }

    /// Whether the pattern stands for no number.
    pub open spec fn is_nan(self) -> bool {
        self.magnitude() > 0x7ff0_0000_0000_0000
    }

    /// Whether the pattern stands for a number that is not infinite.
    pub open spec fn is_finite(self) -> bool {
        self.magnitude() < 0x7ff0_0000_0000_0000
    }

    /// An integer that orders all numbers; both zeros have the key 0.
    pub open spec fn key(self) -> int {
        if self.bits >= 0x8000_0000_0000_0000 {
            -self.magnitude()
        } else {
            self.magnitude()
        }
    }

    /// `self < other`; false where either stands for no number.
    pub open spec fn lt(self, other: Seconds) -> bool {
        !self.is_nan() && !other.is_nan() && self.key() < other.key()
    }

    /// `self <= other`; false where either stands for no number.
    pub open spec fn le(self, other: Seconds) -> bool {
        !self.is_nan() && !other.is_nan() && self.key() <= other.key()
    }

    pub fn from_bits(bits: u64) -> (r: Seconds)
        ensures
            r.bits == bits,
    {
        Seconds { bits }
    }

    fn order_key(self) -> (r: i64)
        ensures
            r == self.key(),
    {
        if self.bits >= 0x8000_0000_0000_0000 {
            -((self.bits - 0x8000_0000_0000_0000) as i64)
        } else {
            self.bits as i64
        }
    }

    /// Whether the pattern stands for no number.
    pub fn not_a_number(self) -> (r: bool)
        ensures
            r == self.is_nan(),
    {
        let key: i64 = self.order_key();
        key > 0x7ff0_0000_0000_0000 || key < -0x7ff0_0000_0000_0000
    }

    /// `self < other`.
    pub fn below(self, other: Seconds) -> (r: bool)
        ensures
            r == self.lt(other),
    {
        !self.not_a_number() && !other.not_a_number() && self.order_key() < other.order_key()
    }

    /// `self <= other`.
    pub fn at_most(self, other: Seconds) -> (r: bool)
        ensures
            r == self.le(other),
    {
        !self.not_a_number() && !other.not_a_number() && self.order_key() <= other.order_key()
    }
}

/// Numbers without a sign are in the order of their patterns, those with one in
/// the reverse order and below them, and both zeros are equal.
pub proof fn law_seconds_are_ordered_as_numbers(a: Seconds, b: Seconds)
    requires
        a.bits <= 0x7ff0_0000_0000_0000 || 0x8000_0000_0000_0000 <= a.bits
            <= 0xfff0_0000_0000_0000,
        b.bits <= 0x7ff0_0000_0000_0000 || 0x8000_0000_0000_0000 <= b.bits
            <= 0xfff0_0000_0000_0000,
    ensures
        a.bits < 0x8000_0000_0000_0000 && b.bits < 0x8000_0000_0000_0000 ==> (a.lt(b) <==> a.bits
            < b.bits),
        a.bits >= 0x8000_0000_0000_0000 && b.bits >= 0x8000_0000_0000_0000 ==> (a.lt(b) <==> a.bits
            > b.bits),
        a.bits >= 0x8000_0000_0000_0000 && b.bits < 0x8000_0000_0000_0000 ==> (a.lt(b) <==> a.bits
            != 0x8000_0000_0000_0000 || b.bits != 0) && !b.lt(a),
        a.le(b) <==> !b.lt(a),
{
}

/// A pattern beyond the infinities stands for no number and compares with none;
/// all patterns before them are finite.
pub proof fn law_patterns_beyond_infinity_compare_with_none(a: Seconds, b: Seconds)
    ensures
        0x7ff0_0000_0000_0000 < a.bits < 0x8000_0000_0000_0000 || a.bits > 0xfff0_0000_0000_0000
            ==> a.is_nan() && !a.lt(b) && !b.lt(a) && !a.le(b) && !b.le(a),
        a.is_finite() <==> a.bits < 0x7ff0_0000_0000_0000 || 0x8000_0000_0000_0000 <= a.bits
            < 0xfff0_0000_0000_0000,
{
}

} // verus!
