//! Signal levels and tuning factors, held by the bit pattern of their
//! single-precision form. Ordering and limiting are done on the pattern, so
//! they are exact; arithmetic is left to the caller.

use vstd::prelude::*;

verus! {

/// The bit pattern of zero.
pub const ZERO: u32 = 0;

/// The bit pattern of one half.
pub const HALF: u32 = 0x3f00_0000;

/// The bit pattern of one.
pub const ONE: u32 = 0x3f80_0000;

/// The bit pattern of four.
pub const FOUR: u32 = 0x4080_0000;

/// A number in single precision, by its bit pattern: a sign bit, eight bits of
/// exponent, twenty-three bits of fraction.
#[derive(Debug, Clone, Copy)]
pub struct Level {
    pub bits: u32,
}

impl Level {
    /// The exponent and fraction bits.
    pub open spec fn magnitude(self) -> int {
        if self.bits >= 0x8000_0000 {
            self.bits - 0x8000_0000
        } else {
            self.bits as int
        }
    }

    /// Whether the pattern stands for no number.
    pub open spec fn is_nan(self) -> bool {
        self.magnitude() > 0x7f80_0000
    }

    /// An integer that orders all numbers; both zeros have the key 0.
    pub open spec fn key(self) -> int {
        if self.bits >= 0x8000_0000 {
            -self.magnitude()
        } else {
            self.magnitude()
        }
    }

    /// `self < other`; false where either stands for no number.
    pub open spec fn lt(self, other: Level) -> bool {
        !self.is_nan() && !other.is_nan() && self.key() < other.key()
    }

    /// `self <= other`; false where either stands for no number.
    pub open spec fn le(self, other: Level) -> bool {
        !self.is_nan() && !other.is_nan() && self.key() <= other.key()
    }

    /// `self` moved into the range from `lo` to `hi`; a pattern that stands for
    /// no number is kept.
    pub open spec fn clamped(self, lo: Level, hi: Level) -> Level {
        if self.lt(lo) {
            lo
        } else if hi.lt(self) {
            hi
        } else {
            self
        }
    }

    /// `self` moved into the range from zero to one.
    pub open spec fn unit(self) -> Level {
        self.clamped(Level { bits: ZERO }, Level { bits: ONE })
    }

    /// The greater of two levels; one that stands for no number loses.
    pub open spec fn greater(self, other: Level) -> Level {
        if self.is_nan() || self.lt(other) {
            other
        } else {
            self
        }
    }

    pub fn from_bits(bits: u32) -> (r: Level)
        ensures
            r.bits == bits,
    {
        Level { bits }
    }

    fn order_key(self) -> (r: i64)
        ensures
            r == self.key(),
    {
        if self.bits >= 0x8000_0000 {
            -((self.bits - 0x8000_0000) as i64)
        } else {
            self.bits as i64
        }
    }

    /// Whether the pattern stands for no number.
    pub fn not_a_number(self) -> (r: bool)
        ensures
            r == self.is_nan(),
    {
        let key: i64 = self.order_key();
        key > 0x7f80_0000 || key < -0x7f80_0000
    }

    /// `self < other`.
    pub fn below(self, other: Level) -> (r: bool)
        ensures
            r == self.lt(other),
    {
        !self.not_a_number() && !other.not_a_number() && self.order_key() < other.order_key()
    }

    /// `self <= other`.
    pub fn at_most(self, other: Level) -> (r: bool)
        ensures
            r == self.le(other),
    {
        !self.not_a_number() && !other.not_a_number() && self.order_key() <= other.order_key()
    }

    /// Moves `self` into the range from `lo` to `hi`.
    pub fn clamp_to(self, lo: Level, hi: Level) -> (r: Level)
        ensures
            r == self.clamped(lo, hi),
    {
        if self.below(lo) {
            lo
        } else if hi.below(self) {
            hi
        } else {
            self
        }
    }

    /// Moves `self` into the range from zero to one.
    pub fn clamp_unit(self) -> (r: Level)
        ensures
            r == self.unit(),
    {
        self.clamp_to(Level { bits: ZERO }, Level { bits: ONE })
    }

    /// The greater of two levels.
    pub fn or_greater(self, other: Level) -> (r: Level)
        ensures
            r == self.greater(other),
    {
        if self.not_a_number() || self.below(other) {
            other
        } else {
            self
        }
    }
}

impl PartialEq for Level {
    fn eq(&self, other: &Level) -> (r: bool) {
        self.at_most(*other) && other.at_most(*self)
    }
}

impl vstd::std_specs::cmp::PartialEqSpecImpl for Level {
    open spec fn obeys_eq_spec() -> bool {
        true
    }

    open spec fn eq_spec(&self, other: &Level) -> bool {
        self.le(*other) && other.le(*self)
    }
}

/// Limiting to a range a second time changes nothing.
pub proof fn law_clamp_is_idempotent(x: Level, lo: Level, hi: Level)
    requires
        lo.le(hi),
    ensures
        x.clamped(lo, hi).clamped(lo, hi) == x.clamped(lo, hi),
{
}

/// A limited level lies in the range, unless it stands for no number.
pub proof fn law_clamp_lands_in_range(x: Level, lo: Level, hi: Level)
    requires
        lo.le(hi),
    ensures
        x.is_nan() ==> x.clamped(lo, hi) == x,
        !x.is_nan() ==> lo.le(x.clamped(lo, hi)) && x.clamped(lo, hi).le(hi),
{
}

/// Numbers without a sign are in the order of their patterns, those with one in
/// the reverse order and below them, and both zeros are equal.
pub proof fn law_levels_are_ordered_as_numbers(a: Level, b: Level)
    requires
        a.bits <= 0x7f80_0000 || 0x8000_0000 <= a.bits <= 0xff80_0000,
        b.bits <= 0x7f80_0000 || 0x8000_0000 <= b.bits <= 0xff80_0000,
    ensures
        a.bits < 0x8000_0000 && b.bits < 0x8000_0000 ==> (a.lt(b) <==> a.bits < b.bits),
        a.bits >= 0x8000_0000 && b.bits >= 0x8000_0000 ==> (a.lt(b) <==> a.bits > b.bits),
        a.bits >= 0x8000_0000 && b.bits < 0x8000_0000 ==> (a.lt(b) <==> a.bits != 0x8000_0000
            || b.bits != 0) && !b.lt(a),
        a.le(b) <==> !b.lt(a),
{
}

/// A pattern beyond the infinities stands for no number and compares with none.
pub proof fn law_no_number_compares_with_none(a: Level, b: Level)
    requires
        0x7f80_0000 < a.bits < 0x8000_0000 || a.bits > 0xff80_0000,
    ensures
        a.is_nan(),
        !a.lt(b) && !b.lt(a) && !a.le(b) && !b.le(a),
        a.greater(b) == b,
        !b.is_nan() ==> b.greater(a) == b,
{
}

/// A level in the range stays, one below it becomes its start, one above it its
/// end.
pub proof fn law_clamp_moves_to_the_nearer_end(x: Level, lo: Level, hi: Level)
    requires
        lo.le(hi),
    ensures
        lo.le(x) && x.le(hi) ==> x.clamped(lo, hi) == x,
        x.lt(lo) ==> x.clamped(lo, hi) == lo,
        hi.lt(x) ==> x.clamped(lo, hi) == hi,
        x.unit() == x.clamped(Level { bits: 0 }, Level { bits: 0x3f80_0000 }),
{
}

/// The greater of two numbers is one of them and below neither.
pub proof fn law_greater_is_an_upper_bound(a: Level, b: Level)
    requires
        !a.is_nan(),
        !b.is_nan(),
    ensures
        a.greater(b) == a || a.greater(b) == b,
        a.le(a.greater(b)),
        b.le(a.greater(b)),
{
}

} // verus!
