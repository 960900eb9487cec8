//! Exact comparisons on IEEE 754 bit patterns.
//!
//! Positions and extents travel through the library as the bit patterns of
//! their binary64 and binary32 encodings. Comparing two encodings needs no
//! rounding, so it is done here; sums and products stay with the application.

use vstd::prelude::*;

verus! {

/// Sign bit of a binary64 encoding, as a weight.
pub const SIGN64: u64 = 0x8000_0000_0000_0000;

/// Encoding of positive infinity in binary64.
pub const INFINITY64: u64 = 0x7ff0_0000_0000_0000;

/// Sign bit of a binary32 encoding, as a weight.
pub const SIGN32: u32 = 0x8000_0000;

/// Encoding of positive infinity in binary32.
pub const INFINITY32: u32 = 0x7f80_0000;

/// A binary64 value, held by its bit pattern. `==` compares patterns; numeric
/// equality is [`Real64::equals`].
#[derive(Clone, Copy, Debug, PartialEq, Eq, Structural)]
pub struct Real64 {
    pub bits: u64,
}

/// A binary32 value, held by its bit pattern. `==` compares patterns; numeric
/// equality is [`Real32::equals`].
#[derive(Clone, Copy, Debug, PartialEq, Eq, Structural)]
pub struct Real32 {
    pub bits: u32,
}

impl Real64 {
    /// The encoding without its sign.
    pub open spec fn magnitude(self) -> int {
        self.bits as int % SIGN64 as int
    }

    /// Whether the encoding is a not-a-number.
    pub open spec fn nan(self) -> bool {
        self.magnitude() > INFINITY64
    }

    /// Whether the encoding is neither infinite nor a not-a-number.
    pub open spec fn finite(self) -> bool {
        self.magnitude() < INFINITY64
    }

    /// Position of the value in the numeric order; both zeros share one place.
    pub open spec fn rank(self) -> int {
        if self.bits >= SIGN64 {
            -self.magnitude()
        } else {
            self.magnitude()
        }
    }

    /// IEEE equality: equal numbers, with no number equal to a not-a-number.
    pub open spec fn same(self, other: Real64) -> bool {
        !self.nan() && !other.nan() && self.rank() == other.rank()
    }

    /// IEEE `<`.
    pub open spec fn below(self, other: Real64) -> bool {
        !self.nan() && !other.nan() && self.rank() < other.rank()
    }

    pub fn new(bits: u64) -> (value: Real64)
        ensures
            value.bits == bits,
    {
        Real64 { bits }
    }

    /// Positive zero.
    pub fn zero() -> (value: Real64)
        ensures
            value.bits == 0,
            value.rank() == 0,
            !value.nan(),
    {
        Real64 { bits: 0 }
    }

    pub fn is_nan(self) -> (nan: bool)
        ensures
            nan == self.nan(),
    {
        self.bits % SIGN64 > INFINITY64
    }

    pub fn is_finite(self) -> (finite: bool)
        ensures
            finite == self.finite(),
    {
        self.bits % SIGN64 < INFINITY64
    }

    /// IEEE `==`.
    pub fn equals(self, other: Real64) -> (same: bool)
        ensures
            same == self.same(other),
    {
        !self.is_nan() && !other.is_nan() && (self.bits == other.bits || (self.bits % SIGN64 == 0
            && other.bits % SIGN64 == 0))
    }

    /// IEEE `<`.
    pub fn less_than(self, other: Real64) -> (less: bool)
        ensures
            less == self.below(other),
    {
        if self.is_nan() || other.is_nan() {
            return false;
        }
        let left: u64 = self.bits % SIGN64;
        let right: u64 = other.bits % SIGN64;
        if self.bits >= SIGN64 {
            if other.bits >= SIGN64 {
                right < left
            } else {
                left != 0 || right != 0
            }
        } else if other.bits >= SIGN64 {
            false
        } else {
            left < right
        }
    }

    /// Whether the value is greater than zero.
    pub fn is_positive(self) -> (positive: bool)
        ensures
            positive == (!self.nan() && self.rank() > 0),
    {
        Real64::zero().less_than(self)
    }

    /// The value limited to `[low, high]`; a not-a-number stays as it is.
    pub fn clamp(self, low: Real64, high: Real64) -> (limited: Real64)
        requires
            !low.nan(),
            !high.nan(),
            low.rank() <= high.rank(),
        ensures
            limited == if self.below(low) {
                low
            } else if high.below(self) {
                high
            } else {
                self
            },
    {
        if self.less_than(low) {
            low
        } else if high.less_than(self) {
            high
        } else {
            self
        }
    }
}

impl Real32 {
    /// The encoding without its sign.
    pub open spec fn magnitude(self) -> int {
        self.bits as int % SIGN32 as int
    }

    /// Whether the encoding is a not-a-number.
    pub open spec fn nan(self) -> bool {
        self.magnitude() > INFINITY32
    }

    /// Whether the encoding is neither infinite nor a not-a-number.
    pub open spec fn finite(self) -> bool {
        self.magnitude() < INFINITY32
    }

    /// Position of the value in the numeric order; both zeros share one place.
    pub open spec fn rank(self) -> int {
        if self.bits >= SIGN32 {
            -self.magnitude()
        } else {
            self.magnitude()
        }
    }

    /// IEEE equality: equal numbers, with no number equal to a not-a-number.
    pub open spec fn same(self, other: Real32) -> bool {
        !self.nan() && !other.nan() && self.rank() == other.rank()
    }

    /// IEEE `<`.
    pub open spec fn below(self, other: Real32) -> bool {
        !self.nan() && !other.nan() && self.rank() < other.rank()
    }

    /// Whether the value is greater than zero.
    pub open spec fn positive(self) -> bool {
        !self.nan() && self.rank() > 0
    }

    /// IEEE `<=`.
    pub open spec fn not_above(self, other: Real32) -> bool {
        !self.nan() && !other.nan() && self.rank() <= other.rank()
    }

    /// The encoding with its sign flipped.
    pub open spec fn negated(self) -> Real32 {
        if self.bits >= SIGN32 {
            Real32 { bits: (self.bits - SIGN32) as u32 }
        } else {
            Real32 { bits: (self.bits + SIGN32) as u32 }
        }
    }

    pub fn new(bits: u32) -> (value: Real32)
        ensures
            value.bits == bits,
    {
        Real32 { bits }
    }

    /// Positive zero.
    pub fn zero() -> (value: Real32)
        ensures
            value.bits == 0,
            value.rank() == 0,
            !value.nan(),
    {
        Real32 { bits: 0 }
    }

    pub fn is_nan(self) -> (nan: bool)
        ensures
            nan == self.nan(),
    {
        self.bits % SIGN32 > INFINITY32
    }

    pub fn is_finite(self) -> (finite: bool)
        ensures
            finite == self.finite(),
    {
        self.bits % SIGN32 < INFINITY32
    }

    /// IEEE `==`.
    pub fn equals(self, other: Real32) -> (same: bool)
        ensures
            same == self.same(other),
    {
        !self.is_nan() && !other.is_nan() && (self.bits == other.bits || (self.bits % SIGN32 == 0
            && other.bits % SIGN32 == 0))
    }

    /// Whether the value is greater than zero.
    pub fn is_positive(self) -> (positive: bool)
        ensures
            positive == self.positive(),
    {
        self.bits < SIGN32 && self.bits != 0 && !self.is_nan()
    }

    /// IEEE `<=`.
    pub fn at_most(self, other: Real32) -> (at_most: bool)
        ensures
            at_most == self.not_above(other),
    {
        if self.is_nan() || other.is_nan() {
            return false;
        }
        let left: u32 = self.bits % SIGN32;
        let right: u32 = other.bits % SIGN32;
        if self.bits >= SIGN32 {
            other.bits < SIGN32 || right <= left
        } else if other.bits >= SIGN32 {
            left == 0 && right == 0
        } else {
            left <= right
        }
    }

    /// The value with the opposite sign.
    pub fn negate(self) -> (negated: Real32)
        ensures
            negated == self.negated(),
    {
        if self.bits >= SIGN32 {
            Real32 { bits: self.bits - SIGN32 }
        } else {
            Real32 { bits: self.bits + SIGN32 }
        }
    }
}

/// A pair of binary32 coordinates or extents.
#[derive(Clone, Copy, Debug, PartialEq, Eq, Structural)]
pub struct Vec2 {
    pub x: Real32,
    pub y: Real32,
}

impl Vec2 {
    /// Whether both components are finite.
    pub open spec fn finite(self) -> bool {
        self.x.finite() && self.y.finite()
    }

    /// IEEE equality of both components.
    pub open spec fn same(self, other: Vec2) -> bool {
        self.x.same(other.x) && self.y.same(other.y)
    }

    /// The pair of positive zeros.
    pub open spec fn origin() -> Vec2 {
        Vec2 { x: Real32 { bits: 0 }, y: Real32 { bits: 0 } }
    }

    pub fn new(x: Real32, y: Real32) -> (pair: Vec2)
        ensures
            pair.x == x,
            pair.y == y,
    {
        Vec2 { x, y }
    }

    pub fn zero() -> (pair: Vec2)
        ensures
            pair == Vec2::origin(),
    {
        Vec2 { x: Real32::zero(), y: Real32::zero() }
    }

    pub fn is_finite(self) -> (finite: bool)
        ensures
            finite == self.finite(),
    {
        self.x.is_finite() && self.y.is_finite()
    }

    /// Both components with the opposite sign.
    pub open spec fn negated(self) -> Vec2 {
        Vec2 { x: self.x.negated(), y: self.y.negated() }
    }

    pub fn negate(self) -> (negated: Vec2)
        ensures
            negated == self.negated(),
    {
        Vec2 { x: self.x.negate(), y: self.y.negate() }
    }

    pub fn equals(self, other: Vec2) -> (same: bool)
        ensures
            same == self.same(other),
    {
        self.x.equals(other.x) && self.y.equals(other.y)
    }
}

/// Numbers are totally ordered: of two that are not not-a-numbers, exactly one
/// of "below", "above" and "same" holds.
pub proof fn numbers_are_totally_ordered(a: Real64, b: Real64)
    requires
        !a.nan(),
        !b.nan(),
    ensures
        a.below(b) || b.below(a) || a.same(b),
        !(a.below(b) && b.below(a)),
        !(a.below(b) && a.same(b)),
        a.same(b) == b.same(a),
{
}

/// A not-a-number equals nothing, itself included, and is below and above nothing.
pub proof fn not_a_number_compares_with_nothing(a: Real64, b: Real64)
    requires
        a.nan(),
    ensures
        !a.same(b),
        !b.same(a),
        !a.below(b),
        !b.below(a),
{
}

/// The two zeros are one number.
pub proof fn zeros_are_the_same_number()
    ensures
        (Real64 { bits: 0 }).same(Real64 { bits: SIGN64 }),
        (Real32 { bits: 0 }).same(Real32 { bits: SIGN32 }),
{
}

/// Among numbers of one sign the encodings decide: of two positive ones the
/// larger encoding is the larger number, of two negative ones the smaller one,
/// and a negative number is below every positive one.
pub proof fn encodings_order_numbers(a: Real64, b: Real64)
    requires
        !a.nan(),
        !b.nan(),
    ensures
        a.bits < 0x8000_0000_0000_0000 && b.bits < 0x8000_0000_0000_0000 ==> (a.below(b) <==> a.bits
            < b.bits),
        a.bits >= 0x8000_0000_0000_0000 && b.bits >= 0x8000_0000_0000_0000 ==> (a.below(b)
            <==> b.bits < a.bits),
        a.bits > 0x8000_0000_0000_0000 && b.bits < 0x8000_0000_0000_0000 ==> a.below(b),
        a.same(b) <==> a.bits == b.bits || (a.bits % 0x8000_0000_0000_0000 == 0 && b.bits
            % 0x8000_0000_0000_0000 == 0),
{
}

/// The same of binary32, whose order is asked for as "at most".
pub proof fn short_encodings_order_numbers(a: Real32, b: Real32)
    requires
        !a.nan(),
        !b.nan(),
    ensures
        a.bits < 0x8000_0000 && b.bits < 0x8000_0000 ==> (a.not_above(b) <==> a.bits <= b.bits),
        a.bits >= 0x8000_0000 && b.bits >= 0x8000_0000 ==> (a.not_above(b) <==> b.bits <= a.bits),
        a.bits >= 0x8000_0000 && b.bits < 0x8000_0000 ==> a.not_above(b),
        a.bits < 0x8000_0000 && b.bits >= 0x8000_0000 ==> (a.not_above(b) <==> a.bits == 0 && b.bits
            == 0x8000_0000),
        a.same(b) <==> a.not_above(b) && b.not_above(a),
        a.positive() <==> 0 < a.bits < 0x8000_0000,
{
}

/// A not-a-number of binary32 compares with nothing and is not positive.
pub proof fn short_not_a_number_compares_with_nothing(a: Real32, b: Real32)
    requires
        a.nan(),
    ensures
        !a.same(b),
        !b.same(a),
        !a.not_above(b),
        !b.not_above(a),
        !a.positive(),
{
}

/// An encoding is finite just if its exponent is not all ones. With an exponent
/// of all ones it is infinite where its fraction is zero, and a not-a-number
/// elsewhere.
pub proof fn exponents_tell_finite_numbers(long: Real64, short: Real32)
    ensures
        long.finite() <==> (long.bits / 0x0010_0000_0000_0000) % 0x800 != 0x7ff,
        long.nan() <==> (long.bits / 0x0010_0000_0000_0000) % 0x800 == 0x7ff && long.bits
            % 0x0010_0000_0000_0000 != 0,
        short.finite() <==> (short.bits / 0x0080_0000) % 0x100 != 0xff,
        short.nan() <==> (short.bits / 0x0080_0000) % 0x100 == 0xff && short.bits % 0x0080_0000
            != 0,
{
}

/// Taking the opposite twice gives the encoding back; the opposite of a number
/// stands as far from zero on the other side, and is a number of the same kind.
pub proof fn opposites_mirror_each_other(value: Real32)
    ensures
        value.negated().negated() == value,
        value.negated().rank() == -value.rank(),
        value.negated() != value,
        value.negated().nan() == value.nan(),
        value.negated().finite() == value.finite(),
{
}

/// The opposite of a pair is that of each component, on its own axis; two pairs
/// are the same just if they agree on both.
pub proof fn pairs_go_by_component(first: Vec2, second: Vec2)
    ensures
        first.negated().x == first.x.negated(),
        first.negated().y == first.y.negated(),
        first.same(second) <==> first.x.same(second.x) && first.y.same(second.y),
        first.finite() <==> first.x.finite() && first.y.finite(),
        Vec2::origin().x.bits == 0 && Vec2::origin().y.bits == 0,
{
}

} // verus!
