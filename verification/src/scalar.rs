use vstd::prelude::*;

verus! {

/// The bit that holds the sign of a single-precision number.
pub const SIGN_BIT: u32 = 0x8000_0000;

/// The bit pattern of positive infinity. A larger magnitude is not a number.
pub const INFINITY_BITS: u32 = 0x7f80_0000;

/// The bit pattern of one.
pub const ONE_BITS: u32 = 0x3f80_0000;

/// A single-precision IEEE-754 number, held by its bit pattern.
///
/// The library compares such numbers and hands them on; it does no
/// arithmetic on them. `==` compares patterns, not numbers: the two zeros
/// differ, and a pattern that is no number equals itself.
#[derive(Clone, Copy, Debug, PartialEq, Eq, Structural)]
pub struct Scalar {
    pub bits: u32,
}

/// Three scalars: a point or a direction in space.
#[derive(Clone, Copy, Debug, PartialEq, Eq, Structural)]
pub struct Vec3 {
    pub x: Scalar,
    pub y: Scalar,
    pub z: Scalar,
}

impl Scalar {
    /// The bit pattern without its sign bit.
    pub open spec fn magnitude(self) -> int {
        if self.bits >= SIGN_BIT {
            self.bits - SIGN_BIT
        } else {
            self.bits as int
        }
    }

    /// Whether the sign bit is set.
    pub open spec fn is_negative(self) -> bool {
        self.bits >= SIGN_BIT
    }

    /// Whether the pattern stands for no number.
    pub open spec fn nan(self) -> bool {
        self.magnitude() > INFINITY_BITS
    }

    /// The place of a number on the number line: two numbers compare as their
    /// ranks do. Both zeros have rank 0.
    pub open spec fn rank(self) -> int {
        if self.is_negative() {
            -self.magnitude()
        } else {
            self.magnitude()
        }
    }

    /// IEEE-754 `<`: false as soon as either side is not a number.
    pub open spec fn lt_spec(self, other: Scalar) -> bool {
        !self.nan() && !other.nan() && self.rank() < other.rank()
    }

    /// IEEE-754 `<=`: false as soon as either side is not a number.
    pub open spec fn le_spec(self, other: Scalar) -> bool {
        !self.nan() && !other.nan() && self.rank() <= other.rank()
    }

    /// IEEE-754 `> 0`.
    pub open spec fn positive(self) -> bool {
        !self.nan() && self.rank() > 0
    }

    /// The smaller of two numbers as a plain comparison gives it: `self`
    /// where `self <= other`, else `other`.
    pub open spec fn min2_spec(self, other: Scalar) -> Scalar {
        if self.le_spec(other) {
            self
        } else {
            other
        }
    }

    /// The larger of two numbers as a plain comparison gives it: `self`
    /// where `self >= other`, else `other`.
    pub open spec fn max2_spec(self, other: Scalar) -> Scalar {
        if other.le_spec(self) {
            self
        } else {
            other
        }
    }

    /// The smaller of two numbers, passing over what is not a number: the
    /// other where one is not a number, and `self` where neither is smaller.
    pub open spec fn min_spec(self, other: Scalar) -> Scalar {
        if other.nan() {
            self
        } else if self.nan() || other.lt_spec(self) {
            other
        } else {
            self
        }
    }

    /// The larger of two numbers, passing over what is not a number: the
    /// other where one is not a number, and `self` where neither is larger.
    pub open spec fn max_spec(self, other: Scalar) -> Scalar {
        if other.nan() {
            self
        } else if self.nan() || self.lt_spec(other) {
            other
        } else {
            self
        }
    }

    /// What clamping to `[lo, hi]` gives: a number below `lo` becomes `lo`, one
    /// above `hi` becomes `hi`, anything else, a non-number too, stays.
    pub open spec fn clamp_spec(self, lo: Scalar, hi: Scalar) -> Scalar {
        if self.lt_spec(lo) {
            lo
        } else if hi.lt_spec(self) {
            hi
        } else {
            self
        }
    }

    pub fn from_bits(bits: u32) -> (s: Scalar)
        ensures
            s.bits == bits,
    {
        Scalar { bits }
    }

    pub fn to_bits(self) -> (bits: u32)
        ensures
            bits == self.bits,
    {
        self.bits
    }

    /// Positive zero.
    pub fn zero() -> (s: Scalar)
        ensures
            s.bits == 0,
    {
        Scalar { bits: 0 }
    }

    /// Positive infinity.
    pub fn infinity() -> (s: Scalar)
        ensures
            s.bits == INFINITY_BITS,
    {
        Scalar { bits: INFINITY_BITS }
    }

    fn magnitude_bits(self) -> (m: u32)
        ensures
            m as int == self.magnitude(),
    {
        if self.bits >= SIGN_BIT {
            self.bits - SIGN_BIT
        } else {
            self.bits
        }
    }

    pub fn is_nan(self) -> (r: bool)
        ensures
            r == self.nan(),
    {
        self.magnitude_bits() > INFINITY_BITS
    }

    /// `self < other` as IEEE-754 defines it.
    pub fn lt(self, other: Scalar) -> (r: bool)
        ensures
            r == self.lt_spec(other),
    {
        if self.is_nan() || other.is_nan() {
            return false;
        }
        let a: u32 = self.magnitude_bits();
        let b: u32 = other.magnitude_bits();
        if self.bits >= SIGN_BIT {
            if other.bits >= SIGN_BIT {
                b < a
            } else {
                a > 0 || b > 0
            }
        } else {
            if other.bits >= SIGN_BIT {
                false
            } else {
                a < b
            }
        }
    }

    /// `self <= other` as IEEE-754 defines it.
    pub fn le(self, other: Scalar) -> (r: bool)
        ensures
            r == self.le_spec(other),
    {
        if self.is_nan() || other.is_nan() {
            return false;
        }
        !other.lt(self)
    }

    /// `self > other` as IEEE-754 defines it.
    pub fn gt(self, other: Scalar) -> (r: bool)
        ensures
            r == other.lt_spec(self),
    {
        other.lt(self)
    }

    /// `self >= other` as IEEE-754 defines it.
    pub fn ge(self, other: Scalar) -> (r: bool)
        ensures
            r == other.le_spec(self),
    {
        other.le(self)
    }

    /// `self > 0`.
    pub fn is_positive(self) -> (r: bool)
        ensures
            r == self.positive(),
    {
        Scalar::zero().lt(self)
    }

    /// `self` where `self <= other`, else `other`.
    pub fn min2(self, other: Scalar) -> (r: Scalar)
        ensures
            r == self.min2_spec(other),
    {
        if self.le(other) {
            self
        } else {
            other
        }
    }

    /// `self` where `self >= other`, else `other`.
    pub fn max2(self, other: Scalar) -> (r: Scalar)
        ensures
            r == self.max2_spec(other),
    {
        if self.ge(other) {
            self
        } else {
            other
        }
    }

    /// The smaller of two numbers; where one is not a number, the other.
    pub fn min(self, other: Scalar) -> (r: Scalar)
        ensures
            r == self.min_spec(other),
    {
        if other.is_nan() {
            self
        } else if self.is_nan() || other.lt(self) {
            other
        } else {
            self
        }
    }

    /// The larger of two numbers; where one is not a number, the other.
    pub fn max(self, other: Scalar) -> (r: Scalar)
        ensures
            r == self.max_spec(other),
    {
        if other.is_nan() {
            self
        } else if self.is_nan() || self.lt(other) {
            other
        } else {
            self
        }
    }

    /// Holds `self` within `[lo, hi]`.
    pub fn clamp(self, lo: Scalar, hi: Scalar) -> (r: Scalar)
        requires
            lo.le_spec(hi),
        ensures
            r == self.clamp_spec(lo, hi),
    {
        if self.lt(lo) {
            lo
        } else if hi.lt(self) {
            hi
        } else {
            self
        }
    }
}

impl Vec3 {
    pub fn new(x: Scalar, y: Scalar, z: Scalar) -> (v: Vec3)
        ensures
            v.x == x,
            v.y == y,
            v.z == z,
    {
        Vec3 { x, y, z }
    }
}

/// `<` is a strict order: nothing is below itself, and it is transitive and
/// one-sided. Of two numbers, one is below the other or they have one rank.
pub proof fn lemma_lt_is_strict_order(a: Scalar, b: Scalar, c: Scalar)
    ensures
        !a.lt_spec(a),
        a.lt_spec(b) ==> !b.lt_spec(a),
        a.lt_spec(b) && b.lt_spec(c) ==> a.lt_spec(c),
        !a.nan() && !b.nan() ==> a.lt_spec(b) || b.lt_spec(a) || a.rank() == b.rank(),
        a.le_spec(b) <==> (!a.nan() && !b.nan() && !b.lt_spec(a)),
{
}

/// A clamped number lies within the bounds, and a number that already lies
/// within them is left as it is.
pub proof fn lemma_clamp_within(x: Scalar, lo: Scalar, hi: Scalar)
    requires
        lo.le_spec(hi),
    ensures
        !x.nan() ==> lo.le_spec(x.clamp_spec(lo, hi)) && x.clamp_spec(lo, hi).le_spec(hi),
        !hi.lt_spec(x.clamp_spec(lo, hi)),
        !x.clamp_spec(lo, hi).lt_spec(lo),
        lo.le_spec(x) && x.le_spec(hi) ==> x.clamp_spec(lo, hi) == x,
        x.clamp_spec(lo, hi).clamp_spec(lo, hi) == x.clamp_spec(lo, hi),
{
}

/// Of two numbers, each way of taking the smaller gives one of them that is
/// not above either, and each way of taking the larger one that is not below
/// either.
pub proof fn lemma_min_max_of_numbers(a: Scalar, b: Scalar)
    requires
        !a.nan(),
        !b.nan(),
    ensures
        a.min2_spec(b).le_spec(a) && a.min2_spec(b).le_spec(b),
        a.le_spec(a.max2_spec(b)) && b.le_spec(a.max2_spec(b)),
        a.min_spec(b).le_spec(a) && a.min_spec(b).le_spec(b),
        a.le_spec(a.max_spec(b)) && b.le_spec(a.max_spec(b)),
        a.min2_spec(b) == a || a.min2_spec(b) == b,
        a.max2_spec(b) == a || a.max2_spec(b) == b,
        a.min_spec(b) == a || a.min_spec(b) == b,
        a.max_spec(b) == a || a.max_spec(b) == b,
        a.min_spec(b).rank() == a.min2_spec(b).rank(),
        a.max_spec(b).rank() == a.max2_spec(b).rank(),
{
}

} // verus!
