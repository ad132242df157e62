//! Binary64 numbers by their bit patterns.
//!
//! The renderer decides by comparing numbers: which of two distances is the
//! nearer, whether a root lies in a range, on which side of a surface a ray
//! arrives. The order of IEEE 754 numbers can be read off their bit patterns
//! with integer arithmetic alone, so that is how a number is held here.

use vstd::prelude::*;

verus! {

/// The pattern whose only set bit is the sign.
pub const SIGN_MASK: u64 = 0x8000_0000_0000_0000;

/// The magnitude of an infinity. Every larger magnitude is a NaN.
pub const INFINITE_MAGNITUDE: u64 = 0x7FF0_0000_0000_0000;

/// A binary64 number, held by its IEEE 754 bit pattern.
///
/// `==` on two scalars compares the patterns. The numbers they stand for are
/// compared with [`Scalar::eq`], [`Scalar::lt`] and [`Scalar::le`], which
/// follow IEEE 754: the two zeros are equal, and a NaN is neither below, above
/// nor equal to anything.
#[derive(Clone, Copy, Debug, PartialEq, Eq, Structural)]
pub struct Scalar {
    pub bits: u64,
}

impl View for Scalar {
    /// `None` for a NaN, else the number's rank.
    type V = Option<int>;

    open spec fn view(&self) -> Option<int> {
        if self.is_nan_spec() {
            None
        } else {
            Some(self.rank())
        }
    }
}

impl Scalar {
    /// The pattern with the sign bit cleared.
    pub open spec fn magnitude(self) -> int {
        if self.bits >= SIGN_MASK {
            self.bits - SIGN_MASK
        } else {
            self.bits as int
        }
    }

    pub open spec fn is_sign_negative_spec(self) -> bool {
        self.bits >= SIGN_MASK
    }

    pub open spec fn is_nan_spec(self) -> bool {
        self.magnitude() > INFINITE_MAGNITUDE
    }

    /// The place of a number on the number line, as an integer: of two numbers
    /// the smaller has the smaller rank, and both zeros have rank 0.
    /// For positive numbers the magnitude grows with the number; for negative
    /// ones it grows with the distance from zero.
    pub open spec fn rank(self) -> int {
        if self.bits >= SIGN_MASK {
            -self.magnitude()
        } else {
            self.magnitude()
        }
    }

    pub open spec fn lt_spec(self, other: Scalar) -> bool {
        !self.is_nan_spec() && !other.is_nan_spec() && self.rank() < other.rank()
    }

    pub open spec fn le_spec(self, other: Scalar) -> bool {
        !self.is_nan_spec() && !other.is_nan_spec() && self.rank() <= other.rank()
    }

    pub open spec fn eq_spec(self, other: Scalar) -> bool {
        !self.is_nan_spec() && !other.is_nan_spec() && self.rank() == other.rank()
    }

    pub open spec fn neg_spec(self) -> Scalar {
        if self.bits >= SIGN_MASK {
            Scalar { bits: (self.bits - SIGN_MASK) as u64 }
        } else {
            Scalar { bits: (self.bits + SIGN_MASK) as u64 }
        }
    }

    pub open spec fn abs_spec(self) -> Scalar {
        Scalar { bits: self.magnitude() as u64 }
    }

    /// The smaller of two numbers; where one is a NaN, the other.
    /// Of two equal numbers the first is taken.
    pub open spec fn min_spec(self, other: Scalar) -> Scalar {
        if self.is_nan_spec() {
            other
        } else if other.lt_spec(self) {
            other
        } else {
            self
        }
    }

    /// The larger of two numbers; where one is a NaN, the other.
    /// Of two equal numbers the first is taken.
    pub open spec fn max_spec(self, other: Scalar) -> Scalar {
        if self.is_nan_spec() {
            other
        } else if self.lt_spec(other) {
            other
        } else {
            self
        }
    }

    pub fn from_bits(bits: u64) -> (s: Scalar)
        ensures
            s.bits == bits,
    {
        Scalar { bits }
    }

    pub fn to_bits(self) -> (bits: u64)
        ensures
            bits == self.bits,
    {
        self.bits
    }

    /// The pattern with the sign bit cleared, as a machine integer.
    fn magnitude_bits(self) -> (m: u64)
        ensures
            m == self.magnitude(),
    {
        if self.bits >= SIGN_MASK {
            self.bits - SIGN_MASK
        } else {
            self.bits
        }
    }

    #[verifier::when_used_as_spec(is_sign_negative_spec)]
    pub fn is_sign_negative(self) -> (b: bool)
        ensures
            b == self.is_sign_negative_spec(),
    {
        self.bits >= SIGN_MASK
    }

    #[verifier::when_used_as_spec(is_nan_spec)]
    pub fn is_nan(self) -> (b: bool)
        ensures
            b == self.is_nan_spec(),
            b <==> self@ is None,
    {
        self.magnitude_bits() > INFINITE_MAGNITUDE
    }

    /// `self < other`, as IEEE 754 orders numbers.
    #[verifier::when_used_as_spec(lt_spec)]
    pub fn lt(self, other: Scalar) -> (b: bool)
        ensures
            b == self.lt_spec(other),
            b <==> (self@ is Some && other@ is Some && self@->0 < other@->0),
    {
        if self.is_nan() || other.is_nan() {
            return false;
        }
        let a: u64 = self.magnitude_bits();
        let b: u64 = other.magnitude_bits();
        if self.bits >= SIGN_MASK {
            if other.bits >= SIGN_MASK {
                b < a
            } else {
                a != 0 || b != 0
            }
        } else {
            if other.bits >= SIGN_MASK {
                false
            } else {
                a < b
            }
        }
    }

    /// `self <= other`, as IEEE 754 orders numbers.
    #[verifier::when_used_as_spec(le_spec)]
    pub fn le(self, other: Scalar) -> (b: bool)
        ensures
            b == self.le_spec(other),
            b <==> (self@ is Some && other@ is Some && self@->0 <= other@->0),
    {
        if self.is_nan() || other.is_nan() {
            return false;
        }
        !other.lt(self)
    }

    /// `self > other`, as IEEE 754 orders numbers.
    pub fn gt(self, other: Scalar) -> (b: bool)
        ensures
            b == other.lt_spec(self),
    {
        other.lt(self)
    }

    /// `self >= other`, as IEEE 754 orders numbers.
    pub fn ge(self, other: Scalar) -> (b: bool)
        ensures
            b == other.le_spec(self),
    {
        other.le(self)
    }

    /// `self == other` as numbers: the two zeros are equal, a NaN equals
    /// nothing.
    #[verifier::when_used_as_spec(eq_spec)]
    pub fn eq(self, other: Scalar) -> (b: bool)
        ensures
            b == self.eq_spec(other),
            b <==> (self@ is Some && self@ == other@),
    {
        if self.is_nan() || other.is_nan() {
            return false;
        }
        let a: u64 = self.magnitude_bits();
        let b: u64 = other.magnitude_bits();
        self.bits == other.bits || (a == 0 && b == 0)
    }

    /// The number with the opposite sign. Negating flips the sign bit and
    /// nothing else, also of a zero, an infinity or a NaN.
    #[verifier::when_used_as_spec(neg_spec)]
    pub fn neg(self) -> (r: Scalar)
        ensures
            r == self.neg_spec(),
            r.magnitude() == self.magnitude(),
            r.is_sign_negative() != self.is_sign_negative(),
            r.is_nan() == self.is_nan(),
            r.rank() == -self.rank(),
    {
        if self.bits >= SIGN_MASK {
            Scalar { bits: self.bits - SIGN_MASK }
        } else {
            Scalar { bits: self.bits + SIGN_MASK }
        }
    }

    /// The number without its sign.
    #[verifier::when_used_as_spec(abs_spec)]
    pub fn abs(self) -> (r: Scalar)
        ensures
            r == self.abs_spec(),
            !r.is_sign_negative(),
            r.magnitude() == self.magnitude(),
            r.is_nan() == self.is_nan(),
            r.rank() == if self.rank() < 0 { -self.rank() } else { self.rank() },
    {
        Scalar { bits: self.magnitude_bits() }
    }

    /// The smaller of two numbers. A NaN is passed over: where one of the two
    /// is a NaN the other is returned.
    #[verifier::when_used_as_spec(min_spec)]
    pub fn min(self, other: Scalar) -> (r: Scalar)
        ensures
            r == self.min_spec(other),
            r == self || r == other,
            !self.is_nan() && !other.is_nan() ==> r.le_spec(self) && r.le_spec(other),
    {
        if self.is_nan() {
            other
        } else if other.lt(self) {
            other
        } else {
            self
        }
    }

    /// The larger of two numbers. A NaN is passed over: where one of the two
    /// is a NaN the other is returned.
    #[verifier::when_used_as_spec(max_spec)]
    pub fn max(self, other: Scalar) -> (r: Scalar)
        ensures
            r == self.max_spec(other),
            r == self || r == other,
            !self.is_nan() && !other.is_nan() ==> self.le_spec(r) && other.le_spec(r),
    {
        if self.is_nan() {
            other
        } else if self.lt(other) {
            other
        } else {
            self
        }
    }
}

/// The order of numbers is a total order on everything but NaNs: of two
/// numbers exactly one is below the other unless they are equal, and the order
/// is transitive.
pub proof fn order_is_total(a: Scalar, b: Scalar, c: Scalar)
    requires
        !a.is_nan(),
        !b.is_nan(),
        !c.is_nan(),
    ensures
        a.le_spec(a),
        a.lt_spec(b) || b.lt_spec(a) || a.eq_spec(b),
        !(a.lt_spec(b) && b.lt_spec(a)),
        a.lt_spec(b) <==> !b.le_spec(a),
        a.lt_spec(b) <==> a.le_spec(b) && !a.eq_spec(b),
        a.le_spec(b) && b.le_spec(a) ==> a.eq_spec(b),
        a.le_spec(b) && b.le_spec(c) ==> a.le_spec(c),
        a.lt_spec(b) && b.le_spec(c) ==> a.lt_spec(c),
        a.le_spec(b) && b.lt_spec(c) ==> a.lt_spec(c),
{
}

/// Numbers that are equal have the same pattern, except for the two zeros.
pub proof fn equal_numbers_share_their_pattern(a: Scalar, b: Scalar)
    requires
        a.eq_spec(b),
    ensures
        a == b || (a.magnitude() == 0 && b.magnitude() == 0),
{
}

} // verus!
