//! Scalars: IEEE-754 binary64 values carried by their bit patterns.
//!
//! Everything here is exact integer work on the 64 bits of a value: its sign,
//! its order, its negation. Operations that round (sums, quotients, roots) are
//! not computed here; they come from an [`crate::arithmetic::Arithmetic`].
use vstd::prelude::*;

verus! {

/// Weight of the sign bit.
pub const SIGN: u64 = 0x8000_0000_0000_0000;

/// Bit pattern of positive infinity; larger magnitudes are not numbers.
pub const INFINITY: u64 = 0x7FF0_0000_0000_0000;

/// Bit pattern of `0.0`.
pub const ZERO: u64 = 0;

/// Bit pattern of `0.5`.
pub const HALF: u64 = 0x3FE0_0000_0000_0000;

/// Bit pattern of `1.0`.
pub const ONE: u64 = 0x3FF0_0000_0000_0000;

/// Bit pattern of `2.0`.
pub const TWO: u64 = 0x4000_0000_0000_0000;

/// Bit pattern of the double nearest to pi.
pub const PI: u64 = 0x4009_21FB_5444_2D18;

/// Bit pattern of pi / 180, the factor from degrees to radians.
pub const RADIANS_PER_DEGREE: u64 = 0x3F91_DF46_A252_9D39;

/// Bit pattern of `0.7`.
pub const SEVEN_TENTHS: u64 = 0x3FE6_6666_6666_6666;

/// Bit pattern of `0.25`.
pub const QUARTER: u64 = 0x3FD0_0000_0000_0000;

/// Bit pattern of `0.001`, the nearest at which a bounced ray may hit again.
pub const SHADOW_EPSILON: u64 = 0x3F50_624D_D2F1_A9FC;

/// Bit pattern of `0.999`, the brightest that a channel is written.
pub const BRIGHTEST: u64 = 0x3FEF_F7CE_D916_872B;

/// Bit pattern of `256.0`, the number of levels of a written channel.
pub const LEVELS: u64 = 0x4070_0000_0000_0000;

/// Bit pattern of `1e-4`, the half thickness given to a flat rectangle's box.
pub const RECT_PADDING: u64 = 0x3F1A_36E2_EB1C_432D;

/// Bit pattern of `1e-8`, below which a component counts as vanished.
pub const NEAR_ZERO: u64 = 0x3E45_798E_E230_8C3A;

/// A binary64 value, held as its bit pattern.
#[derive(Clone, Copy, PartialEq, Eq, Debug, Structural)]
pub struct Scalar {
    pub bits: u64,
}

impl Scalar {
    /// The sign bit is set.
    pub open spec fn negative(self) -> bool {
        self.bits >= SIGN
    }

    /// The 63 bits below the sign, read as a number.
    pub open spec fn magnitude(self) -> int {
        if self.negative() {
            self.bits - SIGN
        } else {
            self.bits as int
        }
    }

    /// Not a number: the magnitude lies above that of infinity.
    pub open spec fn nan(self) -> bool {
        self.magnitude() > INFINITY
    }

    /// Neither infinite nor not a number.
    pub open spec fn finite(self) -> bool {
        self.magnitude() < INFINITY
    }

    /// An integer that orders numbers as IEEE-754 compares them: both zeros
    /// share the key 0.
    pub open spec fn key(self) -> int {
        if self.negative() {
            -self.magnitude()
        } else {
            self.magnitude()
        }
    }

    /// An integer that orders bit patterns: as `key`, with negative zero just
    /// below positive zero. No two bit patterns share a rank.
    pub open spec fn rank(self) -> int {
        if self.negative() {
            -self.magnitude() - 1
        } else {
            self.magnitude()
        }
    }

    /// IEEE-754 `<`: false as soon as one side is not a number.
    pub open spec fn spec_lt(self, other: Scalar) -> bool {
        !self.nan() && !other.nan() && self.key() < other.key()
    }

    /// IEEE-754 `<=`: false as soon as one side is not a number.
    pub open spec fn spec_le(self, other: Scalar) -> bool {
        !self.nan() && !other.nan() && self.key() <= other.key()
    }

    /// IEEE-754 `>`.
    pub open spec fn spec_gt(self, other: Scalar) -> bool {
        other.spec_lt(self)
    }

    /// IEEE-754 `>=`.
    pub open spec fn spec_ge(self, other: Scalar) -> bool {
        other.spec_le(self)
    }

    /// The value with its sign bit flipped.
    pub open spec fn spec_neg(self) -> Scalar {
        if self.negative() {
            Scalar { bits: (self.bits - SIGN) as u64 }
        } else {
            Scalar { bits: (self.bits + SIGN) as u64 }
        }
    }

    /// The value with its sign bit cleared.
    pub open spec fn spec_abs(self) -> Scalar {
        if self.negative() {
            Scalar { bits: (self.bits - SIGN) as u64 }
        } else {
            self
        }
    }

    /// The smaller of two values. A side that is not a number is ignored; of
    /// the two zeros the negative one is the smaller.
    pub open spec fn spec_min(self, other: Scalar) -> Scalar {
        if self.nan() {
            other
        } else if other.nan() {
            self
        } else if other.rank() < self.rank() {
            other
        } else {
            self
        }
    }

    /// The larger of two values. A side that is not a number is ignored; of
    /// the two zeros the positive one is the larger.
    pub open spec fn spec_max(self, other: Scalar) -> Scalar {
        if self.nan() {
            other
        } else if other.nan() {
            self
        } else if other.rank() > self.rank() {
            other
        } else {
            self
        }
    }

    /// `self` held between `min` and `max`: `min` where `self < min`, else
    /// `max` where `self > max`, else `self`.
    pub open spec fn spec_clamp(self, min: Scalar, max: Scalar) -> Scalar {
        if self.spec_lt(min) {
            min
        } else if self.spec_gt(max) {
            max
        } else {
            self
        }
    }

    /// A finite number of the closed window `[min, max]`. Infinities and
    /// values that are not numbers lie in no window.
    pub open spec fn spec_within(self, min: Scalar, max: Scalar) -> bool {
        self.finite() && min.spec_le(self) && self.spec_le(max)
    }

    /// The scalar with the bit pattern `bits`.
    pub fn from_bits(bits: u64) -> (r: Scalar)
        ensures
            r == (Scalar { bits }),
    {
        Scalar { bits }
    }

    /// The bit pattern of the scalar.
    pub fn to_bits(self) -> (r: u64)
        ensures
            r == self.bits,
    {
        self.bits
    }

    /// Whether the sign bit is set.
    pub fn is_negative(self) -> (r: bool)
        ensures
            r == self.negative(),
    {
        self.bits >= SIGN
    }

    fn magnitude_bits(self) -> (r: u64)
        ensures
            r == self.magnitude(),
    {
        if self.bits >= SIGN {
            self.bits - SIGN
        } else {
            self.bits
        }
    }

    /// Whether the value is not a number.
    pub fn is_nan(self) -> (r: bool)
        ensures
            r == self.nan(),
    {
        self.magnitude_bits() > INFINITY
    }

    /// Whether the value is neither infinite nor not a number.
    pub fn is_finite(self) -> (r: bool)
        ensures
            r == self.finite(),
    {
        self.magnitude_bits() < INFINITY
    }

    /// Whether `self` ranks strictly below `other`, as bit patterns.
    fn ranks_below(self, other: Scalar) -> (r: bool)
        ensures
            r == (self.rank() < other.rank()),
    {
        let a: u64 = self.magnitude_bits();
        let b: u64 = other.magnitude_bits();
        if self.is_negative() {
            !other.is_negative() || a > b
        } else {
            !other.is_negative() && a < b
        }
    }

    /// IEEE-754 `<`: false as soon as one side is not a number.
    pub fn lt(self, other: Scalar) -> (r: bool)
        ensures
            r == self.spec_lt(other),
    {
        if self.is_nan() || other.is_nan() {
            return false;
        }
        let a: u64 = self.magnitude_bits();
        let b: u64 = other.magnitude_bits();
        if self.is_negative() {
            if other.is_negative() {
                a > b
            } else {
                a > 0 || b > 0
            }
        } else {
            !other.is_negative() && a < b
        }
    }

    /// IEEE-754 `<=`: false as soon as one side is not a number.
    pub fn le(self, other: Scalar) -> (r: bool)
        ensures
            r == self.spec_le(other),
    {
        if self.is_nan() || other.is_nan() {
            return false;
        }
        !other.lt(self)
    }

    /// IEEE-754 `>`.
    pub fn gt(self, other: Scalar) -> (r: bool)
        ensures
            r == self.spec_gt(other),
    {
        other.lt(self)
    }

    /// IEEE-754 `>=`.
    pub fn ge(self, other: Scalar) -> (r: bool)
        ensures
            r == self.spec_ge(other),
    {
        other.le(self)
    }

    /// The value with its sign bit flipped.
    pub fn neg(self) -> (r: Scalar)
        ensures
            r == self.spec_neg(),
            r.magnitude() == self.magnitude(),
            r.negative() == !self.negative(),
            r.key() == -self.key(),
    {
        if self.bits >= SIGN {
            Scalar { bits: self.bits - SIGN }
        } else {
            Scalar { bits: self.bits + SIGN }
        }
    }

    /// The value with its sign bit cleared.
    pub fn abs(self) -> (r: Scalar)
        ensures
            r == self.spec_abs(),
            r.magnitude() == self.magnitude(),
            !r.negative(),
    {
        Scalar { bits: self.magnitude_bits() }
    }

    /// The smaller of two values.
    pub fn min(self, other: Scalar) -> (r: Scalar)
        ensures
            r == self.spec_min(other),
    {
        if self.is_nan() {
            other
        } else if other.is_nan() {
            self
        } else if other.ranks_below(self) {
            other
        } else {
            self
        }
    }

    /// The larger of two values.
    pub fn max(self, other: Scalar) -> (r: Scalar)
        ensures
            r == self.spec_max(other),
    {
        if self.is_nan() {
            other
        } else if other.is_nan() {
            self
        } else if self.ranks_below(other) {
            other
        } else {
            self
        }
    }

    /// Whether `self` is a finite number of the closed window `[min, max]`.
    pub fn within(self, min: Scalar, max: Scalar) -> (r: bool)
        ensures
            r == self.spec_within(min, max),
    {
        self.is_finite() && min.le(self) && self.le(max)
    }

    /// `self` held between `min` and `max`: `min` where `self < min`, else
    /// `max` where `self > max`, else `self`.
    pub fn clamp(self, min: Scalar, max: Scalar) -> (r: Scalar)
        ensures
            r == self.spec_clamp(min, max),
    {
        if self.lt(min) {
            min
        } else if self.gt(max) {
            max
        } else {
            self
        }
    }
}

} // verus!
