//! Real numbers as the renderer stores them: IEEE 754 binary64 values held by
//! their bit patterns.
//!
//! Arithmetic on these values is done by the numeric kernels that call this
//! crate. What is decided *from* a number (is it below a threshold, is it
//! inside a range, which of two roots comes first) is decided here, on the bit
//! pattern, with the meaning that IEEE 754 gives to comparison: a NaN compares
//! false with everything, and the two zeros are equal.

use vstd::arithmetic::div_mod::{
    lemma_basic_div, lemma_div_by_multiple, lemma_div_is_ordered,
    lemma_div_multiples_vanish_quotient,
};
use vstd::arithmetic::power2::{
    lemma2_to64, lemma2_to64_rest, lemma_pow2_adds, lemma_pow2_pos, lemma_pow2_strictly_increases,
    lemma_pow2_unfold, pow2,
};
use vstd::bits::{lemma_u64_shl_is_mul, lemma_u64_shr_is_div};
use vstd::prelude::*;

verus! {

/// The bit that holds the sign of a binary64 number.
pub const SIGN_BIT: u64 = 0x8000_0000_0000_0000;

/// The bit pattern of positive infinity. A larger magnitude is a NaN.
pub const INFINITY_BITS: u64 = 0x7ff0_0000_0000_0000;

/// The bit pattern of `1.0`.
pub const ONE_BITS: u64 = 0x3ff0_0000_0000_0000;

/// The bit pattern of `10.0`.
pub const TEN_BITS: u64 = 0x4024_0000_0000_0000;

/// The bit pattern of the binary64 number nearest to a quarter turn, `π/2`.
pub const QUARTER_TURN_BITS: u64 = 0x3ff9_21fb_5444_2d18;

/// Two to the power 52: the number of fractions that one exponent has.
pub const FRACTION_SPAN: u64 = 0x10_0000_0000_0000;

/// A binary64 number, held by its bit pattern.
#[derive(Clone, Copy, Debug, PartialEq, Eq)]
pub struct Scalar {
    pub bits: u64,
}

impl Scalar {
    /// Whether the sign bit is set.
    pub open spec fn negative(self) -> bool {
        self.bits >= SIGN_BIT
    }

    /// The bit pattern without its sign: exponent and fraction.
    pub open spec fn magnitude(self) -> u64 {
        if self.bits >= SIGN_BIT {
            (self.bits - SIGN_BIT) as u64
        } else {
            self.bits
        }
    }

    /// Whether the pattern encodes no number.
    pub open spec fn is_nan_spec(self) -> bool {
        self.magnitude() > INFINITY_BITS
    }

    /// The place of a number on the number line: of two numbers the smaller
    /// one has the smaller rank, and the two zeros share rank 0. It has no
    /// meaning for a NaN.
    pub open spec fn rank(self) -> int {
        if self.negative() {
            -(self.magnitude() as int)
        } else {
            self.magnitude() as int
        }
    }

    /// The exponent as the bit pattern holds it: 0 for zero and the numbers
    /// too small to have a leading one, 2047 for infinity and NaN.
    pub open spec fn exponent_field(self) -> int {
        self.magnitude() as int / FRACTION_SPAN as int
    }

    /// The 52 bits of the bit pattern below the exponent.
    pub open spec fn fraction_field(self) -> int {
        self.magnitude() as int % FRACTION_SPAN as int
    }

    /// The size of a finite number, counted in steps of `2^-1074`, the
    /// smallest step there is: the number is `numerator / 2^1074`, with its
    /// sign.
    pub open spec fn numerator(self) -> int {
        if self.exponent_field() == 0 {
            self.fraction_field()
        } else {
            (FRACTION_SPAN + self.fraction_field()) * pow2((self.exponent_field() - 1) as nat)
        }
    }

    /// The number rounded to the nearest whole number, a half away from zero,
    /// and held to what a `u32` can count: what is no number or not above
    /// zero gives 0, what is beyond the largest `u32` gives that.
    pub open spec fn round_to_u32_spec(self) -> int {
        if self.is_nan_spec() || self.negative() {
            0
        } else {
            let whole = (self.numerator() + pow2(1073)) / (pow2(1074) as int);
            if whole > u32::MAX {
                u32::MAX as int
            } else {
                whole
            }
        }
    }

    /// `self < other` as IEEE 754 defines it.
    pub open spec fn lt_spec(self, other: Scalar) -> bool {
        !self.is_nan_spec() && !other.is_nan_spec() && self.rank() < other.rank()
    }

    /// `self <= other` as IEEE 754 defines it.
    pub open spec fn le_spec(self, other: Scalar) -> bool {
        !self.is_nan_spec() && !other.is_nan_spec() && self.rank() <= other.rank()
    }

    /// The size of the number: the number without its sign.
    pub open spec fn abs_spec(self) -> Scalar {
        Scalar { bits: self.magnitude() }
    }

    /// The number with the opposite sign.
    pub open spec fn neg_spec(self) -> Scalar {
        if self.bits >= SIGN_BIT {
            Scalar { bits: (self.bits - SIGN_BIT) as u64 }
        } else {
            Scalar { bits: (self.bits + SIGN_BIT) as u64 }
        }
    }

    /// Positive zero.
    pub open spec fn zero_spec() -> Scalar {
        Scalar { bits: 0 }
    }

    /// The number with the given bit pattern.
    pub fn from_bits(bits: u64) -> (s: Scalar)
        ensures
            s.bits == bits,
    {
        Scalar { bits }
    }

    /// The bit pattern of the number.
    pub fn to_bits(self) -> (bits: u64)
        ensures
            bits == self.bits,
    {
        self.bits
    }

    /// Positive zero.
    pub fn zero() -> (s: Scalar)
        ensures
            s == Scalar::zero_spec(),
    {
        Scalar { bits: 0 }
    }

    /// The number one.
    pub fn one() -> (s: Scalar)
        ensures
            s.bits == ONE_BITS,
    {
        Scalar { bits: ONE_BITS }
    }

    /// Positive infinity.
    pub fn infinity() -> (s: Scalar)
        ensures
            s.bits == INFINITY_BITS,
    {
        Scalar { bits: INFINITY_BITS }
    }

    /// Whether the pattern encodes no number.
    pub fn is_nan(self) -> (nan: bool)
        ensures
            nan == self.is_nan_spec(),
    {
        self.magnitude_bits() > INFINITY_BITS
    }

    /// `self < other`; false where either is a NaN.
    pub fn lt(self, other: Scalar) -> (below: bool)
        ensures
            below == self.lt_spec(other),
    {
        if self.is_nan() || other.is_nan() {
            return false;
        }
        let a: u64 = self.magnitude_bits();
        let b: u64 = other.magnitude_bits();
        if self.bits >= SIGN_BIT {
            if other.bits >= SIGN_BIT {
                b < a
            } else {
                a > 0 || b > 0
            }
        } else {
            if other.bits >= SIGN_BIT {
                false
            } else {
                a < b
            }
        }
    }

    /// `self <= other`; false where either is a NaN.
    pub fn le(self, other: Scalar) -> (at_most: bool)
        ensures
            at_most == self.le_spec(other),
    {
        if self.is_nan() || other.is_nan() {
            return false;
        }
        !other.lt(self)
    }

    /// The number with the opposite sign. Exact for every pattern: a NaN stays
    /// a NaN, a zero becomes the other zero.
    pub fn neg(self) -> (opposite: Scalar)
        ensures
            opposite == self.neg_spec(),
            opposite.magnitude() == self.magnitude(),
            opposite.negative() != self.negative(),
    {
        if self.bits >= SIGN_BIT {
            Scalar { bits: self.bits - SIGN_BIT }
        } else {
            Scalar { bits: self.bits + SIGN_BIT }
        }
    }

    /// The number rounded to the nearest whole number, a half away from zero,
    /// and held to what a `u32` can count.
    pub fn round_to_u32(self) -> (whole: u32)
        ensures
            whole == self.round_to_u32_spec(),
    {
        if self.is_nan() || self.bits >= SIGN_BIT {
            return 0;
        }
        let exponent: u64 = self.bits / FRACTION_SPAN;
        let fraction: u64 = self.bits % FRACTION_SPAN;
        proof {
            lemma2_to64();
            lemma2_to64_rest();
            lemma_pow2_pos(1074);
        }
        if exponent < 1022 {
            proof {
                lemma_below_half(self);
            }
            return 0;
        }
        if exponent >= 1055 {
            proof {
                lemma_beyond_u32(self);
            }
            return u32::MAX;
        }
        let significand: u64 = FRACTION_SPAN + fraction;
        let shift: u64 = 1075 - exponent;
        let half: u64 = 1u64 << (shift - 1);
        proof {
            lemma_pow2_strictly_increases((shift - 1) as nat, 53);
            lemma_u64_shl_is_mul(1, (shift - 1) as u64);
        }
        let whole: u64 = (significand + half) >> shift;
        proof {
            lemma_u64_shr_is_div((significand + half) as u64, shift);
            lemma_rounded_quotient(significand as int, exponent as int);
        }
        if whole > 0xffff_ffff {
            u32::MAX
        } else {
            whole as u32
        }
    }

    /// The size of the number: the number without its sign. Exact for every
    /// pattern: a NaN stays a NaN.
    pub fn abs(self) -> (size: Scalar)
        ensures
            size == self.abs_spec(),
    {
        Scalar { bits: self.magnitude_bits() }
    }

    fn magnitude_bits(self) -> (m: u64)
        ensures
            m == self.magnitude(),
    {
        if self.bits >= SIGN_BIT {
            self.bits - SIGN_BIT
        } else {
            self.bits
        }
    }
}

/// `<` is transitive, and so is its mix with `<=`.
pub proof fn lemma_order_transitive(a: Scalar, b: Scalar, c: Scalar)
    ensures
        a.lt_spec(b) && b.lt_spec(c) ==> a.lt_spec(c),
        a.le_spec(b) && b.lt_spec(c) ==> a.lt_spec(c),
        a.lt_spec(b) && b.le_spec(c) ==> a.lt_spec(c),
        a.le_spec(b) && b.le_spec(c) ==> a.le_spec(c),
{
}

/// A number of `significand` steps of `2^(exponent - 1075)` plus a half,
/// rounded down, is the significand plus half of `2^(1075 - exponent)`,
/// without its last `1075 - exponent` bits.
proof fn lemma_rounded_quotient(significand: int, exponent: int)
    requires
        0 <= significand,
        1 <= exponent <= 1074,
    ensures
        (significand * pow2((exponent - 1) as nat) + pow2(1073)) / (pow2(1074) as int) == (
        significand + pow2((1074 - exponent) as nat)) / (pow2((1075 - exponent) as nat) as int),
{
    let unit = pow2((exponent - 1) as nat) as int;
    let half = pow2((1074 - exponent) as nat) as int;
    let full = pow2((1075 - exponent) as nat) as int;
    lemma_pow2_adds((exponent - 1) as nat, (1074 - exponent) as nat);
    lemma_pow2_adds((exponent - 1) as nat, (1075 - exponent) as nat);
    lemma_pow2_pos((exponent - 1) as nat);
    lemma_pow2_pos((1075 - exponent) as nat);
    lemma_pow2_pos((1074 - exponent) as nat);
    lemma_div_multiples_vanish_quotient(unit, significand + half, full);
    assert(significand * unit + unit * half == unit * (significand + half)) by (nonlinear_arith);
}

/// A number below a half rounds to zero.
proof fn lemma_below_half(value: Scalar)
    requires
        value.exponent_field() < 1022,
    ensures
        (value.numerator() + pow2(1073)) / (pow2(1074) as int) == 0,
{
    let exponent = value.exponent_field();
    let fraction = value.fraction_field();
    lemma2_to64_rest();
    lemma_pow2_unfold(1074);
    if exponent == 0 {
        lemma_pow2_strictly_increases(52, 1073);
    } else {
        let unit = pow2((exponent - 1) as nat) as int;
        lemma_pow2_pos((exponent - 1) as nat);
        lemma_pow2_adds(53, (exponent - 1) as nat);
        lemma_pow2_strictly_increases((exponent + 52) as nat, 1074);
        lemma_pow2_unfold(1074);
        if exponent < 1021 {
            lemma_pow2_strictly_increases((exponent + 52) as nat, 1073);
        }
        assert((FRACTION_SPAN + fraction) * unit < pow2(53) * unit) by (nonlinear_arith)
            requires
                FRACTION_SPAN + fraction < pow2(53),
                0 < unit,
        ;
    }
    lemma_basic_div(value.numerator() + pow2(1073), pow2(1074) as int);
}

/// A number from `2^32` on rounds to more than a `u32` counts.
proof fn lemma_beyond_u32(value: Scalar)
    requires
        value.exponent_field() >= 1055,
    ensures
        (value.numerator() + pow2(1073)) / (pow2(1074) as int) > u32::MAX,
{
    let exponent = value.exponent_field();
    let fraction = value.fraction_field();
    let unit = pow2((exponent - 1) as nat) as int;
    lemma2_to64();
    lemma2_to64_rest();
    lemma_pow2_pos(1074);
    lemma_pow2_pos(1073);
    lemma_pow2_adds(52, 1054);
    lemma_pow2_adds(32, 1074);
    if exponent > 1055 {
        lemma_pow2_strictly_increases(1054, (exponent - 1) as nat);
    }
    assert(pow2(52) * pow2(1054) <= (FRACTION_SPAN + fraction) * unit) by (nonlinear_arith)
        requires
            pow2(52) == FRACTION_SPAN,
            0 <= fraction,
            0 < pow2(1054) <= unit,
    ;
    lemma_div_by_multiple(pow2(32) as int, pow2(1074) as int);
    lemma_div_is_ordered(
        (pow2(32) * pow2(1074)) as int,
        value.numerator() + pow2(1073),
        pow2(1074) as int,
    );
}

} // verus!
