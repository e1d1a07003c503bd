//! Binary64 numbers by their bit patterns, and their exact order.

use vstd::prelude::*;
use vstd::arithmetic::mul::lemma_mul_strict_inequality;
use vstd::arithmetic::power2::pow2;
use vstd::arithmetic::power2::lemma_pow2_pos;
use vstd::arithmetic::power2::lemma_pow2_unfold;
use vstd::arithmetic::power2::lemma_pow2_adds;
use vstd::arithmetic::power2::lemma_pow2_strictly_increases;
use vstd::arithmetic::power2::lemma2_to64;
use vstd::arithmetic::power2::lemma2_to64_rest;

verus! {

/// Two to the power 63: the weight of the sign bit.
pub const SIGN_WEIGHT: u64 = 0x8000_0000_0000_0000;

/// Two to the power 52: the weight of the lowest exponent bit.
pub const EXPONENT_WEIGHT: u64 = 0x0010_0000_0000_0000;

/// The magnitude bits of an infinity; every larger magnitude is not a number.
pub const INFINITY_MAGNITUDE: u64 = 0x7FF0_0000_0000_0000;

/// The bit pattern of positive zero.
pub const ZERO_BITS: u64 = 0;

/// The bit pattern of one.
pub const ONE_BITS: u64 = 0x3FF0_0000_0000_0000;

/// The bit pattern of three.
pub const THREE_BITS: u64 = 0x4008_0000_0000_0000;

/// The bit pattern of the binary64 number nearest to one twentieth.
pub const ONE_TWENTIETH_BITS: u64 = 0x3FA9_9999_9999_999A;

/// A binary64 number, held by its 64-bit pattern: one sign bit, eleven
/// exponent bits, fifty-two fraction bits.
///
/// A finite number is `±significand × 2^shift` in units of `2^-1074`; the
/// spec function [`Binary64::scaled`] gives that integer exactly.
#[derive(Clone, Copy, Debug)]
pub struct Binary64 {
    pub bits: u64,
}

impl Binary64 {
    /// The pattern without its sign bit.
    pub open spec fn magnitude(self) -> nat {
        (self.bits % SIGN_WEIGHT) as nat
    }

    /// Whether the sign bit is set.
    pub open spec fn is_negative(self) -> bool {
        self.bits >= SIGN_WEIGHT
    }

    /// The eleven exponent bits, as a number.
    pub open spec fn exponent_field(self) -> nat {
        self.magnitude() / (EXPONENT_WEIGHT as nat)
    }

    /// The fifty-two fraction bits, as a number.
    pub open spec fn fraction_field(self) -> nat {
        self.magnitude() % (EXPONENT_WEIGHT as nat)
    }

    /// Not a number: the exponent bits are all set and the fraction is not zero.
    pub open spec fn is_nan(self) -> bool {
        self.magnitude() > INFINITY_MAGNITUDE
    }

    /// Positive or negative infinity.
    pub open spec fn is_infinite(self) -> bool {
        self.magnitude() == INFINITY_MAGNITUDE
    }

    /// A finite number, zero included.
    pub open spec fn is_finite(self) -> bool {
        self.magnitude() < INFINITY_MAGNITUDE
    }

    /// The integer significand: the fraction, with the implicit leading bit
    /// where the exponent field is not zero.
    pub open spec fn significand(self) -> nat {
        if self.exponent_field() == 0 {
            self.fraction_field()
        } else {
            self.fraction_field() + EXPONENT_WEIGHT as nat
        }
    }

    /// The power of two that scales the significand, counted from `2^-1074`.
    pub open spec fn shift(self) -> nat {
        if self.exponent_field() == 0 {
            0
        } else {
            (self.exponent_field() - 1) as nat
        }
    }

    /// The absolute value of a finite number, in units of `2^-1074`.
    pub open spec fn scaled_magnitude(self) -> nat {
        self.significand() * pow2(self.shift())
    }

    /// The value of a finite number, in units of `2^-1074`.
    pub open spec fn scaled(self) -> int {
        if self.is_negative() {
            -(self.scaled_magnitude() as int)
        } else {
            self.scaled_magnitude() as int
        }
    }

    /// The place of a number among the numbers, as an integer: the magnitude
    /// pattern, negated for a negative number. Both zeros have place 0 and the
    /// infinities the outermost places.
    pub open spec fn ordinal(self) -> int {
        if self.is_negative() {
            -(self.magnitude() as int)
        } else {
            self.magnitude() as int
        }
    }

    /// `self > other` as numbers. Nothing is greater or less than a value that
    /// is not a number; positive infinity is greater than everything else, and
    /// negative infinity less; finite numbers go by their values, so that the
    /// two zeros are equal.
    pub open spec fn gt(self, other: Binary64) -> bool {
        if self.is_nan() || other.is_nan() {
            false
        } else if self.is_infinite() {
            if self.is_negative() {
                false
            } else {
                !(other.is_infinite() && !other.is_negative())
            }
        } else if other.is_infinite() {
            other.is_negative()
        } else {
            self.scaled() > other.scaled()
        }
    }

    /// Positive zero.
    pub open spec fn spec_zero() -> Binary64 {
        Binary64 { bits: ZERO_BITS }
    }

    /// One.
    pub open spec fn spec_one() -> Binary64 {
        Binary64 { bits: ONE_BITS }
    }

    /// Three.
    pub open spec fn spec_three() -> Binary64 {
        Binary64 { bits: THREE_BITS }
    }

    /// The binary64 number nearest to one twentieth.
    pub open spec fn spec_one_twentieth() -> Binary64 {
        Binary64 { bits: ONE_TWENTIETH_BITS }
    }

    /// The number with the given bit pattern.
    pub fn from_bits(bits: u64) -> (r: Binary64)
        ensures
            r.bits == bits,
    {
        Binary64 { bits }
    }

    /// The bit pattern of the number.
    pub fn to_bits(self) -> (r: u64)
        ensures
            r == self.bits,
    {
        self.bits
    }

    /// Positive zero.
    pub fn zero() -> (r: Binary64)
        ensures
            r == Binary64::spec_zero(),
    {
        Binary64 { bits: ZERO_BITS }
    }

    /// One.
    pub fn one() -> (r: Binary64)
        ensures
            r == Binary64::spec_one(),
    {
        Binary64 { bits: ONE_BITS }
    }

    /// Three.
    pub fn three() -> (r: Binary64)
        ensures
            r == Binary64::spec_three(),
    {
        Binary64 { bits: THREE_BITS }
    }

    /// The binary64 number nearest to one twentieth.
    pub fn one_twentieth() -> (r: Binary64)
        ensures
            r == Binary64::spec_one_twentieth(),
    {
        Binary64 { bits: ONE_TWENTIETH_BITS }
    }

    /// Whether `self` is greater than `other` as numbers.
    pub fn is_greater_than(self, other: Binary64) -> (r: bool)
        ensures
            r == self.gt(other),
    {
        let a: u64 = self.bits % SIGN_WEIGHT;
        let b: u64 = other.bits % SIGN_WEIGHT;
        if a > INFINITY_MAGNITUDE || b > INFINITY_MAGNITUDE {
            return false;
        }
        proof {
            lemma_order_by_ordinal(self, other);
        }
        if self.bits >= SIGN_WEIGHT {
            other.bits >= SIGN_WEIGHT && b > a
        } else if other.bits >= SIGN_WEIGHT {
            a > 0 || b > 0
        } else {
            a > b
        }
    }
}

/// Numbers are in the order of their places: of two values that are numbers,
/// one is greater than the other exactly if its place is.
pub proof fn lemma_order_by_ordinal(x: Binary64, y: Binary64)
    requires
        !x.is_nan(),
        !y.is_nan(),
    ensures
        x.gt(y) <==> x.ordinal() > y.ordinal(),
{
    if x.magnitude() < y.magnitude() {
        lemma_magnitude_order(x, y);
    }
    if y.magnitude() < x.magnitude() {
        lemma_magnitude_order(y, x);
    }
    lemma_scaled_zero(x);
    lemma_scaled_zero(y);
}

/// "Greater than" is a strict order: nothing is greater than itself, no two
/// values are each greater than the other, and what is greater than something
/// greater is greater.
pub proof fn lemma_gt_is_strict_order(x: Binary64, y: Binary64, z: Binary64)
    ensures
        !x.gt(x),
        x.gt(y) ==> !y.gt(x),
        x.gt(y) && y.gt(z) ==> x.gt(z),
{
    if !x.is_nan() {
        lemma_order_by_ordinal(x, x);
        if !y.is_nan() {
            lemma_order_by_ordinal(x, y);
            lemma_order_by_ordinal(y, x);
            if !z.is_nan() {
                lemma_order_by_ordinal(y, z);
                lemma_order_by_ordinal(x, z);
            }
        }
    }
}

/// A finite magnitude of zero bits, and no other, stands for zero.
pub proof fn lemma_scaled_zero(x: Binary64)
    requires
        !x.is_nan(),
    ensures
        x.scaled_magnitude() == 0 <==> x.magnitude() == 0,
{
    lemma_pow2_pos(x.shift());
    let s = x.significand();
    let p = pow2(x.shift());
    if x.magnitude() == 0 {
        assert(s == 0);
        assert(s * p == 0) by (nonlinear_arith)
            requires
                s == 0,
        ;
    } else {
        assert(s > 0);
        assert(s * p > 0) by (nonlinear_arith)
            requires
                s > 0,
                p > 0,
        ;
    }
}

/// Among values that are numbers, a larger magnitude pattern is a larger
/// absolute value: the patterns of the non-negative numbers are in the order
/// of the numbers themselves.
pub proof fn lemma_magnitude_order(x: Binary64, y: Binary64)
    requires
        !x.is_nan(),
        !y.is_nan(),
        x.magnitude() < y.magnitude(),
    ensures
        x.scaled_magnitude() < y.scaled_magnitude(),
{
    let ex = x.exponent_field();
    let ey = y.exponent_field();
    let sx = x.significand();
    let sy = y.significand();
    let px = pow2(x.shift());
    let py = pow2(y.shift());
    lemma_pow2_pos(x.shift());
    lemma_pow2_pos(y.shift());
    if ex == ey {
        assert(sx < sy);
        assert(px == py);
        lemma_mul_strict_inequality(sx as int, sy as int, px as int);
    } else {
        assert(ex < ey);
        assert(sy >= EXPONENT_WEIGHT);
        assert(sy * py >= EXPONENT_WEIGHT * py) by (nonlinear_arith)
            requires
                sy >= EXPONENT_WEIGHT,
                py > 0,
        ;
        if ex == 0 {
            lemma2_to64();
            assert(sx * px == sx) by (nonlinear_arith)
                requires
                    px == 1,
            ;
            assert(EXPONENT_WEIGHT * py >= EXPONENT_WEIGHT) by (nonlinear_arith)
                requires
                    py >= 1,
            ;
        } else {
            // sx < 2 * 2^52 and 2 * pow2(ex - 1) == pow2(ex) <= pow2(ey - 1)
            lemma_pow2_unfold(ex);
            if ex < ey - 1 {
                lemma_pow2_strictly_increases(ex, (ey - 1) as nat);
            }
            let pe = pow2(ex);
            assert(pe == 2 * px);
            assert(pe <= py);
            assert(sx * px < EXPONENT_WEIGHT * pe) by (nonlinear_arith)
                requires
                    sx < 2 * EXPONENT_WEIGHT,
                    pe == 2 * px,
                    px > 0,
            ;
            assert(EXPONENT_WEIGHT * pe <= EXPONENT_WEIGHT * py) by (nonlinear_arith)
                requires
                    pe <= py,
            ;
        }
    }
}

/// The named constants are the numbers that their names say: in units of
/// `2^-1074`, zero is 0, one is `2^1074`, three is three times that, and twenty
/// times the constant for one twentieth exceeds one by `8 × 2^1017`, less than
/// twenty times the step between neighbouring numbers there.
pub proof fn lemma_constant_values()
    ensures
        Binary64::spec_zero().is_finite() && Binary64::spec_zero().scaled() == 0,
        Binary64::spec_one().is_finite() && Binary64::spec_one().scaled() == pow2(1074),
        Binary64::spec_three().is_finite() && Binary64::spec_three().scaled() == 3 * pow2(1074),
        Binary64::spec_one_twentieth().is_finite() && 20 * Binary64::spec_one_twentieth().scaled()
            == pow2(1074) + 8 * pow2(1017),
{
    lemma2_to64();
    lemma2_to64_rest();
    let one = Binary64::spec_one();
    assert(one.exponent_field() == 1023 && one.fraction_field() == 0);
    lemma_pow2_adds(52, 1022);
    let three = Binary64::spec_three();
    assert(three.exponent_field() == 1024 && three.fraction_field() == 0x8_0000_0000_0000);
    lemma_pow2_adds(51, 1023);
    let p1023 = pow2(1023);
    assert(three.significand() * p1023 == 3 * (0x8_0000_0000_0000 * p1023)) by (nonlinear_arith)
        requires
            three.significand() == 3 * 0x8_0000_0000_0000,
    ;
    let t = Binary64::spec_one_twentieth();
    assert(t.exponent_field() == 1018 && t.fraction_field() == 0x9_9999_9999_999A);
    lemma_pow2_adds(57, 1017);
    let p1017 = pow2(1017);
    assert(20 * (t.significand() * p1017) == 0x200000000000000 * p1017 + 8 * p1017)
        by (nonlinear_arith)
        requires
            20 * t.significand() == 0x200000000000000 + 8,
    ;
}

} // verus!
