//! Numbers in the IEEE 754 binary interchange formats, held as bit patterns.
//!
//! Thresholds, probabilities, scores and severities arrive as binary floating
//! point. Every rule of this crate only ever *compares* such numbers, and
//! comparing them is a fact about their bits: a pattern stands for a sign and a
//! magnitude, and the magnitude grows with the low bits of the pattern. The
//! types here hold the pattern and give each comparison a contract over the
//! number the pattern stands for.

use vstd::arithmetic::mul::{
    lemma_mul_inequality, lemma_mul_is_commutative,
    lemma_mul_strict_inequality, lemma_mul_strictly_positive,
};
use vstd::arithmetic::power2::{
    lemma_pow2_adds, lemma_pow2_pos, lemma_pow2_strictly_increases, lemma_pow2_unfold, pow2,
};
use vstd::prelude::*;

verus! {

/// The magnitude that the bits below the sign stand for, counted in units of
/// the smallest positive number of the format. `unit` is two to the number of
/// fraction bits: the exponent field is `low / unit`, the fraction
/// `low % unit`.
///
/// The pattern of infinity gets the magnitude that its exponent field spells
/// out, which lies above every finite magnitude.
pub open spec fn magnitude_of(low: int, unit: int) -> int {
    let exponent = low / unit;
    let fraction = low % unit;
    if exponent <= 0 {
        fraction
    } else {
        (unit + fraction) * pow2((exponent - 1) as nat)
    }
}

/// Two to the number of fraction bits of the 64-bit format.
pub const FRACTION_UNIT_64: u64 = 0x10_0000_0000_0000;

/// Two to the number of fraction bits of the 32-bit format.
pub const FRACTION_UNIT_32: u32 = 0x80_0000;

/// The bits below the sign of infinity, 64-bit format.
pub const INFINITY_64: u64 = 0x7ff0_0000_0000_0000;

/// The bits below the sign of infinity, 32-bit format.
pub const INFINITY_32: u32 = 0x7f80_0000;

/// The pattern of zero, 64-bit format.
pub const ZERO_64: u64 = 0;

/// The pattern of one, 64-bit format.
pub const ONE_64: u64 = 0x3ff0_0000_0000_0000;

/// The pattern of one, 32-bit format.
pub const ONE_32: u32 = 0x3f80_0000;

/// The sign bit of the 64-bit format.
pub const SIGN_64: u64 = 0x8000_0000_0000_0000;

/// The sign bit of the 32-bit format.
pub const SIGN_32: u32 = 0x8000_0000;

/// The magnitude grows strictly with the bits below the sign.
pub proof fn lemma_magnitude_increases(a: int, b: int, unit: int)
    requires
        0 <= a < b,
        0 < unit,
    ensures
        0 <= magnitude_of(a, unit) < magnitude_of(b, unit),
{
    let ea = a / unit;
    let fa = a % unit;
    let eb = b / unit;
    let fb = b % unit;
    vstd::arithmetic::div_mod::lemma_fundamental_div_mod(a, unit);
    vstd::arithmetic::div_mod::lemma_fundamental_div_mod(b, unit);
    vstd::arithmetic::div_mod::lemma_mod_bound(a, unit);
    vstd::arithmetic::div_mod::lemma_mod_bound(b, unit);
    vstd::arithmetic::div_mod::lemma_div_pos_is_pos(a, unit);
    vstd::arithmetic::div_mod::lemma_div_is_ordered(a, b, unit);
    if ea == eb {
        assert(fa < fb);
        if ea > 0 {
            lemma_pow2_pos((ea - 1) as nat);
            lemma_mul_strict_inequality(unit + fa, unit + fb, pow2((ea - 1) as nat) as int);
            lemma_mul_strictly_positive(unit + fa, pow2((ea - 1) as nat) as int);
        }
    } else {
        let pb = pow2((eb - 1) as nat) as int;
        lemma_pow2_pos((eb - 1) as nat);
        lemma_mul_inequality(1, pb, unit);
        lemma_mul_inequality(unit, unit + fb, pb);
        lemma_mul_is_commutative(unit, pb);
        assert(unit * pb <= magnitude_of(b, unit));
        if ea > 0 {
            let pa = pow2((ea - 1) as nat) as int;
            lemma_pow2_pos((ea - 1) as nat);
            lemma_mul_strict_inequality(unit + fa, 2 * unit, pa);
            lemma_mul_strictly_positive(unit + fa, pa);
            lemma_pow2_unfold(ea as nat);
            assert((2 * unit) * pa == unit * (2 * pa)) by (nonlinear_arith);
            if ea < eb - 1 {
                lemma_pow2_strictly_increases(ea as nat, (eb - 1) as nat);
            }
            lemma_mul_inequality(2 * pa, pb, unit);
            lemma_mul_is_commutative(unit, 2 * pa);
        }
    }
}

/// A number in the 64-bit format.
#[derive(Clone, Copy, Debug, PartialEq, Eq, Structural)]
pub struct Binary64 {
    /// The pattern: sign, eleven exponent bits, fifty-two fraction bits.
    pub bits: u64,
}

/// A number in the 32-bit format.
#[derive(Clone, Copy, Debug, PartialEq, Eq, Structural)]
pub struct Binary32 {
    /// The pattern: sign, eight exponent bits, twenty-three fraction bits.
    pub bits: u32,
}

impl Binary64 {
    /// The bits below the sign.
    pub open spec fn low(self) -> int {
        self.bits as int % SIGN_64 as int
    }

    /// Not a number: every exponent bit set, and some fraction bit.
    pub open spec fn nan(self) -> bool {
        self.low() > INFINITY_64
    }

    /// The number, counted in units of two to the power minus 1074. Infinity
    /// counts as the power of two that follows the largest finite number.
    pub open spec fn value(self) -> int {
        let magnitude = magnitude_of(self.low(), FRACTION_UNIT_64 as int);
        if self.bits >= SIGN_64 {
            -magnitude
        } else {
            magnitude
        }
    }

    /// `self >= other`: false wherever either is not a number.
    pub open spec fn ge(self, other: Binary64) -> bool {
        &&& !self.nan()
        &&& !other.nan()
        &&& self.value() >= other.value()
    }

    /// Within `[0, 1]`.
    pub open spec fn probability(self) -> bool {
        &&& !self.nan()
        &&& 0 <= self.value() <= pow2(1074)
    }

    /// The same number without its sign.
    pub open spec fn magnitude(self) -> Binary64 {
        Binary64 { bits: (self.bits as int % SIGN_64 as int) as u64 }
    }

    /// Whether the pattern is not a number.
    pub fn is_nan(self) -> (yes: bool)
        ensures
            yes == self.nan(),
    {
        self.bits % SIGN_64 > INFINITY_64
    }

    /// Whether `self >= other`, as the comparison of two floating-point numbers.
    pub fn at_least(self, other: Binary64) -> (yes: bool)
        ensures
            yes == self.ge(other),
    {
        if self.is_nan() || other.is_nan() {
            return false;
        }
        let a: u64 = self.bits % SIGN_64;
        let b: u64 = other.bits % SIGN_64;
        proof {
            lemma_low_order(a as int, b as int, FRACTION_UNIT_64 as int);
        }
        if self.bits < SIGN_64 {
            if other.bits < SIGN_64 {
                a >= b
            } else {
                true
            }
        } else if other.bits < SIGN_64 {
            a == 0 && b == 0
        } else {
            a <= b
        }
    }

    /// Whether the number is above zero.
    pub fn is_positive(self) -> (yes: bool)
        ensures
            yes == (!self.nan() && self.value() > 0),
    {
        proof {
            lemma_low_order(self.low(), 0, FRACTION_UNIT_64 as int);
        }
        !self.is_nan() && self.bits < SIGN_64 && self.bits != 0
    }

    /// Whether the number lies in `[0, 1]`. Not-a-number and the infinities do not.
    pub fn is_probability(self) -> (yes: bool)
        ensures
            yes == self.probability(),
    {
        proof {
            lemma_zero_one();
        }
        self.at_least(Binary64 { bits: ZERO_64 }) && (Binary64 { bits: ONE_64 }).at_least(self)
    }

    /// The number without its sign.
    pub fn abs(self) -> (result: Binary64)
        ensures
            result == self.magnitude(),
            result.nan() == self.nan(),
            result.value() == if self.value() >= 0 { self.value() } else { -self.value() },
    {
        proof {
            lemma_low_order(self.low(), 0, FRACTION_UNIT_64 as int);
        }
        Binary64 { bits: self.bits % SIGN_64 }
    }
}

impl Binary32 {
    /// The bits below the sign.
    pub open spec fn low(self) -> int {
        self.bits as int % SIGN_32 as int
    }

    /// Not a number: every exponent bit set, and some fraction bit.
    pub open spec fn nan(self) -> bool {
        self.low() > INFINITY_32
    }

    /// Neither infinite nor not a number.
    pub open spec fn finite(self) -> bool {
        self.low() < INFINITY_32
    }

    /// The number, counted in units of two to the power minus 149. Infinity
    /// counts as the power of two that follows the largest finite number.
    pub open spec fn value(self) -> int {
        let magnitude = magnitude_of(self.low(), FRACTION_UNIT_32 as int);
        if self.bits >= SIGN_32 {
            -magnitude
        } else {
            magnitude
        }
    }

    /// `self >= other`: false wherever either is not a number.
    pub open spec fn ge(self, other: Binary32) -> bool {
        &&& !self.nan()
        &&& !other.nan()
        &&& self.value() >= other.value()
    }

    /// A 64-bit pattern stands for the same number as this one.
    pub open spec fn widens_to(self, wide: Binary64) -> bool {
        &&& self.finite() ==> !wide.nan() && wide.value() == self.value() * pow2(925)
        &&& self.low() == INFINITY_32 ==> wide.low() == INFINITY_64
        &&& wide.nan() == self.nan()
        &&& (wide.bits >= SIGN_64) == (self.bits >= SIGN_32)
    }

    /// Whether the pattern is not a number.
    pub fn is_nan(self) -> (yes: bool)
        ensures
            yes == self.nan(),
    {
        self.bits % SIGN_32 > INFINITY_32
    }

    /// Whether `self >= other`, as the comparison of two floating-point numbers.
    pub fn at_least(self, other: Binary32) -> (yes: bool)
        ensures
            yes == self.ge(other),
    {
        if self.is_nan() || other.is_nan() {
            return false;
        }
        let a: u32 = self.bits % SIGN_32;
        let b: u32 = other.bits % SIGN_32;
        proof {
            lemma_low_order(a as int, b as int, FRACTION_UNIT_32 as int);
        }
        if self.bits < SIGN_32 {
            if other.bits < SIGN_32 {
                a >= b
            } else {
                true
            }
        } else if other.bits < SIGN_32 {
            a == 0 && b == 0
        } else {
            a <= b
        }
    }

    /// The same number in the 64-bit format. Widening never rounds: a finite
    /// number keeps its value, an infinity its sign, and not-a-number stays so.
    pub fn widen(self) -> (wide: Binary64)
        ensures
            self.widens_to(wide),
    {
        let low: u32 = self.bits % SIGN_32;
        let exponent: u32 = low / FRACTION_UNIT_32;
        let fraction: u32 = low % FRACTION_UNIT_32;
        let wide_low: u64 = if low == 0 {
            0
        } else if exponent == 255 {
            INFINITY_64 + fraction as u64 * 0x2000_0000
        } else if exponent > 0 {
            (exponent as u64 + 896) * FRACTION_UNIT_64 + fraction as u64 * 0x2000_0000
        } else {
            widen_subnormal(fraction)
        };
        proof {
            let unit = FRACTION_UNIT_64 as int;
            let magnitude = magnitude_of(low as int, FRACTION_UNIT_32 as int);
            if low == 0 {
                assert(magnitude == 0);
                assert(magnitude_of(0, unit) == 0);
            } else if 0 < exponent < 255 {
                let e = exponent as int;
                let f = fraction as int;
                lemma_split(e + 896, f * 0x2000_0000, unit);
                lemma_scale_normal(e, f);
            }
            assert(low != 0 && exponent < 255 ==> magnitude_of(wide_low as int, unit) == magnitude
                * pow2(925));
            assert(low == 0 ==> 0 * pow2(925) == 0);
            assert(-(magnitude * pow2(925)) == (-magnitude) * pow2(925)) by (nonlinear_arith);
        }
        if self.bits >= SIGN_32 {
            Binary64 { bits: wide_low + SIGN_64 }
        } else {
            Binary64 { bits: wide_low }
        }
    }
}

/// Exponent and fraction of a pattern put together from them.
proof fn lemma_split(exponent: int, fraction: int, unit: int)
    requires
        0 <= exponent,
        0 <= fraction < unit,
    ensures
        (exponent * unit + fraction) / unit == exponent,
        (exponent * unit + fraction) % unit == fraction,
{
    vstd::arithmetic::div_mod::lemma_fundamental_div_mod_converse(
        exponent * unit + fraction,
        unit,
        exponent,
        fraction,
    );
}

/// Widening a number with a non-zero exponent field scales its magnitude.
proof fn lemma_scale_normal(e: int, f: int)
    requires
        0 < e,
        0 <= f < FRACTION_UNIT_32,
    ensures
        (FRACTION_UNIT_64 + f * 0x2000_0000) * pow2((e + 895) as nat) == ((FRACTION_UNIT_32 + f)
            * pow2((e - 1) as nat)) * pow2(925),
{
    let m = FRACTION_UNIT_32 + f;
    let p = pow2((e - 1) as nat) as int;
    let q = pow2(925) as int;
    let r = pow2((e + 895) as nat) as int;
    lemma_pow2_adds(29, (e + 895) as nat);
    lemma_pow2_adds((e - 1) as nat, 925);
    vstd::arithmetic::power2::lemma2_to64();
    assert(pow2(29) == 0x2000_0000);
    assert(0x2000_0000 * r == p * q);
    assert(FRACTION_UNIT_64 + f * 0x2000_0000 == m * 0x2000_0000);
    assert((m * 0x2000_0000) * r == m * (0x2000_0000 * r)) by (nonlinear_arith);
    assert((m * p) * q == m * (p * q)) by (nonlinear_arith);
}

/// The wide pattern of a number whose exponent field is zero.
fn widen_subnormal(fraction: u32) -> (wide_low: u64)
    requires
        0 < fraction < FRACTION_UNIT_32,
    ensures
        wide_low < INFINITY_64,
        magnitude_of(wide_low as int, FRACTION_UNIT_64 as int) == fraction * pow2(925),
{
    let mut shifted: u32 = fraction;
    let mut exponent: u64 = 897;
    proof {
        vstd::arithmetic::power2::lemma2_to64();
        lemma_pow2_adds(29, 896);
        assert(shifted * pow2(925) == fraction * pow2(925));
    }
    let ghost steps: int = 0;
    while shifted < FRACTION_UNIT_32
        invariant
            0 < shifted < 2 * FRACTION_UNIT_32,
            0 <= steps <= 23,
            exponent == 897 - steps,
            shifted >= pow2(steps as nat),
            shifted * pow2((925 - steps) as nat) == fraction * pow2(925),
        decreases 2 * FRACTION_UNIT_32 - shifted,
    {
        proof {
            vstd::arithmetic::power2::lemma2_to64();
            if steps == 23 {
                assert(pow2(23) == FRACTION_UNIT_32);
            }
            lemma_pow2_unfold((925 - steps) as nat);
            lemma_pow2_unfold((steps + 1) as nat);
            let p = pow2((924 - steps) as nat) as int;
            assert(shifted * (2 * p) == (2 * shifted) * p) by (nonlinear_arith);
        }
        shifted = shifted * 2;
        exponent = exponent - 1;
        proof {
            steps = steps + 1;
        }
    }
    let rest: u64 = (shifted - FRACTION_UNIT_32) as u64;
    proof {
        let e = exponent as int;
        let r = pow2((e - 1) as nat) as int;
        lemma_split(e, rest * 0x2000_0000, FRACTION_UNIT_64 as int);
        lemma_pow2_adds(29, (e - 1) as nat);
        vstd::arithmetic::power2::lemma2_to64();
        assert(29 + (e - 1) == 925 - steps);
        assert(FRACTION_UNIT_64 + rest * 0x2000_0000 == shifted * 0x2000_0000);
        assert((shifted * 0x2000_0000) * r == shifted * (0x2000_0000 * r)) by (nonlinear_arith);
    }
    exponent * FRACTION_UNIT_64 + rest * 0x2000_0000
}

/// The order of two magnitudes is the order of the bits below the sign, and
/// only no bits at all stand for zero.
proof fn lemma_low_order(a: int, b: int, unit: int)
    requires
        0 <= a,
        0 <= b,
        0 < unit,
    ensures
        a < b <==> magnitude_of(a, unit) < magnitude_of(b, unit),
        a == b <==> magnitude_of(a, unit) == magnitude_of(b, unit),
        magnitude_of(a, unit) >= 0,
        magnitude_of(b, unit) >= 0,
        a == 0 <==> magnitude_of(a, unit) == 0,
        b == 0 <==> magnitude_of(b, unit) == 0,
{
    assert(magnitude_of(0, unit) == 0) by {
        vstd::arithmetic::div_mod::lemma_div_basics(unit);
        vstd::arithmetic::div_mod::lemma_small_mod(0, unit as nat);
    }
    if a < b {
        lemma_magnitude_increases(a, b, unit);
    }
    if b < a {
        lemma_magnitude_increases(b, a, unit);
    }
    if 0 < a {
        lemma_magnitude_increases(0, a, unit);
    }
    if 0 < b {
        lemma_magnitude_increases(0, b, unit);
    }
}

/// What the pattern of one stands for in the 32-bit format.
pub proof fn lemma_one_32()
    ensures
        !(Binary32 { bits: ONE_32 }).nan(),
        (Binary32 { bits: ONE_32 }).value() == pow2(149),
{
    lemma_pow2_adds(23, 126);
    vstd::arithmetic::power2::lemma2_to64();
    assert((Binary32 { bits: ONE_32 }).low() / FRACTION_UNIT_32 as int == 127);
    assert((Binary32 { bits: ONE_32 }).low() % FRACTION_UNIT_32 as int == 0);
}

/// What the patterns of zero and one stand for.
pub proof fn lemma_zero_one()
    ensures
        !(Binary64 { bits: ZERO_64 }).nan(),
        !(Binary64 { bits: ONE_64 }).nan(),
        (Binary64 { bits: ZERO_64 }).value() == 0,
        (Binary64 { bits: ONE_64 }).value() == pow2(1074),
{
    lemma_pow2_adds(52, 1022);
    vstd::arithmetic::power2::lemma2_to64();
    vstd::arithmetic::power2::lemma2_to64_rest();
    assert(pow2(52) == FRACTION_UNIT_64);
    assert((Binary64 { bits: ONE_64 }).low() / FRACTION_UNIT_64 as int == 1023);
    assert((Binary64 { bits: ONE_64 }).low() % FRACTION_UNIT_64 as int == 0);
}

/// What the bits below the sign count: the first two runs of a unit count one by
/// one from zero, and from then on every unit further doubles the count. No other
/// counting does both.
pub proof fn law_magnitude_doubles(low: int, unit: int)
    requires
        0 < unit,
        0 <= low,
    ensures
        low < 2 * unit ==> magnitude_of(low, unit) == low,
        unit <= low ==> magnitude_of(low + unit, unit) == 2 * magnitude_of(low, unit),
{
    let exponent = low / unit;
    let fraction = low % unit;
    vstd::arithmetic::div_mod::lemma_fundamental_div_mod(low, unit);
    vstd::arithmetic::div_mod::lemma_mod_bound(low, unit);
    vstd::arithmetic::div_mod::lemma_div_pos_is_pos(low, unit);
    if low < unit {
        vstd::arithmetic::div_mod::lemma_small_mod(low as nat, unit as nat);
        vstd::arithmetic::div_mod::lemma_basic_div(low, unit);
    } else {
        lemma_mul_is_commutative(exponent, unit);
        vstd::arithmetic::div_mod::lemma_div_is_ordered(unit, low, unit);
        vstd::arithmetic::div_mod::lemma_div_by_self(unit);
        assert(low + unit == (exponent + 1) * unit + fraction) by (nonlinear_arith)
            requires
                low == unit * exponent + fraction,
        ;
        lemma_split(exponent + 1, fraction, unit);
        lemma_pow2_unfold(exponent as nat);
        assert((unit + fraction) * (2 * pow2((exponent - 1) as nat)) == 2 * ((unit + fraction)
            * pow2((exponent - 1) as nat))) by (nonlinear_arith);
        if low < 2 * unit {
            assert(exponent == 1) by (nonlinear_arith)
                requires
                    low == unit * exponent + fraction,
                    0 <= fraction,
                    low < 2 * unit,
                    exponent >= 1,
                    0 < unit,
            ;
            vstd::arithmetic::power2::lemma2_to64();
        }
    }
}

/// What a 64-bit pattern stands for: the top bit is the sign, the bits below it
/// the magnitude, and past infinity it is not a number.
pub proof fn law_value_64(number: Binary64)
    ensures
        number.bits < 0x8000_0000_0000_0000 ==> number.value() == magnitude_of(
            number.bits as int,
            0x10_0000_0000_0000,
        ),
        number.bits >= 0x8000_0000_0000_0000 ==> number.value() == -magnitude_of(
            number.bits - 0x8000_0000_0000_0000,
            0x10_0000_0000_0000,
        ),
        number.nan() <==> (number.bits < 0x8000_0000_0000_0000 && number.bits
            > 0x7ff0_0000_0000_0000) || number.bits > 0xfff0_0000_0000_0000,
{
}

/// What a 32-bit pattern stands for.
pub proof fn law_value_32(number: Binary32)
    ensures
        number.bits < 0x8000_0000 ==> number.value() == magnitude_of(
            number.bits as int,
            0x80_0000,
        ),
        number.bits >= 0x8000_0000 ==> number.value() == -magnitude_of(
            number.bits - 0x8000_0000,
            0x80_0000,
        ),
        number.nan() <==> (number.bits < 0x8000_0000 && number.bits > 0x7f80_0000) || number.bits
            > 0xff80_0000,
        number.finite() <==> number.bits < 0x7f80_0000 || 0x8000_0000 <= number.bits < 0xff80_0000,
{
}

/// Comparing is comparing the numbers: what is not a number compares with nothing,
/// any two others compare one way or the other, and both ways only where they are
/// equal.
pub proof fn law_comparing_64(a: Binary64, b: Binary64)
    ensures
        a.nan() || b.nan() ==> !a.ge(b),
        !a.nan() && !b.nan() ==> (a.ge(b) <==> a.value() >= b.value()),
{
}

/// Comparing is comparing the numbers, in the 32-bit format too.
pub proof fn law_comparing_32(a: Binary32, b: Binary32)
    ensures
        a.nan() || b.nan() ==> !a.ge(b),
        !a.nan() && !b.nan() ==> (a.ge(b) <==> a.value() >= b.value()),
{
}

/// A probability lies between zero and one, and the magnitude of a number is the
/// number or its negative, whichever is not below zero.
pub proof fn law_probability_and_magnitude(number: Binary64)
    ensures
        number.probability() <==> !number.nan() && 0 <= number.value() && number.value() <= (
        Binary64 { bits: 0x3ff0_0000_0000_0000 }).value(),
        number.magnitude().nan() == number.nan(),
        number.magnitude().value() >= 0,
        number.magnitude().value() == number.value() || number.magnitude().value()
            == -number.value(),
        number.bits < 0x8000_0000_0000_0000 ==> number.magnitude().bits == number.bits,
        number.bits >= 0x8000_0000_0000_0000 ==> number.magnitude().bits == number.bits
            - 0x8000_0000_0000_0000,
{
    lemma_zero_one();
    lemma_low_order(number.low(), 0, FRACTION_UNIT_64 as int);
}

/// Widening keeps the number: as many times the smallest number of the wide format
/// as there are of those in the smallest of the narrow one.
pub proof fn law_widening(narrow: Binary32, wide: Binary64)
    requires
        narrow.widens_to(wide),
    ensures
        narrow.nan() <==> wide.nan(),
        narrow.finite() ==> wide.value() == narrow.value() * pow2(925),
        narrow.bits == 0x7f80_0000 ==> wide.bits == 0x7ff0_0000_0000_0000,
        narrow.bits == 0xff80_0000 ==> wide.bits == 0xfff0_0000_0000_0000,
        narrow.bits >= 0x8000_0000 <==> wide.bits >= 0x8000_0000_0000_0000,
{
}

} // verus!
