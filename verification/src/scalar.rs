//! Binary floating-point numbers, held as their IEEE 754 bit patterns.
//!
//! The rules of the detector compare measurements; they never need to add or multiply
//! them. So a measurement travels as its bits, and what a comparison means is stated over
//! the exact value of the number: an integer multiple of the smallest positive number of
//! its format.
use vstd::arithmetic::div_mod::{
    lemma_div_denominator, lemma_div_multiples_vanish, lemma_fundamental_div_mod,
    lemma_fundamental_div_mod_converse,
};
use vstd::arithmetic::power2::{
    lemma_pow2_adds, lemma_pow2_pos, lemma_pow2_strictly_increases, lemma_pow2_unfold,
    lemma2_to64, pow2,
};
use vstd::prelude::*;

verus! {

/// A single-precision number.
#[derive(Clone, Copy, Debug, PartialEq, Eq, Structural)]
pub struct Scalar {
    pub bits: u32,
}

/// A double-precision number.
#[derive(Clone, Copy, Debug, PartialEq, Eq, Structural)]
pub struct Scalar64 {
    pub bits: u64,
}

/// Zero.
pub const ZERO: u32 = 0;

/// One.
pub const ONE: u32 = 0x3f80_0000;

/// One half.
pub const HALF: u32 = 0x3f00_0000;

/// Positive infinity.
pub const INFINITY: u32 = 0x7f80_0000;

/// Negative infinity.
pub const NEG_INFINITY: u32 = 0xff80_0000;

/// The exact value of a magnitude, in units of the smallest positive number. `unit` is two
/// to the power of the number of fraction bits.
pub open spec fn magnitude_value(mag: int, unit: int) -> int {
    if mag < unit {
        mag
    } else {
        (unit + mag % unit) * pow2((mag / unit - 1) as nat)
    }
}

impl Scalar {
    /// The bits without the sign.
    pub open spec fn magnitude(self) -> int {
        self.bits as int % 0x8000_0000
    }

    /// Whether the sign bit is set.
    pub open spec fn negative(self) -> bool {
        self.bits >= 0x8000_0000
    }

    /// Not a number.
    pub open spec fn nan(self) -> bool {
        self.magnitude() > 0x7f80_0000
    }

    /// Positive or negative infinity.
    pub open spec fn infinite(self) -> bool {
        self.magnitude() == 0x7f80_0000
    }

    /// The exact value, in units of the smallest positive single-precision number, two to
    /// the power of minus 149. The infinities lie just beyond the largest finite numbers.
    pub open spec fn value(self) -> int {
        let v = magnitude_value(self.magnitude(), 0x80_0000);
        if self.negative() {
            -v
        } else {
            v
        }
    }

    /// Strictly smaller, as numbers: false when either side is not a number.
    pub open spec fn below(self, other: Scalar) -> bool {
        !self.nan() && !other.nan() && self.value() < other.value()
    }

    /// At least as large, as numbers: false when either side is not a number.
    pub open spec fn at_least(self, other: Scalar) -> bool {
        !self.nan() && !other.nan() && self.value() >= other.value()
    }

    /// The larger of two numbers; a side that is not a number gives way to the other.
    pub open spec fn larger(self, other: Scalar) -> Scalar {
        if self.nan() || self.below(other) {
            other
        } else {
            self
        }
    }

    /// The smaller of two numbers; a side that is not a number gives way to the other.
    pub open spec fn smaller(self, other: Scalar) -> Scalar {
        if self.nan() || other.below(self) {
            other
        } else {
            self
        }
    }

    /// The closest number between `low` and `high`; what is not a number stays as it is.
    pub open spec fn clamped(self, low: Scalar, high: Scalar) -> Scalar {
        if self.below(low) {
            low
        } else if high.below(self) {
            high
        } else {
            self
        }
    }

    /// The whole part, between 0 and 255; zero for what is not a number.
    pub open spec fn whole(self) -> int {
        if self.nan() || self.value() <= 0 {
            0
        } else if self.value() / pow2(149) as int >= 255 {
            255
        } else {
            self.value() / pow2(149) as int
        }
    }

    fn mag(self) -> (r: u32)
        ensures
            r == self.magnitude(),
    {
        self.bits % 0x8000_0000
    }

    /// Whether this is not a number.
    pub fn is_nan(self) -> (r: bool)
        ensures
            r == self.nan(),
    {
        self.mag() > 0x7f80_0000
    }

    /// `self < other`.
    pub fn lt(self, other: Scalar) -> (r: bool)
        ensures
            r == self.below(other),
    {
        if self.is_nan() || other.is_nan() {
            return false;
        }
        let a: u32 = self.mag();
        let b: u32 = other.mag();
        let na: bool = self.bits >= 0x8000_0000;
        let nb: bool = other.bits >= 0x8000_0000;
        proof {
            magnitude_order(a as int, b as int, 0x80_0000);
            magnitude_order(b as int, a as int, 0x80_0000);
            magnitude_sign(a as int, 0x80_0000);
            magnitude_sign(b as int, 0x80_0000);
        }
        if na && nb {
            b < a
        } else if na {
            a > 0 || b > 0
        } else if nb {
            false
        } else {
            a < b
        }
    }

    /// `self >= other`.
    pub fn ge(self, other: Scalar) -> (r: bool)
        ensures
            r == self.at_least(other),
    {
        !self.is_nan() && !other.is_nan() && !self.lt(other)
    }

    /// The larger of two numbers, ignoring a side that is not a number.
    pub fn max(self, other: Scalar) -> (r: Scalar)
        ensures
            r == self.larger(other),
    {
        if self.is_nan() || self.lt(other) {
            other
        } else {
            self
        }
    }

    /// The smaller of two numbers, ignoring a side that is not a number.
    pub fn min(self, other: Scalar) -> (r: Scalar)
        ensures
            r == self.smaller(other),
    {
        if self.is_nan() || other.lt(self) {
            other
        } else {
            self
        }
    }

    /// Restricts a number to a range.
    pub fn clamp(self, low: Scalar, high: Scalar) -> (r: Scalar)
        ensures
            r == self.clamped(low, high),
    {
        if self.lt(low) {
            low
        } else if high.lt(self) {
            high
        } else {
            self
        }
    }

    /// The exact value in units of the smallest positive double-precision number.
    pub open spec fn wide_value(self) -> int {
        if self.infinite() {
            let v = magnitude_value(0x7ff0_0000_0000_0000, 0x10_0000_0000_0000);
            if self.negative() {
                -v
            } else {
                v
            }
        } else {
            self.value() * pow2(925)
        }
    }

    /// The same number in double precision.
    pub fn widen(self) -> (r: Scalar64)
        ensures
            r.nan() == self.nan(),
            r.negative() == self.negative(),
            !self.nan() ==> r.value() == self.wide_value(),
    {
        let mag: u32 = self.mag();
        let e: u64 = (mag / 0x80_0000) as u64;
        let m: u64 = (mag % 0x80_0000) as u64;
        let wide: u64 = if e == 255 {
            0x7ff0_0000_0000_0000u64 + m * 0x2000_0000
        } else if e > 0 {
            (e + 896) * 0x10_0000_0000_0000 + m * 0x2000_0000
        } else {
            widen_small(m)
        };
        let sign: u64 = if self.bits >= 0x8000_0000 {
            0x8000_0000_0000_0000
        } else {
            0
        };
        proof {
            assert(mag == 0x80_0000 * e + m);
            assert(e <= 255);
            if e == 255 {
            } else if e > 0 {
                widen_normal(mag as int, e as int, m as int, wide as int);
            } else {
                assert(magnitude_value(mag as int, 0x80_0000) == m);
            }
            assert(wide < 0x8000_0000_0000_0000u64);
            let v = magnitude_value(mag as int, 0x80_0000);
            let p = pow2(925) as int;
            assert((-v) * p == -(v * p)) by (nonlinear_arith);
        }
        Scalar64 { bits: sign + wide }
    }

    /// The whole part, saturating at the ends of a byte.
    pub fn to_u8(self) -> (r: u8)
        ensures
            r == self.whole(),
    {
        let mag: u32 = self.mag();
        proof {
            magnitude_sign(mag as int, 0x80_0000);
        }
        if self.is_nan() || self.bits >= 0x8000_0000 {
            return 0;
        }
        let e: u32 = mag / 0x80_0000;
        if e < 127 {
            proof {
                whole_small(mag as int);
            }
            return 0;
        }
        if e >= 135 {
            proof {
                whole_large(mag as int);
            }
            return 255;
        }
        let m: u32 = 0x80_0000 + mag % 0x80_0000;
        proof {
            lemma2_to64();
            whole_between(mag as int);
        }
        let r: u32 = if e == 127 {
            m / 0x80_0000
        } else if e == 128 {
            m / 0x40_0000
        } else if e == 129 {
            m / 0x20_0000
        } else if e == 130 {
            m / 0x10_0000
        } else if e == 131 {
            m / 0x8_0000
        } else if e == 132 {
            m / 0x4_0000
        } else if e == 133 {
            m / 0x2_0000
        } else {
            m / 0x1_0000
        };
        r as u8
    }
}

/// The double-precision magnitude of a single-precision number below the normal range.
fn widen_small(m: u64) -> (r: u64)
    requires
        m < 0x80_0000,
    ensures
        magnitude_value(r as int, 0x10_0000_0000_0000) == m * pow2(925),
        r < 0x7ff0_0000_0000_0000,
{
    if m == 0 {
        return 0;
    }
    let mut f: u64 = m;
    let mut k: u64 = 0;
    proof {
        lemma2_to64();
        assert(m * 1 == m);
    }
    while f < 0x80_0000
        invariant
            0 < m,
            0 < f < 0x100_0000,
            k <= 23,
            f == m * pow2(k as nat),
            pow2(k as nat) <= f,
            pow2(23) == 0x80_0000,
        decreases 0x100_0000 - f,
    {
        proof {
            if k == 23 {
                assert(false);
            }
            lemma_pow2_unfold((k + 1) as nat);
            let p = pow2(k as nat) as int;
            assert(m * (2 * p) == 2 * (m * p)) by (nonlinear_arith);
        }
        f = f * 2;
        k = k + 1;
    }
    let r: u64 = (897 - k) * 0x10_0000_0000_0000 + (f - 0x80_0000) * 0x2000_0000;
    proof {
        let unit = 0x10_0000_0000_0000int;
        let rest = (f - 0x80_0000) * 0x2000_0000;
        lemma_fundamental_div_mod_converse(r as int, unit, 897 - k, rest);
        lemma2_to64();
        lemma_pow2_adds(k as nat, 29);
        lemma_pow2_adds((k + 29) as nat, (896 - k) as nat);
        assert((k + 29) as nat + (896 - k) as nat == 925);
        let p = pow2(k as nat) as int;
        let t = pow2((896 - k) as nat) as int;
        assert(pow2(29) == 0x2000_0000);
        assert(magnitude_value(r as int, unit) == (unit + rest) * t);
        assert(unit + rest == f * 0x2000_0000);
        assert(((m * p) * 0x2000_0000) * t == m * ((p * 0x2000_0000) * t)) by (nonlinear_arith);
    }
    r
}

impl Scalar64 {
    /// The bits without the sign.
    pub open spec fn magnitude(self) -> int {
        self.bits as int % 0x8000_0000_0000_0000
    }

    /// Whether the sign bit is set.
    pub open spec fn negative(self) -> bool {
        self.bits >= 0x8000_0000_0000_0000
    }

    /// Not a number.
    pub open spec fn nan(self) -> bool {
        self.magnitude() > 0x7ff0_0000_0000_0000
    }

    /// Positive or negative infinity.
    pub open spec fn infinite(self) -> bool {
        self.magnitude() == 0x7ff0_0000_0000_0000
    }

    /// The exact value, in units of the smallest positive double-precision number, two to
    /// the power of minus 1074.
    pub open spec fn value(self) -> int {
        let v = magnitude_value(self.magnitude(), 0x10_0000_0000_0000);
        if self.negative() {
            -v
        } else {
            v
        }
    }

    /// Strictly smaller, as numbers: false when either side is not a number.
    pub open spec fn below(self, other: Scalar64) -> bool {
        !self.nan() && !other.nan() && self.value() < other.value()
    }

    /// Not larger, as numbers: false when either side is not a number.
    pub open spec fn at_most(self, other: Scalar64) -> bool {
        !self.nan() && !other.nan() && self.value() <= other.value()
    }

    /// The larger of two numbers; a side that is not a number gives way to the other.
    pub open spec fn larger(self, other: Scalar64) -> Scalar64 {
        if self.nan() || self.below(other) {
            other
        } else {
            self
        }
    }

    fn mag(self) -> (r: u64)
        ensures
            r == self.magnitude(),
    {
        self.bits % 0x8000_0000_0000_0000
    }

    /// Whether this is not a number.
    pub fn is_nan(self) -> (r: bool)
        ensures
            r == self.nan(),
    {
        self.mag() > 0x7ff0_0000_0000_0000
    }

    /// `self < other`.
    pub fn lt(self, other: Scalar64) -> (r: bool)
        ensures
            r == self.below(other),
    {
        if self.is_nan() || other.is_nan() {
            return false;
        }
        let a: u64 = self.mag();
        let b: u64 = other.mag();
        let na: bool = self.bits >= 0x8000_0000_0000_0000;
        let nb: bool = other.bits >= 0x8000_0000_0000_0000;
        proof {
            magnitude_order(a as int, b as int, 0x10_0000_0000_0000);
            magnitude_order(b as int, a as int, 0x10_0000_0000_0000);
            magnitude_sign(a as int, 0x10_0000_0000_0000);
            magnitude_sign(b as int, 0x10_0000_0000_0000);
        }
        if na && nb {
            b < a
        } else if na {
            a > 0 || b > 0
        } else if nb {
            false
        } else {
            a < b
        }
    }

    /// `self <= other`.
    pub fn le(self, other: Scalar64) -> (r: bool)
        ensures
            r == self.at_most(other),
    {
        !self.is_nan() && !other.is_nan() && !other.lt(self)
    }

    /// The larger of two numbers, ignoring a side that is not a number.
    pub fn max(self, other: Scalar64) -> (r: Scalar64)
        ensures
            r == self.larger(other),
    {
        if self.is_nan() || self.lt(other) {
            other
        } else {
            self
        }
    }
}

// ---------------------------------------------------------------------------------
// Values and their order
// ---------------------------------------------------------------------------------

/// A magnitude has value zero only when it is zero.
proof fn magnitude_sign(mag: int, unit: int)
    requires
        0 <= mag,
        0 < unit,
    ensures
        magnitude_value(mag, unit) >= 0,
        magnitude_value(mag, unit) == 0 <==> mag == 0,
{
    if mag >= unit {
        lemma_pow2_pos((mag / unit - 1) as nat);
        let p = pow2((mag / unit - 1) as nat) as int;
        let m = unit + mag % unit;
        assert(m * p > 0) by (nonlinear_arith)
            requires
                m > 0,
                p > 0,
        ;
    }
}

/// The next magnitude has a larger value.
proof fn magnitude_step(mag: int, unit: int)
    requires
        0 <= mag,
        0 < unit,
    ensures
        magnitude_value(mag, unit) < magnitude_value(mag + 1, unit),
{
    let e = mag / unit;
    let f = mag % unit;
    lemma_fundamental_div_mod(mag, unit);
    if mag + 1 < unit {
    } else if mag + 1 == unit {
        lemma_fundamental_div_mod_converse(mag + 1, unit, 1, 0);
        lemma2_to64();
        assert(magnitude_value(mag + 1, unit) == unit * pow2(0));
        assert(unit * 1 == unit);
    } else if f + 1 < unit {
        assert(mag + 1 == unit * e + (f + 1));
        lemma_fundamental_div_mod_converse(mag + 1, unit, e, f + 1);
        assert(e >= 1) by (nonlinear_arith)
            requires
                mag >= unit,
                mag == unit * e + f,
                0 <= f < unit,
                unit > 0,
        ;
        lemma_pow2_pos((e - 1) as nat);
        let p = pow2((e - 1) as nat) as int;
        assert((unit + f) * p < (unit + (f + 1)) * p) by (nonlinear_arith)
            requires
                p > 0,
        ;
    } else {
        assert(mag + 1 == unit * (e + 1)) by (nonlinear_arith)
            requires
                mag == unit * e + f,
                f + 1 == unit,
        ;
        lemma_fundamental_div_mod_converse(mag + 1, unit, e + 1, 0);
        assert(e >= 1) by (nonlinear_arith)
            requires
                mag >= unit,
                mag == unit * e + f,
                0 <= f < unit,
                unit > 0,
        ;
        lemma_pow2_unfold(e as nat);
        lemma_pow2_pos((e - 1) as nat);
        let p = pow2((e - 1) as nat) as int;
        assert(magnitude_value(mag, unit) == (unit + f) * p);
        assert(magnitude_value(mag + 1, unit) == unit * (2 * p));
        assert((unit + f) * p < unit * (2 * p)) by (nonlinear_arith)
            requires
                p > 0,
                f + 1 == unit,
        ;
    }
}

/// Magnitudes are ordered as their values are.
pub proof fn magnitude_order(a: int, b: int, unit: int)
    requires
        0 <= a,
        0 <= b,
        0 < unit,
    ensures
        a < b <==> magnitude_value(a, unit) < magnitude_value(b, unit),
    decreases b - a + (if a < b { 0int } else { 2 * (a - b) + 1 }),
{
    if a < b {
        if a + 1 < b {
            magnitude_order(a + 1, b, unit);
        }
        magnitude_step(a, unit);
    } else if b < a {
        magnitude_order(b, a, unit);
    }
}

/// A number in the normal range has the same value with eleven exponent bits.
proof fn widen_normal(mag: int, e: int, m: int, wide: int)
    requires
        mag == 0x80_0000 * e + m,
        0 <= m < 0x80_0000,
        1 <= e <= 254,
        wide == (e + 896) * 0x10_0000_0000_0000 + m * 0x2000_0000,
    ensures
        magnitude_value(wide, 0x10_0000_0000_0000) == magnitude_value(mag, 0x80_0000) * pow2(925),
{
    let unit = 0x10_0000_0000_0000int;
    let rest = m * 0x2000_0000;
    lemma_fundamental_div_mod_converse(wide, unit, e + 896, rest);
    lemma_fundamental_div_mod_converse(mag, 0x80_0000, e, m);
    lemma2_to64();
    lemma_pow2_adds(29, (e + 895) as nat);
    lemma_pow2_adds((e - 1) as nat, 925);
    assert(29 + (e + 895) as nat == (e - 1) as nat + 925);
    let t = pow2((e + 895) as nat) as int;
    let s = pow2((e - 1) as nat) as int;
    let g = 0x80_0000 + m;
    assert(magnitude_value(wide, unit) == (unit + rest) * t);
    assert(unit + rest == g * 0x2000_0000);
    assert((g * 0x2000_0000) * t == g * (0x2000_0000 * t)) by (nonlinear_arith);
    let q = pow2(925) as int;
    assert(g * (s * q) == (g * s) * q) by (nonlinear_arith);
    assert(magnitude_value(mag, 0x80_0000) == g * s);
}

proof fn whole_split(mag: int, e: int, m: int)
    requires
        0x80_0000 <= mag,
        e == mag / 0x80_0000,
        m == 0x80_0000 + mag % 0x80_0000,
        1 <= e <= 150,
    ensures
        magnitude_value(mag, 0x80_0000) / pow2(149) as int == m / pow2((150 - e) as nat) as int,
{
    let p = pow2((e - 1) as nat) as int;
    let q = pow2((150 - e) as nat) as int;
    lemma_pow2_pos((e - 1) as nat);
    lemma_pow2_pos((150 - e) as nat);
    lemma_pow2_adds((e - 1) as nat, (150 - e) as nat);
    assert((e - 1) as nat + (150 - e) as nat == 149);
    assert(m * p >= 0) by (nonlinear_arith)
        requires
            m >= 0,
            p > 0,
    ;
    lemma_div_denominator(m * p, p, q);
    lemma_div_multiples_vanish(m, p);
    assert(m * p == p * m) by (nonlinear_arith);
}

proof fn whole_small(mag: int)
    requires
        0 <= mag,
        mag / 0x80_0000 < 127,
    ensures
        magnitude_value(mag, 0x80_0000) / pow2(149) as int == 0,
{
    let e = mag / 0x80_0000;
    lemma2_to64();
    if e == 0 {
        lemma_pow2_strictly_increases(23, 149);
        lemma_fundamental_div_mod_converse(mag, pow2(149) as int, 0, mag);
    } else {
        let m = 0x80_0000 + mag % 0x80_0000;
        whole_split(mag, e, m);
        let q = pow2((150 - e) as nat) as int;
        if 150 - e > 24 {
            lemma_pow2_strictly_increases(24, (150 - e) as nat);
        }
        lemma_fundamental_div_mod_converse(m, q, 0, m);
    }
}

proof fn whole_large(mag: int)
    requires
        mag / 0x80_0000 >= 135,
        mag <= 0x7f80_0000,
    ensures
        magnitude_value(mag, 0x80_0000) / pow2(149) as int >= 255,
        magnitude_value(mag, 0x80_0000) > 0,
{
    let floor = 135 * 0x80_0000int;
    lemma2_to64();
    whole_split(floor, 135, 0x80_0000);
    assert(pow2(15) == 0x8000);
    assert(0x80_0000int / 0x8000int == 256);
    assert(magnitude_value(floor, 0x80_0000) / pow2(149) as int == 256);
    magnitude_order(floor, mag, 0x80_0000);
    magnitude_order(mag, floor, 0x80_0000);
    lemma_pow2_pos(149);
    vstd::arithmetic::div_mod::lemma_div_is_ordered(
        magnitude_value(floor, 0x80_0000),
        magnitude_value(mag, 0x80_0000),
        pow2(149) as int,
    );
    magnitude_sign(mag, 0x80_0000);
}

proof fn whole_between(mag: int)
    requires
        127 <= mag / 0x80_0000 < 135,
    ensures
        magnitude_value(mag, 0x80_0000) > 0,
        magnitude_value(mag, 0x80_0000) / pow2(149) as int == (0x80_0000 + mag % 0x80_0000) / pow2(
            (150 - mag / 0x80_0000) as nat,
        ) as int,
{
    whole_split(mag, mag / 0x80_0000, 0x80_0000 + mag % 0x80_0000);
    magnitude_sign(mag, 0x80_0000);
}

/// What is not a number has all exponent bits set and a fraction that is not zero.
pub proof fn not_a_number(x: Scalar, y: Scalar64)
    ensures
        x.nan() <==> x.bits / 0x80_0000 % 0x100 == 0xff && x.bits % 0x80_0000 != 0,
        y.nan() <==> y.bits / 0x10_0000_0000_0000 % 0x800 == 0x7ff && y.bits % 0x10_0000_0000_0000
            != 0,
        x.infinite() <==> x.bits / 0x80_0000 % 0x100 == 0xff && x.bits % 0x80_0000 == 0,
        y.infinite() <==> y.bits / 0x10_0000_0000_0000 % 0x800 == 0x7ff && y.bits
            % 0x10_0000_0000_0000 == 0,
        x.infinite() && x.bits < 0x8000_0000 ==> x.wide_value() == (Scalar64 {
            bits: 0x7ff0_0000_0000_0000,
        }).value(),
        x.infinite() && x.bits >= 0x8000_0000 ==> x.wide_value() == -(Scalar64 {
            bits: 0x7ff0_0000_0000_0000,
        }).value(),
{
    assert((Scalar64 { bits: 0x7ff0_0000_0000_0000 }).magnitude() == 0x7ff0_0000_0000_0000int);
}

/// Turning the sign bit turns the number into its opposite.
pub proof fn sign_bit_negates(x: Scalar, y: Scalar)
    requires
        x.bits < 0x8000_0000,
        y.bits == x.bits + 0x8000_0000,
    ensures
        x.value() >= 0,
        y.value() == -x.value(),
        y.nan() == x.nan(),
{
    magnitude_sign(x.magnitude(), 0x80_0000);
}

/// A number whose exponent is one higher is twice as large, and numbers that differ by one in
/// the last place of the lowest range are one unit apart.
pub proof fn exponent_doubles(mag: int, unit: int)
    requires
        0 < unit,
        0 <= mag,
    ensures
        mag < unit ==> magnitude_value(mag, unit) == mag,
        mag >= unit ==> magnitude_value(mag + unit, unit) == 2 * magnitude_value(mag, unit),
        unit <= mag < 2 * unit ==> magnitude_value(mag, unit) == mag,
{
    if mag >= unit {
        let e = mag / unit;
        let f = mag % unit;
        lemma_fundamental_div_mod(mag, unit);
        assert(e >= 1) by (nonlinear_arith)
            requires
                mag >= unit,
                mag == unit * e + f,
                0 <= f < unit,
                unit > 0,
        ;
        assert(mag + unit == unit * (e + 1) + f) by (nonlinear_arith)
            requires
                mag == unit * e + f,
        ;
        lemma_fundamental_div_mod_converse(mag + unit, unit, e + 1, f);
        lemma_pow2_unfold(e as nat);
        let p = pow2((e - 1) as nat) as int;
        assert((unit + f) * (2 * p) == 2 * ((unit + f) * p)) by (nonlinear_arith);
        if mag < 2 * unit {
            assert(e == 1) by (nonlinear_arith)
                requires
                    unit <= mag < 2 * unit,
                    mag == unit * e + f,
                    0 <= f < unit,
            ;
            lemma2_to64();
            assert(p == 1);
            assert(unit * e == unit) by (nonlinear_arith)
                requires
                    e == 1,
            ;
            assert((unit + f) * p == unit + f) by (nonlinear_arith)
                requires
                    p == 1,
            ;
            assert(magnitude_value(mag, unit) == (unit + f) * p);
        }
    }
}

/// The larger of two numbers is one of them and no smaller than either; the smaller is one of
/// them and no larger than either. What is not a number gives way.
pub proof fn larger_and_smaller(x: Scalar, y: Scalar)
    ensures
        x.larger(y) == x || x.larger(y) == y,
        x.smaller(y) == x || x.smaller(y) == y,
        !x.nan() && !y.nan() ==> {
            &&& x.larger(y).value() >= x.value() && x.larger(y).value() >= y.value()
            &&& x.smaller(y).value() <= x.value() && x.smaller(y).value() <= y.value()
        },
        x.nan() ==> x.larger(y) == y && x.smaller(y) == y,
        y.nan() && !x.nan() ==> x.larger(y) == x && x.smaller(y) == x,
{
}

/// The larger of two times is one of them and no smaller than either.
pub proof fn larger_of_two_times(x: Scalar64, y: Scalar64)
    ensures
        x.larger(y) == x || x.larger(y) == y,
        !x.nan() && !y.nan() ==> x.larger(y).value() >= x.value() && x.larger(y).value()
            >= y.value(),
        x.nan() ==> x.larger(y) == y,
        y.nan() && !x.nan() ==> x.larger(y) == x,
{
}

/// Comparisons go by the exact values, and are false of what is not a number.
pub proof fn comparisons_go_by_value(x: Scalar, y: Scalar, s: Scalar64, t: Scalar64)
    ensures
        x.nan() || y.nan() ==> !x.below(y) && !x.at_least(y),
        !x.nan() && !y.nan() ==> x.below(y) == (x.value() < y.value()) && x.at_least(y) == (
        x.value() >= y.value()),
        s.nan() || t.nan() ==> !s.below(t) && !s.at_most(t),
        !s.nan() && !t.nan() ==> s.below(t) == (s.value() < t.value()) && s.at_most(t) == (
        s.value() <= t.value()),
{
}

/// A number restricted to a range lies in it, and is the number itself where that already
/// does, or the end it lies beyond. What is not a number stays.
pub proof fn clamping_stays_in_range(x: Scalar, low: Scalar, high: Scalar)
    requires
        !low.nan(),
        !high.nan(),
        low.value() <= high.value(),
    ensures
        x.nan() ==> x.clamped(low, high) == x,
        !x.nan() ==> {
            &&& low.value() <= x.clamped(low, high).value() <= high.value()
            &&& low.value() <= x.value() <= high.value() ==> x.clamped(low, high) == x
            &&& x.value() < low.value() ==> x.clamped(low, high) == low
            &&& x.value() > high.value() ==> x.clamped(low, high) == high
        },
{
}

/// The whole part of a number is the largest count of ones in it, as far as a byte goes; of a
/// negative number, and of none, it is zero.
pub proof fn whole_part(x: Scalar)
    ensures
        0 <= x.whole() <= 255,
        x.nan() || x.value() < 0 ==> x.whole() == 0,
        !x.nan() && x.value() >= 0 ==> {
            &&& x.whole() * (Scalar { bits: 0x3f80_0000 }).value() <= x.value()
            &&& x.whole() < 255 ==> x.value() < (x.whole() + 1) * (Scalar {
                bits: 0x3f80_0000,
            }).value()
        },
{
    let one = Scalar { bits: 0x3f80_0000 };
    lemma2_to64();
    lemma_pow2_adds(23, 126);
    lemma_pow2_pos(149);
    assert(one.magnitude() == 127 * 0x80_0000);
    assert(0x3f80_0000int / 0x80_0000int == 127);
    assert(0x3f80_0000int % 0x80_0000int == 0);
    assert(one.value() == 0x80_0000 * pow2(126));
    let p = pow2(149) as int;
    assert(one.value() == p);
    if !x.nan() && x.value() >= 0 {
        let v = x.value();
        let q = v / p;
        lemma_fundamental_div_mod(v, p);
        vstd::arithmetic::div_mod::lemma_mod_bound(v, p);
        vstd::arithmetic::div_mod::lemma_div_pos_is_pos(v, p);
        assert(p * q <= v < p * q + p);
        assert((q + 1) * p == p * q + p) by (nonlinear_arith);
        assert(q * p == p * q) by (nonlinear_arith);
        if v == 0 {
            assert(0 * p == 0);
            assert(1 * p == p);
        } else if q >= 255 {
            assert(255 * p <= q * p) by (nonlinear_arith)
                requires
                    q >= 255,
                    p > 0,
            ;
        }
    }
}

/// Whether a number is `num / den`, as closely as single precision can hold it.
pub open spec fn rounds(x: Scalar, num: int, den: int) -> bool {
    let one = (Scalar { bits: 0x3f80_0000 }).value();
    let off = den * x.value() - num * one;
    &&& !x.nan()
    &&& off * 0x100_0000 <= num * one
    &&& -off * 0x100_0000 <= num * one
}

/// A positive number in the normal range, told by its exponent `e` and fraction `f`, against
/// one: `p` is the power of two between them.
pub proof fn against_one(x: Scalar, e: int, f: int, p: int)
    requires
        x.bits == e * 0x80_0000 + f,
        0 <= f < 0x80_0000,
        1 <= e <= 254,
        e >= 127 ==> p == pow2((e - 127) as nat),
        e < 127 ==> p == pow2((127 - e) as nat),
    ensures
        !x.nan(),
        (Scalar { bits: 0x3f80_0000 }).value() > 0,
        e >= 127 ==> 0x80_0000 * x.value() == (0x80_0000 + f) * (p * (Scalar {
            bits: 0x3f80_0000,
        }).value()),
        e < 127 ==> 0x80_0000 * (p * x.value()) == (0x80_0000 + f) * (Scalar {
            bits: 0x3f80_0000,
        }).value(),
{
    let one = Scalar { bits: 0x3f80_0000 };
    assert(one.magnitude() == 127 * 0x80_0000);
    assert(0x3f80_0000int / 0x80_0000int == 127);
    assert(0x3f80_0000int % 0x80_0000int == 0);
    assert(one.value() == 0x80_0000 * pow2(126));
    lemma_pow2_pos(126);
    lemma_fundamental_div_mod_converse(x.bits as int, 0x80_0000, e, f);
    assert(x.magnitude() == x.bits);
    let g = 0x80_0000 + f;
    let s = pow2((e - 1) as nat) as int;
    assert(x.value() == g * s);
    let q = pow2(126) as int;
    if e >= 127 {
        lemma_pow2_adds((e - 127) as nat, 126);
        assert((e - 127) as nat + 126 == (e - 1) as nat);
        assert(0x80_0000 * (g * (p * q)) == g * (p * (0x80_0000 * q))) by (nonlinear_arith);
    } else {
        lemma_pow2_adds((127 - e) as nat, (e - 1) as nat);
        assert((127 - e) as nat + (e - 1) as nat == 126);
        assert(0x80_0000 * (p * (g * s)) == g * (0x80_0000 * (p * s))) by (nonlinear_arith);
    }
}

/// In double precision a number keeps its proportion to one, and so its place among the
/// others.
pub proof fn widening_keeps_proportion(x: Scalar, y: Scalar)
    ensures
        !x.nan() && !x.infinite() ==> x.wide_value() * (Scalar { bits: 0x3f80_0000 }).value()
            == x.value() * (Scalar64 { bits: 0x3ff0_0000_0000_0000 }).value(),
        !x.infinite() && !y.infinite() ==> (x.value() < y.value() <==> x.wide_value()
            < y.wide_value()),
{
    let one = Scalar { bits: 0x3f80_0000 };
    let wide = Scalar64 { bits: 0x3ff0_0000_0000_0000 };
    assert(one.magnitude() == 127 * 0x80_0000);
    assert(0x3f80_0000int / 0x80_0000int == 127);
    assert(0x3f80_0000int % 0x80_0000int == 0);
    assert(one.value() == 0x80_0000 * pow2(126));
    assert(0x3ff0_0000_0000_0000int / 0x10_0000_0000_0000int == 1023);
    assert(0x3ff0_0000_0000_0000int % 0x10_0000_0000_0000int == 0);
    assert(wide.magnitude() == 0x3ff0_0000_0000_0000int);
    assert(wide.value() == 0x10_0000_0000_0000 * pow2(1022));
    lemma2_to64();
    assert(0x10_0000_0000_0000 == 0x80_0000 * pow2(29));
    lemma_pow2_adds(29, 1022);
    lemma_pow2_adds(925, 126);
    let p = pow2(925) as int;
    let q = pow2(126) as int;
    let s = pow2(29) as int;
    let t = pow2(1022) as int;
    assert((0x80_0000 * s) * t == 0x80_0000 * (s * t)) by (nonlinear_arith);
    assert(p * q == s * t);
    let v = x.value();
    assert((v * p) * (0x80_0000 * q) == v * (0x80_0000 * (p * q))) by (nonlinear_arith);
    let w = y.value();
    lemma_pow2_pos(925);
    assert(v < w <==> v * p < w * p) by (nonlinear_arith)
        requires
            p > 0,
    ;
}

} // verus!
