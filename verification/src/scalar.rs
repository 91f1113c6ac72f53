//! Binary64 numbers as bit patterns, with the order and the conversions that
//! the renderer's decisions need.

use vstd::arithmetic::div_mod::{
    lemma_div_by_multiple, lemma_div_is_ordered_by_denominator, lemma_div_multiples_vanish_quotient,
};
use vstd::arithmetic::power2::{
    lemma2_to64, lemma2_to64_rest, lemma_pow2_adds, lemma_pow2_pos, lemma_pow2_strictly_increases,
    lemma_pow2_unfold, pow2,
};
use vstd::bits::lemma_u64_shr_is_div;
use vstd::prelude::*;

verus! {

/// The sign bit of a binary64 pattern.
pub const SIGN_BIT: u64 = 0x8000_0000_0000_0000;

/// The pattern of positive infinity: a larger magnitude is not a number.
pub const INFINITY_BITS: u64 = 0x7FF0_0000_0000_0000;

/// The pattern of 0.0.
pub const ZERO: u64 = 0;

/// The pattern of 1.0.
pub const ONE: u64 = 0x3FF0_0000_0000_0000;

/// The implicit leading bit of a normal significand, 2^52.
pub const HIDDEN_BIT: u64 = 0x10_0000_0000_0000;

/// A binary64 number, held by its IEEE-754 bit pattern.
#[derive(Clone, Copy, Debug)]
pub struct Scalar {
    pub bits: u64,
}

impl Scalar {
    /// The sign bit is set (true of `-0.0` as well).
    pub open spec fn negative(self) -> bool {
        self.bits >= SIGN_BIT
    }

    /// The pattern without its sign bit.
    pub open spec fn magnitude(self) -> int {
        if self.bits >= SIGN_BIT {
            self.bits - SIGN_BIT
        } else {
            self.bits as int
        }
    }

    /// The pattern encodes no number.
    pub open spec fn is_nan(self) -> bool {
        self.magnitude() > INFINITY_BITS
    }

    /// An integer that orders the numbers as their values do: of two numbers
    /// the smaller has the smaller rank, and both zeros have rank 0.
    pub open spec fn rank(self) -> int {
        if self.negative() {
            -self.magnitude()
        } else {
            self.magnitude()
        }
    }

    /// `self < other` as IEEE-754 defines it: false when either is not a
    /// number.
    pub open spec fn lt(self, other: Scalar) -> bool {
        !self.is_nan() && !other.is_nan() && self.rank() < other.rank()
    }

    /// `self > other` as IEEE-754 defines it.
    pub open spec fn gt(self, other: Scalar) -> bool {
        other.lt(self)
    }

    /// The biased exponent field.
    pub open spec fn exponent(self) -> int {
        self.magnitude() / (HIDDEN_BIT as int)
    }

    /// The significand as an integer, with the implicit bit of a normal
    /// number.
    pub open spec fn significand(self) -> int {
        let fraction = self.magnitude() % (HIDDEN_BIT as int);
        if self.exponent() == 0 {
            fraction
        } else {
            HIDDEN_BIT + fraction
        }
    }

    /// The power of two that the significand is scaled by: the absolute value
    /// is `significand() * 2^scale()`.
    pub open spec fn scale(self) -> int {
        (if self.exponent() == 0 { 1 } else { self.exponent() }) - 1075
    }

    /// The absolute value times 2^1074, which is an integer for every number:
    /// the smallest `scale()` is -1074.
    pub open spec fn scaled(self) -> int {
        self.significand() * pow2((self.scale() + 1074) as nat)
    }

    /// The value times 2^1074: `scaled()` with the sign.
    pub open spec fn value(self) -> int {
        if self.negative() {
            -self.scaled()
        } else {
            self.scaled()
        }
    }

    /// The absolute value without its fractional part. For an infinity the
    /// formula gives 2^1024, which passes every integer type.
    pub open spec fn whole(self) -> int {
        if self.scale() >= 0 {
            self.significand() * pow2(self.scale() as nat)
        } else {
            self.significand() / (pow2((-self.scale()) as nat) as int)
        }
    }

    /// The number as a byte: cut towards zero, then held to 0..=255; 0 for
    /// what is not a number.
    pub open spec fn byte(self) -> int {
        if self.is_nan() || self.negative() {
            0
        } else if self.whole() > 255 {
            255
        } else {
            self.whole()
        }
    }

    /// Wraps a bit pattern.
    pub fn from_bits(bits: u64) -> (s: Scalar)
        ensures
            s.bits == bits,
    {
        Scalar { bits }
    }

    /// Tells whether `self < other`.
    pub fn less_than(&self, other: &Scalar) -> (r: bool)
        ensures
            r == self.lt(*other),
    {
        let a_neg: bool = self.bits >= SIGN_BIT;
        let b_neg: bool = other.bits >= SIGN_BIT;
        let a: u64 = if a_neg { self.bits - SIGN_BIT } else { self.bits };
        let b: u64 = if b_neg { other.bits - SIGN_BIT } else { other.bits };
        if a > INFINITY_BITS || b > INFINITY_BITS {
            false
        } else if a_neg {
            if b_neg { a > b } else { a != 0 || b != 0 }
        } else {
            !b_neg && a < b
        }
    }

    /// Tells whether `self > other`.
    pub fn greater_than(&self, other: &Scalar) -> (r: bool)
        ensures
            r == self.gt(*other),
    {
        other.less_than(self)
    }

    /// Holds `self` between `floor` and `max`: a number below `floor` gives
    /// `floor`, one above `max` gives `max`, and anything else, what is not a
    /// number included, stays as it is.
    pub open spec fn clamped(self, floor: Scalar, max: Scalar) -> Scalar {
        if self.lt(floor) {
            floor
        } else if self.gt(max) {
            max
        } else {
            self
        }
    }

    /// Computes `self.clamped(floor, max)`.
    pub fn capped(&self, floor: &Scalar, max: &Scalar) -> (r: Scalar)
        ensures
            r == self.clamped(*floor, *max),
    {
        if self.less_than(floor) {
            *floor
        } else if self.greater_than(max) {
            *max
        } else {
            *self
        }
    }

    /// A larger magnitude is a larger absolute value.
    pub proof fn lemma_scaled_grows(self, other: Scalar)
        requires
            self.magnitude() < other.magnitude(),
        ensures
            0 <= self.scaled() < other.scaled(),
    {
        let ea = (self.scale() + 1074) as nat;
        let eb = (other.scale() + 1074) as nat;
        let sa = self.significand();
        let sb = other.significand();
        lemma_pow2_pos(ea);
        lemma_pow2_pos(eb);
        assert(0 <= sa * pow2(ea)) by (nonlinear_arith)
            requires
                0 <= sa,
                0 < pow2(ea),
        ;
        if ea == eb {
            assert(sa < sb);
            assert(sa * pow2(ea) < sb * pow2(ea)) by (nonlinear_arith)
                requires
                    sa < sb,
                    0 < pow2(ea),
            ;
        } else {
            assert(ea < eb);
            lemma_pow2_unfold(ea + 1);
            if ea + 1 < eb {
                lemma_pow2_strictly_increases(ea + 1, eb);
            }
            assert(sa * pow2(ea) < sb * pow2(eb)) by (nonlinear_arith)
                requires
                    0 <= sa < 0x20_0000_0000_0000,
                    0x10_0000_0000_0000 <= sb,
                    0 < pow2(ea),
                    2 * pow2(ea) <= pow2(eb),
            ;
        }
    }

    /// The rank orders the numbers as their values do.
    pub proof fn lemma_rank_orders_values(self, other: Scalar)
        ensures
            self.rank() < other.rank() <==> self.value() < other.value(),
            self.rank() == other.rank() <==> self.value() == other.value(),
    {
        if self.magnitude() < other.magnitude() {
            self.lemma_scaled_grows(other);
        } else if other.magnitude() < self.magnitude() {
            other.lemma_scaled_grows(self);
        }
        let zero = Scalar { bits: ZERO };
        if zero.magnitude() < self.magnitude() {
            zero.lemma_scaled_grows(self);
        }
        if zero.magnitude() < other.magnitude() {
            zero.lemma_scaled_grows(other);
        }
        assert(zero.scaled() == 0) by (nonlinear_arith)
            requires
                zero.significand() == 0,
                zero.scaled() == zero.significand() * pow2((zero.scale() + 1074) as nat),
        ;
    }

    /// `whole()` is the integer part of the absolute value.
    pub proof fn lemma_whole_is_integer_part(self)
        ensures
            self.whole() == self.scaled() / (pow2(1074) as int),
    {
        let sig = self.significand();
        lemma_pow2_pos(1074);
        if self.scale() >= 0 {
            let n = self.scale() as nat;
            lemma_pow2_adds(n, 1074);
            lemma_pow2_pos(n);
            assert(sig * (pow2(n) * pow2(1074)) == (sig * pow2(n)) * pow2(1074)) by (nonlinear_arith);
            assert(sig * pow2(n) >= 0) by (nonlinear_arith)
                requires
                    sig >= 0,
                    pow2(n) > 0,
            ;
            lemma_div_by_multiple(sig * pow2(n), pow2(1074) as int);
        } else {
            let n = (-self.scale()) as nat;
            let m = (1074 - n) as nat;
            lemma_pow2_adds(m, n);
            lemma_pow2_pos(n);
            lemma_pow2_pos(m);
            lemma_div_multiples_vanish_quotient(pow2(m) as int, sig, pow2(n) as int);
            assert(pow2(m) * sig == sig * pow2(m)) by (nonlinear_arith);
        }
    }

    /// Where the integer part lies, by the exponent field: below 1 it is 0,
    /// from 256 on it is at least 256, and between it is the significand
    /// shifted down.
    pub proof fn lemma_whole_by_exponent(self)
        requires
            !self.is_nan(),
        ensures
            self.exponent() < 1023 ==> self.whole() == 0,
            self.exponent() >= 1031 ==> self.whole() >= 256,
            1023 <= self.exponent() < 1031 ==> 1 <= self.whole() < 256 && self.whole()
                == self.significand() / (pow2((1075 - self.exponent()) as nat) as int),
    {
        lemma2_to64();
        lemma2_to64_rest();
        let e = self.exponent();
        let sig = self.significand();
        if e < 1023 {
            let n = (-self.scale()) as nat;
            if n > 53 {
                lemma_pow2_strictly_increases(53, n);
            }
            assert(sig / (pow2(n) as int) == 0) by (nonlinear_arith)
                requires
                    0 <= sig < 0x20_0000_0000_0000,
                    pow2(n) >= 0x20_0000_0000_0000,
            ;
        } else if self.scale() >= 0 {
            let n = self.scale() as nat;
            lemma_pow2_pos(n);
            assert(sig * pow2(n) >= sig) by (nonlinear_arith)
                requires
                    sig >= 0,
                    pow2(n) >= 1,
            ;
        } else {
            let n = (-self.scale()) as nat;
            lemma_pow2_pos(n);
            if e >= 1031 {
                if n < 44 {
                    lemma_pow2_strictly_increases(n, 44);
                }
                lemma_div_is_ordered_by_denominator(sig, pow2(n) as int, pow2(44) as int);
            } else {
                if n > 45 {
                    lemma_pow2_strictly_increases(45, n);
                }
                if n < 52 {
                    lemma_pow2_strictly_increases(n, 52);
                }
                lemma_div_is_ordered_by_denominator(sig, pow2(45) as int, pow2(n) as int);
                lemma_div_is_ordered_by_denominator(sig, pow2(n) as int, pow2(52) as int);
            }
        }
    }

    /// Converts to a byte as a saturating cast does.
    pub fn to_byte(&self) -> (b: u8)
        ensures
            b == self.byte(),
    {
        if self.bits > INFINITY_BITS {
            return 0;
        }
        let e: u64 = self.bits / HIDDEN_BIT;
        proof {
            self.lemma_whole_by_exponent();
        }
        if e < 1023 {
            0
        } else if e >= 1031 {
            255
        } else {
            let s: u64 = HIDDEN_BIT + self.bits % HIDDEN_BIT;
            let shift: u64 = 1075 - e;
            proof {
                lemma_u64_shr_is_div(s, shift);
            }
            (s >> shift) as u8
        }
    }
}

} // verus!
