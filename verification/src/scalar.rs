//! Single-precision numbers as bit patterns, with their numeric order.

use vstd::prelude::*;
use vstd::arithmetic::power2::pow2;
use vstd::arithmetic::power2::lemma_pow2_pos;
use vstd::arithmetic::power2::lemma_pow2_unfold;
use vstd::arithmetic::power2::lemma_pow2_strictly_increases;
use vstd::arithmetic::mul::lemma_mul_inequality;
use vstd::arithmetic::mul::lemma_mul_strict_inequality;

verus! {

/// The bit that carries the sign.
pub const SIGN_BIT: u32 = 0x8000_0000;

/// The magnitude bits of an infinity; every larger magnitude is a NaN.
pub const INFINITY_BITS: u32 = 0x7F80_0000;

/// Number of distinct fraction fields, `2^23`.
pub const FRACTION_SPAN: u32 = 0x0080_0000;

/// An IEEE 754 binary32 number, held as its bit pattern.
///
/// `==` on this type is identity of bit patterns. The numeric relations are
/// [`Scalar::less_than`], [`Scalar::at_most`] and [`Scalar::same_number`].
#[derive(Clone, Copy, Debug, PartialEq, Eq, Structural)]
pub struct Scalar {
    pub bits: u32,
}

/// What a magnitude stands for, multiplied by `2^149`: the fraction itself
/// below the first normal number, and `(2^23 + fraction) * 2^(exponent - 1)`
/// from there on. Infinity comes out as `2^277`, above every finite value.
pub open spec fn weight(magnitude: int) -> int {
    if magnitude < FRACTION_SPAN {
        magnitude
    } else {
        (FRACTION_SPAN + magnitude % (FRACTION_SPAN as int)) * pow2(
            (magnitude / (FRACTION_SPAN as int) - 1) as nat,
        )
    }
}

/// Within one exponent the weight grows with the fraction, and it lies in
/// `[2^23 * 2^(e-1), 2^24 * 2^(e-1))`.
proof fn lemma_weight_window(magnitude: int)
    requires
        FRACTION_SPAN <= magnitude,
    ensures
        FRACTION_SPAN * pow2((magnitude / (FRACTION_SPAN as int) - 1) as nat) <= weight(magnitude),
        weight(magnitude) < FRACTION_SPAN * pow2((magnitude / (FRACTION_SPAN as int)) as nat),
        FRACTION_SPAN <= weight(magnitude),
{
    let e = magnitude / (FRACTION_SPAN as int);
    let f = magnitude % (FRACTION_SPAN as int);
    let p = pow2((e - 1) as nat) as int;
    lemma_pow2_pos((e - 1) as nat);
    lemma_pow2_unfold(e as nat);
    lemma_mul_inequality(FRACTION_SPAN as int, FRACTION_SPAN + f, p);
    lemma_mul_strict_inequality(FRACTION_SPAN + f, 2 * FRACTION_SPAN, p);
    assert((2 * FRACTION_SPAN) * p == FRACTION_SPAN * (2 * p)) by (nonlinear_arith);
    lemma_mul_inequality(1, p, FRACTION_SPAN as int);
    assert(p * FRACTION_SPAN == FRACTION_SPAN * p) by (nonlinear_arith);
}

/// A larger magnitude stands for a larger number.
pub proof fn lemma_weight_increases(a: int, b: int)
    requires
        0 <= a < b,
    ensures
        0 <= weight(a) < weight(b),
{
    let span = FRACTION_SPAN as int;
    if b < span {
    } else if a < span {
        lemma_weight_window(b);
    } else {
        let ea = a / span;
        let eb = b / span;
        lemma_weight_window(a);
        lemma_weight_window(b);
        if ea == eb {
            let p = pow2((ea - 1) as nat) as int;
            lemma_pow2_pos((ea - 1) as nat);
            lemma_mul_strict_inequality(span + a % span, span + b % span, p);
        } else {
            assert(ea < eb) by {
                if ea > eb {
                    assert(a >= span * ea) by (nonlinear_arith)
                        requires ea == a / span, span > 0;
                    assert(b < span * (eb + 1)) by (nonlinear_arith)
                        requires eb == b / span, span > 0;
                    assert(span * (eb + 1) <= span * ea) by (nonlinear_arith)
                        requires eb + 1 <= ea, span > 0;
                }
            }
            if ea < eb - 1 {
                lemma_pow2_strictly_increases(ea as nat, (eb - 1) as nat);
            }
            lemma_mul_inequality(
                pow2(ea as nat) as int,
                pow2((eb - 1) as nat) as int,
                span,
            );
            assert(pow2(ea as nat) * span == span * pow2(ea as nat)) by (nonlinear_arith);
            assert(pow2((eb - 1) as nat) * span == span * pow2((eb - 1) as nat))
                by (nonlinear_arith);
        }
    }
}

impl Scalar {
    /// The sign bit is set.
    pub open spec fn negative(self) -> bool {
        self.bits >= SIGN_BIT
    }

    /// The bit pattern without its sign bit.
    pub open spec fn magnitude(self) -> int {
        if self.bits >= SIGN_BIT {
            self.bits - SIGN_BIT
        } else {
            self.bits as int
        }
    }

    /// Not a number: an all-ones exponent with a non-zero fraction.
    pub open spec fn nan(self) -> bool {
        self.magnitude() > INFINITY_BITS
    }

    /// Neither a NaN nor an infinity.
    pub open spec fn finite(self) -> bool {
        self.magnitude() < INFINITY_BITS
    }

    /// The number times `2^149`. Both zeros give 0; an infinity gives
    /// `2^277` with its sign. Without meaning for a NaN.
    pub open spec fn scaled(self) -> int {
        if self.negative() {
            -weight(self.magnitude())
        } else {
            weight(self.magnitude())
        }
    }

    /// Numeric `<`: false as soon as either side is a NaN.
    pub open spec fn below(self, other: Scalar) -> bool {
        !self.nan() && !other.nan() && self.scaled() < other.scaled()
    }

    /// Numeric `<=`: false as soon as either side is a NaN.
    pub open spec fn not_above(self, other: Scalar) -> bool {
        !self.nan() && !other.nan() && self.scaled() <= other.scaled()
    }

    /// Numeric `==`: false as soon as either side is a NaN; the two zeros are equal.
    pub open spec fn equals(self, other: Scalar) -> bool {
        !self.nan() && !other.nan() && self.scaled() == other.scaled()
    }

    /// The signed magnitude, an integer that orders non-NaN patterns as
    /// their numbers are ordered.
    pub open spec fn rank(self) -> int {
        if self.negative() {
            -self.magnitude()
        } else {
            self.magnitude()
        }
    }

    /// Ranks and numbers agree on order.
    pub proof fn lemma_rank_orders(self, other: Scalar)
        ensures
            self.rank() < other.rank() <==> self.scaled() < other.scaled(),
            self.rank() == other.rank() <==> self.scaled() == other.scaled(),
    {
        let a = self.magnitude();
        let b = other.magnitude();
        if a < b {
            lemma_weight_increases(a, b);
        } else if b < a {
            lemma_weight_increases(b, a);
        }
        if 0 < a {
            lemma_weight_increases(0, a);
        }
        if 0 < b {
            lemma_weight_increases(0, b);
        }
    }

    /// Among numbers, `<` is a strict total order, and `<=` and `==` go
    /// with it.
    pub proof fn lemma_order(a: Scalar, b: Scalar, c: Scalar)
        requires
            !a.nan(),
            !b.nan(),
            !c.nan(),
        ensures
            !a.below(a),
            a.below(b) && b.below(c) ==> a.below(c),
            a.below(b) || a.equals(b) || b.below(a),
            !(a.below(b) && b.below(a)),
            a.not_above(b) <==> a.below(b) || a.equals(b),
            a.equals(b) <==> a.not_above(b) && b.not_above(a),
            a.equals(b) <==> a.magnitude() == b.magnitude() && (a.negative() == b.negative()
                || a.magnitude() == 0),
    {
        a.lemma_rank_orders(b);
    }

    /// A NaN is neither below, nor above, nor equal to anything, itself included.
    pub proof fn lemma_nan_unordered(a: Scalar, b: Scalar)
        requires
            a.nan(),
        ensures
            !a.below(b),
            !b.below(a),
            !a.not_above(b),
            !b.not_above(a),
            !a.equals(b),
            !a.equals(a),
    {
    }

    /// The number with the given bit pattern.
    pub fn from_bits(bits: u32) -> (s: Scalar)
        ensures
            s.bits == bits,
    {
        Scalar { bits }
    }

    /// The bit pattern of the number.
    pub fn to_bits(self) -> (bits: u32)
        ensures
            bits == self.bits,
    {
        self.bits
    }

    /// Positive zero.
    pub fn zero() -> (s: Scalar)
        ensures
            s.bits == 0,
            s.scaled() == 0,
            !s.nan(),
    {
        Scalar { bits: 0 }
    }

    fn magnitude_bits(self) -> (m: u32)
        ensures
            m == self.magnitude(),
            m < SIGN_BIT,
    {
        if self.bits >= SIGN_BIT {
            self.bits - SIGN_BIT
        } else {
            self.bits
        }
    }

    fn rank_value(self) -> (k: i64)
        ensures
            k == self.rank(),
    {
        let m: i64 = self.magnitude_bits() as i64;
        if self.bits >= SIGN_BIT {
            -m
        } else {
            m
        }
    }

    /// Whether this is a NaN.
    pub fn is_nan(self) -> (r: bool)
        ensures
            r == self.nan(),
    {
        self.magnitude_bits() > INFINITY_BITS
    }

    /// Whether this is a number other than an infinity.
    pub fn is_finite(self) -> (r: bool)
        ensures
            r == self.finite(),
    {
        self.magnitude_bits() < INFINITY_BITS
    }

    /// `self < other` as numbers.
    pub fn less_than(self, other: Scalar) -> (r: bool)
        ensures
            r == self.below(other),
    {
        proof {
            self.lemma_rank_orders(other);
        }
        !self.is_nan() && !other.is_nan() && self.rank_value() < other.rank_value()
    }

    /// `self <= other` as numbers.
    pub fn at_most(self, other: Scalar) -> (r: bool)
        ensures
            r == self.not_above(other),
    {
        proof {
            self.lemma_rank_orders(other);
        }
        !self.is_nan() && !other.is_nan() && self.rank_value() <= other.rank_value()
    }

    /// `self == other` as numbers.
    pub fn same_number(self, other: Scalar) -> (r: bool)
        ensures
            r == self.equals(other),
    {
        proof {
            self.lemma_rank_orders(other);
        }
        !self.is_nan() && !other.is_nan() && self.rank_value() == other.rank_value()
    }

    /// `self > 0` as a number.
    pub fn is_positive(self) -> (r: bool)
        ensures
            r == Scalar::zero_value().below(self),
    {
        Scalar::zero().less_than(self)
    }

    /// Positive zero, for use in contracts.
    pub open spec fn zero_value() -> Scalar {
        Scalar { bits: 0 }
    }
}

} // verus!
