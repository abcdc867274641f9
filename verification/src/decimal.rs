//! Exact decimal numbers.
//!
//! A [`Decimal`] is arbitrary-precision: an integer of any size, written as
//! its two's-complement bytes, and a scale. The arithmetic itself is done by
//! the `bigdecimal` crate; this module states what each operation returns as
//! an [`Amount`] and keeps the scales small enough that the 64-bit scale of
//! that crate cannot overflow.

use crate::amount::{
    lemma_below_zero, lemma_neither_less, lemma_of_negated, lemma_of_sign, Amount,
};
use bigdecimal::num_bigint::BigInt;
use bigdecimal::BigDecimal;
use vstd::prelude::*;

verus! {

/// Scales stay strictly between `-SCALE_LIMIT` and `SCALE_LIMIT`.
pub const SCALE_LIMIT: i64 = 0x4000_0000_0000_0000;

/// 256 to the power `n`.
pub open spec fn pow256(n: nat) -> nat
    decreases n,
{
    if n == 0 {
        1
    } else {
        256 * pow256((n - 1) as nat)
    }
}

/// The number that `bytes` spell in base 256, most significant byte first.
pub open spec fn unsigned_value(bytes: Seq<u8>) -> nat
    decreases bytes.len(),
{
    if bytes.len() == 0 {
        0
    } else {
        256 * unsigned_value(bytes.drop_last()) + bytes.last() as nat
    }
}

/// The integer that `bytes` spell in two's complement, most significant byte
/// first. No bytes at all spell zero.
pub open spec fn signed_value(bytes: Seq<u8>) -> int {
    if bytes.len() > 0 && bytes[0] >= 128 {
        unsigned_value(bytes) - pow256(bytes.len())
    } else {
        unsigned_value(bytes) as int
    }
}

/// An exact decimal number.
pub struct Decimal {
    bytes: Vec<u8>,
    scale: i64,
}

impl View for Decimal {
    type V = Amount;

    /// The number this decimal stands for.
    open spec fn view(&self) -> Amount {
        Amount::of(self.unscaled(), self.written_scale())
    }
}

impl Decimal {
    /// The integer that, with the scale, makes up this decimal.
    pub closed spec fn unscaled(&self) -> int {
        signed_value(self.bytes@)
    }

    /// The scale this decimal is written at: the number of its digits that
    /// stand behind the decimal point.
    pub closed spec fn written_scale(&self) -> int {
        self.scale as int
    }

    /// The scale of every decimal is within the limit.
    #[verifier::type_invariant]
    spec fn scale_in_range(self) -> bool {
        in_range(self.scale as int)
    }

    /// The scale is within half the limit, so that two such decimals can be
    /// multiplied.
    pub open spec fn is_factor(&self) -> bool {
        -SCALE_LIMIT < 2 * self.written_scale() < SCALE_LIMIT
    }

    /// The decimal `unscaled` times ten to the power `-scale`.
    pub fn new(unscaled: i64, scale: i32) -> (r: Decimal)
        ensures
            r@ == Amount::of(unscaled as int, scale as int),
            r.unscaled() == unscaled,
            r.written_scale() == scale,
            r.is_factor(),
    {
        big_from_parts(unscaled, scale as i64)
    }

    /// The decimal whose unscaled integer `bytes` spell in two's complement,
    /// most significant byte first, if `scale` is within the limit.
    pub fn from_signed_bytes(bytes: Vec<u8>, scale: i64) -> (r: Option<Decimal>)
        ensures
            r is Some <==> in_range(scale as int),
            r matches Some(d) ==> {
                &&& d.unscaled() == signed_value(bytes@)
                &&& d.written_scale() == scale
                &&& d@ == Amount::of(signed_value(bytes@), scale as int)
            },
    {
        if -SCALE_LIMIT < scale && scale < SCALE_LIMIT {
            Some(Decimal { bytes, scale })
        } else {
            None
        }
    }

    /// The two's-complement bytes of the unscaled integer, most significant
    /// byte first.
    pub fn signed_bytes(&self) -> (r: &Vec<u8>)
        ensures
            signed_value(r@) == self.unscaled(),
    {
        &self.bytes
    }

    /// The scale this decimal is written at.
    pub fn scale(&self) -> (r: i64)
        ensures
            r == self.written_scale(),
            in_range(r as int),
    {
        proof {
            use_type_invariant(self);
        }
        self.scale
    }

    /// Whether the scale is within half the limit.
    pub fn fits_factor(&self) -> (r: bool)
        ensures
            r == self.is_factor(),
    {
        -SCALE_LIMIT / 2 < self.scale && self.scale < SCALE_LIMIT / 2
    }

    /// Zero.
    pub fn zero() -> (r: Decimal)
        ensures
            r@ == Amount::zero(),
            r.written_scale() == 0,
            r.is_factor(),
    {
        Decimal::new(0, 0)
    }

    /// One.
    pub fn one() -> (r: Decimal)
        ensures
            r@ == Amount::one(),
            r.written_scale() == 0,
            r.is_factor(),
    {
        Decimal::new(1, 0)
    }

    /// One hundred.
    pub fn hundred() -> (r: Decimal)
        ensures
            r@ == Amount::hundred(),
            r.written_scale() == 0,
            r.is_factor(),
    {
        let r = Decimal::new(100, 0);
        assert(Amount::of(100, 0) == Amount::hundred()) by {
            reveal_with_fuel(Amount::of, 3);
        }
        r
    }

    /// `self + other`.
    pub fn plus(&self, other: &Decimal) -> (r: Decimal)
        ensures
            r@ == self@.plus(other@),
            within(r.written_scale(), self.written_scale(), other.written_scale()),
    {
        proof {
            use_type_invariant(self);
            use_type_invariant(other);
        }
        big_sum(self, other)
    }

    /// `self - other`.
    pub fn minus(&self, other: &Decimal) -> (r: Decimal)
        ensures
            r@ == self@.minus(other@),
            within(r.written_scale(), self.written_scale(), other.written_scale()),
    {
        proof {
            use_type_invariant(self);
            use_type_invariant(other);
        }
        big_difference(self, other)
    }

    /// `self * other`.
    pub fn times(&self, other: &Decimal) -> (r: Decimal)
        requires
            self.is_factor(),
            other.is_factor(),
        ensures
            r@ == self@.times(other@),
            r.written_scale() == self.written_scale() + other.written_scale()
                || r.written_scale() == self.written_scale() || r.written_scale()
                == other.written_scale(),
    {
        big_product(self, other)
    }

    /// `-self`.
    pub fn negated(&self) -> (r: Decimal)
        ensures
            r@ == self@.negated(),
            r.written_scale() == self.written_scale(),
    {
        proof {
            use_type_invariant(self);
            lemma_of_negated(self.unscaled(), self.written_scale());
        }
        big_negated(self)
    }

    /// The absolute value: `-self` where `self < 0`, else `self`.
    pub fn abs(&self) -> (r: Decimal)
        ensures
            r@ == (if self@.non_negative() {
                self@
            } else {
                self@.negated()
            }),
            r.written_scale() == self.written_scale(),
    {
        if self.is_negative() {
            self.negated()
        } else {
            self.clone()
        }
    }

    /// Whether `self < other`.
    pub fn less_than(&self, other: &Decimal) -> (r: bool)
        ensures
            r == self@.less_than(other@),
    {
        proof {
            use_type_invariant(self);
            use_type_invariant(other);
        }
        big_less(self, other)
    }

    /// Whether the two stand for the same number, at whatever scales they are
    /// written: neither is less than the other.
    pub fn equals(&self, other: &Decimal) -> (r: bool)
        ensures
            r == (self@ == other@),
    {
        proof {
            lemma_of_sign(self.unscaled(), self.written_scale());
            lemma_of_sign(other.unscaled(), other.written_scale());
            if !self@.less_than(other@) && !other@.less_than(self@) {
                lemma_neither_less(self@, other@);
            }
        }
        !self.less_than(other) && !other.less_than(self)
    }

    /// Whether `self < 0`.
    pub fn is_negative(&self) -> (r: bool)
        ensures
            r == !self@.non_negative(),
    {
        let zero = Decimal::zero();
        proof {
            lemma_below_zero(self@);
        }
        self.less_than(&zero)
    }

    /// Whether `self` is zero.
    pub fn is_zero(&self) -> (r: bool)
        ensures
            r == (self@ == Amount::zero()),
    {
        let zero = Decimal::zero();
        self.equals(&zero)
    }

    /// The smaller of the two; `self` where they are the same number.
    pub fn lesser(self, other: Decimal) -> (r: Decimal)
        ensures
            r == (if other@.less_than(self@) {
                other
            } else {
                self
            }),
    {
        if other.less_than(&self) {
            other
        } else {
            self
        }
    }

    /// The larger of the two; `other` where they are the same number.
    pub fn greater(self, other: Decimal) -> (r: Decimal)
        ensures
            r == (if other@.less_than(self@) {
                self
            } else {
                other
            }),
    {
        if other.less_than(&self) {
            self
        } else {
            other
        }
    }
}

impl Clone for Decimal {
    fn clone(&self) -> (r: Decimal)
        ensures
            r@ == self@,
            r.unscaled() == self.unscaled(),
            r.written_scale() == self.written_scale(),
    {
        proof {
            use_type_invariant(self);
        }
        let bytes = self.bytes.clone();
        assert(bytes@ == self.bytes@);
        Decimal { bytes, scale: self.scale }
    }
}

impl PartialEq for Decimal {
    /// Two decimals are equal when they stand for the same number.
    fn eq(&self, other: &Decimal) -> (r: bool) {
        self.equals(other)
    }
}

impl vstd::std_specs::cmp::PartialEqSpecImpl for Decimal {
    open spec fn obeys_eq_spec() -> bool {
        true
    }

    open spec fn eq_spec(&self, other: &Decimal) -> bool {
        self@ == other@
    }
}

/// `scale` is within the limit.
pub open spec fn in_range(scale: int) -> bool {
    -SCALE_LIMIT < scale < SCALE_LIMIT
}

/// `value` lies between `a` and `b`, whichever is the smaller.
pub open spec fn within(value: int, a: int, b: int) -> bool {
    (a <= value <= b) || (b <= value <= a)
}

// What follows is taken on trust from `bigdecimal` and `num-bigint`. A decimal
// goes in as `BigDecimal::new` of `BigInt::from_signed_bytes_be` of its bytes
// and its scale, and comes out through `into_bigint_and_exponent` and
// `BigInt::to_signed_bytes_be`: two's complement, most significant byte first,
// both ways, and the exponent is the scale.

/// `BigDecimal::new` on `BigInt::from(unscaled)`: a decimal is made of the
/// integer and the scale it is given, unchanged.
#[verifier::external_body]
fn big_from_parts(unscaled: i64, scale: i64) -> (r: Decimal)
    requires
        in_range(scale as int),
    ensures
        r.unscaled() == unscaled,
        r.scale == scale,
{
    let (digits, scale) = BigDecimal::new(BigInt::from(unscaled), scale).into_bigint_and_exponent();
    Decimal { bytes: digits.to_signed_bytes_be(), scale }
}

/// `BigDecimal + BigDecimal`: the sum is exact, and is written at a scale
/// that lies between those of the two operands.
#[verifier::external_body]
fn big_sum(a: &Decimal, b: &Decimal) -> (r: Decimal)
    requires
        in_range(a.scale as int),
        in_range(b.scale as int),
    ensures
        r@ == a@.plus(b@),
        within(r.scale as int, a.scale as int, b.scale as int),
{
    let x = BigDecimal::new(BigInt::from_signed_bytes_be(&a.bytes), a.scale);
    let y = BigDecimal::new(BigInt::from_signed_bytes_be(&b.bytes), b.scale);
    let (digits, scale) = (x + y).into_bigint_and_exponent();
    Decimal { bytes: digits.to_signed_bytes_be(), scale }
}

/// `BigDecimal - BigDecimal`: the difference is exact, and is written at a
/// scale that lies between those of the two operands.
#[verifier::external_body]
fn big_difference(a: &Decimal, b: &Decimal) -> (r: Decimal)
    requires
        in_range(a.scale as int),
        in_range(b.scale as int),
    ensures
        r@ == a@.minus(b@),
        within(r.scale as int, a.scale as int, b.scale as int),
{
    let x = BigDecimal::new(BigInt::from_signed_bytes_be(&a.bytes), a.scale);
    let y = BigDecimal::new(BigInt::from_signed_bytes_be(&b.bytes), b.scale);
    let (digits, scale) = (x - y).into_bigint_and_exponent();
    Decimal { bytes: digits.to_signed_bytes_be(), scale }
}

/// `BigDecimal * BigDecimal`: the product is exact. It is written at the sum
/// of the two scales, or at the scale of one operand where the other is one.
#[verifier::external_body]
fn big_product(a: &Decimal, b: &Decimal) -> (r: Decimal)
    requires
        a.is_factor(),
        b.is_factor(),
    ensures
        r@ == a@.times(b@),
        r.scale == a.scale + b.scale || r.scale == a.scale || r.scale == b.scale,
{
    let x = BigDecimal::new(BigInt::from_signed_bytes_be(&a.bytes), a.scale);
    let y = BigDecimal::new(BigInt::from_signed_bytes_be(&b.bytes), b.scale);
    let (digits, scale) = (x * y).into_bigint_and_exponent();
    Decimal { bytes: digits.to_signed_bytes_be(), scale }
}

/// `-BigDecimal`: the integer changes its sign, the scale stays.
#[verifier::external_body]
fn big_negated(a: &Decimal) -> (r: Decimal)
    requires
        in_range(a.scale as int),
    ensures
        r.unscaled() == -a.unscaled(),
        r.scale == a.scale,
{
    let x = BigDecimal::new(BigInt::from_signed_bytes_be(&a.bytes), a.scale);
    let (digits, scale) = (-x).into_bigint_and_exponent();
    Decimal { bytes: digits.to_signed_bytes_be(), scale }
}

/// `BigDecimal < BigDecimal`: the two are ordered as numbers, whatever
/// scales they are written at.
#[verifier::external_body]
fn big_less(a: &Decimal, b: &Decimal) -> (r: bool)
    requires
        in_range(a.scale as int),
        in_range(b.scale as int),
    ensures
        r == a@.less_than(b@),
{
    let x = BigDecimal::new(BigInt::from_signed_bytes_be(&a.bytes), a.scale);
    let y = BigDecimal::new(BigInt::from_signed_bytes_be(&b.bytes), b.scale);
    x < y
}

} // verus!
