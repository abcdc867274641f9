//! The mathematics of decimal money.
//!
//! An [`Amount`] is a decimal number written as an integer and a scale:
//! `digits` times ten to the power `-scale`. Every number that can be written
//! so has exactly one *canonical* writing, the one whose digits do not end in
//! a zero (and `0` with scale `0` for zero itself). The functions here always
//! return the canonical writing, so two amounts are the same number exactly
//! when they are equal.

use vstd::prelude::*;

verus! {

/// Ten to the power `n`.
pub open spec fn pow10(n: nat) -> nat
    decreases n,
{
    if n == 0 {
        1
    } else {
        10 * pow10((n - 1) as nat)
    }
}

/// The absolute value of an integer.
pub open spec fn magnitude(x: int) -> nat {
    if x < 0 {
        (-x) as nat
    } else {
        x as nat
    }
}

/// A decimal number: `digits` times ten to the power `-scale`.
pub struct Amount {
    pub digits: int,
    pub scale: int,
}

impl Amount {
    /// The canonical writing of `digits` times ten to the power `-scale`.
    pub open spec fn of(digits: int, scale: int) -> Amount
        decreases magnitude(digits),
    {
        if digits == 0 {
            Amount { digits: 0, scale: 0 }
        } else if digits % 10 == 0 {
            Amount::of(digits / 10, scale - 1)
        } else {
            Amount { digits, scale }
        }
    }

    /// Whether this is the canonical writing of its number.
    pub open spec fn canonical(self) -> bool {
        if self.digits == 0 {
            self.scale == 0
        } else {
            self.digits % 10 != 0
        }
    }

    pub open spec fn zero() -> Amount {
        Amount { digits: 0, scale: 0 }
    }

    pub open spec fn one() -> Amount {
        Amount { digits: 1, scale: 0 }
    }

    /// The number one hundred, which is `1` at scale `-2`.
    pub open spec fn hundred() -> Amount {
        Amount { digits: 1, scale: -2 }
    }

    /// The digits this number has when it is written at `scale`, which must
    /// not be smaller than its own.
    pub open spec fn lifted(self, scale: int) -> int
        recommends
            self.scale <= scale,
    {
        self.digits * pow10((scale - self.scale) as nat)
    }

    /// The larger of the two scales: the scale at which both can be written.
    pub open spec fn common_scale(self, other: Amount) -> int {
        if self.scale >= other.scale {
            self.scale
        } else {
            other.scale
        }
    }

    /// `self + other`.
    pub open spec fn plus(self, other: Amount) -> Amount {
        let scale = self.common_scale(other);
        Amount::of(self.lifted(scale) + other.lifted(scale), scale)
    }

    /// `self - other`.
    pub open spec fn minus(self, other: Amount) -> Amount {
        let scale = self.common_scale(other);
        Amount::of(self.lifted(scale) - other.lifted(scale), scale)
    }

    /// `self * other`.
    pub open spec fn times(self, other: Amount) -> Amount {
        Amount::of(self.digits * other.digits, self.scale + other.scale)
    }

    /// `-self`.
    pub open spec fn negated(self) -> Amount {
        Amount { digits: -self.digits, scale: self.scale }
    }

    /// `self < other`.
    pub open spec fn less_than(self, other: Amount) -> bool {
        let scale = self.common_scale(other);
        self.lifted(scale) < other.lifted(scale)
    }

    /// `self >= 0`.
    pub open spec fn non_negative(self) -> bool {
        self.digits >= 0
    }
}

/// A power of ten is positive.
pub proof fn lemma_pow10_positive(n: nat)
    ensures
        pow10(n) > 0,
    decreases n,
{
    if n > 0 {
        lemma_pow10_positive((n - 1) as nat);
    }
}

/// Canonical writing keeps the sign and is canonical.
pub proof fn lemma_of_sign(digits: int, scale: int)
    ensures
        Amount::of(digits, scale).canonical(),
        Amount::of(digits, scale).digits > 0 <==> digits > 0,
        Amount::of(digits, scale).digits < 0 <==> digits < 0,
    decreases magnitude(digits),
{
    if digits != 0 && digits % 10 == 0 {
        lemma_of_sign(digits / 10, scale - 1);
    }
}

/// Negating the digits negates the canonical writing.
pub proof fn lemma_of_negated(digits: int, scale: int)
    ensures
        Amount::of(-digits, scale) == Amount::of(digits, scale).negated(),
    decreases magnitude(digits),
{
    if digits != 0 && digits % 10 == 0 {
        lemma_of_negated(digits / 10, scale - 1);
    }
}

/// Writing a number at a larger scale keeps its sign.
pub proof fn lemma_lifted_sign(a: Amount, scale: int)
    requires
        a.scale <= scale,
    ensures
        a.lifted(scale) > 0 <==> a.digits > 0,
        a.lifted(scale) < 0 <==> a.digits < 0,
{
    let p = pow10((scale - a.scale) as nat);
    lemma_pow10_positive((scale - a.scale) as nat);
    assert(a.digits > 0 ==> a.digits * p > 0) by (nonlinear_arith)
        requires
            p > 0,
    ;
    assert(a.digits < 0 ==> a.digits * p < 0) by (nonlinear_arith)
        requires
            p > 0,
    ;
    assert(a.digits == 0 ==> a.digits * p == 0) by (nonlinear_arith);
}

/// A number below zero has negative digits, and the other way round.
pub proof fn lemma_below_zero(a: Amount)
    ensures
        a.less_than(Amount::zero()) <==> a.digits < 0,
        Amount::zero().less_than(a) <==> a.digits > 0,
{
    let scale = a.common_scale(Amount::zero());
    lemma_lifted_sign(a, scale);
    lemma_lifted_sign(Amount::zero(), scale);
}

/// Taking a smaller number from a larger one leaves more than zero; taking a
/// number from itself leaves zero.
pub proof fn lemma_minus_sign(a: Amount, b: Amount)
    ensures
        b.less_than(a) ==> a.minus(b).digits > 0,
        a.less_than(b) ==> a.minus(b).digits < 0,
        a.minus(a) == Amount::zero(),
{
    let scale = a.common_scale(b);
    lemma_of_sign(a.lifted(scale) - b.lifted(scale), scale);
}

/// Taking a number below zero from one that is not leaves more than zero.
pub proof fn lemma_minus_negative(a: Amount, b: Amount)
    requires
        a.digits >= 0,
        b.digits < 0,
    ensures
        a.minus(b).digits > 0,
{
    let scale = a.common_scale(b);
    lemma_lifted_sign(a, scale);
    lemma_lifted_sign(b, scale);
    lemma_of_sign(a.lifted(scale) - b.lifted(scale), scale);
}

/// The canonical writing of a canonical amount is itself.
pub proof fn lemma_of_canonical(a: Amount)
    requires
        a.canonical(),
    ensures
        Amount::of(a.digits, a.scale) == a,
{
}

/// Writing a number with more zeros at a larger scale does not change its
/// canonical writing.
pub proof fn lemma_of_shifted(digits: int, scale: int, zeros: nat)
    ensures
        Amount::of(digits * pow10(zeros), scale + zeros) == Amount::of(digits, scale),
    decreases zeros,
{
    if zeros == 0 {
        assert(pow10(0) == 1);
        assert(digits * pow10(0) == digits) by (nonlinear_arith)
            requires
                pow10(0) == 1,
        ;
    } else {
        let shorter = digits * pow10((zeros - 1) as nat);
        assert(digits * pow10(zeros) == 10 * shorter) by (nonlinear_arith)
            requires
                pow10(zeros) == 10 * pow10((zeros - 1) as nat),
                shorter == digits * pow10((zeros - 1) as nat),
        ;
        lemma_of_shifted(digits, scale, (zeros - 1) as nat);
        if digits == 0 {
            assert(shorter == 0);
            assert(10 * shorter == 0);
        } else {
            lemma_pow10_positive((zeros - 1) as nat);
            assert(shorter != 0) by (nonlinear_arith)
                requires
                    digits != 0,
                    pow10((zeros - 1) as nat) > 0,
                    shorter == digits * pow10((zeros - 1) as nat),
            ;
            assert((10 * shorter) % 10 == 0 && (10 * shorter) / 10 == shorter);
        }
    }
}

/// Adding zero changes nothing.
pub proof fn lemma_plus_zero(a: Amount)
    requires
        a.canonical(),
    ensures
        a.plus(Amount::zero()) == a,
        Amount::zero().plus(a) == a,
{
    let scale = a.common_scale(Amount::zero());
    let zeros = (scale - a.scale) as nat;
    assert(Amount::zero().lifted(scale) == 0) by (nonlinear_arith)
        requires
            Amount::zero().lifted(scale) == 0 * pow10((scale - 0) as nat),
    ;
    lemma_of_shifted(a.digits, a.scale, zeros);
    lemma_of_canonical(a);
}

/// A number and its negative add up to zero.
pub proof fn lemma_plus_negated(a: Amount)
    ensures
        a.plus(a.negated()) == Amount::zero(),
        a.negated().plus(a) == Amount::zero(),
{
    let same = pow10(0);
    assert(a.digits * same + (-a.digits) * same == 0) by (nonlinear_arith);
    assert((-a.digits) * same + a.digits * same == 0) by (nonlinear_arith);
}

/// Taking the numbers the other way round gives the negative.
pub proof fn lemma_minus_flipped(a: Amount, b: Amount)
    ensures
        a.minus(b) == b.minus(a).negated(),
{
    let scale = a.common_scale(b);
    lemma_of_negated(b.lifted(scale) - a.lifted(scale), scale);
}

/// Taking a number away from one that is neither smaller nor larger leaves
/// zero.
pub proof fn lemma_minus_same(a: Amount, b: Amount)
    requires
        !a.less_than(b),
        !b.less_than(a),
    ensures
        a.minus(b) == Amount::zero(),
{
}

/// Two canonical amounts of which neither is below the other are the same
/// amount.
pub proof fn lemma_neither_less(a: Amount, b: Amount)
    requires
        a.canonical(),
        b.canonical(),
        !a.less_than(b),
        !b.less_than(a),
    ensures
        a == b,
{
    if a.scale <= b.scale {
        lemma_same_when_lifted(a, b);
    } else {
        lemma_same_when_lifted(b, a);
    }
}

/// Two canonical amounts that have the same digits at the scale of the one
/// with the larger scale are the same amount. A canonical amount that is
/// written at a larger scale ends in a zero, and is canonical no more.
proof fn lemma_same_when_lifted(a: Amount, b: Amount)
    requires
        a.canonical(),
        b.canonical(),
        a.scale <= b.scale,
        a.lifted(b.scale) == b.lifted(b.scale),
    ensures
        a == b,
{
    let zeros = (b.scale - a.scale) as nat;
    assert(pow10(0) == 1);
    assert(b.digits * pow10(0) == b.digits) by (nonlinear_arith)
        requires
            pow10(0) == 1,
    ;
    if zeros == 0 {
        assert(a.digits * pow10(0) == a.digits) by (nonlinear_arith)
            requires
                pow10(0) == 1,
        ;
    } else {
        let shorter = a.digits * pow10((zeros - 1) as nat);
        assert(a.digits * pow10(zeros) == 10 * shorter) by (nonlinear_arith)
            requires
                pow10(zeros) == 10 * pow10((zeros - 1) as nat),
                shorter == a.digits * pow10((zeros - 1) as nat),
        ;
        assert(b.digits == 10 * shorter);
        assert(b.digits % 10 == 0);
        // So `b` is zero, written at scale zero, and `a` is zero at a scale
        // below that, which no canonical amount is.
        lemma_pow10_positive(zeros);
        assert(a.digits == 0) by (nonlinear_arith)
            requires
                a.digits * pow10(zeros) == 0,
                pow10(zeros) > 0,
        ;
    }
}

} // verus!
