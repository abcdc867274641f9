use bigdecimal::num_bigint::BigInt;
use bigdecimal::BigDecimal;
use club_ledger::decimal::{Decimal, SCALE_LIMIT};
use std::str::FromStr;

fn big(d: &Decimal) -> BigDecimal {
    BigDecimal::new(BigInt::from_signed_bytes_be(d.signed_bytes()), d.scale())
}

fn parsed(text: &str) -> BigDecimal {
    BigDecimal::from_str(text).unwrap()
}

#[test]
fn new_keeps_unscaled_and_scale() {
    let d = Decimal::new(12345, 2);
    assert_eq!(d.scale(), 2);
    assert_eq!(BigInt::from_signed_bytes_be(d.signed_bytes()), BigInt::from(12345));
    assert_eq!(big(&d), parsed("123.45"));
}

#[test]
fn new_keeps_negative_numbers_and_negative_scales() {
    let d = Decimal::new(-7, -3);
    assert_eq!(d.scale(), -3);
    assert_eq!(BigInt::from_signed_bytes_be(d.signed_bytes()), BigInt::from(-7));
    assert_eq!(big(&d), parsed("-7000"));
    let least = Decimal::new(i64::MIN, 0);
    assert_eq!(BigInt::from_signed_bytes_be(least.signed_bytes()), BigInt::from(i64::MIN));
}

#[test]
fn constants_are_what_they_say() {
    assert_eq!(big(&Decimal::zero()), parsed("0"));
    assert_eq!(big(&Decimal::one()), parsed("1"));
    assert_eq!(big(&Decimal::hundred()), parsed("100"));
    assert!(Decimal::zero().is_zero());
    assert!(!Decimal::one().is_zero());
}

#[test]
fn from_signed_bytes_reads_twos_complement() {
    let d = Decimal::from_signed_bytes(vec![0x01, 0x00], 1).unwrap();
    assert_eq!(big(&d), parsed("25.6"));
    let d = Decimal::from_signed_bytes(vec![0xff], 0).unwrap();
    assert_eq!(big(&d), parsed("-1"));
    let d = Decimal::from_signed_bytes(vec![0xfb, 0x9b], 2).unwrap();
    assert_eq!(big(&d), parsed("-11.25"));
    let d = Decimal::from_signed_bytes(vec![0x00, 0xff], 0).unwrap();
    assert_eq!(big(&d), parsed("255"));
    let d = Decimal::from_signed_bytes(vec![], 0).unwrap();
    assert!(d.is_zero());
}

#[test]
fn from_signed_bytes_refuses_scales_at_the_limit() {
    assert!(Decimal::from_signed_bytes(vec![1], SCALE_LIMIT).is_none());
    assert!(Decimal::from_signed_bytes(vec![1], -SCALE_LIMIT).is_none());
    assert!(Decimal::from_signed_bytes(vec![1], i64::MAX).is_none());
    assert!(Decimal::from_signed_bytes(vec![1], i64::MIN).is_none());
    assert!(Decimal::from_signed_bytes(vec![1], SCALE_LIMIT - 1).is_some());
    assert!(Decimal::from_signed_bytes(vec![1], 1 - SCALE_LIMIT).is_some());
}

#[test]
fn fits_factor_is_half_the_limit() {
    assert!(Decimal::new(1, i32::MAX).fits_factor());
    assert!(Decimal::new(1, i32::MIN).fits_factor());
    let half = SCALE_LIMIT / 2;
    assert!(!Decimal::from_signed_bytes(vec![1], half).unwrap().fits_factor());
    assert!(Decimal::from_signed_bytes(vec![1], half - 1).unwrap().fits_factor());
    assert!(!Decimal::from_signed_bytes(vec![1], -half).unwrap().fits_factor());
    assert!(Decimal::from_signed_bytes(vec![1], 1 - half).unwrap().fits_factor());
}

#[test]
fn plus_adds_across_scales() {
    let sum = Decimal::new(1234, 2).plus(&Decimal::new(1234, 3));
    assert_eq!(big(&sum), parsed("13.574"));
    assert!(sum.equals(&Decimal::new(13574, 3)));
    assert!(!sum.equals(&Decimal::new(1234, 2)));
    assert!(!sum.equals(&Decimal::new(1234, 3)));
}

#[test]
fn plus_zero_keeps_the_number() {
    let sum = Decimal::new(776, 1).plus(&Decimal::zero());
    assert_eq!(big(&sum), parsed("77.6"));
    let sum = Decimal::zero().plus(&Decimal::new(776, 1));
    assert_eq!(big(&sum), parsed("77.6"));
}

#[test]
fn minus_subtracts_across_scales() {
    let difference = Decimal::new(100, 0).minus(&Decimal::new(5, 1));
    assert_eq!(big(&difference), parsed("99.5"));
    let difference = Decimal::new(5, 1).minus(&Decimal::new(100, 0));
    assert_eq!(big(&difference), parsed("-99.5"));
    let difference = Decimal::zero().minus(&Decimal::new(3, 0));
    assert_eq!(big(&difference), parsed("-3"));
}

#[test]
fn times_multiplies_exactly() {
    let product = Decimal::new(100, 0).times(&Decimal::new(9, 1));
    assert_eq!(big(&product), parsed("90"));
    let product = Decimal::new(-125, 2).times(&Decimal::new(4, 1));
    assert_eq!(big(&product), parsed("-0.5"));
    let product = Decimal::new(333, 2).times(&Decimal::one());
    assert_eq!(big(&product), parsed("3.33"));
    let product = Decimal::one().times(&Decimal::new(333, 2));
    assert_eq!(big(&product), parsed("3.33"));
}

#[test]
fn times_goes_beyond_sixty_four_bits() {
    let large = Decimal::new(i64::MAX, 0);
    let product = large.times(&large);
    assert_eq!(big(&product), parsed("85070591730234615847396907784232501249"));
}

#[test]
fn negated_changes_the_sign_only() {
    let d = Decimal::new(250, 2).negated();
    assert_eq!(big(&d), parsed("-2.5"));
    assert_eq!(d.scale(), 2);
    assert_eq!(big(&d.negated()), parsed("2.5"));
    assert!(Decimal::zero().negated().is_zero());
}

#[test]
fn less_than_orders_by_value() {
    assert!(Decimal::new(-1, 0).less_than(&Decimal::new(1, 0)));
    assert!(!Decimal::new(1, 0).less_than(&Decimal::new(-1, 0)));
    assert!(Decimal::new(5, 1).less_than(&Decimal::new(1, 0)));
    assert!(Decimal::new(1, 0).less_than(&Decimal::new(100, 1)));
    assert!(!Decimal::new(10, 1).less_than(&Decimal::new(1, 0)));
    assert!(!Decimal::new(1, 0).less_than(&Decimal::new(10, 1)));
}

#[test]
fn equals_ignores_the_written_scale() {
    assert!(Decimal::new(10, 1).equals(&Decimal::new(1, 0)));
    assert!(Decimal::new(1, -2).equals(&Decimal::new(100, 0)));
    assert!(Decimal::new(0, 5).equals(&Decimal::zero()));
    assert!(!Decimal::new(1, 1).equals(&Decimal::new(1, 0)));
    assert!(!Decimal::new(1, 0).equals(&Decimal::new(-1, 0)));
}

#[test]
fn is_negative_is_strict() {
    assert!(Decimal::new(-1, 3).is_negative());
    assert!(!Decimal::zero().is_negative());
    assert!(!Decimal::new(0, 3).is_negative());
    assert!(!Decimal::new(1, 3).is_negative());
}

#[test]
fn lesser_prefers_self_on_a_tie() {
    let r = Decimal::new(10, 1).lesser(Decimal::new(1, 0));
    assert_eq!(r.scale(), 1);
    let r = Decimal::new(3, 0).lesser(Decimal::new(2, 0));
    assert!(r.equals(&Decimal::new(2, 0)));
    let r = Decimal::new(2, 0).lesser(Decimal::new(3, 0));
    assert!(r.equals(&Decimal::new(2, 0)));
}

#[test]
fn greater_prefers_other_on_a_tie() {
    let r = Decimal::new(10, 1).greater(Decimal::new(1, 0));
    assert_eq!(r.scale(), 0);
    let r = Decimal::new(3, 0).greater(Decimal::new(2, 0));
    assert!(r.equals(&Decimal::new(3, 0)));
    let r = Decimal::new(2, 0).greater(Decimal::new(3, 0));
    assert!(r.equals(&Decimal::new(3, 0)));
}

#[test]
fn clone_is_the_same_decimal() {
    let d = Decimal::new(-98765, 4);
    let c = d.clone();
    assert_eq!(c.signed_bytes(), d.signed_bytes());
    assert_eq!(c.scale(), d.scale());
}

#[test]
fn sums_stay_within_the_scales_of_their_operands() {
    let sum = Decimal::new(5, 2).plus(&Decimal::new(5, 7));
    assert!(2 <= sum.scale() && sum.scale() <= 7);
    let difference = Decimal::new(5, 2).minus(&Decimal::new(5, -7));
    assert!(-7 <= difference.scale() && difference.scale() <= 2);
}

#[test]
fn abs_drops_the_sign() {
    assert!(Decimal::new(-250, 2).abs().equals(&Decimal::new(25, 1)));
    assert!(Decimal::new(250, 2).abs().equals(&Decimal::new(25, 1)));
    assert!(Decimal::zero().abs().is_zero());
    assert_eq!(Decimal::new(-250, 2).abs().scale(), 2);
}

#[test]
fn decimals_compare_equal_by_value() {
    assert!(Decimal::new(10, 1) == Decimal::new(1, 0));
    assert!(Decimal::new(10, 1) != Decimal::new(1, 1));
    assert!(Decimal::new(0, 3) == Decimal::zero());
}

#[test]
fn equal_numbers_with_many_more_zeros_are_equal() {
    let a = Decimal::new(7922816251677867879, 0);
    let b = a.plus(&Decimal::new(0, 10));
    assert_eq!(b.scale(), 10);
    assert!(a.equals(&b));
    assert!(b.equals(&a));
    assert!(a == b);
    assert!(!a.less_than(&b));
    assert!(!b.less_than(&a));
    let c = b.plus(&Decimal::new(1, 10));
    assert!(!a.equals(&c));
    assert!(!c.equals(&b));
    assert!(a.less_than(&c));
}

#[test]
fn equality_holds_across_every_small_difference_of_scale() {
    for zeros in 0..=25 {
        let a = Decimal::new(i64::MAX, 0);
        let b = a.plus(&Decimal::new(0, zeros));
        assert!(a.equals(&b), "with {zeros} more zeros");
        let a = Decimal::new(i64::MIN, 3);
        let b = a.plus(&Decimal::new(0, 3 + zeros));
        assert!(a.equals(&b), "with {zeros} more zeros");
        assert!(!a.equals(&b.plus(&Decimal::new(1, 3 + zeros))));
    }
}
