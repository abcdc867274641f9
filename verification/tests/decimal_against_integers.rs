use bigdecimal::num_bigint::BigInt;
use club_ledger::decimal::Decimal;

/// A decimal as an integer at scale `scale`, which must not be smaller than
/// its own.
fn lifted(d: &Decimal, scale: i64) -> BigInt {
    let mut digits = BigInt::from_signed_bytes_be(d.signed_bytes());
    for _ in d.scale()..scale {
        digits *= 10;
    }
    digits
}

/// Numbers that sit on the edges of 32-bit and 64-bit words, powers of ten,
/// and whatever a small generator makes of them.
fn samples() -> Vec<Decimal> {
    let mut unscaled: Vec<i64> = vec![
        0,
        1,
        -1,
        9,
        10,
        99,
        100,
        4_294_967_295,
        4_294_967_296,
        4_294_967_297,
        7_922_816_251_677_867_879,
        1_000_000_000_000_000_000,
        999_999_999_999_999_999,
        i64::MAX,
        i64::MIN,
        i64::MAX - 1,
        -4_294_967_296,
        1_844_674_407_370_955_161,
        1_844_674_407_370_955_162,
    ];
    let mut state: u64 = 0x9e37_79b9_7f4a_7c15;
    for _ in 0..12 {
        state = state.wrapping_mul(6_364_136_223_846_793_005).wrapping_add(1_442_695_040_888_963_407);
        unscaled.push(state as i64);
        unscaled.push((state >> 33) as i64);
    }
    let scales: [i32; 9] = [-21, -10, -1, 0, 1, 9, 10, 19, 25];
    let mut all = Vec::new();
    for (i, u) in unscaled.iter().enumerate() {
        for (j, s) in scales.iter().enumerate() {
            if (i + j) % 3 == 0 {
                all.push(Decimal::new(*u, *s));
            }
        }
    }
    // the same numbers again, written with more zeros
    let written: Vec<Decimal> = all.iter().step_by(4).cloned().collect();
    for (i, d) in written.iter().enumerate() {
        let zeros = [1, 9, 10, 19, 20, 33][i % 6];
        all.push(d.plus(&Decimal::new(0, d.scale() as i32 + zeros)));
    }
    // and some that are wider than 64 bits
    let wide = Decimal::new(i64::MAX, 3).times(&Decimal::new(i64::MAX, -2));
    all.push(wide.clone());
    all.push(wide.negated());
    all.push(wide.plus(&Decimal::new(1, 20)));
    all
}

#[test]
fn comparison_agrees_with_integers_at_a_common_scale() {
    let all = samples();
    for a in &all {
        for b in &all {
            let scale = a.scale().max(b.scale());
            let (x, y) = (lifted(a, scale), lifted(b, scale));
            assert_eq!(a.less_than(b), x < y, "{x} < {y} at scale {scale}");
            assert_eq!(a.equals(b), x == y, "{x} == {y} at scale {scale}");
        }
    }
}

#[test]
fn sums_and_differences_agree_with_integers_at_a_common_scale() {
    let all = samples();
    for a in &all {
        for b in &all {
            let sum = a.plus(b);
            let difference = a.minus(b);
            let scale = a.scale().max(b.scale());
            assert!(a.scale().min(b.scale()) <= sum.scale() && sum.scale() <= scale);
            assert!(a.scale().min(b.scale()) <= difference.scale() && difference.scale() <= scale);
            let (x, y) = (lifted(a, scale), lifted(b, scale));
            assert_eq!(lifted(&sum, scale), &x + &y);
            assert_eq!(lifted(&difference, scale), &x - &y);
        }
    }
}

#[test]
fn products_agree_with_integers_at_the_sum_of_the_scales() {
    let all = samples();
    for a in &all {
        for b in &all {
            let product = a.times(b);
            let scale = a.scale() + b.scale();
            assert!(product.scale() <= scale.max(a.scale()).max(b.scale()));
            let top = scale.max(product.scale());
            let mut expected = BigInt::from_signed_bytes_be(a.signed_bytes())
                * BigInt::from_signed_bytes_be(b.signed_bytes());
            for _ in scale..top {
                expected *= 10;
            }
            assert_eq!(lifted(&product, top), expected);
        }
    }
}

#[test]
fn negation_agrees_with_integers() {
    for a in &samples() {
        let negated = a.negated();
        assert_eq!(negated.scale(), a.scale());
        assert_eq!(
            BigInt::from_signed_bytes_be(negated.signed_bytes()),
            -BigInt::from_signed_bytes_be(a.signed_bytes())
        );
    }
}
