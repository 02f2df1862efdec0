use backtest_engine::money::{quantize, Money, RoundingMode};
use rust_decimal::Decimal;
use std::str::FromStr;

fn dm(text: &str) -> Money {
    let d = Decimal::from_str(text).unwrap();
    Money::from_parts(d.mantissa(), d.scale()).unwrap()
}

fn parts(m: Money) -> (i128, u32) {
    (m.mantissa(), m.scale())
}

const LIMIT: i128 = 79228162514264337593543950336;

fn pow10(e: u32) -> i128 {
    10i128.pow(e)
}

/// The exact sum as the contract states it, or None where it does not fit.
fn model_sum(a: (i128, u32), b: (i128, u32), negate_b: bool) -> Option<(i128, u32)> {
    let bm = if negate_b { -b.0 } else { b.0 };
    if a.0 == 0 {
        return Some((bm, b.1));
    }
    if b.0 == 0 {
        return Some(a);
    }
    let s = a.1.max(b.1);
    let x = a.0.checked_mul(pow10(s - a.1))?;
    let y = bm.checked_mul(pow10(s - b.1))?;
    let m = x.checked_add(y)?;
    if -LIMIT < m && m < LIMIT {
        Some((m, s))
    } else {
        None
    }
}

fn model_product(a: (i128, u32), b: (i128, u32)) -> Option<(i128, u32)> {
    if a.0 == 0 || b.0 == 0 {
        return Some((0, 0));
    }
    let m = a.0.checked_mul(b.0)?;
    if a.1 + b.1 <= 28 && -LIMIT < m && m < LIMIT {
        Some((m, a.1 + b.1))
    } else {
        None
    }
}

struct Lcg(u64);

impl Lcg {
    fn next(&mut self) -> u64 {
        self.0 = self.0.wrapping_mul(6364136223846793005).wrapping_add(1442695040888963407);
        self.0 >> 11
    }

    fn operand(&mut self) -> (i128, u32) {
        let bits = (self.next() % 96) as u32;
        let hi = self.next() as i128;
        let lo = self.next() as i128;
        let raw = ((hi << 53) | lo) & ((1i128 << bits) - 1).max(1);
        let sign = if self.next() % 2 == 0 { 1 } else { -1 };
        let scale = (self.next() % 29) as u32;
        let small = self.next() % 4 == 0;
        let m = if small { (self.next() % 1000) as i128 } else { raw };
        (sign * m, scale)
    }
}

#[test]
fn sums_that_fit_are_exact() {
    let mut rng = Lcg(7);
    let mut checked = 0;
    for _ in 0..20000 {
        let a = rng.operand();
        let b = rng.operand();
        let x = Money::from_parts(a.0, a.1).unwrap();
        let y = Money::from_parts(b.0, b.1).unwrap();
        if let Some(expected) = model_sum(a, b, false) {
            assert_eq!(x.checked_add(&y).map(parts), Some(expected), "{:?} + {:?}", a, b);
            checked += 1;
        }
        if let Some(expected) = model_sum(a, b, true) {
            assert_eq!(x.checked_sub(&y).map(parts), Some(expected), "{:?} - {:?}", a, b);
            checked += 1;
        }
    }
    assert!(checked > 5000);
}

#[test]
fn products_that_fit_are_exact() {
    let mut rng = Lcg(11);
    let mut checked = 0;
    for _ in 0..20000 {
        let a = rng.operand();
        let b = rng.operand();
        let x = Money::from_parts(a.0, a.1).unwrap();
        let y = Money::from_parts(b.0, b.1).unwrap();
        if let Some(expected) = model_product(a, b) {
            assert_eq!(x.checked_mul(&y).map(parts), Some(expected), "{:?} * {:?}", a, b);
            checked += 1;
        }
    }
    assert!(checked > 2000);
}

#[test]
fn sum_is_exact_when_only_the_rescaled_operand_overflows() {
    let a = Money::from_parts(7922816251426433759354395034, 0).unwrap();
    let b = Money::from_parts(-79228162514264337593543950335, 1).unwrap();
    assert_eq!(a.checked_add(&b).map(parts), Some((5, 1)));
    let c = Money::from_parts(79228162514264337593543950335, 1).unwrap();
    assert_eq!(a.checked_sub(&c).map(parts), Some((5, 1)));
}

#[test]
fn zero_operand_hands_the_other_back() {
    let zero = Money::new(0, 5);
    let x = Money::new(125, 2);
    assert_eq!(zero.checked_add(&x).map(parts), Some((125, 2)));
    assert_eq!(x.checked_add(&zero).map(parts), Some((125, 2)));
    assert_eq!(zero.checked_sub(&x).map(parts), Some((-125, 2)));
    assert_eq!(x.checked_sub(&zero).map(parts), Some((125, 2)));
    assert_eq!(zero.checked_mul(&x).map(parts), Some((0, 0)));
    assert_eq!(zero.checked_div(&x).map(parts), Some((0, 0)));
}

#[test]
fn overflow_and_division_by_zero_give_none() {
    let max = Money::from_parts(LIMIT - 1, 0).unwrap();
    assert!(max.checked_add(&max).is_none());
    assert!(max.checked_mul(&Money::new(2, 0)).is_none());
    assert!(Money::new(1, 0).checked_div(&Money::new(0, 3)).is_none());
}

#[test]
fn from_parts_accepts_exactly_the_representable() {
    assert!(Money::from_parts(LIMIT - 1, 28).is_some());
    assert!(Money::from_parts(-(LIMIT - 1), 0).is_some());
    assert!(Money::from_parts(LIMIT, 0).is_none());
    assert!(Money::from_parts(-LIMIT, 0).is_none());
    assert!(Money::from_parts(1, 29).is_none());
}

#[test]
fn division_rounds_to_twenty_eight_digits() {
    let q = Money::new(1, 0).checked_div(&Money::new(3, 0)).unwrap();
    assert_eq!(parts(q), (3333333333333333333333333333, 28));
    let exact = Money::new(10, 0).checked_div(&Money::new(4, 0)).unwrap();
    assert_eq!(exact, dm("2.5"));
}

#[test]
fn rounding_follows_each_mode() {
    let cases: [(&str, [i128; 5]); 8] = [
        ("2.5", [2, 3, 2, 3, 2]),
        ("3.5", [4, 4, 3, 4, 3]),
        ("-2.5", [-2, -3, -2, -2, -3]),
        ("-3.5", [-4, -4, -3, -3, -4]),
        ("2.4", [2, 2, 2, 3, 2]),
        ("-2.4", [-2, -2, -2, -2, -3]),
        ("2.51", [3, 3, 2, 3, 2]),
        ("0.000", [0, 0, 0, 0, 0]),
    ];
    let modes = [
        RoundingMode::NearestEven,
        RoundingMode::NearestAway,
        RoundingMode::TowardZero,
        RoundingMode::TowardPositive,
        RoundingMode::TowardNegative,
    ];
    for (text, expected) in cases.iter() {
        for (k, mode) in modes.iter().enumerate() {
            let r = dm(text).round_with(*mode);
            assert_eq!(parts(r), (expected[k], 0), "{} under mode {}", text, k);
        }
    }
    assert_eq!(parts(Money::new(17, 0).round()), (17, 0));
}

#[test]
fn rounding_matches_the_integer_formula() {
    let mut rng = Lcg(23);
    for _ in 0..5000 {
        let (m, s) = rng.operand();
        for (k, mode) in [
            RoundingMode::NearestEven,
            RoundingMode::NearestAway,
            RoundingMode::TowardZero,
            RoundingMode::TowardPositive,
            RoundingMode::TowardNegative,
        ]
        .iter()
        .enumerate()
        {
            let got = parts(Money::from_parts(m, s).unwrap().round_with(*mode));
            let expected = if s == 0 {
                (m, 0)
            } else {
                let p = pow10(s);
                let mag = m.abs();
                let q = mag / p;
                let rem = mag % p;
                let up = match k {
                    0 => 2 * rem > p || (2 * rem == p && q % 2 == 1),
                    1 => 2 * rem >= p,
                    2 => false,
                    3 => m > 0 && rem > 0,
                    _ => m < 0 && rem > 0,
                };
                let r = if up { q + 1 } else { q };
                (if m < 0 { -r } else { r }, 0)
            };
            assert_eq!(got, expected, "{} e-{} mode {}", m, s, k);
        }
    }
}

#[test]
fn comparison_is_by_value() {
    assert!(Money::new(10, 1).same_value(&Money::new(100, 2)));
    assert_eq!(Money::new(10, 1), Money::new(1, 0));
    assert!(!Money::new(10, 1).identical(&Money::new(100, 2)));
    assert!(Money::new(-5, 1).lt(&Money::new(1, 3)));
    assert!(Money::new(1, 3).gt(&Money::new(-5, 1)));
    assert!(Money::new(5, 1).le(&Money::new(50, 2)));
    assert!(Money::new(5, 1).ge(&Money::new(50, 2)));
    assert!(!Money::new(5, 1).lt(&Money::new(50, 2)));
    let mut rng = Lcg(5);
    for _ in 0..5000 {
        let a = rng.operand();
        let b = rng.operand();
        let s = a.1.max(b.1);
        if let (Some(x), Some(y)) =
            (a.0.checked_mul(pow10(s - a.1)), b.0.checked_mul(pow10(s - b.1)))
        {
            let l = Money::from_parts(a.0, a.1).unwrap();
            let r = Money::from_parts(b.0, b.1).unwrap();
            assert_eq!(l.lt(&r), x < y);
        }
    }
}

#[test]
fn max_and_min_keep_the_receiver_on_ties() {
    let a = Money::new(10, 1);
    let b = Money::new(100, 2);
    assert!(a.max(b).identical(&a));
    assert!(a.min(b).identical(&a));
    assert!(Money::new(1, 0).max(Money::new(2, 0)).identical(&Money::new(2, 0)));
    assert!(Money::new(1, 0).min(Money::new(2, 0)).identical(&Money::new(1, 0)));
}

#[test]
fn text_keeps_trailing_zeros() {
    assert_eq!(Money::new(10000, 1).to_text(), "1000.0");
    assert_eq!(Money::new(-5, 3).to_text(), "-0.005");
    assert_eq!(Money::new(12345679, 8).to_text(), "0.12345679");
    assert_eq!(Money::zero().to_text(), "0");
}

#[test]
fn abs_neg_and_zero() {
    assert_eq!(parts(Money::new(-5, 1).abs()), (5, 1));
    assert_eq!(parts(Money::new(5, 1).abs()), (5, 1));
    assert_eq!(parts(Money::new(5, 1).neg()), (-5, 1));
    assert!(Money::new(0, 4).is_zero());
    assert!(!Money::new(1, 4).is_zero());
    assert_eq!(parts(Money::from_u64(42)), (42, 0));
}

#[test]
fn power_of_ten_stops_at_nineteen() {
    assert_eq!(Money::power_of_ten(0).map(parts), Some((1, 0)));
    assert_eq!(Money::power_of_ten(8).map(parts), Some((100000000, 0)));
    assert_eq!(Money::power_of_ten(19).map(parts), Some((10000000000000000000, 0)));
    assert!(Money::power_of_ten(20).is_none());
}

#[test]
fn quantize_gives_the_nearest_multiple() {
    let q = quantize(Some(dm("100.123456")), &dm("0.01")).unwrap();
    assert_eq!(q, dm("100.12"));
    let half = quantize(Some(dm("0.125")), &dm("0.01")).unwrap();
    assert_eq!(half, dm("0.12"));
    let up = quantize(Some(dm("0.135")), &dm("0.01")).unwrap();
    assert_eq!(up, dm("0.14"));
    assert!(quantize(Some(dm("1")), &dm("0")).is_none());
    assert!(quantize(None, &dm("0.01")).is_none());
}

#[test]
fn text_matches_the_digit_formula() {
    let mut rng = Lcg(99);
    for _ in 0..5000 {
        let (m, s) = rng.operand();
        let mag = m.unsigned_abs();
        let unit = 10u128.pow(s);
        let mut expected = String::new();
        if m < 0 {
            expected.push('-');
        }
        expected.push_str(&(mag / unit).to_string());
        if s > 0 {
            expected.push('.');
            expected.push_str(&format!("{:0width$}", mag % unit, width = s as usize));
        }
        assert_eq!(Money::from_parts(m, s).unwrap().to_text(), expected);
    }
    assert_eq!(Money::new(0, 3).to_text(), "0.000");
    assert_eq!(Money::new(-1, 28).to_text(), "-0.0000000000000000000000000001");
}

#[test]
fn sums_at_the_edge_of_the_mantissa_are_exact() {
    let top = LIMIT - 1;
    for diff in 1u32..=28 {
        let unit = pow10(diff);
        // the smallest whole number whose rescaling no longer fits in 96 bits
        let a = LIMIT / unit + 1;
        let rest = a * unit - top;
        assert!(rest > 0 && rest < LIMIT);
        let x = Money::from_parts(a, 0).unwrap();
        let y = Money::from_parts(-top, diff).unwrap();
        assert_eq!(x.checked_add(&y).map(parts), Some((rest, diff)), "diff {}", diff);
        assert_eq!(y.checked_add(&x).map(parts), Some((rest, diff)), "diff {}", diff);
        let z = Money::from_parts(top, diff).unwrap();
        assert_eq!(x.checked_sub(&z).map(parts), Some((rest, diff)), "diff {}", diff);
        assert_eq!(z.checked_sub(&x).map(parts), Some((-rest, diff)), "diff {}", diff);
        // the largest whole number whose rescaling still fits
        let b = (LIMIT - 1) / unit;
        let w = Money::from_parts(b, 0).unwrap();
        let small = Money::from_parts(top - b * unit, diff).unwrap();
        assert_eq!(w.checked_add(&small).map(parts), Some((top, diff)), "diff {}", diff);
    }
    // equal scales, sums that just fit
    let half = Money::from_parts(LIMIT / 2, 3).unwrap();
    let almost = Money::from_parts(LIMIT / 2 - 1, 3).unwrap();
    assert_eq!(half.checked_add(&almost).map(parts), Some((LIMIT - 1, 3)));
    assert_eq!(half.neg().checked_sub(&almost).map(parts), Some((-(LIMIT - 1), 3)));
}

#[test]
fn products_at_the_edge_are_exact() {
    let a = (1i128 << 48) - 1;
    let b = (1i128 << 48) + 1;
    let x = Money::from_parts(a, 14).unwrap();
    let y = Money::from_parts(-b, 14).unwrap();
    assert_eq!(x.checked_mul(&y).map(parts), Some((-(LIMIT - 1), 28)));
    let big = Money::from_parts((LIMIT - 1) / 3, 20).unwrap();
    assert_eq!(big.checked_mul(&Money::new(3, 8)).map(parts), Some((LIMIT - 1, 28)));
    assert_eq!(
        Money::from_parts(1i128 << 95, 0).unwrap().checked_mul(&Money::new(1, 28)).map(parts),
        Some((1i128 << 95, 28))
    );
}
