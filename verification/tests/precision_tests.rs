use backtest_engine::money::Money;
use backtest_engine::precision::{FloatConfig, PreciseDecimal, PrecisionConfig, RoundingMode};
use backtest_engine::types::EngineError;
use rust_decimal::prelude::FromPrimitive;
use rust_decimal::Decimal;
use std::str::FromStr;

fn from_float(value: f64) -> Money {
    let d = Decimal::from_f64(value).unwrap();
    Money::from_parts(d.mantissa(), d.scale()).unwrap()
}

fn pm(text: &str) -> Money {
    let d = Decimal::from_str(text).unwrap();
    Money::from_parts(d.mantissa(), d.scale()).unwrap()
}

#[test]
fn test_precision_rounding() {
    let _config = PrecisionConfig::default();
    let precise =
        PreciseDecimal::new(from_float(1.23456789), 4, RoundingMode::NearestEven).unwrap();
    assert_eq!(precise.value(), pm("1.2346"));
}

#[test]
fn test_tick_quantization() {
    let price = PreciseDecimal::new(from_float(100.123456), 8, RoundingMode::NearestEven).unwrap();
    let tick_size = pm("0.01");
    let quantized = price.quantize_to_tick(tick_size).unwrap();
    assert_eq!(quantized.value(), pm("100.12"));
}

#[test]
fn test_min_notional_check() {
    let price = PreciseDecimal::new(from_float(100.0), 8, RoundingMode::NearestEven).unwrap();
    let quantity = pm("0.05");
    let min_notional = pm("10.0");
    let result = price.ensure_min_notional(min_notional, quantity);
    assert!(result.is_err());
}

#[test]
fn min_notional_error_is_the_notional_kind() {
    let price = PreciseDecimal::new(pm("100"), 8, RoundingMode::NearestEven).unwrap();
    assert_eq!(
        price.ensure_min_notional(pm("10.0"), pm("0.05")).map(|p| p.value()),
        Err(EngineError::NotionalMin)
    );
    let kept = price.ensure_min_notional(pm("5"), pm("0.05")).unwrap();
    assert_eq!(kept.value(), pm("100"));
    assert_eq!(kept.precision(), 8);
}

#[test]
fn rounding_to_precision_follows_the_mode() {
    let v = pm("1.23455");
    let r = |mode| PreciseDecimal::round_to_precision(v, 4, mode).unwrap();
    assert_eq!(r(RoundingMode::NearestEven), pm("1.2346"));
    assert_eq!(r(RoundingMode::NearestAway), pm("1.2346"));
    assert_eq!(r(RoundingMode::TowardZero), pm("1.2345"));
    assert_eq!(r(RoundingMode::TowardPositive), pm("1.2346"));
    assert_eq!(r(RoundingMode::TowardNegative), pm("1.2345"));
    let half = pm("1.23445");
    assert_eq!(
        PreciseDecimal::round_to_precision(half, 4, RoundingMode::NearestEven).unwrap(),
        pm("1.2344")
    );
    assert_eq!(
        PreciseDecimal::round_to_precision(half, 4, RoundingMode::NearestAway).unwrap(),
        pm("1.2345")
    );
    assert_eq!(
        PreciseDecimal::round_to_precision(pm("-1.23445"), 4, RoundingMode::TowardNegative)
            .unwrap(),
        pm("-1.2345")
    );
}

#[test]
fn precision_above_nineteen_is_an_arithmetic_error() {
    assert_eq!(
        PreciseDecimal::round_to_precision(pm("1"), 20, RoundingMode::NearestEven),
        Err(EngineError::Arithmetic)
    );
    assert!(PreciseDecimal::new(pm("1"), 20, RoundingMode::NearestEven).is_err());
    assert!(PreciseDecimal::new(pm("1"), 19, RoundingMode::NearestEven).is_ok());
}

#[test]
fn arithmetic_keeps_the_larger_precision() {
    let a = || PreciseDecimal::new(pm("1.005"), 2, RoundingMode::NearestEven).unwrap();
    let b = || PreciseDecimal::new(pm("2.0005"), 3, RoundingMode::TowardZero).unwrap();
    assert_eq!(a().value(), pm("1.00"));
    assert_eq!(b().value(), pm("2.000"));
    let sum = a().add(b()).unwrap();
    assert_eq!(sum.value(), pm("3"));
    assert_eq!(sum.precision(), 3);
    assert_eq!(sum.rounding_mode(), RoundingMode::NearestEven);
    assert_eq!(b().sub(a()).unwrap().value(), pm("1"));
    assert_eq!(a().mul(b()).unwrap().value(), pm("2"));
    assert_eq!(b().div(a()).unwrap().value(), pm("2"));
    let zero = PreciseDecimal::new(pm("0"), 2, RoundingMode::NearestEven).unwrap();
    assert_eq!(a().div(zero).map(|p| p.value()), Err(EngineError::Arithmetic));
    let third = PreciseDecimal::new(pm("1"), 4, RoundingMode::NearestEven)
        .unwrap()
        .div(PreciseDecimal::new(pm("3"), 2, RoundingMode::NearestEven).unwrap())
        .unwrap();
    assert_eq!(third.value(), pm("0.3333"));
}

#[test]
fn configs_default_to_nearest_even() {
    let p = PrecisionConfig::default();
    assert_eq!((p.price_precision, p.quantity_precision, p.fee_precision), (8, 8, 8));
    assert_eq!(p.rounding_mode, RoundingMode::NearestEven);
    let f = FloatConfig::default();
    assert_eq!(f.rounding_mode, RoundingMode::NearestEven);
    assert!(!f.enable_fma && !f.enable_fast_math);
}
