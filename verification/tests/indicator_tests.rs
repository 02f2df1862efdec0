use backtest_engine::indicators::{
    calculate_atr, calculate_ema, calculate_highest_high, calculate_lowest_low, calculate_rsi,
    calculate_sma, calculate_vwap, compute_indicator, IndicatorRegistry,
};
use backtest_engine::money::Money;
use backtest_engine::types::{
    Bar, EngineError, ExchangeRules, IndicatorParams, IndicatorValue, MarketData,
};
use rust_decimal::Decimal;
use std::str::FromStr;

fn im(text: &str) -> Money {
    let d = Decimal::from_str(text).unwrap();
    Money::from_parts(d.mantissa(), d.scale()).unwrap()
}

fn bar(timestamp: u64, high: &str, low: &str, close: &str, volume: &str) -> Bar {
    Bar {
        timestamp,
        open: im(close),
        high: im(high),
        low: im(low),
        close: im(close),
        volume: im(volume),
        trade_count: 1,
    }
}

fn closes(values: &[&str]) -> Vec<Bar> {
    values.iter().enumerate().map(|(i, c)| bar(100 + i as u64, c, c, c, "1")).collect()
}

fn period(p: usize) -> IndicatorParams {
    IndicatorParams { period: p, alpha: None, threshold: None }
}

fn stamps(values: &[IndicatorValue]) -> Vec<u64> {
    values.iter().map(|v| v.timestamp).collect()
}

fn assert_values(values: &[IndicatorValue], expected: &[&str]) {
    assert_eq!(values.len(), expected.len());
    for (v, e) in values.iter().zip(expected.iter()) {
        assert_eq!(v.value, im(e), "at {}", v.timestamp);
    }
}

fn close_to(value: Money, expected: &str) -> bool {
    value.checked_sub(&im(expected)).unwrap().abs().lt(&im("0.0000000001"))
}

#[test]
fn sma_is_the_mean_of_each_window() {
    let bars = closes(&["1", "2", "3", "4", "6"]);
    let out = calculate_sma(&bars, &period(3)).unwrap();
    assert_values(&out, &["2", "3", "4.3333333333333333333333333333"]);
    assert_eq!(stamps(&out), vec![102, 103, 104]);
    assert!(calculate_sma(&bars, &period(6)).unwrap().is_empty());
    assert_eq!(calculate_sma(&bars, &period(5)).unwrap().len(), 1);
    assert_eq!(calculate_sma(&bars, &period(0)).err(), Some(EngineError::Arithmetic));
    assert!(calculate_sma(&[], &period(3)).unwrap().is_empty());
}

#[test]
fn ema_starts_at_the_sma_and_smooths() {
    let bars = closes(&["1", "2", "3", "4", "6"]);
    // alpha = 2 / 4 = 0.5
    let out = calculate_ema(&bars, &period(3)).unwrap();
    assert_values(&out, &["2", "3", "4.5"]);
    assert_eq!(stamps(&out), vec![102, 103, 104]);
    let given = IndicatorParams { period: 3, alpha: Some(im("0.1")), threshold: None };
    let out = calculate_ema(&bars, &given).unwrap();
    assert_values(&out, &["2", "2.2", "2.58"]);
    assert!(calculate_ema(&bars, &period(6)).unwrap().is_empty());
    assert_eq!(calculate_ema(&bars, &period(0)).err(), Some(EngineError::Arithmetic));
}

#[test]
fn rsi_uses_wilder_smoothing() {
    // changes: +1, -1, +2, +1
    let bars = closes(&["10", "11", "10", "12", "13"]);
    let out = calculate_rsi(&bars, &period(2)).unwrap();
    assert_eq!(stamps(&out), vec![103, 104]);
    // initial averages 0.5 and 0.5; then gain (0.5 + 2)/2 = 1.25, loss 0.25: rs = 5
    assert!(close_to(out[0].value, "83.3333333333333333"));
    // then gain (1.25 + 1)/2 = 1.125, loss 0.125: rs = 9, rsi = 90
    assert_eq!(out[1].value, im("90"));
    assert!(calculate_rsi(&bars, &period(4)).unwrap().is_empty());
    assert_eq!(calculate_rsi(&bars, &period(3)).unwrap().len(), 1);
    assert_eq!(calculate_rsi(&bars, &period(0)).err(), Some(EngineError::Arithmetic));
}

#[test]
fn rsi_is_one_hundred_without_losses() {
    let bars = closes(&["10", "11", "12", "13", "14"]);
    let out = calculate_rsi(&bars, &period(2)).unwrap();
    assert_values(&out, &["100", "100"]);
}

#[test]
fn atr_smooths_the_true_range() {
    let bars = vec![
        bar(1, "10", "8", "9", "1"),
        bar(2, "12", "9", "11", "1"),  // tr = max(3, 3, 0) = 3
        bar(3, "11", "10", "10", "1"), // tr = max(1, 0, 1) = 1
        bar(4, "15", "10", "14", "1"), // tr = max(5, 5, 0) = 5
        bar(5, "14", "6", "7", "1"),   // tr = max(8, 0, 8) = 8
    ];
    let out = calculate_atr(&bars, &period(2)).unwrap();
    assert_eq!(stamps(&out), vec![3, 4, 5]);
    // (3 + 1) / 2 = 2; (2 + 5) / 2 = 3.5; (3.5 + 8) / 2 = 5.75
    assert_values(&out, &["2", "3.5", "5.75"]);
    assert!(calculate_atr(&bars, &period(5)).unwrap().is_empty());
    assert_eq!(calculate_atr(&bars, &period(4)).unwrap().len(), 1);
}

#[test]
fn vwap_is_cumulative_and_zero_until_volume() {
    let bars = vec![
        bar(1, "12", "9", "9", "0"),
        bar(2, "12", "9", "9", "2"),  // typical 10
        bar(3, "22", "18", "20", "6"), // typical 20
    ];
    let out = calculate_vwap(&bars, &period(0)).unwrap();
    assert_eq!(stamps(&out), vec![1, 2, 3]);
    assert!(out[0].value.identical(&Money::new(0, 1)));
    assert_eq!(out[1].value, im("10"));
    // (10 * 2 + 20 * 6) / 8 = 17.5
    assert_eq!(out[2].value, im("17.5"));
    assert!(calculate_vwap(&[], &period(0)).unwrap().is_empty());
}

#[test]
fn rolling_extremes() {
    let bars = vec![
        bar(1, "5", "3", "4", "1"),
        bar(2, "7", "2", "4", "1"),
        bar(3, "6", "4", "4", "1"),
        bar(4, "4", "1", "4", "1"),
    ];
    let hh = calculate_highest_high(&bars, &period(2)).unwrap();
    assert_values(&hh, &["7", "7", "6"]);
    assert_eq!(stamps(&hh), vec![2, 3, 4]);
    let ll = calculate_lowest_low(&bars, &period(2)).unwrap();
    assert_values(&ll, &["2", "2", "1"]);
    assert_values(&calculate_highest_high(&bars, &period(4)).unwrap(), &["7"]);
    assert!(calculate_lowest_low(&bars, &period(5)).unwrap().is_empty());
    assert_eq!(calculate_lowest_low(&bars, &period(0)).err(), Some(EngineError::Arithmetic));
}

#[test]
fn equal_extremes_keep_the_latest_high_and_the_earliest_low() {
    let bars = vec![bar(1, "5.0", "2.00", "3", "1"), bar(2, "5.00", "2.0", "3", "1")];
    let hh = calculate_highest_high(&bars, &period(2)).unwrap();
    assert!(hh[0].value.identical(&Money::new(500, 2)));
    let ll = calculate_lowest_low(&bars, &period(2)).unwrap();
    assert!(ll[0].value.identical(&Money::new(200, 2)));
}

fn data(symbol: &str, bars: Vec<Bar>) -> MarketData {
    MarketData {
        symbol: symbol.to_string(),
        timeframe: "1m".to_string(),
        bars,
        trades: Vec::new(),
        rules: ExchangeRules::default(),
    }
}

fn ramp(n: usize, step: i64) -> Vec<Bar> {
    (0..n)
        .map(|i| {
            let c = Money::new(1000 + step * i as i64, 1);
            Bar {
                timestamp: i as u64,
                open: c,
                high: c.checked_add(&Money::new(5, 1)).unwrap(),
                low: c.checked_sub(&Money::new(5, 1)).unwrap(),
                close: c,
                volume: Money::new(1, 0),
                trade_count: 1,
            }
        })
        .collect()
}

#[test]
fn registry_knows_seven_names() {
    let mut registry = IndicatorRegistry::new(true).unwrap();
    assert!(registry.enable_simd());
    let d = data("BTCUSDT", ramp(30, 10));
    for (name, expected) in
        [("ema", 11), ("sma", 11), ("rsi", 15), ("atr", 16), ("vwap", 30), ("hh", 11), ("ll", 11)]
    {
        assert_eq!(registry.calculate(name, &d).unwrap().len(), expected, "{}", name);
    }
    assert_eq!(registry.calculate("macd", &d).err(), Some(EngineError::UnknownIndicator));
    let sma = registry.calculate("sma", &d).unwrap();
    // mean of 100.0, 101.0, ..., 119.0
    assert_eq!(sma[0].value, im("109.5"));
    assert_eq!(sma[0].timestamp, 19);
    let empty = data("BTCUSDT", Vec::new());
    assert_eq!(registry.calculate("macd", &empty).err(), Some(EngineError::UnknownIndicator));
    assert_eq!(registry.calculate("", &empty).err(), Some(EngineError::UnknownIndicator));
    for name in ["ema", "sma", "rsi", "atr", "vwap", "hh", "ll"] {
        assert!(registry.calculate(name, &empty).unwrap().is_empty(), "{}", name);
    }
}

#[test]
fn cache_hit_equals_fresh_computation_and_follows_the_bars() {
    let mut registry = IndicatorRegistry::new(false).unwrap();
    let first = data("BTCUSDT", ramp(25, 10));
    let a = registry.calculate("sma", &first).unwrap();
    let b = registry.calculate("sma", &first).unwrap();
    assert_eq!(a.len(), b.len());
    for (x, y) in a.iter().zip(b.iter()) {
        assert!(x.value.identical(&y.value));
        assert_eq!(x.timestamp, y.timestamp);
    }
    let fresh = compute_indicator(&"sma".to_string(), &first.bars).unwrap();
    for (x, y) in a.iter().zip(fresh.iter()) {
        assert!(x.value.identical(&y.value));
    }
    // other bars under the same symbol: the remembered series must not come back
    let second = data("BTCUSDT", ramp(25, 20));
    let c = registry.calculate("sma", &second).unwrap();
    assert_eq!(c[0].value, im("119"));
    assert_eq!(registry.calculate("sma", &first).unwrap()[0].value, im("109.5"));
    registry.clear();
    assert_eq!(registry.calculate("sma", &second).unwrap()[0].value, im("119"));
}

#[test]
fn lookup_is_by_name_and_symbol_together() {
    let mut registry = IndicatorRegistry::new(false).unwrap();
    let btc = data("BTCUSDT", ramp(25, 10));
    let eth = data("ETHUSDT", ramp(25, 20));
    assert_eq!(registry.calculate("sma", &btc).unwrap()[0].value, im("109.5"));
    assert_eq!(registry.calculate("sma", &eth).unwrap()[0].value, im("119"));
    assert_eq!(registry.calculate("hh", &btc).unwrap()[0].value, im("119.5"));
    // each of the three entries is found again under its own name and symbol
    assert_eq!(registry.calculate("sma", &btc).unwrap()[0].value, im("109.5"));
    assert_eq!(registry.calculate("sma", &eth).unwrap()[0].value, im("119"));
    assert_eq!(registry.calculate("hh", &btc).unwrap()[0].value, im("119.5"));
    assert_eq!(registry.calculate("ll", &eth).unwrap()[0].value, im("99.5"));
}
