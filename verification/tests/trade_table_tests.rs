use backtest_engine::money::Money;
use backtest_engine::trade_table::TradeTableGenerator;
use backtest_engine::types::{
    Bar, EngineError, ExchangeRules, ExitReason, HitTpSl, IntrabarPolicy, SlippageMode,
    StrategySignal, TradeSide, TradeType,
};

fn d(num: i64, scale: u32) -> Money {
    Money::new(num, scale)
}

fn bar(timestamp: u64, open: i64, high: i64, low: i64, close: i64) -> Bar {
    Bar {
        timestamp,
        open: d(open, 1),
        high: d(high, 1),
        low: d(low, 1),
        close: d(close, 1),
        volume: d(10000, 1),
        trade_count: 100,
    }
}

fn signal(side: TradeSide, entry: Money, tp: i64, sl: i64) -> StrategySignal {
    StrategySignal {
        symbol: "BTCUSDT".to_string(),
        side,
        size: Some(d(10000, 1)),
        entry_price: Some(entry),
        take_profit: Some(d(tp, 1)),
        stop_loss: Some(d(sl, 1)),
        time_to_live: Some(3600000),
    }
}

#[test]
fn trade_table_test_trade_table_generator_creation() {
    let generator = TradeTableGenerator::new();
    assert_eq!(generator.default_size_usd(), d(10000, 1));
    assert!(generator.active_positions().is_empty());
    assert!(generator.trade_records().is_empty());
}

#[test]
fn trade_table_tests_test_trade_table_generator_creation() {
    let generator = TradeTableGenerator::new();
    assert_eq!(generator.default_size_usd(), d(10000, 1));
}

#[test]
fn test_symbol_filters() {
    let generator = TradeTableGenerator::new();
    let rules = ExchangeRules::default();
    let quantity = d(123456789, 9);
    let filtered = generator.apply_symbol_filters(quantity, &rules).unwrap();
    assert_eq!(filtered, d(12345679, 8));
}

#[test]
fn test_long_trade_execution() {
    let mut generator = TradeTableGenerator::new();
    let entry_bar = bar(1609459200000, 500000, 510000, 490000, 505000);
    let signals = vec![signal(TradeSide::Buy, entry_bar.close, 530000, 480000)];
    generator
        .process_bar(
            &entry_bar,
            &signals,
            &IntrabarPolicy::ExactTrades,
            &SlippageMode::Off,
            &ExchangeRules::default(),
        )
        .unwrap();
    let exit_bar = bar(1609459260000, 505000, 535000, 500000, 530000);
    generator
        .process_bar(
            &exit_bar,
            &[],
            &IntrabarPolicy::ExactTrades,
            &SlippageMode::Off,
            &ExchangeRules::default(),
        )
        .unwrap();
    let result = generator.generate_result().unwrap();
    assert_eq!(result.trades.len(), 1);
    let trade = &result.trades[0];
    assert_eq!(trade.trade_type, TradeType::Long);
    assert_eq!(trade.entry_price, d(505000, 1));
    assert_eq!(trade.exit_price, d(530000, 1));
    assert_eq!(trade.exit_reason, ExitReason::TakeProfit);
    assert_eq!(trade.hit_tp_sl, HitTpSl::TakeProfit);
    assert_eq!(trade.size_usd, d(10000, 1));
    let expected_pnl = d(530000, 1)
        .checked_sub(&d(505000, 1))
        .unwrap()
        .checked_mul(&trade.qty)
        .unwrap()
        .checked_sub(&trade.fees_usd)
        .unwrap();
    assert_eq!(trade.pnl_usd, expected_pnl);
    assert_eq!(result.summary.total_trades, 1);
    assert_eq!(result.summary.wins, 1);
    assert_eq!(result.summary.losses, 0);
}

#[test]
fn test_short_trade_execution() {
    let mut generator = TradeTableGenerator::new();
    let entry_bar = bar(1609459200000, 500000, 510000, 490000, 505000);
    let signals = vec![signal(TradeSide::Sell, entry_bar.close, 480000, 530000)];
    generator
        .process_bar(
            &entry_bar,
            &signals,
            &IntrabarPolicy::ExactTrades,
            &SlippageMode::Off,
            &ExchangeRules::default(),
        )
        .unwrap();
    let exit_bar = bar(1609459260000, 505000, 535000, 500000, 530000);
    generator
        .process_bar(
            &exit_bar,
            &[],
            &IntrabarPolicy::ExactTrades,
            &SlippageMode::Off,
            &ExchangeRules::default(),
        )
        .unwrap();
    let result = generator.generate_result().unwrap();
    assert_eq!(result.trades.len(), 1);
    let trade = &result.trades[0];
    assert_eq!(trade.trade_type, TradeType::Short);
    assert_eq!(trade.entry_price, d(505000, 1));
    assert_eq!(trade.exit_price, d(530000, 1));
    assert_eq!(trade.exit_reason, ExitReason::StopLoss);
    assert_eq!(trade.hit_tp_sl, HitTpSl::StopLoss);
    let expected_pnl = d(505000, 1)
        .checked_sub(&d(530000, 1))
        .unwrap()
        .checked_mul(&trade.qty)
        .unwrap()
        .checked_sub(&trade.fees_usd)
        .unwrap();
    assert_eq!(trade.pnl_usd, expected_pnl);
    assert_eq!(result.summary.total_trades, 1);
    assert_eq!(result.summary.wins, 0);
    assert_eq!(result.summary.losses, 1);
}

#[test]
fn test_trade_rejection_min_notional() {
    let mut generator = TradeTableGenerator::new();
    let mut rules = ExchangeRules::default();
    rules.min_notional = d(20000, 1);
    let entry_bar = bar(1609459200000, 500000, 510000, 490000, 500000);
    let signals = vec![signal(TradeSide::Buy, entry_bar.close, 525000, 475000)];
    generator
        .process_bar(
            &entry_bar,
            &signals,
            &IntrabarPolicy::ExactTrades,
            &SlippageMode::Off,
            &rules,
        )
        .unwrap();
    let result = generator.generate_result().unwrap();
    assert_eq!(result.trades.len(), 0);
    assert_eq!(result.rejected_trades.len(), 1);
    assert_eq!(result.rejected_trades[0].reason, "NotionalMin");
}

#[test]
fn test_multiple_trades_summary() {
    let mut generator = TradeTableGenerator::new();
    let bars = vec![
        bar(1609459200000, 500000, 510000, 490000, 505000),
        bar(1609459260000, 505000, 530000, 500000, 525000),
        bar(1609459320000, 525000, 530000, 500000, 520000),
        bar(1609459380000, 520000, 540000, 510000, 535000),
    ];
    let signals_sequence = vec![
        vec![signal(TradeSide::Buy, d(505000, 1), 530000, 480000)],
        vec![],
        vec![signal(TradeSide::Sell, d(520000, 1), 490000, 540000)],
        vec![],
    ];
    for (i, each) in bars.iter().enumerate() {
        generator
            .process_bar(
                each,
                &signals_sequence[i],
                &IntrabarPolicy::ExactTrades,
                &SlippageMode::Off,
                &ExchangeRules::default(),
            )
            .unwrap();
    }
    let result = generator.generate_result().unwrap();
    assert_eq!(result.trades.len(), 2);
    assert_eq!(result.summary.total_trades, 2);
    assert_eq!(result.summary.wins, 1);
    assert_eq!(result.summary.losses, 1);
    assert_eq!(result.summary.win_rate, d(500, 1));
}

#[test]
fn test_slippage_calculation() {
    let entry_bar = bar(1609459200000, 500000, 510000, 490000, 505000);
    let signals = vec![signal(TradeSide::Buy, entry_bar.close, 530000, 480000)];
    let slippage_modes =
        vec![SlippageMode::Off, SlippageMode::TradeSweep, SlippageMode::SyntheticBook];
    for slippage_mode in slippage_modes {
        let mut test_generator = TradeTableGenerator::new();
        test_generator
            .process_bar(
                &entry_bar,
                &signals,
                &IntrabarPolicy::ExactTrades,
                &slippage_mode,
                &ExchangeRules::default(),
            )
            .unwrap();
        assert_eq!(test_generator.default_size_usd(), d(10000, 1));
    }
}

#[test]
fn test_fee_calculation() {
    let rules = ExchangeRules::default();
    let quantity = d(2, 2);
    let price = d(500000, 1);
    let notional = quantity.checked_mul(&price).unwrap();
    let expected_fee = notional.checked_mul(&rules.taker_fee).unwrap();
    assert_eq!(expected_fee, d(10, 2));
}

#[test]
fn non_monotonic_bar_is_invalid_and_changes_nothing() {
    let mut generator = TradeTableGenerator::new();
    let first = bar(1000, 500000, 510000, 490000, 505000);
    generator
        .process_bar(&first, &[], &IntrabarPolicy::ExactTrades, &SlippageMode::Off, &ExchangeRules::default())
        .unwrap();
    let again = generator.process_bar(
        &first,
        &[signal(TradeSide::Buy, first.close, 530000, 480000)],
        &IntrabarPolicy::ExactTrades,
        &SlippageMode::Off,
        &ExchangeRules::default(),
    );
    assert_eq!(again, Err(EngineError::InvalidBar));
    assert!(generator.active_positions().is_empty());
}
