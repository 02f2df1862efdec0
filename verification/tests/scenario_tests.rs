use backtest_engine::money::Money;
use backtest_engine::summary::summarize;
use backtest_engine::trade_table::{
    check_exit_conditions, create_trade_record, TradeTableGenerator,
};
use backtest_engine::types::{
    ActivePosition, Bar, EngineError, ExchangeRules, ExitReason, HitTpSl, IntrabarPolicy,
    SlippageMode, StrategySignal, Trade, TradeRecord, TradeSide, TradeType,
};
use rust_decimal::Decimal;
use std::str::FromStr;

fn sm(text: &str) -> Money {
    let d = Decimal::from_str(text).unwrap();
    Money::from_parts(d.mantissa(), d.scale()).unwrap()
}

fn flat_bar(timestamp: u64, price: &str) -> Bar {
    ohlc(timestamp, price, price, price, price)
}

fn ohlc(timestamp: u64, open: &str, high: &str, low: &str, close: &str) -> Bar {
    Bar {
        timestamp,
        open: sm(open),
        high: sm(high),
        low: sm(low),
        close: sm(close),
        volume: sm("1000"),
        trade_count: 10,
    }
}

fn entry(symbol: &str, side: TradeSide, tp: Option<&str>, sl: Option<&str>, ttl: Option<u64>) -> StrategySignal {
    StrategySignal {
        symbol: symbol.to_string(),
        side,
        size: Some(sm("1000")),
        entry_price: None,
        take_profit: tp.map(sm),
        stop_loss: sl.map(sm),
        time_to_live: ttl,
    }
}

fn no_fee() -> ExchangeRules {
    let mut rules = ExchangeRules::default();
    rules.taker_fee = sm("0");
    rules.maker_fee = sm("0");
    rules
}

fn position(kind: TradeType, entry_price: &str, tp: Option<&str>, sl: Option<&str>, ttl: Option<u64>) -> ActivePosition {
    ActivePosition {
        symbol: "BTCUSDT".to_string(),
        trade_type: kind,
        entry_time: 1000,
        entry_price: sm(entry_price),
        quantity: sm("0.02"),
        take_profit: tp.map(sm),
        stop_loss: sl.map(sm),
        time_to_live: ttl,
        entry_fee: sm("0.1"),
        size_usd: sm("1000"),
    }
}

fn tick(timestamp: u64, price: &str) -> Trade {
    Trade {
        timestamp,
        price: sm(price),
        quantity: sm("1"),
        side: TradeSide::Buy,
        trade_id: "t".to_string(),
    }
}

#[test]
fn long_takes_profit() {
    let mut g = TradeTableGenerator::new();
    let rules = no_fee();
    g.process_bar(
        &flat_bar(0, "50000"),
        &[entry("BTCUSDT", TradeSide::Buy, Some("53000"), Some("48000"), None)],
        &IntrabarPolicy::LinearInterpolation,
        &SlippageMode::Off,
        &rules,
    )
    .unwrap();
    assert_eq!(g.active_positions().len(), 1);
    assert_eq!(g.active_positions()[0].quantity, sm("0.02"));
    g.process_bar(
        &ohlc(60000, "50500", "53500", "50000", "53000"),
        &[],
        &IntrabarPolicy::LinearInterpolation,
        &SlippageMode::Off,
        &rules,
    )
    .unwrap();
    let result = g.generate_result().unwrap();
    assert_eq!(result.trades.len(), 1);
    let t = &result.trades[0];
    assert_eq!(t.trade_type, TradeType::Long);
    assert_eq!(t.entry_price, sm("50000"));
    assert_eq!(t.exit_price, sm("53000"));
    assert_eq!(t.exit_reason, ExitReason::TakeProfit);
    assert_eq!(t.hit_tp_sl, HitTpSl::TakeProfit);
    assert_eq!(t.fees_usd, sm("0"));
    assert_eq!(t.pnl_usd, sm("60"));
    assert_eq!(t.pnl_pct, sm("0.06"));
    assert_eq!(t.entry_time_utc, "1970-01-01T00:00:00.000Z");
    assert_eq!(t.exit_time_utc, "1970-01-01T00:01:00.000Z");
    assert_eq!(t.date, "1970-01-01");
    assert_eq!(t.symbol, "BTCUSDT");
    assert_eq!((t.entry_time_ms, t.exit_time_ms), (0, 60000));
    assert!(g.active_positions().is_empty());
    assert_eq!(g.current_equity(), sm("10060"));
    assert_eq!(g.peak_equity(), sm("10060"));
    assert_eq!(g.max_drawdown(), sm("0"));
}

#[test]
fn short_stop_loss() {
    let mut g = TradeTableGenerator::new();
    let rules = ExchangeRules::default();
    g.process_bar(
        &ohlc(0, "50000", "51000", "49000", "50500"),
        &[entry("BTCUSDT", TradeSide::Sell, Some("48000"), Some("53000"), None)],
        &IntrabarPolicy::ExactTrades,
        &SlippageMode::Off,
        &rules,
    )
    .unwrap();
    g.process_bar(
        &ohlc(60000, "50500", "53500", "50000", "53000"),
        &[],
        &IntrabarPolicy::ExactTrades,
        &SlippageMode::Off,
        &rules,
    )
    .unwrap();
    let result = g.generate_result().unwrap();
    assert_eq!(result.trades.len(), 1);
    let t = &result.trades[0];
    assert_eq!(t.trade_type, TradeType::Short);
    assert_eq!(t.entry_price, sm("50500"));
    assert_eq!(t.exit_price, sm("53000"));
    assert_eq!(t.exit_reason, ExitReason::StopLoss);
    assert_eq!(t.hit_tp_sl, HitTpSl::StopLoss);
    // qty = round(1000 / 50500 / 1e-8) * 1e-8
    assert_eq!(t.qty, sm("0.01980198"));
    // fees: 0.01980198 * 50500 * 0.0001 and 0.01980198 * 53000 * 0.0001, to 8 decimals
    assert_eq!(t.fees_usd, sm("0.20495049"));
    assert_eq!(t.pnl_usd, sm("-49.70990049"));
    assert!(t.pnl_usd.lt(&sm("0")));
    assert_eq!(g.current_equity(), sm("9950.29009951"));
    assert_eq!(g.peak_equity(), sm("10000"));
    assert!(g.max_drawdown().gt(&sm("0.0049")) && g.max_drawdown().lt(&sm("0.005")));
}

#[test]
fn notional_rejection() {
    let mut g = TradeTableGenerator::new();
    let mut rules = ExchangeRules::default();
    rules.min_notional = sm("2000");
    g.process_bar(
        &flat_bar(0, "50000"),
        &[entry("BTCUSDT", TradeSide::Buy, None, None, None)],
        &IntrabarPolicy::LinearInterpolation,
        &SlippageMode::Off,
        &rules,
    )
    .unwrap();
    let result = g.generate_result().unwrap();
    assert_eq!(result.trades.len(), 0);
    assert!(g.active_positions().is_empty());
    assert_eq!(result.rejected_trades.len(), 1);
    let r = &result.rejected_trades[0];
    assert_eq!(r.reason, "NotionalMin");
    assert_eq!(r.notional, sm("1000"));
    assert_eq!(r.symbol, "BTCUSDT");
    assert_eq!(r.side, TradeSide::Buy);
    assert_eq!(r.timestamp, 0);
}

#[test]
fn notional_exactly_at_the_minimum_is_admitted() {
    let mut g = TradeTableGenerator::new();
    let mut rules = ExchangeRules::default();
    rules.min_notional = sm("1000");
    g.process_bar(
        &flat_bar(0, "50000"),
        &[entry("BTCUSDT", TradeSide::Buy, None, None, None)],
        &IntrabarPolicy::LinearInterpolation,
        &SlippageMode::Off,
        &rules,
    )
    .unwrap();
    assert_eq!(g.active_positions().len(), 1);
    assert!(g.rejected_trades().is_empty());
}

#[test]
fn timeout_exit_at_the_inclusive_boundary() {
    let mut g = TradeTableGenerator::new();
    let rules = no_fee();
    g.process_bar(
        &flat_bar(0, "50000"),
        &[entry("BTCUSDT", TradeSide::Buy, Some("60000"), Some("40000"), Some(60000))],
        &IntrabarPolicy::LinearInterpolation,
        &SlippageMode::Off,
        &rules,
    )
    .unwrap();
    g.process_bar(
        &ohlc(59999, "50000", "50100", "49900", "50050"),
        &[],
        &IntrabarPolicy::LinearInterpolation,
        &SlippageMode::Off,
        &rules,
    )
    .unwrap();
    assert_eq!(g.active_positions().len(), 1);
    g.process_bar(
        &ohlc(60000, "50000", "50100", "49900", "50050"),
        &[],
        &IntrabarPolicy::LinearInterpolation,
        &SlippageMode::Off,
        &rules,
    )
    .unwrap();
    let result = g.generate_result().unwrap();
    assert_eq!(result.trades.len(), 1);
    let t = &result.trades[0];
    assert_eq!(t.exit_reason, ExitReason::Timeout);
    assert_eq!(t.hit_tp_sl, HitTpSl::Neither);
    assert_eq!(t.exit_price, sm("50050"));
    assert_eq!(t.exit_time_ms, 60000);
    assert_eq!(t.pnl_usd, sm("1"));
}

#[test]
fn second_entry_on_the_same_bar_is_ignored() {
    let mut g = TradeTableGenerator::new();
    g.process_bar(
        &flat_bar(0, "50000"),
        &[
            entry("BTCUSDT", TradeSide::Buy, Some("53000"), None, None),
            entry("BTCUSDT", TradeSide::Buy, Some("54000"), None, None),
            entry("ETHUSDT", TradeSide::Sell, None, None, None),
        ],
        &IntrabarPolicy::LinearInterpolation,
        &SlippageMode::Off,
        &ExchangeRules::default(),
    )
    .unwrap();
    assert_eq!(g.active_positions().len(), 2);
    assert_eq!(g.active_positions()[0].symbol, "BTCUSDT");
    assert_eq!(g.active_positions()[0].take_profit, Some(sm("53000")));
    assert_eq!(g.active_positions()[1].symbol, "ETHUSDT");
    assert!(g.rejected_trades().is_empty());
}

#[test]
fn signal_on_the_exit_bar_is_ignored_because_the_symbol_is_still_open() {
    let mut g = TradeTableGenerator::new();
    let rules = no_fee();
    g.process_bar(
        &flat_bar(0, "50000"),
        &[entry("BTCUSDT", TradeSide::Buy, Some("53000"), None, None)],
        &IntrabarPolicy::LinearInterpolation,
        &SlippageMode::Off,
        &rules,
    )
    .unwrap();
    g.process_bar(
        &ohlc(1, "50000", "53500", "50000", "53000"),
        &[entry("BTCUSDT", TradeSide::Sell, None, None, None)],
        &IntrabarPolicy::LinearInterpolation,
        &SlippageMode::Off,
        &rules,
    )
    .unwrap();
    assert_eq!(g.trade_records().len(), 1);
    assert!(g.active_positions().is_empty());
}

fn record(pnl: &str, entry_ms: u64, exit_ms: u64) -> TradeRecord {
    TradeRecord {
        date: "1970-01-01".to_string(),
        trade_type: TradeType::Long,
        entry_price: sm("1"),
        entry_time_utc: String::new(),
        exit_price: sm("1"),
        exit_time_utc: String::new(),
        exit_reason: ExitReason::TakeProfit,
        hit_tp_sl: HitTpSl::TakeProfit,
        size_usd: sm("1000"),
        qty: sm("1"),
        fees_usd: sm("0"),
        pnl_usd: sm(pnl),
        pnl_pct: sm("0"),
        symbol: "BTCUSDT".to_string(),
        entry_time_ms: entry_ms,
        exit_time_ms: exit_ms,
    }
}

#[test]
fn aggregate_statistics() {
    let records =
        vec![record("100", 0, 3600000), record("-50", 0, 7200000), record("25", 0, 0)];
    let s = summarize(&records, sm("0.005")).unwrap();
    assert_eq!(s.total_trades, 3);
    assert_eq!(s.wins, 2);
    assert_eq!(s.losses, 1);
    assert!(s.win_rate.gt(&sm("66.666666")) && s.win_rate.lt(&sm("66.666667")));
    assert_eq!(s.net_pnl_usd, sm("75"));
    assert_eq!(s.avg_win_usd, sm("62.5"));
    assert_eq!(s.avg_loss_usd, sm("-50"));
    assert_eq!(s.profit_factor, sm("2.5"));
    let off = s.expectancy.checked_sub(&sm("25")).unwrap().abs();
    assert!(off.lt(&sm("0.000000000000000001")));
    assert_eq!(s.max_drawdown, sm("0.005"));
    assert_eq!(s.avg_holding_time_hours, sm("1"));
}

#[test]
fn empty_ledger_has_the_zeroed_summary() {
    let s = summarize(&Vec::new(), sm("0.25")).unwrap();
    assert_eq!((s.total_trades, s.wins, s.losses), (0, 0, 0));
    for v in [s.win_rate, s.net_pnl_usd, s.avg_win_usd, s.avg_loss_usd, s.expectancy, s.profit_factor, s.avg_holding_time_hours] {
        assert!(v.identical(&Money::new(0, 1)));
    }
    assert_eq!(s.max_drawdown, sm("0.25"));
}

#[test]
fn profit_factor_is_zero_without_losers() {
    let s = summarize(&vec![record("10", 0, 10), record("5", 0, 10)], sm("0")).unwrap();
    assert_eq!(s.losses, 0);
    assert!(s.profit_factor.identical(&Money::new(0, 1)));
    assert!(s.avg_loss_usd.identical(&Money::new(0, 1)));
    assert_eq!(s.win_rate, sm("100"));
    assert_eq!(s.expectancy, sm("7.5"));
}

#[test]
fn both_levels_touched_resolves_per_policy() {
    // Long with tp 53000 and sl 48000; the bar touches both.
    let long = position(TradeType::Long, "50000", Some("53000"), Some("48000"), None);
    // Open closer to the stop loss: distance rule picks the stop loss.
    let near_sl = ohlc(2000, "49000", "53500", "47000", "50000");
    let x = check_exit_conditions(&near_sl, &long, &IntrabarPolicy::LinearInterpolation, &[])
        .unwrap()
        .unwrap();
    assert_eq!((x.exit_reason, x.hit_tp_sl), (ExitReason::StopLoss, HitTpSl::StopLoss));
    assert_eq!(x.exit_price, sm("48000"));
    assert_eq!(x.exit_time, 2000);
    // Open closer to the take profit, or equally far: take profit.
    let near_tp = ohlc(2000, "52000", "53500", "47000", "50000");
    let x = check_exit_conditions(&near_tp, &long, &IntrabarPolicy::LinearInterpolation, &[])
        .unwrap()
        .unwrap();
    assert_eq!((x.exit_reason, x.exit_price), (ExitReason::TakeProfit, sm("53000")));
    let middle = ohlc(2000, "50500", "53500", "47000", "50000");
    let x = check_exit_conditions(&middle, &long, &IntrabarPolicy::LinearInterpolation, &[])
        .unwrap()
        .unwrap();
    assert_eq!(x.exit_reason, ExitReason::TakeProfit);

    // One-second bars: the path from open to close decides.  Rising from
    // 49000 to 53200 reaches the take profit on the way; neither level at
    // the open.
    let rising = ohlc(2000, "49000", "53500", "47000", "53200");
    let x = check_exit_conditions(&rising, &long, &IntrabarPolicy::OneSecondBars, &[])
        .unwrap()
        .unwrap();
    assert_eq!(x.exit_reason, ExitReason::TakeProfit);
    // The same bar under the distance rule exits by stop loss.
    let x = check_exit_conditions(&rising, &long, &IntrabarPolicy::LinearInterpolation, &[])
        .unwrap()
        .unwrap();
    assert_eq!(x.exit_reason, ExitReason::StopLoss);
    // Falling from 52000 to 47500 reaches the stop loss on the way.
    let falling = ohlc(2000, "52000", "53500", "47000", "47500");
    let x = check_exit_conditions(&falling, &long, &IntrabarPolicy::OneSecondBars, &[])
        .unwrap()
        .unwrap();
    assert_eq!(x.exit_reason, ExitReason::StopLoss);
    // A path that reaches neither level falls back to the distance rule.
    let quiet = ohlc(2000, "49000", "53500", "47000", "49500");
    let x = check_exit_conditions(&quiet, &long, &IntrabarPolicy::OneSecondBars, &[])
        .unwrap()
        .unwrap();
    assert_eq!(x.exit_reason, ExitReason::StopLoss);

    // Exact trades: the tape decides, first touch first.
    let tape_tp_first = vec![tick(2000, "50000"), tick(2001, "53100"), tick(2002, "47500")];
    let x = check_exit_conditions(&near_sl, &long, &IntrabarPolicy::ExactTrades, &tape_tp_first)
        .unwrap()
        .unwrap();
    assert_eq!(x.exit_reason, ExitReason::TakeProfit);
    let tape_sl_first = vec![tick(2000, "50000"), tick(2001, "47900"), tick(2002, "53100")];
    let x = check_exit_conditions(&near_tp, &long, &IntrabarPolicy::ExactTrades, &tape_sl_first)
        .unwrap()
        .unwrap();
    assert_eq!(x.exit_reason, ExitReason::StopLoss);
    // Without a tape, exact trades fall back to the one-second rule.
    let x = check_exit_conditions(&rising, &long, &IntrabarPolicy::ExactTrades, &[])
        .unwrap()
        .unwrap();
    assert_eq!(x.exit_reason, ExitReason::TakeProfit);
}

#[test]
fn short_levels_are_mirrored() {
    let short = position(TradeType::Short, "50000", Some("48000"), Some("53000"), None);
    let up = ohlc(2000, "50000", "53500", "49000", "53000");
    let x = check_exit_conditions(&up, &short, &IntrabarPolicy::LinearInterpolation, &[])
        .unwrap()
        .unwrap();
    assert_eq!((x.exit_reason, x.exit_price), (ExitReason::StopLoss, sm("53000")));
    let down = ohlc(2000, "50000", "51000", "47500", "48200");
    let x = check_exit_conditions(&down, &short, &IntrabarPolicy::LinearInterpolation, &[])
        .unwrap()
        .unwrap();
    assert_eq!((x.exit_reason, x.exit_price), (ExitReason::TakeProfit, sm("48000")));
    let calm = ohlc(2000, "50000", "51000", "49000", "50500");
    assert!(check_exit_conditions(&calm, &short, &IntrabarPolicy::LinearInterpolation, &[])
        .unwrap()
        .is_none());
}

#[test]
fn timeout_against_levels_per_policy() {
    // Timed out and take profit touched on the same bar.
    let long = position(TradeType::Long, "50000", Some("53000"), None, Some(1000));
    let b = ohlc(2000, "50000", "53500", "49500", "53200");
    let x = check_exit_conditions(&b, &long, &IntrabarPolicy::LinearInterpolation, &[])
        .unwrap()
        .unwrap();
    assert_eq!(x.exit_reason, ExitReason::TakeProfit);
    // Under one-second bars the timeout is already due at the first step.
    let x = check_exit_conditions(&b, &long, &IntrabarPolicy::OneSecondBars, &[]).unwrap().unwrap();
    assert_eq!((x.exit_reason, x.exit_price), (ExitReason::Timeout, sm("53200")));
    // Unless the open itself touches the level.
    let gap = ohlc(2000, "53100", "53500", "49500", "53200");
    let x =
        check_exit_conditions(&gap, &long, &IntrabarPolicy::OneSecondBars, &[]).unwrap().unwrap();
    assert_eq!(x.exit_reason, ExitReason::TakeProfit);
}

#[test]
fn record_of_a_closed_short() {
    let short = position(TradeType::Short, "50000", Some("48000"), Some("53000"), None);
    let b = ohlc(1609459260000, "50000", "51000", "47500", "48200");
    let x = check_exit_conditions(&b, &short, &IntrabarPolicy::LinearInterpolation, &[])
        .unwrap()
        .unwrap();
    let r = create_trade_record(&short, &x, &ExchangeRules::default()).unwrap();
    // exit fee 0.02 * 48000 * 0.0001 = 0.096; total 0.196
    assert_eq!(r.fees_usd, sm("0.196"));
    assert_eq!(r.pnl_usd, sm("39.804"));
    assert_eq!(r.pnl_pct, sm("0.039804"));
    assert_eq!(r.exit_time_utc, "2021-01-01T00:01:00.000Z");
    assert_eq!(r.entry_time_utc, "1970-01-01T00:00:01.000Z");
    assert_eq!(r.date, "2021-01-01");
}

#[test]
fn bars_that_break_an_invariant_are_invalid() {
    let rules = ExchangeRules::default();
    let run = |b: Bar| {
        TradeTableGenerator::new().process_bar(
            &b,
            &[],
            &IntrabarPolicy::LinearInterpolation,
            &SlippageMode::Off,
            &rules,
        )
    };
    assert_eq!(run(ohlc(1, "10", "9", "11", "10")), Err(EngineError::InvalidBar));
    assert_eq!(run(ohlc(1, "12", "11", "9", "10")), Err(EngineError::InvalidBar));
    assert_eq!(run(ohlc(1, "10", "11", "9", "8")), Err(EngineError::InvalidBar));
    let mut negative = ohlc(1, "10", "11", "9", "10");
    negative.volume = sm("-1");
    assert_eq!(run(negative), Err(EngineError::InvalidBar));
    assert_eq!(run(ohlc(u64::MAX, "10", "11", "9", "10")), Err(EngineError::InvalidBar));
    assert_eq!(run(ohlc(1, "10", "11", "9", "10")), Ok(()));
}

#[test]
fn arithmetic_failure_leaves_the_generator_unchanged() {
    let mut g = TradeTableGenerator::new();
    let mut rules = ExchangeRules::default();
    rules.lot_size = sm("0");
    let r = g.process_bar(
        &flat_bar(5, "50000"),
        &[entry("BTCUSDT", TradeSide::Buy, None, None, None)],
        &IntrabarPolicy::LinearInterpolation,
        &SlippageMode::Off,
        &rules,
    );
    assert_eq!(r, Err(EngineError::Arithmetic));
    assert!(g.active_positions().is_empty());
    assert!(g.rejected_trades().is_empty());
    // the bar was not consumed: the same timestamp is still acceptable
    assert_eq!(
        g.process_bar(
            &flat_bar(5, "50000"),
            &[],
            &IntrabarPolicy::LinearInterpolation,
            &SlippageMode::Off,
            &ExchangeRules::default()
        ),
        Ok(())
    );
}

#[test]
fn slippage_moves_the_entry_against_the_trader() {
    let g = TradeTableGenerator::new();
    let rules = ExchangeRules::default();
    let base = sm("50000");
    let buy = |mode| g.apply_slippage(base, &TradeSide::Buy, &mode, &rules).unwrap();
    let sell = |mode| g.apply_slippage(base, &TradeSide::Sell, &mode, &rules).unwrap();
    assert_eq!(buy(SlippageMode::Off), sm("50000"));
    assert_eq!(buy(SlippageMode::TradeSweep), sm("50005"));
    assert_eq!(buy(SlippageMode::SyntheticBook), sm("50025"));
    assert_eq!(sell(SlippageMode::TradeSweep), sm("49995"));
    assert_eq!(sell(SlippageMode::SyntheticBook), sm("49975"));
    let mut coarse = ExchangeRules::default();
    coarse.tick_size = sm("10");
    assert_eq!(
        g.apply_slippage(base, &TradeSide::Buy, &SlippageMode::TradeSweep, &coarse).unwrap(),
        sm("50000")
    );
    assert_eq!(g.calculate_fee(sm("0.02"), sm("50000"), &rules).unwrap(), sm("0.1"));
    assert_eq!(g.calculate_fee(sm("0.0123456789"), sm("3"), &rules).unwrap(), sm("0.0000037"));
    let b = ohlc(1, "100", "110", "90", "105");
    let price = |policy, wanted| {
        g.calculate_entry_price(&b, wanted, &TradeSide::Buy, &policy, &SlippageMode::Off, &rules)
            .unwrap()
    };
    assert_eq!(price(IntrabarPolicy::ExactTrades, None), sm("105"));
    assert_eq!(price(IntrabarPolicy::ExactTrades, Some(sm("101"))), sm("101"));
    assert_eq!(price(IntrabarPolicy::OneSecondBars, Some(sm("101"))), sm("100"));
    assert_eq!(price(IntrabarPolicy::LinearInterpolation, None), sm("100"));
}

#[test]
fn drawdown_never_falls_and_equity_follows_the_ledger() {
    let mut g = TradeTableGenerator::new();
    let rules = no_fee();
    let mut t = 0u64;
    let mut last_dd = g.max_drawdown();
    let moves = [("50000", "49000"), ("50000", "52000"), ("50000", "45000"), ("50000", "50500")];
    for (entry_price, exit_price) in moves.iter() {
        t += 1;
        g.process_bar(
            &flat_bar(t, entry_price),
            &[entry("BTCUSDT", TradeSide::Buy, None, None, Some(1))],
            &IntrabarPolicy::LinearInterpolation,
            &SlippageMode::Off,
            &rules,
        )
        .unwrap();
        t += 1;
        g.process_bar(
            &flat_bar(t, exit_price),
            &[],
            &IntrabarPolicy::LinearInterpolation,
            &SlippageMode::Off,
            &rules,
        )
        .unwrap();
        assert!(g.max_drawdown().ge(&last_dd));
        assert!(g.max_drawdown().ge(&sm("0")) && g.max_drawdown().le(&sm("1")));
        last_dd = g.max_drawdown();
        let mut total = Money::zero();
        for r in g.trade_records().iter() {
            total = total.checked_add(&r.pnl_usd).unwrap();
        }
        assert_eq!(g.current_equity().checked_sub(&g.starting_equity()).unwrap(), total);
    }
    assert_eq!(g.trade_records().len(), 4);
    // pnl: -20, +40, -100, +10
    assert_eq!(g.current_equity(), sm("9930"));
    assert_eq!(g.peak_equity(), sm("10020"));
    // deepest: (10020 - 9920) / 10020
    assert!(g.max_drawdown().gt(&sm("0.00998")) && g.max_drawdown().lt(&sm("0.00999")));
}

#[test]
fn profit_before_fees_has_the_sign_of_the_move() {
    let rules = ExchangeRules::default();
    let long = position(TradeType::Long, "50000", Some("50001"), None, None);
    let up = ohlc(2000, "50000", "50002", "49999", "50001");
    let x = check_exit_conditions(&up, &long, &IntrabarPolicy::LinearInterpolation, &[])
        .unwrap()
        .unwrap();
    let r = create_trade_record(&long, &x, &rules).unwrap();
    // the move of 1 on 0.02 is less than the fees, yet profit plus fees is above zero
    assert!(r.pnl_usd.lt(&sm("0")));
    assert_eq!(r.pnl_usd.checked_add(&r.fees_usd).unwrap(), sm("0.02"));
    let short = position(TradeType::Short, "50000", Some("49999"), None, None);
    let down = ohlc(2000, "50000", "50001", "49998", "49999");
    let x = check_exit_conditions(&down, &short, &IntrabarPolicy::LinearInterpolation, &[])
        .unwrap()
        .unwrap();
    let r = create_trade_record(&short, &x, &rules).unwrap();
    assert!(r.pnl_usd.checked_add(&r.fees_usd).unwrap().gt(&sm("0")));
    // fees: entry fee plus the fee of the exit, by the same formula
    let g = TradeTableGenerator::new();
    let exit_fee = g.calculate_fee(short.quantity, x.exit_price, &rules).unwrap();
    assert_eq!(r.fees_usd, short.entry_fee.checked_add(&exit_fee).unwrap());
}

fn sized(symbol: &str, size: Option<&str>, tp: &str, sl: &str) -> StrategySignal {
    StrategySignal {
        symbol: symbol.to_string(),
        side: TradeSide::Buy,
        size: size.map(sm),
        entry_price: None,
        take_profit: Some(sm(tp)),
        stop_loss: Some(sm(sl)),
        time_to_live: None,
    }
}

#[test]
fn entry_takes_the_size_of_its_signal() {
    let mut g = TradeTableGenerator::new();
    let rules = ExchangeRules::default();
    g.process_bar(
        &flat_bar(0, "50000"),
        &[
            sized("BTCUSDT", Some("2000"), "53000", "48000"),
            sized("ETHUSDT", None, "53000", "48000"),
            sized("SOLUSDT", Some("250.5"), "53000", "48000"),
        ],
        &IntrabarPolicy::ExactTrades,
        &SlippageMode::Off,
        &rules,
    )
    .unwrap();
    let open = g.active_positions();
    assert_eq!(open.len(), 3);
    assert_eq!(open[0].size_usd, sm("2000"));
    assert_eq!(open[0].quantity, sm("0.04"));
    // fee: 0.04 * 50000 * 0.0001
    assert_eq!(open[0].entry_fee, sm("0.2"));
    // without a size of its own the signal gets the configured default
    assert_eq!(open[1].size_usd, sm("1000"));
    assert_eq!(open[1].quantity, sm("0.02"));
    assert_eq!(open[2].size_usd, sm("250.5"));
    assert_eq!(open[2].quantity, sm("0.00501"));
    g.process_bar(
        &ohlc(60000, "50500", "53500", "50000", "53000"),
        &[],
        &IntrabarPolicy::ExactTrades,
        &SlippageMode::Off,
        &rules,
    )
    .unwrap();
    let result = g.generate_result().unwrap();
    assert_eq!(result.trades.len(), 3);
    let t = &result.trades[0];
    assert_eq!(t.size_usd, sm("2000"));
    assert_eq!(t.qty, sm("0.04"));
    // exit fee 0.04 * 53000 * 0.0001 = 0.212; profit 3000 * 0.04 - 0.412
    assert_eq!(t.fees_usd, sm("0.412"));
    assert_eq!(t.pnl_usd, sm("119.588"));
    assert_eq!(t.pnl_pct, sm("0.059794"));
    assert_eq!(result.trades[1].size_usd, sm("1000"));
    assert_eq!(result.trades[1].qty, sm("0.02"));
    assert_eq!(g.entry_size(&sized("X", Some("7"), "1", "1")), sm("7"));
    assert_eq!(g.entry_size(&sized("X", None, "1", "1")), sm("1000"));
}

#[test]
fn notional_filter_looks_at_the_size_of_the_signal() {
    let mut g = TradeTableGenerator::new();
    let mut rules = ExchangeRules::default();
    rules.min_notional = sm("1500");
    g.process_bar(
        &flat_bar(0, "50000"),
        &[
            sized("BTCUSDT", Some("2000"), "53000", "48000"),
            sized("ETHUSDT", None, "53000", "48000"),
            sized("SOLUSDT", Some("1499.99"), "53000", "48000"),
            sized("ADAUSDT", Some("1500"), "53000", "48000"),
        ],
        &IntrabarPolicy::LinearInterpolation,
        &SlippageMode::Off,
        &rules,
    )
    .unwrap();
    let open: Vec<&str> = g.active_positions().iter().map(|p| p.symbol.as_str()).collect();
    assert_eq!(open, vec!["BTCUSDT", "ADAUSDT"]);
    let refused = g.rejected_trades();
    assert_eq!(refused.len(), 2);
    assert_eq!(refused[0].symbol, "ETHUSDT");
    assert_eq!(refused[0].notional, sm("1000"));
    assert_eq!(refused[1].symbol, "SOLUSDT");
    // 1499.99 / 50000 = 0.0299998 is a whole number of lots
    assert_eq!(refused[1].notional, sm("1499.99"));
    let sizes = TradeTableGenerator::with_settings(sm("10000"), sm("5000"));
    let mut g = sizes;
    g.process_bar(
        &flat_bar(0, "50000"),
        &[sized("BTCUSDT", None, "53000", "48000")],
        &IntrabarPolicy::LinearInterpolation,
        &SlippageMode::Off,
        &rules,
    )
    .unwrap();
    assert_eq!(g.active_positions()[0].size_usd, sm("5000"));
    assert_eq!(g.active_positions()[0].quantity, sm("0.1"));
}

#[test]
fn a_move_too_small_to_hold_leaves_nothing_before_fees() {
    let tiny = Money::from_parts(1, 28).unwrap();
    let long = ActivePosition {
        symbol: "BTCUSDT".to_string(),
        trade_type: TradeType::Long,
        entry_time: 1000,
        entry_price: tiny,
        quantity: tiny,
        take_profit: Some(Money::from_parts(2, 28).unwrap()),
        stop_loss: None,
        time_to_live: None,
        entry_fee: sm("0"),
        size_usd: sm("1000"),
    };
    let up = Bar {
        timestamp: 2000,
        open: tiny,
        high: Money::from_parts(3, 28).unwrap(),
        low: tiny,
        close: Money::from_parts(2, 28).unwrap(),
        volume: sm("1"),
        trade_count: 1,
    };
    let x = check_exit_conditions(&up, &long, &IntrabarPolicy::LinearInterpolation, &[])
        .unwrap()
        .unwrap();
    assert_eq!(x.exit_reason, ExitReason::TakeProfit);
    assert!(x.exit_price.gt(&long.entry_price));
    let r = create_trade_record(&long, &x, &no_fee()).unwrap();
    // the move times the quantity has fifty-six decimals: it is held as zero
    assert_eq!(r.pnl_usd.checked_add(&r.fees_usd).unwrap(), sm("0"));
}

#[test]
fn a_loss_beyond_the_peak_gives_a_drawdown_above_one() {
    let mut g = TradeTableGenerator::new();
    let rules = no_fee();
    g.process_bar(
        &flat_bar(0, "50000"),
        &[sized("BTCUSDT", Some("2000000"), "60000", "40000")],
        &IntrabarPolicy::LinearInterpolation,
        &SlippageMode::Off,
        &rules,
    )
    .unwrap();
    assert_eq!(g.active_positions()[0].quantity, sm("40"));
    g.process_bar(
        &ohlc(60000, "50000", "50000", "39000", "39500"),
        &[],
        &IntrabarPolicy::LinearInterpolation,
        &SlippageMode::Off,
        &rules,
    )
    .unwrap();
    assert_eq!(g.trade_records()[0].pnl_usd, sm("-400000"));
    assert_eq!(g.current_equity(), sm("-390000"));
    assert_eq!(g.peak_equity(), sm("10000"));
    // (10000 + 390000) / 10000
    assert_eq!(g.max_drawdown(), sm("40"));
}
