use backtest_engine::money::Money;
use backtest_engine::simulator::{trades_between, ExchangeSimulator};
use backtest_engine::types::{
    Bar, EngineError, ExchangeRules, ExitReason, IntrabarPolicy, MarketData, RunError,
    SlippageMode, StrategySignal, Trade, TradeSide,
};
use backtest_engine::{BacktestEngine, BacktestJob, EngineConfig, PerformanceMetrics, RunManifest};
use rust_decimal::Decimal;
use std::str::FromStr;

fn xm(text: &str) -> Money {
    let d = Decimal::from_str(text).unwrap();
    Money::from_parts(d.mantissa(), d.scale()).unwrap()
}

fn ohlc(timestamp: u64, open: &str, high: &str, low: &str, close: &str) -> Bar {
    Bar {
        timestamp,
        open: xm(open),
        high: xm(high),
        low: xm(low),
        close: xm(close),
        volume: xm("1000"),
        trade_count: 10,
    }
}

fn buy(symbol: &str, tp: Option<&str>, sl: Option<&str>) -> StrategySignal {
    StrategySignal {
        symbol: symbol.to_string(),
        side: TradeSide::Buy,
        size: Some(xm("1000")),
        entry_price: None,
        take_profit: tp.map(xm),
        stop_loss: sl.map(xm),
        time_to_live: None,
    }
}

fn tick(timestamp: u64, price: &str) -> Trade {
    Trade {
        timestamp,
        price: xm(price),
        quantity: xm("1"),
        side: TradeSide::Sell,
        trade_id: format!("t{}", timestamp),
    }
}

fn market(bars: Vec<Bar>, trades: Vec<Trade>) -> MarketData {
    let mut rules = ExchangeRules::default();
    rules.taker_fee = xm("0");
    MarketData {
        symbol: "BTCUSDT".to_string(),
        timeframe: "1m".to_string(),
        bars,
        trades,
        rules,
    }
}

fn job(policy: IntrabarPolicy) -> BacktestJob {
    BacktestJob {
        job_id: "job-1".to_string(),
        symbols: vec!["BTCUSDT".to_string()],
        timeframe: "1m".to_string(),
        start_time: 0,
        end_time: 0,
        intrabar_policy: policy,
        fee_version: "v1".to_string(),
        slippage_mode: SlippageMode::Off,
        strategy_wasm_hash: "abc".to_string(),
        snapshot_id: "snap".to_string(),
    }
}

#[test]
fn empty_bars_give_an_empty_zeroed_result() {
    let mut sim = ExchangeSimulator::new().unwrap();
    let result = sim
        .simulate(
            &market(Vec::new(), Vec::new()),
            &Vec::new(),
            &IntrabarPolicy::LinearInterpolation,
            &SlippageMode::Off,
        )
        .unwrap();
    assert!(result.trades.is_empty());
    assert!(result.positions.is_empty());
    assert!(result.equity_curve.is_empty());
    assert_eq!(result.max_drawdown, xm("0"));
    assert_eq!(result.exposure, xm("0"));
    assert_eq!(result.attribution.len(), 3);
    assert_eq!(result.attribution[0].0, "momentum");
    assert_eq!(result.attribution[1].0, "mean_reversion");
    assert_eq!(result.attribution[2].0, "breakout");
    let table = sim.get_trade_table_result().unwrap();
    assert!(table.trades.is_empty());
    assert!(table.rejected_trades.is_empty());
    assert_eq!(table.summary.total_trades, 0);
    assert!(table.summary.profit_factor.identical(&Money::new(0, 1)));
    assert!(table.summary.net_pnl_usd.identical(&Money::new(0, 1)));
}

#[test]
fn a_run_keeps_one_equity_point_per_bar() {
    let mut sim = ExchangeSimulator::new().unwrap();
    let bars = vec![
        ohlc(0, "50000", "50000", "50000", "50000"),
        ohlc(60000, "50000", "50500", "49900", "50400"),
        ohlc(120000, "50500", "53500", "50000", "53000"),
    ];
    let signals = vec![vec![buy("BTCUSDT", Some("53000"), Some("48000"))]];
    let result = sim
        .simulate(
            &market(bars, Vec::new()),
            &signals,
            &IntrabarPolicy::LinearInterpolation,
            &SlippageMode::Off,
        )
        .unwrap();
    assert_eq!(result.equity_curve.len(), 3);
    let stamps: Vec<u64> = result.equity_curve.iter().map(|p| p.timestamp).collect();
    assert_eq!(stamps, vec![0, 60000, 120000]);
    assert_eq!(result.equity_curve[0].equity, xm("10000"));
    assert_eq!(result.equity_curve[0].exposure, xm("1000"));
    assert_eq!(result.equity_curve[1].exposure, xm("1000"));
    assert_eq!(result.equity_curve[2].equity, xm("10060"));
    assert_eq!(result.equity_curve[2].exposure, xm("0"));
    assert_eq!(result.equity_curve[2].drawdown, xm("0"));
    assert_eq!(result.exposure, xm("0"));
    // one execution for the one signal, at the bar's open under linear interpolation
    assert_eq!(result.trades.len(), 1);
    assert_eq!(result.trades[0].price, xm("50000"));
    assert_eq!(result.trades[0].reason_code, "linear_interpolation");
    assert_eq!(result.trades[0].quantity, xm("1000"));
    assert_eq!(result.trades[0].fee, xm("0"));
    assert_eq!(result.trades[0].slippage, xm("0"));
    assert_eq!(result.trades[0].symbol, "BTCUSDT");
    let table = sim.get_trade_table_result().unwrap();
    assert_eq!(table.trades.len(), 1);
    assert_eq!(table.trades[0].pnl_usd, xm("60"));
    assert_eq!(sim.equity_history().len(), 3);
    assert_eq!(sim.generator().trade_records().len(), 1);
}

#[test]
fn a_failing_bar_stops_the_run_with_its_timestamp() {
    let mut sim = ExchangeSimulator::new().unwrap();
    let bars = vec![
        ohlc(10, "50000", "50000", "50000", "50000"),
        ohlc(20, "50000", "50000", "50000", "50000"),
        ohlc(20, "50000", "50000", "50000", "50000"),
        ohlc(30, "50000", "50000", "50000", "50000"),
    ];
    let r = sim.simulate(
        &market(bars, Vec::new()),
        &Vec::new(),
        &IntrabarPolicy::LinearInterpolation,
        &SlippageMode::Off,
    );
    assert_eq!(r.err(), Some(RunError { kind: EngineError::InvalidBar, timestamp: 20 }));
    assert_eq!(sim.equity_history().len(), 2);
}

#[test]
fn the_tape_of_a_bar_decides_under_exact_trades() {
    let bars = vec![
        ohlc(0, "50000", "50000", "50000", "50000"),
        ohlc(60000, "49000", "53500", "47000", "50000"),
    ];
    let signals = vec![vec![buy("BTCUSDT", Some("53000"), Some("48000"))]];
    // take profit first in the second bar; the stop-loss print belongs to a later bar
    let tape = vec![tick(500, "47000"), tick(60001, "53100"), tick(60002, "47500")];
    let mut sim = ExchangeSimulator::new().unwrap();
    sim.simulate(
        &market(bars.clone(), tape),
        &signals,
        &IntrabarPolicy::ExactTrades,
        &SlippageMode::Off,
    )
    .unwrap();
    let table = sim.get_trade_table_result().unwrap();
    assert_eq!(table.trades.len(), 1);
    assert_eq!(table.trades[0].exit_reason, ExitReason::TakeProfit);
    // the other order on the tape: stop loss
    let tape = vec![tick(60001, "47500"), tick(60002, "53100")];
    let mut sim = ExchangeSimulator::new().unwrap();
    sim.simulate(&market(bars, tape), &signals, &IntrabarPolicy::ExactTrades, &SlippageMode::Off)
        .unwrap();
    let table = sim.get_trade_table_result().unwrap();
    assert_eq!(table.trades[0].exit_reason, ExitReason::StopLoss);
}

#[test]
fn trades_between_keeps_order_and_bounds() {
    let tape = vec![tick(5, "1"), tick(10, "2"), tick(15, "3"), tick(20, "4"), tick(12, "5")];
    let inside = trades_between(&tape, 10, Some(20));
    let stamps: Vec<u64> = inside.iter().map(|t| t.timestamp).collect();
    assert_eq!(stamps, vec![10, 15, 12]);
    assert_eq!(trades_between(&tape, 10, None).len(), 4);
    assert!(trades_between(&tape, 21, None).is_empty());
}

#[test]
fn executions_follow_the_policy() {
    let sim = ExchangeSimulator::new().unwrap();
    let rules = ExchangeRules::default();
    let b = ohlc(1000, "100", "170", "90", "160");
    let signals =
        vec![buy("A", None, None), buy("B", None, None), buy("C", None, None)];
    let exact = sim
        .simulate_intrabar(&b, &signals, &IntrabarPolicy::ExactTrades, &SlippageMode::TradeSweep, &rules)
        .unwrap();
    assert_eq!(exact.len(), 3);
    for t in exact.iter() {
        assert_eq!(t.price, xm("160.016"));
        assert_eq!(t.slippage, xm("0.016"));
        assert_eq!(t.timestamp, 1000);
        assert_eq!(t.reason_code, "strategy_signal");
        // 1000 * 160.016 * 0.0001
        assert_eq!(t.fee, xm("16.0016"));
    }
    let linear = sim
        .simulate_linear_interpolation(&b, &signals, &SlippageMode::Off, &rules)
        .unwrap();
    let prices: Vec<Money> = linear.iter().map(|t| t.price).collect();
    assert_eq!(prices, vec![xm("100"), xm("130"), xm("160")]);
    assert_eq!(linear[1].symbol, "B");
    let seconds =
        sim.simulate_one_second_bars(&b, &signals, &SlippageMode::Off, &rules).unwrap();
    let prices: Vec<Money> = seconds.iter().map(|t| t.price).collect();
    assert_eq!(prices, vec![xm("100"), xm("101"), xm("102")]);
    let stamps: Vec<u64> = seconds.iter().map(|t| t.timestamp).collect();
    assert_eq!(stamps, vec![1000, 2000, 3000]);
    assert_eq!(seconds[0].reason_code, "one_second_bar");
    let many: Vec<StrategySignal> = (0..70).map(|_| buy("A", None, None)).collect();
    assert_eq!(sim.simulate_one_second_bars(&b, &many, &SlippageMode::Off, &rules).unwrap().len(), 60);
    assert_eq!(sim.simulate_exact_trades(&b, &many, &SlippageMode::Off, &rules).unwrap().len(), 70);
    let single =
        sim.simulate_linear_interpolation(&b, &signals[..1], &SlippageMode::Off, &rules).unwrap();
    assert_eq!(single[0].price, xm("100"));
}

#[test]
fn quantizers_of_the_simulator() {
    let sim = ExchangeSimulator::new().unwrap();
    let mut rules = ExchangeRules::default();
    rules.tick_size = xm("0.5");
    rules.lot_size = xm("0.001");
    rules.precision_price = 2;
    assert_eq!(sim.quantize_price(xm("100.26"), &rules).unwrap(), xm("100.5"));
    assert_eq!(sim.quantize_quantity(xm("0.0126"), &rules).unwrap(), xm("0.013"));
    assert_eq!(sim.quantize_fee(xm("0.125"), &rules).unwrap(), xm("0.12"));
    assert_eq!(sim.quantize_fee(xm("0.135"), &rules).unwrap(), xm("0.14"));
    assert_eq!(sim.calculate_fee(xm("2"), xm("10"), &rules).unwrap(), xm("0"));
    assert_eq!(
        sim.calculate_execution_price(xm("100"), &TradeSide::Sell, &SlippageMode::SyntheticBook, &rules)
            .unwrap(),
        xm("100")
    );
    rules.precision_price = 20;
    assert_eq!(sim.quantize_fee(xm("0.125"), &rules), Err(EngineError::Arithmetic));
    assert_eq!(sim.calculate_exposure().unwrap(), xm("0"));
}

#[test]
fn running_twice_gives_the_same_outputs() {
    let run = || {
        let mut sim = ExchangeSimulator::new().unwrap();
        let bars = vec![
            ohlc(0, "50000", "50100", "49900", "50050"),
            ohlc(60000, "50050", "53500", "47000", "50000"),
            ohlc(120000, "50000", "50100", "49900", "50050"),
        ];
        let signals = vec![
            vec![buy("BTCUSDT", Some("53000"), Some("48000"))],
            vec![],
            vec![buy("BTCUSDT", None, None)],
        ];
        let r = sim
            .simulate(
                &market(bars, Vec::new()),
                &signals,
                &IntrabarPolicy::OneSecondBars,
                &SlippageMode::SyntheticBook,
            )
            .unwrap();
        let table = sim.get_trade_table_result().unwrap();
        (
            backtest_engine::export::render_csv(&table),
            r.equity_curve.iter().map(|p| (p.timestamp, p.equity.to_text(), p.drawdown.to_text(), p.exposure.to_text())).collect::<Vec<_>>(),
            r.trades.iter().map(|t| (t.timestamp, t.price.to_text(), t.fee.to_text())).collect::<Vec<_>>(),
        )
    };
    assert_eq!(run(), run());
}

#[test]
fn engine_runs_a_symbol_from_a_fresh_simulator() {
    let mut engine = BacktestEngine::new(EngineConfig::default()).unwrap();
    let bars = vec![
        ohlc(0, "50000", "50000", "50000", "50000"),
        ohlc(60000, "50500", "53500", "50000", "53000"),
    ];
    let signals = vec![vec![buy("BTCUSDT", Some("53000"), Some("48000"))]];
    let data = market(bars, Vec::new());
    for _ in 0..2 {
        let r = engine
            .execute_symbol_backtest("BTCUSDT", &job(IntrabarPolicy::LinearInterpolation), &data, &signals)
            .unwrap();
        assert_eq!(r.symbol, "BTCUSDT");
        assert_eq!(r.equity_curve.len(), 2);
        assert_eq!(r.drawdown, xm("0"));
        let table = r.trade_table.unwrap();
        assert_eq!(table.trades.len(), 1);
        assert_eq!(table.summary.net_pnl_usd, xm("60"));
    }
    assert_eq!(engine.performance_metrics(), PerformanceMetrics::new());
    let sma = engine.calculate_indicator("vwap", &data).unwrap();
    assert_eq!(sma.len(), 2);
    assert_eq!(engine.calculate_indicator("nope", &data).err(), Some(EngineError::UnknownIndicator));
}

#[test]
fn manifest_of_a_job() {
    let m = RunManifest::from_job(&job(IntrabarPolicy::OneSecondBars), "1.2.3", 77);
    assert_eq!(m.job_id, "job-1");
    assert_eq!(m.snapshot_id, "snap");
    assert_eq!(m.engine_version, "1.2.3");
    assert_eq!(m.strategy_hash, "abc");
    assert_eq!(m.intrabar_policy, "OneSecondBars");
    assert_eq!(m.slippage_mode, "None");
    assert_eq!(m.fee_version, "v1");
    assert_eq!(m.created_at, 77);
    assert_eq!(m.cpu_features, vec!["simd".to_string()]);
    assert_eq!(m.fp_flags, "nearest-even");
    let c = EngineConfig::default();
    assert_eq!(c.rounding_mode, "nearest-even");
    assert!(c.enable_simd && c.cpu_affinity.is_none());
    assert_eq!((c.prealloc_size, c.random_seed), (1_000_000, 42));
}

#[test]
fn engine_builds_its_registry_with_the_configured_flag() {
    let on = BacktestEngine::new(EngineConfig::default()).unwrap();
    assert!(on.indicators().enable_simd());
    let mut config = EngineConfig::default();
    config.enable_simd = false;
    let off = BacktestEngine::new(config).unwrap();
    assert!(!off.indicators().enable_simd());
    assert!(off.simulator().equity_history().is_empty());
    assert_eq!(off.performance_metrics(), PerformanceMetrics::new());
}

#[test]
fn executions_carry_the_size_of_their_signal() {
    let sim = ExchangeSimulator::new().unwrap();
    let rules = ExchangeRules::default();
    let b = ohlc(1000, "100", "170", "90", "160");
    let mut big = buy("A", None, None);
    big.size = Some(xm("2500"));
    let mut unset = buy("B", None, None);
    unset.size = None;
    let out = sim
        .simulate_intrabar(&b, &[big, unset], &IntrabarPolicy::ExactTrades, &SlippageMode::Off, &rules)
        .unwrap();
    assert_eq!(out[0].quantity, xm("2500"));
    // 2500 * 160 * 0.0001
    assert_eq!(out[0].fee, xm("40"));
    assert_eq!(out[1].quantity, xm("1000"));
    assert_eq!(out[1].fee, xm("16"));
}
