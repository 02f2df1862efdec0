use backtest_engine::export::{
    combine_results, render_csv, sort_by_exit, ExportConfig, ExportError, ExportFormat,
    ExportPayload, TradeTableExporter,
};
use backtest_engine::money::Money;
use backtest_engine::summary::summarize;
use backtest_engine::types::{
    ExitReason, HitTpSl, RejectedTrade, SymbolResult, TradeRecord, TradeSide, TradeTableResult,
    TradeType,
};
use rust_decimal::Decimal;
use std::str::FromStr;

fn em(text: &str) -> Money {
    let d = Decimal::from_str(text).unwrap();
    Money::from_parts(d.mantissa(), d.scale()).unwrap()
}

fn record(symbol: &str, pnl: &str, exit_ms: u64) -> TradeRecord {
    TradeRecord {
        date: "2021-01-01".to_string(),
        trade_type: TradeType::Long,
        entry_price: em("50000.0"),
        entry_time_utc: "2021-01-01T00:00:00.000Z".to_string(),
        exit_price: em("53000"),
        exit_time_utc: "2021-01-01T00:01:00.000Z".to_string(),
        exit_reason: ExitReason::TakeProfit,
        hit_tp_sl: HitTpSl::TakeProfit,
        size_usd: em("1000.0"),
        qty: em("0.02000000"),
        fees_usd: em("0.20"),
        pnl_usd: em(pnl),
        pnl_pct: em("0.0598"),
        symbol: symbol.to_string(),
        entry_time_ms: 0,
        exit_time_ms: exit_ms,
    }
}

fn table(records: Vec<TradeRecord>, rejected: Vec<RejectedTrade>, drawdown: &str) -> TradeTableResult {
    let summary = summarize(&records, em(drawdown)).unwrap();
    TradeTableResult { trades: records, summary, rejected_trades: rejected }
}

fn symbol_result(symbol: &str, trade_table: Option<TradeTableResult>) -> SymbolResult {
    SymbolResult {
        symbol: symbol.to_string(),
        trades: Vec::new(),
        positions: Vec::new(),
        equity_curve: Vec::new(),
        drawdown: em("0"),
        exposure: em("0"),
        attribution: Vec::new(),
        trade_table,
    }
}

#[test]
fn test_export_config_default() {
    let config = ExportConfig::default();
    assert!(matches!(config.format, ExportFormat::Csv));
    assert_eq!(config.output_path, Some("trade_table.csv".to_string()));
}

#[test]
fn test_trade_table_exporter_creation() {
    let config = ExportConfig::default();
    let _exporter = TradeTableExporter::new(config);
}

#[test]
fn csv_text_is_exact() {
    let mut short = record("ETHUSDT", "-5.5", 120000);
    short.trade_type = TradeType::Short;
    short.exit_reason = ExitReason::Timeout;
    short.hit_tp_sl = HitTpSl::Neither;
    let rejected = vec![RejectedTrade {
        timestamp: 1609459200000,
        symbol: "BTCUSDT".to_string(),
        side: TradeSide::Sell,
        reason: "NotionalMin".to_string(),
        notional: em("999.99"),
    }];
    let t = table(vec![record("BTCUSDT", "59.80", 60000), short], rejected, "0.01");
    let expected = "\
date,type,entry_price,entry_time_utc,exit_price,exit_time_utc,exit_reason,hit_tp_sl,size_usd,qty,fees_usd,pnl_usd,pnl_pct,symbol
2021-01-01,Long,50000.0,2021-01-01T00:00:00.000Z,53000,2021-01-01T00:01:00.000Z,TP,TP,1000.0,0.02000000,0.20,59.80,0.0598,BTCUSDT
2021-01-01,Short,50000.0,2021-01-01T00:00:00.000Z,53000,2021-01-01T00:01:00.000Z,Timeout,None,1000.0,0.02000000,0.20,-5.5,0.0598,ETHUSDT

# Summary
total_trades,2
wins,1
losses,1
win_rate,50.000
net_pnl_usd,54.30
avg_win_usd,59.80
avg_loss_usd,-5.5
expectancy,27.1500
max_drawdown,0.01
profit_factor,10.872727272727272727272727273
avg_holding_time_hours,0.025

# Rejected Trades
timestamp,symbol,side,reason,notional
1609459200000,BTCUSDT,Sell,NotionalMin,999.99
";
    assert_eq!(render_csv(&t), expected);
}

#[test]
fn csv_without_rejections_ends_after_the_summary() {
    let t = table(Vec::new(), Vec::new(), "0");
    let text = render_csv(&t);
    assert!(text.starts_with("date,type,entry_price,"));
    assert!(text.contains("\n\n# Summary\ntotal_trades,0\nwins,0\nlosses,0\nwin_rate,0.0\n"));
    assert!(text.ends_with("avg_holding_time_hours,0.0\n"));
    assert!(!text.contains("# Rejected Trades"));
}

#[test]
fn export_prepares_what_the_format_needs() {
    let t = table(vec![record("BTCUSDT", "1", 1)], Vec::new(), "0");
    let csv = TradeTableExporter::new(ExportConfig::default()).export(&t).unwrap();
    match csv {
        ExportPayload::CsvFile { path, content } => {
            assert_eq!(path, "trade_table.csv");
            assert_eq!(content, render_csv(&t));
        }
        _ => panic!("a CSV file was expected"),
    }
    let mut config = ExportConfig::default();
    config.output_path = None;
    assert_eq!(
        TradeTableExporter::new(config).export(&t).err(),
        Some(ExportError::MissingOutputPath)
    );
    let mut config = ExportConfig::default();
    config.format = ExportFormat::Parquet;
    assert_eq!(
        TradeTableExporter::new(config).export(&t).err(),
        Some(ExportError::ParquetUnsupported)
    );
    let mut config = ExportConfig::default();
    config.format = ExportFormat::ClickHouse;
    let exporter = TradeTableExporter::new(config);
    assert_eq!(exporter.export(&t).err(), Some(ExportError::MissingClickHouseUrl));
    let mut config = ExportConfig::default();
    config.format = ExportFormat::ClickHouse;
    config.clickhouse_url = Some("http://db".to_string());
    assert_eq!(
        TradeTableExporter::new(config).export(&t).err(),
        Some(ExportError::MissingClickHouseDatabase)
    );
    let mut config = ExportConfig::default();
    config.format = ExportFormat::ClickHouse;
    config.clickhouse_url = Some("http://db".to_string());
    config.clickhouse_database = Some("bt".to_string());
    config.clickhouse_table = None;
    assert_eq!(
        TradeTableExporter::new(config).export(&t).err(),
        Some(ExportError::MissingClickHouseTable)
    );
    let mut config = ExportConfig::default();
    config.format = ExportFormat::ClickHouse;
    config.clickhouse_url = Some("http://db".to_string());
    config.clickhouse_database = Some("bt".to_string());
    match TradeTableExporter::new(config).export(&t).unwrap() {
        ExportPayload::ClickHouseRows { url, database, table, trades } => {
            assert_eq!((url.as_str(), database.as_str(), table.as_str(), trades), ("http://db", "bt", "trades", 1));
        }
        _ => panic!("rows were expected"),
    }
    assert_eq!(ExportError::ParquetUnsupported.message(), "Parquet export is not supported");
}

#[test]
fn sorting_by_exit_is_stable() {
    let records = vec![
        record("C", "3", 30),
        record("A", "1", 10),
        record("B1", "2", 20),
        record("B2", "2", 20),
        record("A2", "1", 10),
    ];
    let sorted = sort_by_exit(&records);
    let order: Vec<&str> = sorted.iter().map(|r| r.symbol.as_str()).collect();
    assert_eq!(order, vec!["A", "A2", "B1", "B2", "C"]);
    assert!(sort_by_exit(&Vec::new()).is_empty());
}

#[test]
fn combining_tables_adds_counts_and_recomputes_averages() {
    let first = table(vec![record("BTC", "100", 300), record("BTC", "-50", 100)], Vec::new(), "0.02");
    let second = table(
        vec![record("ETH", "25", 200)],
        vec![RejectedTrade {
            timestamp: 5,
            symbol: "ETH".to_string(),
            side: TradeSide::Buy,
            reason: "NotionalMin".to_string(),
            notional: em("1"),
        }],
        "0.05",
    );
    let results = vec![
        symbol_result("BTC", Some(first)),
        symbol_result("SOL", None),
        symbol_result("ETH", Some(second)),
    ];
    let combined = combine_results(&results).unwrap();
    let order: Vec<u64> = combined.trades.iter().map(|r| r.exit_time_ms).collect();
    assert_eq!(order, vec![100, 200, 300]);
    assert_eq!(combined.rejected_trades.len(), 1);
    let s = combined.summary;
    assert_eq!((s.total_trades, s.wins, s.losses), (3, 2, 1));
    assert_eq!(s.net_pnl_usd, em("75"));
    assert_eq!(s.avg_win_usd, em("62.5"));
    assert_eq!(s.avg_loss_usd, em("-50"));
    assert_eq!(s.profit_factor, em("2.5"));
    assert_eq!(s.max_drawdown, em("0.05"));
    assert!(s.avg_holding_time_hours.identical(&Money::zero()));
    assert!(s.win_rate.gt(&em("66.6")) && s.win_rate.lt(&em("66.7")));
    let none = combine_results(&[symbol_result("SOL", None)]).unwrap();
    assert!(none.trades.is_empty());
    assert_eq!(none.summary.total_trades, 0);
    assert!(none.summary.profit_factor.identical(&Money::zero()));
    let exporter = TradeTableExporter::new(ExportConfig::default());
    match exporter.export_combined(&results).unwrap() {
        ExportPayload::CsvFile { content, .. } => assert!(content.contains("total_trades,3\n")),
        _ => panic!("a CSV file was expected"),
    }
}
