//! Rendering of a trade table for downstream consumers: the CSV text, the
//! table combined over several symbols, and what an export has to deliver.

use vstd::prelude::*;
use crate::money::{
    add_opt, dec, decimal_digits, decimal_text, digit_char, opt_add, option_money_view, Dec,
    Money,
};
use crate::summary::{
    expectancy_of, expectancy_spec, loss_size_total, loss_total, mean, mean_spec, profit_factor,
    profit_factor_spec, win_rate_of, win_rate_spec, win_total,
};
use crate::types::{
    copy_records, copy_rejected, records_view, rejected_view, EngineError, ExitReason, HitTpSl,
    RejectedTrade, RejectedTradeView, ResultView, SummaryView, SymbolResult, TradeRecord,
    TradeRecordView, TradeSide, TradeSummary, TradeTableResult, TradeType,
};
use vstd::string::StringExecFns;

verus! {

/// Where a trade table goes.
#[derive(Clone, Copy, Debug, PartialEq, Eq, Structural)]
pub enum ExportFormat {
    Csv,
    Parquet,
    ClickHouse,
}

/// Export settings.
#[derive(Debug)]
pub struct ExportConfig {
    pub format: ExportFormat,
    pub output_path: Option<String>,
    pub clickhouse_url: Option<String>,
    pub clickhouse_database: Option<String>,
    pub clickhouse_table: Option<String>,
}

impl Default for ExportConfig {
    fn default() -> (r: Self)
        ensures
            r.format == ExportFormat::Csv,
            r.output_path is Some,
            r.output_path->0@ == "trade_table.csv"@,
            r.clickhouse_url is None,
            r.clickhouse_database is None,
            r.clickhouse_table is Some,
            r.clickhouse_table->0@ == "trades"@,
    {
        ExportConfig {
            format: ExportFormat::Csv,
            output_path: Some("trade_table.csv".to_string()),
            clickhouse_url: None,
            clickhouse_database: None,
            clickhouse_table: Some("trades".to_string()),
        }
    }
}

fn digit_of_value(d: u64) -> (r: char)
    requires
        d <= 9,
    ensures
        r == digit_char(d as int),
{
    if d == 0 {
        '0'
    } else if d == 1 {
        '1'
    } else if d == 2 {
        '2'
    } else if d == 3 {
        '3'
    } else if d == 4 {
        '4'
    } else if d == 5 {
        '5'
    } else if d == 6 {
        '6'
    } else if d == 7 {
        '7'
    } else if d == 8 {
        '8'
    } else {
        '9'
    }
}

fn put_digits(out: &mut String, n: u64)
    ensures
        final(out)@ == old(out)@ + decimal_digits(n as nat),
    decreases n,
{
    if n >= 10 {
        put_digits(out, n / 10);
    }
    let ghost before = out@;
    out.push(digit_of_value(n % 10));
    proof {
        if n >= 10 {
            assert(before.push(digit_char((n % 10) as int)) =~= old(out)@ + decimal_digits(
                n as nat,
            ));
        } else {
            assert(before.push(digit_char(n as int)) =~= old(out)@ + decimal_digits(n as nat));
        }
    }
}

pub open spec fn type_text(t: TradeType) -> Seq<char> {
    match t {
        TradeType::Long => "Long"@,
        TradeType::Short => "Short"@,
    }
}

pub open spec fn reason_text(r: ExitReason) -> Seq<char> {
    match r {
        ExitReason::TakeProfit => "TP"@,
        ExitReason::StopLoss => "SL"@,
        ExitReason::StrategyExit => "StrategyExit"@,
        ExitReason::Liquidation => "Liquidation"@,
        ExitReason::Timeout => "Timeout"@,
    }
}

pub open spec fn hit_text(h: HitTpSl) -> Seq<char> {
    match h {
        HitTpSl::TakeProfit => "TP"@,
        HitTpSl::StopLoss => "SL"@,
        HitTpSl::Neither => "None"@,
    }
}

pub open spec fn side_text(s: TradeSide) -> Seq<char> {
    match s {
        TradeSide::Buy => "Buy"@,
        TradeSide::Sell => "Sell"@,
    }
}

/// The header of the trade rows.
pub open spec fn csv_header() -> Seq<char> {
    "date,type,entry_price,entry_time_utc,exit_price,exit_time_utc,exit_reason,hit_tp_sl,size_usd,qty,fees_usd,pnl_usd,pnl_pct,symbol\n"@
}

/// The header of the rows of refused entries.
pub open spec fn rejected_header() -> Seq<char> {
    "timestamp,symbol,side,reason,notional\n"@
}

/// One trade as a row: fourteen fields separated by commas, then a line feed.
pub open spec fn trade_line(r: TradeRecordView) -> Seq<char> {
    r.date + ","@ + type_text(r.trade_type) + ","@ + decimal_text(r.entry_price) + ","@
        + r.entry_time_utc + ","@ + decimal_text(r.exit_price) + ","@ + r.exit_time_utc + ","@
        + reason_text(r.exit_reason) + ","@ + hit_text(r.hit_tp_sl) + ","@ + decimal_text(
        r.size_usd,
    ) + ","@ + decimal_text(r.qty) + ","@ + decimal_text(r.fees_usd) + ","@ + decimal_text(
        r.pnl_usd,
    ) + ","@ + decimal_text(r.pnl_pct) + ","@ + r.symbol + "\n"@
}

/// The rows of a ledger, in order.
pub open spec fn trade_lines(records: Seq<TradeRecordView>) -> Seq<char>
    decreases records.len(),
{
    if records.len() == 0 {
        Seq::empty()
    } else {
        trade_lines(records.drop_last()) + trade_line(records.last())
    }
}

/// The summary as `key,value` rows.
pub open spec fn summary_rows(s: SummaryView) -> Seq<char> {
    "total_trades,"@ + decimal_digits(s.total_trades as nat) + "\nwins,"@ + decimal_digits(
        s.wins as nat,
    ) + "\nlosses,"@ + decimal_digits(s.losses as nat) + "\nwin_rate,"@ + decimal_text(
        s.win_rate,
    ) + "\nnet_pnl_usd,"@ + decimal_text(s.net_pnl_usd) + "\navg_win_usd,"@ + decimal_text(
        s.avg_win_usd,
    ) + "\navg_loss_usd,"@ + decimal_text(s.avg_loss_usd) + "\nexpectancy,"@ + decimal_text(
        s.expectancy,
    ) + "\nmax_drawdown,"@ + decimal_text(s.max_drawdown) + "\nprofit_factor,"@ + decimal_text(
        s.profit_factor,
    ) + "\navg_holding_time_hours,"@ + decimal_text(s.avg_holding_time_hours) + "\n"@
}

/// One refused entry as a row.
pub open spec fn rejected_line(r: RejectedTradeView) -> Seq<char> {
    decimal_digits(r.timestamp as nat) + ","@ + r.symbol + ","@ + side_text(r.side) + ","@
        + r.reason + ","@ + decimal_text(r.notional) + "\n"@
}

/// The rows of the refused entries, in order.
pub open spec fn rejected_lines(rejected: Seq<RejectedTradeView>) -> Seq<char>
    decreases rejected.len(),
{
    if rejected.len() == 0 {
        Seq::empty()
    } else {
        rejected_lines(rejected.drop_last()) + rejected_line(rejected.last())
    }
}

/// The section of refused entries: nothing when there are none, else a
/// blank line, the title, the header and the rows.
pub open spec fn rejected_section(rejected: Seq<RejectedTradeView>) -> Seq<char> {
    if rejected.len() == 0 {
        Seq::empty()
    } else {
        "\n# Rejected Trades\n"@ + rejected_header() + rejected_lines(rejected)
    }
}

/// The CSV text of a trade table: header, one row per trade, a blank line
/// and the summary, then the refused entries if there are any.
pub open spec fn csv_text(result: ResultView) -> Seq<char> {
    csv_header() + trade_lines(result.trades) + "\n# Summary\n"@ + summary_rows(result.summary)
        + rejected_section(result.rejected_trades)
}

fn direction_name(t: &TradeType) -> (r: &'static str)
    ensures
        r@ == type_text(*t),
{
    match t {
        TradeType::Long => "Long",
        TradeType::Short => "Short",
    }
}

fn reason_name(x: &ExitReason) -> (r: &'static str)
    ensures
        r@ == reason_text(*x),
{
    match x {
        ExitReason::TakeProfit => "TP",
        ExitReason::StopLoss => "SL",
        ExitReason::StrategyExit => "StrategyExit",
        ExitReason::Liquidation => "Liquidation",
        ExitReason::Timeout => "Timeout",
    }
}

fn hit_name(h: &HitTpSl) -> (r: &'static str)
    ensures
        r@ == hit_text(*h),
{
    match h {
        HitTpSl::TakeProfit => "TP",
        HitTpSl::StopLoss => "SL",
        HitTpSl::Neither => "None",
    }
}

fn side_name(s: &TradeSide) -> (r: &'static str)
    ensures
        r@ == side_text(*s),
{
    match s {
        TradeSide::Buy => "Buy",
        TradeSide::Sell => "Sell",
    }
}

/// The decimal digits of a number.
pub fn number_text(n: u64) -> (r: String)
    ensures
        r@ == decimal_digits(n as nat),
{
    let mut out = String::new();
    put_digits(&mut out, n);
    assert(Seq::<char>::empty() + decimal_digits(n as nat) =~= decimal_digits(n as nat));
    out
}

fn put_money(line: &mut String, amount: &Money)
    ensures
        final(line)@ == old(line)@ + decimal_text(amount@),
{
    let text = amount.to_text();
    line.append(text.as_str());
}

fn put_number(line: &mut String, n: u64)
    ensures
        final(line)@ == old(line)@ + decimal_digits(n as nat),
{
    put_digits(line, n);
}

/// One trade as a CSV row.
pub fn render_trade(record: &TradeRecord) -> (r: String)
    ensures
        r@ == trade_line(record@),
{
    let mut line = record.date.clone();
    line.append(",");
    line.append(direction_name(&record.trade_type));
    line.append(",");
    put_money(&mut line, &record.entry_price);
    line.append(",");
    line.append(record.entry_time_utc.as_str());
    line.append(",");
    put_money(&mut line, &record.exit_price);
    line.append(",");
    line.append(record.exit_time_utc.as_str());
    line.append(",");
    line.append(reason_name(&record.exit_reason));
    line.append(",");
    line.append(hit_name(&record.hit_tp_sl));
    line.append(",");
    put_money(&mut line, &record.size_usd);
    line.append(",");
    put_money(&mut line, &record.qty);
    line.append(",");
    put_money(&mut line, &record.fees_usd);
    line.append(",");
    put_money(&mut line, &record.pnl_usd);
    line.append(",");
    put_money(&mut line, &record.pnl_pct);
    line.append(",");
    line.append(record.symbol.as_str());
    line.append("\n");
    line
}

/// One refused entry as a CSV row.
pub fn render_rejected(rejected: &RejectedTrade) -> (r: String)
    ensures
        r@ == rejected_line(rejected@),
{
    let mut line = number_text(rejected.timestamp);
    line.append(",");
    line.append(rejected.symbol.as_str());
    line.append(",");
    line.append(side_name(&rejected.side));
    line.append(",");
    line.append(rejected.reason.as_str());
    line.append(",");
    put_money(&mut line, &rejected.notional);
    line.append("\n");
    line
}

/// The summary as `key,value` rows.
pub fn render_summary(summary: &TradeSummary) -> (r: String)
    ensures
        r@ == summary_rows(summary@),
{
    let mut rows = String::from_str("total_trades,");
    put_number(&mut rows, summary.total_trades as u64);
    rows.append("\nwins,");
    put_number(&mut rows, summary.wins as u64);
    rows.append("\nlosses,");
    put_number(&mut rows, summary.losses as u64);
    rows.append("\nwin_rate,");
    put_money(&mut rows, &summary.win_rate);
    rows.append("\nnet_pnl_usd,");
    put_money(&mut rows, &summary.net_pnl_usd);
    rows.append("\navg_win_usd,");
    put_money(&mut rows, &summary.avg_win_usd);
    rows.append("\navg_loss_usd,");
    put_money(&mut rows, &summary.avg_loss_usd);
    rows.append("\nexpectancy,");
    put_money(&mut rows, &summary.expectancy);
    rows.append("\nmax_drawdown,");
    put_money(&mut rows, &summary.max_drawdown);
    rows.append("\nprofit_factor,");
    put_money(&mut rows, &summary.profit_factor);
    rows.append("\navg_holding_time_hours,");
    put_money(&mut rows, &summary.avg_holding_time_hours);
    rows.append("\n");
    rows
}

/// The CSV text of a trade table.
pub fn render_csv(result: &TradeTableResult) -> (r: String)
    ensures
        r@ == csv_text(result@),
{
    let ghost trades = records_view(result.trades@);
    let ghost rejected = rejected_view(result.rejected_trades@);
    let mut out = String::from_str(
        "date,type,entry_price,entry_time_utc,exit_price,exit_time_utc,exit_reason,hit_tp_sl,size_usd,qty,fees_usd,pnl_usd,pnl_pct,symbol\n",
    );
    let mut i: usize = 0;
    proof {
        assert(trades.take(0) =~= Seq::<TradeRecordView>::empty());
        assert(out@ =~= csv_header() + trade_lines(trades.take(0)));
    }
    while i < result.trades.len()
        invariant
            i <= result.trades.len(),
            trades == records_view(result.trades@),
            out@ == csv_header() + trade_lines(trades.take(i as int)),
        decreases result.trades.len() - i,
    {
        let line = render_trade(&result.trades[i]);
        proof {
            assert(trades.take(i as int + 1).drop_last() =~= trades.take(i as int));
            assert(trades.take(i as int + 1).last() == result.trades@[i as int]@);
            assert((csv_header() + trade_lines(trades.take(i as int))) + line@ =~= csv_header() + (
            trade_lines(trades.take(i as int)) + line@));
        }
        out.append(line.as_str());
        i = i + 1;
    }
    proof {
        assert(trades.take(i as int) =~= trades);
    }
    out.append("\n# Summary\n");
    let rows = render_summary(&result.summary);
    out.append(rows.as_str());
    if result.rejected_trades.len() > 0 {
        let mut section = String::from_str("\n# Rejected Trades\n");
        section.append("timestamp,symbol,side,reason,notional\n");
        let ghost head = section@;
        let mut j: usize = 0;
        proof {
            assert(rejected.take(0) =~= Seq::<RejectedTradeView>::empty());
            assert(section@ =~= head + rejected_lines(rejected.take(0)));
        }
        while j < result.rejected_trades.len()
            invariant
                j <= result.rejected_trades.len(),
                rejected == rejected_view(result.rejected_trades@),
                head == "\n# Rejected Trades\n"@ + rejected_header(),
                section@ == head + rejected_lines(rejected.take(j as int)),
            decreases result.rejected_trades.len() - j,
        {
            let line = render_rejected(&result.rejected_trades[j]);
            proof {
                assert(rejected.take(j as int + 1).drop_last() =~= rejected.take(j as int));
                assert(rejected.take(j as int + 1).last() == result.rejected_trades@[j as int]@);
                assert((head + rejected_lines(rejected.take(j as int))) + line@ =~= head + (
                rejected_lines(rejected.take(j as int)) + line@));
            }
            section.append(line.as_str());
            j = j + 1;
        }
        proof {
            assert(rejected.take(j as int) =~= rejected);
        }
        out.append(section.as_str());
    } else {
        proof {
            assert(out@ + Seq::<char>::empty() =~= out@);
        }
    }
    out
}


/// Why an export cannot be prepared.
#[derive(Clone, Copy, Debug, PartialEq, Eq, Structural)]
pub enum ExportError {
    /// CSV was asked for without an output path.
    MissingOutputPath,
    /// Parquet is not supported.
    ParquetUnsupported,
    /// ClickHouse was asked for without a URL.
    MissingClickHouseUrl,
    /// ClickHouse was asked for without a database.
    MissingClickHouseDatabase,
    /// ClickHouse was asked for without a table.
    MissingClickHouseTable,
    /// The statistics of the combined table overflowed.
    Arithmetic,
}

impl ExportError {
    /// A short description for messages.
    pub fn message(&self) -> (r: String)
        ensures
            r@ == (match *self {
                ExportError::MissingOutputPath => "Output path not specified for CSV export"@,
                ExportError::ParquetUnsupported => "Parquet export is not supported"@,
                ExportError::MissingClickHouseUrl => "ClickHouse URL not specified"@,
                ExportError::MissingClickHouseDatabase => "ClickHouse database not specified"@,
                ExportError::MissingClickHouseTable => "ClickHouse table not specified"@,
                ExportError::Arithmetic => "Combined statistics overflowed"@,
            }),
    {
        match self {
            ExportError::MissingOutputPath => String::from_str(
                "Output path not specified for CSV export",
            ),
            ExportError::ParquetUnsupported => String::from_str("Parquet export is not supported"),
            ExportError::MissingClickHouseUrl => String::from_str("ClickHouse URL not specified"),
            ExportError::MissingClickHouseDatabase => String::from_str(
                "ClickHouse database not specified",
            ),
            ExportError::MissingClickHouseTable => String::from_str(
                "ClickHouse table not specified",
            ),
            ExportError::Arithmetic => String::from_str("Combined statistics overflowed"),
        }
    }
}

/// What an export has to deliver, ready for whoever does the writing.
#[derive(Debug)]
pub enum ExportPayload {
    /// A file to write.
    CsvFile { path: String, content: String },
    /// Rows to send to a ClickHouse table.
    ClickHouseRows { url: String, database: String, table: String, trades: usize },
}

/// A payload as a value.
pub enum PayloadView {
    CsvFile { path: Seq<char>, content: Seq<char> },
    ClickHouseRows { url: Seq<char>, database: Seq<char>, table: Seq<char>, trades: nat },
}

impl View for ExportPayload {
    type V = PayloadView;

    open spec fn view(&self) -> PayloadView {
        match *self {
            ExportPayload::CsvFile { path, content } => PayloadView::CsvFile {
                path: path@,
                content: content@,
            },
            ExportPayload::ClickHouseRows { url, database, table, trades } => {
                PayloadView::ClickHouseRows {
                    url: url@,
                    database: database@,
                    table: table@,
                    trades: trades as nat,
                }
            },
        }
    }
}

/// What exporting `result` under `config` has to deliver.  CSV needs an
/// output path and delivers the CSV text; Parquet is refused; ClickHouse
/// needs URL, database and table, asked for in that order.
pub open spec fn export_spec(config: ExportConfig, result: ResultView) -> Result<
    PayloadView,
    ExportError,
> {
    match config.format {
        ExportFormat::Csv => match config.output_path {
            Some(path) => Ok(PayloadView::CsvFile { path: path@, content: csv_text(result) }),
            None => Err(ExportError::MissingOutputPath),
        },
        ExportFormat::Parquet => Err(ExportError::ParquetUnsupported),
        ExportFormat::ClickHouse => if config.clickhouse_url is None {
            Err(ExportError::MissingClickHouseUrl)
        } else if config.clickhouse_database is None {
            Err(ExportError::MissingClickHouseDatabase)
        } else if config.clickhouse_table is None {
            Err(ExportError::MissingClickHouseTable)
        } else {
            Ok(
                PayloadView::ClickHouseRows {
                    url: config.clickhouse_url->0@,
                    database: config.clickhouse_database->0@,
                    table: config.clickhouse_table->0@,
                    trades: result.trades.len(),
                },
            )
        },
    }
}

pub open spec fn payload_result_view(r: Result<ExportPayload, ExportError>) -> Result<
    PayloadView,
    ExportError,
> {
    match r {
        Ok(p) => Ok(p@),
        Err(e) => Err(e),
    }
}

/// Renders trade tables under one configuration.
#[derive(Debug)]
pub struct TradeTableExporter {
    config: ExportConfig,
}

impl TradeTableExporter {
    pub closed spec fn config(&self) -> ExportConfig {
        self.config
    }

    /// An exporter that follows `config`.
    pub fn new(config: ExportConfig) -> (r: Self)
        ensures
            r.config() == config,
    {
        TradeTableExporter { config }
    }

    /// What exporting `result` has to deliver.
    pub fn export(&self, result: &TradeTableResult) -> (r: Result<ExportPayload, ExportError>)
        ensures
            payload_result_view(r) == export_spec(self.config(), result@),
    {
        match self.config.format {
            ExportFormat::Csv => self.export_csv(result),
            ExportFormat::Parquet => self.export_parquet(result),
            ExportFormat::ClickHouse => self.export_clickhouse(result),
        }
    }

    /// The CSV file to write for `result`.
    pub fn export_csv(&self, result: &TradeTableResult) -> (r: Result<ExportPayload, ExportError>)
        ensures
            payload_result_view(r) == (match self.config().output_path {
                Some(path) => Ok(PayloadView::CsvFile { path: path@, content: csv_text(result@) }),
                None => Err(ExportError::MissingOutputPath),
            }),
    {
        match &self.config.output_path {
            Some(path) => Ok(
                ExportPayload::CsvFile { path: path.clone(), content: render_csv(result) },
            ),
            None => Err(ExportError::MissingOutputPath),
        }
    }

    /// Parquet is not supported.
    pub fn export_parquet(&self, _result: &TradeTableResult) -> (r: Result<
        ExportPayload,
        ExportError,
    >)
        ensures
            r is Err,
            r->Err_0 == ExportError::ParquetUnsupported,
    {
        Err(ExportError::ParquetUnsupported)
    }

    /// The rows to send to ClickHouse for `result`.
    pub fn export_clickhouse(&self, result: &TradeTableResult) -> (r: Result<
        ExportPayload,
        ExportError,
    >)
        ensures
            payload_result_view(r) == (if self.config().clickhouse_url is None {
                Err(ExportError::MissingClickHouseUrl)
            } else if self.config().clickhouse_database is None {
                Err(ExportError::MissingClickHouseDatabase)
            } else if self.config().clickhouse_table is None {
                Err(ExportError::MissingClickHouseTable)
            } else {
                Ok(
                    PayloadView::ClickHouseRows {
                        url: self.config().clickhouse_url->0@,
                        database: self.config().clickhouse_database->0@,
                        table: self.config().clickhouse_table->0@,
                        trades: result@.trades.len(),
                    },
                )
            }),
    {
        let url = match &self.config.clickhouse_url {
            Some(u) => u.clone(),
            None => {
                return Err(ExportError::MissingClickHouseUrl);
            },
        };
        let database = match &self.config.clickhouse_database {
            Some(d) => d.clone(),
            None => {
                return Err(ExportError::MissingClickHouseDatabase);
            },
        };
        let table = match &self.config.clickhouse_table {
            Some(t) => t.clone(),
            None => {
                return Err(ExportError::MissingClickHouseTable);
            },
        };
        Ok(ExportPayload::ClickHouseRows { url, database, table, trades: result.trades.len() })
    }
}


/// The trade tables that the results carry, in order.
pub open spec fn tables_of(results: Seq<SymbolResult>) -> Seq<ResultView>
    decreases results.len(),
{
    if results.len() == 0 {
        Seq::empty()
    } else {
        match results.last().trade_table {
            Some(t) => tables_of(results.drop_last()).push(t@),
            None => tables_of(results.drop_last()),
        }
    }
}

/// The trades of all tables, table after table.
pub open spec fn trades_of(tables: Seq<ResultView>) -> Seq<TradeRecordView>
    decreases tables.len(),
{
    if tables.len() == 0 {
        Seq::empty()
    } else {
        trades_of(tables.drop_last()) + tables.last().trades
    }
}

/// The refused entries of all tables, table after table.
pub open spec fn rejected_of(tables: Seq<ResultView>) -> Seq<RejectedTradeView>
    decreases tables.len(),
{
    if tables.len() == 0 {
        Seq::empty()
    } else {
        rejected_of(tables.drop_last()) + tables.last().rejected_trades
    }
}

/// The trade counts of all summaries added up.
pub open spec fn trade_count_of(tables: Seq<ResultView>) -> int
    decreases tables.len(),
{
    if tables.len() == 0 {
        0
    } else {
        trade_count_of(tables.drop_last()) + tables.last().summary.total_trades
    }
}

/// The wins of all summaries added up.
pub open spec fn wins_of(tables: Seq<ResultView>) -> int
    decreases tables.len(),
{
    if tables.len() == 0 {
        0
    } else {
        wins_of(tables.drop_last()) + tables.last().summary.wins
    }
}

/// The losses of all summaries added up.
pub open spec fn losses_of(tables: Seq<ResultView>) -> int
    decreases tables.len(),
{
    if tables.len() == 0 {
        0
    } else {
        losses_of(tables.drop_last()) + tables.last().summary.losses
    }
}

/// The net profits of all summaries, added up from zero.
pub open spec fn net_of(tables: Seq<ResultView>) -> Option<Dec>
    decreases tables.len(),
{
    if tables.len() == 0 {
        Some(dec(0, 0))
    } else {
        add_opt(net_of(tables.drop_last()), Some(tables.last().summary.net_pnl_usd))
    }
}

/// The deepest maximum drawdown of all summaries; zero for none.
pub open spec fn deepest_of(tables: Seq<ResultView>) -> Dec
    decreases tables.len(),
{
    if tables.len() == 0 {
        dec(0, 0)
    } else {
        let so_far = deepest_of(tables.drop_last());
        if so_far.lt(tables.last().summary.max_drawdown) {
            tables.last().summary.max_drawdown
        } else {
            so_far
        }
    }
}

/// `sorted` with `x` put behind every record that does not exit later.
pub open spec fn insert_by_exit(sorted: Seq<TradeRecordView>, x: TradeRecordView) -> Seq<
    TradeRecordView,
>
    decreases sorted.len(),
{
    if sorted.len() == 0 {
        seq![x]
    } else if sorted.last().exit_time_ms <= x.exit_time_ms {
        sorted.push(x)
    } else {
        insert_by_exit(sorted.drop_last(), x).push(sorted.last())
    }
}

/// The records in order of exit time, records that exit together staying
/// in the order they had.
pub open spec fn sorted_by_exit(records: Seq<TradeRecordView>) -> Seq<TradeRecordView>
    decreases records.len(),
{
    if records.len() == 0 {
        Seq::empty()
    } else {
        insert_by_exit(sorted_by_exit(records.drop_last()), records.last())
    }
}

/// Exit times never go down along the sequence.
pub open spec fn ordered_by_exit(records: Seq<TradeRecordView>) -> bool {
    forall|i: int, j: int|
        0 <= i <= j < records.len() ==> (#[trigger] records[i]).exit_time_ms <= (
        #[trigger] records[j]).exit_time_ms
}

proof fn lemma_insert_position(sorted: Seq<TradeRecordView>, x: TradeRecordView, p: int)
    requires
        0 <= p <= sorted.len(),
        forall|j: int| p <= j < sorted.len() ==> (#[trigger] sorted[j]).exit_time_ms > x.exit_time_ms,
        p > 0 ==> sorted[p - 1].exit_time_ms <= x.exit_time_ms,
    ensures
        insert_by_exit(sorted, x) == sorted.insert(p, x),
    decreases sorted.len(),
{
    if sorted.len() == 0 {
        assert(seq![x] =~= sorted.insert(p, x));
    } else if sorted.last().exit_time_ms <= x.exit_time_ms {
        if p < sorted.len() {
            assert(sorted[sorted.len() - 1].exit_time_ms > x.exit_time_ms);
        }
        assert(sorted.push(x) =~= sorted.insert(p, x));
    } else {
        let front = sorted.drop_last();
        assert(p < sorted.len());
        assert forall|j: int| p <= j < front.len() implies (#[trigger] front[j]).exit_time_ms
            > x.exit_time_ms by {
            assert(sorted[j].exit_time_ms > x.exit_time_ms);
        }
        lemma_insert_position(front, x, p);
        assert(front.insert(p, x).push(sorted.last()) =~= sorted.insert(p, x));
    }
}

/// Inserting keeps an ordered sequence ordered and adds exactly `x`.
pub proof fn lemma_insert_by_exit(sorted: Seq<TradeRecordView>, x: TradeRecordView)
    requires
        ordered_by_exit(sorted),
    ensures
        ordered_by_exit(insert_by_exit(sorted, x)),
        insert_by_exit(sorted, x).to_multiset() == sorted.to_multiset().insert(x),
        insert_by_exit(sorted, x).len() == sorted.len() + 1,
    decreases sorted.len(),
{
    broadcast use vstd::seq_lib::to_multiset_build;

    if sorted.len() == 0 {
        assert(sorted =~= Seq::<TradeRecordView>::empty());
        assert(seq![x] =~= sorted.push(x));
        assert(insert_by_exit(sorted, x).to_multiset() =~= sorted.to_multiset().insert(x));
    } else if sorted.last().exit_time_ms <= x.exit_time_ms {
        let out = sorted.push(x);
        assert(out.to_multiset() =~= sorted.to_multiset().insert(x));
        assert forall|i: int, j: int| 0 <= i <= j < out.len() implies (
        #[trigger] out[i]).exit_time_ms <= (#[trigger] out[j]).exit_time_ms by {
            if j == sorted.len() {
                if i < sorted.len() {
                    assert(sorted[i].exit_time_ms <= sorted[sorted.len() - 1].exit_time_ms);
                }
            } else {
                assert(sorted[i].exit_time_ms <= sorted[j].exit_time_ms);
            }
        }
    } else {
        let front = sorted.drop_last();
        let last = sorted.last();
        assert(ordered_by_exit(front)) by {
            assert forall|i: int, j: int| 0 <= i <= j < front.len() implies (
            #[trigger] front[i]).exit_time_ms <= (#[trigger] front[j]).exit_time_ms by {
                assert(sorted[i].exit_time_ms <= sorted[j].exit_time_ms);
            }
        }
        lemma_insert_by_exit(front, x);
        let inner = insert_by_exit(front, x);
        let out = inner.push(last);
        assert(sorted =~= front.push(last));
        assert(inner.to_multiset() =~= front.to_multiset().insert(x));
        assert(sorted.to_multiset() =~= front.to_multiset().insert(last));
        assert(out.to_multiset() =~= inner.to_multiset().insert(last));
        assert(out.to_multiset() =~= sorted.to_multiset().insert(x));
        assert forall|k: int| 0 <= k < inner.len() implies (#[trigger] inner[k]).exit_time_ms
            <= last.exit_time_ms by {
            broadcast use vstd::seq_lib::group_to_multiset_ensures;

            assert(inner.contains(inner[k]));
            assert(inner.to_multiset().count(inner[k]) > 0);
            if inner[k] != x {
                assert(front.to_multiset().count(inner[k]) > 0);
                assert(front.contains(inner[k]));
                let j = choose|j: int| 0 <= j < front.len() && front[j] == inner[k];
                assert(sorted[j].exit_time_ms <= sorted[sorted.len() - 1].exit_time_ms);
            }
        }
        assert forall|i: int, j: int| 0 <= i <= j < out.len() implies (
        #[trigger] out[i]).exit_time_ms <= (#[trigger] out[j]).exit_time_ms by {
            if j == inner.len() {
                if i < inner.len() {
                    assert(inner[i].exit_time_ms <= last.exit_time_ms);
                }
            } else {
                assert(inner[i].exit_time_ms <= inner[j].exit_time_ms);
            }
        }
    }
}

/// Sorting by exit puts the records in order of exit time and neither
/// drops nor adds one.
pub proof fn lemma_sorted_by_exit(records: Seq<TradeRecordView>)
    ensures
        ordered_by_exit(sorted_by_exit(records)),
        sorted_by_exit(records).to_multiset() == records.to_multiset(),
        sorted_by_exit(records).len() == records.len(),
    decreases records.len(),
{
    broadcast use vstd::seq_lib::to_multiset_build;

    if records.len() > 0 {
        lemma_sorted_by_exit(records.drop_last());
        lemma_insert_by_exit(sorted_by_exit(records.drop_last()), records.last());
        assert(records =~= records.drop_last().push(records.last()));
        assert(records.to_multiset() =~= records.drop_last().to_multiset().insert(records.last()));
        assert(sorted_by_exit(records).to_multiset() =~= records.to_multiset());
    } else {
        assert(records =~= Seq::<TradeRecordView>::empty());
        assert(sorted_by_exit(records).to_multiset() =~= records.to_multiset());
    }
}

/// The records in order of exit time, records that exit together staying
/// in the order they had.
pub fn sort_by_exit(records: &Vec<TradeRecord>) -> (r: Vec<TradeRecord>)
    ensures
        records_view(r@) == sorted_by_exit(records_view(records@)),
{
    let ghost all = records_view(records@);
    let mut out: Vec<TradeRecord> = Vec::new();
    let mut i: usize = 0;
    proof {
        assert(all.take(0) =~= Seq::<TradeRecordView>::empty());
        assert(records_view(out@) =~= Seq::<TradeRecordView>::empty());
    }
    while i < records.len()
        invariant
            i <= records.len(),
            out@.len() == i,
            all == records_view(records@),
            records_view(out@) == sorted_by_exit(all.take(i as int)),
        decreases records.len() - i,
    {
        let key = records[i].exit_time_ms;
        let mut p: usize = out.len();
        while p > 0 && out[p - 1].exit_time_ms > key
            invariant
                p <= out@.len(),
                forall|j: int| p <= j < out@.len() ==> (#[trigger] out@[j]).exit_time_ms > key,
            decreases p,
        {
            p = p - 1;
        }
        let ghost before = records_view(out@);
        let item = records[i].clone();
        proof {
            assert(all.take(i as int + 1).drop_last() =~= all.take(i as int));
            assert(all.take(i as int + 1).last() == item@);
            assert forall|j: int| p <= j < before.len() implies (#[trigger] before[j]).exit_time_ms
                > item@.exit_time_ms by {
                assert(out@[j].exit_time_ms > key);
            }
            if p > 0 {
                assert(before[p - 1] == out@[p - 1]@);
            }
            lemma_insert_position(before, item@, p as int);
        }
        out.insert(p, item);
        proof {
            assert(records_view(out@) =~= before.insert(p as int, item@));
        }
        i = i + 1;
    }
    proof {
        assert(all.take(i as int) =~= all);
    }
    out
}

/// The statistics over several tables: counts, net profit and the deepest
/// drawdown come from the summaries, averages and the profit factor from
/// the trades themselves, and the holding time is left at zero.  Counts
/// beyond `u32::MAX` and any overflow are an arithmetic failure.
pub open spec fn combined_summary_spec(tables: Seq<ResultView>) -> Result<SummaryView, EngineError> {
    let total = trade_count_of(tables);
    let wins = wins_of(tables);
    let losses = losses_of(tables);
    let net = net_of(tables);
    let zero = dec(0, 0);
    if total > u32::MAX || wins > u32::MAX || losses > u32::MAX || net is None {
        Err(EngineError::Arithmetic)
    } else if total == 0 {
        Ok(
            SummaryView {
                total_trades: 0,
                wins: wins as u32,
                losses: losses as u32,
                win_rate: zero,
                net_pnl_usd: net->0,
                avg_win_usd: zero,
                avg_loss_usd: zero,
                expectancy: zero,
                max_drawdown: deepest_of(tables),
                profit_factor: zero,
                avg_holding_time_hours: zero,
            },
        )
    } else {
        let trades = trades_of(tables);
        let win_rate = win_rate_spec(wins, total);
        let avg_win = mean_spec(win_total(trades), wins, zero);
        let avg_loss = mean_spec(loss_total(trades), losses, zero);
        let expectancy = expectancy_spec(win_rate, avg_win, avg_loss);
        let factor = profit_factor_spec(win_total(trades), loss_size_total(trades), zero);
        if expectancy is Some && factor is Some {
            Ok(
                SummaryView {
                    total_trades: total as u32,
                    wins: wins as u32,
                    losses: losses as u32,
                    win_rate: win_rate->0,
                    net_pnl_usd: net->0,
                    avg_win_usd: avg_win->0,
                    avg_loss_usd: avg_loss->0,
                    expectancy: expectancy->0,
                    max_drawdown: deepest_of(tables),
                    profit_factor: factor->0,
                    avg_holding_time_hours: zero,
                },
            )
        } else {
            Err(EngineError::Arithmetic)
        }
    }
}

/// The table combined over several symbols: all trades in order of exit
/// time, the combined statistics, and all refused entries.
pub open spec fn combined_spec(results: Seq<SymbolResult>) -> Result<ResultView, EngineError> {
    let tables = tables_of(results);
    match combined_summary_spec(tables) {
        Ok(summary) => Ok(
            ResultView {
                trades: sorted_by_exit(trades_of(tables)),
                summary,
                rejected_trades: rejected_of(tables),
            },
        ),
        Err(e) => Err(e),
    }
}

struct ProfitSums {
    gross_profit: Option<Money>,
    losses: Option<Money>,
    gross_loss: Option<Money>,
}

fn profit_sums(records: &Vec<TradeRecord>) -> (r: ProfitSums)
    ensures
        option_money_view(r.gross_profit) == win_total(records_view(records@)),
        option_money_view(r.losses) == loss_total(records_view(records@)),
        option_money_view(r.gross_loss) == loss_size_total(records_view(records@)),
{
    let ghost all = records_view(records@);
    let zero = Money::new(0, 1);
    let mut gross_profit: Option<Money> = Some(Money::zero());
    let mut losses: Option<Money> = Some(Money::zero());
    let mut gross_loss: Option<Money> = Some(Money::zero());
    let mut i: usize = 0;
    proof {
        assert(all.take(0) =~= Seq::<TradeRecordView>::empty());
    }
    while i < records.len()
        invariant
            i <= records.len(),
            all == records_view(records@),
            zero@ == dec(0, 1),
            option_money_view(gross_profit) == win_total(all.take(i as int)),
            option_money_view(losses) == loss_total(all.take(i as int)),
            option_money_view(gross_loss) == loss_size_total(all.take(i as int)),
        decreases records.len() - i,
    {
        proof {
            assert(all.take(i as int + 1).drop_last() =~= all.take(i as int));
            assert(all.take(i as int + 1).last() == records@[i as int]@);
        }
        let pnl = records[i].pnl_usd;
        if zero.lt(&pnl) {
            gross_profit = opt_add(gross_profit, Some(pnl));
        } else {
            losses = opt_add(losses, Some(pnl));
            gross_loss = opt_add(gross_loss, Some(pnl.abs()));
        }
        i = i + 1;
    }
    proof {
        assert(all.take(i as int) =~= all);
    }
    ProfitSums { gross_profit, losses, gross_loss }
}

pub open spec fn combined_result_view(r: Result<TradeTableResult, EngineError>) -> Result<
    ResultView,
    EngineError,
> {
    match r {
        Ok(t) => Ok(t@),
        Err(e) => Err(e),
    }
}

/// The trade tables of several symbols combined into one.
pub fn combine_results(symbol_results: &[SymbolResult]) -> (r: Result<TradeTableResult, EngineError>)
    ensures
        combined_result_view(r) == combined_spec(symbol_results@),
{
    let ghost results = symbol_results@;
    let mut all_trades: Vec<TradeRecord> = Vec::new();
    let mut all_rejected: Vec<RejectedTrade> = Vec::new();
    let mut total: u128 = 0;
    let mut wins: u128 = 0;
    let mut losses: u128 = 0;
    let mut net: Option<Money> = Some(Money::zero());
    let mut deepest = Money::zero();
    let mut i: usize = 0;
    proof {
        assert(results.take(0) =~= Seq::<SymbolResult>::empty());
        assert(records_view(all_trades@) =~= Seq::<TradeRecordView>::empty());
        assert(rejected_view(all_rejected@) =~= Seq::<RejectedTradeView>::empty());
    }
    while i < symbol_results.len()
        invariant
            i <= symbol_results.len(),
            results == symbol_results@,
            records_view(all_trades@) == trades_of(tables_of(results.take(i as int))),
            rejected_view(all_rejected@) == rejected_of(tables_of(results.take(i as int))),
            total as int == trade_count_of(tables_of(results.take(i as int))),
            wins as int == wins_of(tables_of(results.take(i as int))),
            losses as int == losses_of(tables_of(results.take(i as int))),
            total <= i * 0xffff_ffff,
            wins <= i * 0xffff_ffff,
            losses <= i * 0xffff_ffff,
            option_money_view(net) == net_of(tables_of(results.take(i as int))),
            deepest@ == deepest_of(tables_of(results.take(i as int))),
        decreases symbol_results.len() - i,
    {
        proof {
            assert(results.take(i as int + 1).drop_last() =~= results.take(i as int));
            assert(results.take(i as int + 1).last() == symbol_results@[i as int]);
            assert((i + 1) * 0xffff_ffff == i * 0xffff_ffff + 0xffff_ffff) by (nonlinear_arith);
            assert(i * 0xffff_ffff <= 0xffff_ffff_ffff_ffff * 0xffff_ffff) by (nonlinear_arith)
                requires
                    i <= 0xffff_ffff_ffff_ffff,
            ;
        }
        match &symbol_results[i].trade_table {
            Some(table) => {
                let ghost before = tables_of(results.take(i as int));
                let ghost trades_before = records_view(all_trades@);
                let ghost rejected_before = rejected_view(all_rejected@);
                proof {
                    assert(before.push(table@).drop_last() =~= before);
                }
                let mut trades = copy_records(&table.trades);
                let mut rejected = copy_rejected(&table.rejected_trades);
                all_trades.append(&mut trades);
                all_rejected.append(&mut rejected);
                proof {
                    assert(records_view(all_trades@) =~= trades_before + table@.trades);
                    assert(rejected_view(all_rejected@) =~= rejected_before
                        + table@.rejected_trades);
                }
                total = total + table.summary.total_trades as u128;
                wins = wins + table.summary.wins as u128;
                losses = losses + table.summary.losses as u128;
                net = opt_add(net, Some(table.summary.net_pnl_usd));
                if deepest.lt(&table.summary.max_drawdown) {
                    deepest = table.summary.max_drawdown;
                }
            },
            None => {},
        }
        i = i + 1;
    }
    proof {
        assert(results.take(i as int) =~= results);
    }
    let net_pnl_usd = match net {
        Some(n) => n,
        None => {
            return Err(EngineError::Arithmetic);
        },
    };
    if total > u32::MAX as u128 || wins > u32::MAX as u128 || losses > u32::MAX as u128 {
        return Err(EngineError::Arithmetic);
    }
    let zero = Money::zero();
    let summary = if total == 0 {
        TradeSummary {
            total_trades: 0,
            wins: wins as u32,
            losses: losses as u32,
            win_rate: zero,
            net_pnl_usd,
            avg_win_usd: zero,
            avg_loss_usd: zero,
            expectancy: zero,
            max_drawdown: deepest,
            profit_factor: zero,
            avg_holding_time_hours: zero,
        }
    } else {
        let sums = profit_sums(&all_trades);
        let win_rate = win_rate_of(wins as u32, total as u32);
        let avg_win = mean(sums.gross_profit, wins as u32, zero);
        let avg_loss = mean(sums.losses, losses as u32, zero);
        let expectancy = expectancy_of(win_rate, avg_win, avg_loss);
        let factor = profit_factor(sums.gross_profit, sums.gross_loss, zero);
        match (expectancy, factor) {
            (Some(e), Some(f)) => match (win_rate, avg_win, avg_loss) {
                (Some(rate), Some(aw), Some(al)) => TradeSummary {
                    total_trades: total as u32,
                    wins: wins as u32,
                    losses: losses as u32,
                    win_rate: rate,
                    net_pnl_usd,
                    avg_win_usd: aw,
                    avg_loss_usd: al,
                    expectancy: e,
                    max_drawdown: deepest,
                    profit_factor: f,
                    avg_holding_time_hours: zero,
                },
                _ => {
                    return Err(EngineError::Arithmetic);
                },
            },
            _ => {
                return Err(EngineError::Arithmetic);
            },
        }
    };
    Ok(
        TradeTableResult {
            trades: sort_by_exit(&all_trades),
            summary,
            rejected_trades: all_rejected,
        },
    )
}

impl TradeTableExporter {
    /// What exporting the table combined over `symbol_results` has to
    /// deliver.
    pub fn export_combined(&self, symbol_results: &[SymbolResult]) -> (r: Result<
        ExportPayload,
        ExportError,
    >)
        ensures
            payload_result_view(r) == (match combined_spec(symbol_results@) {
                Ok(table) => export_spec(self.config(), table),
                Err(_) => Err(ExportError::Arithmetic),
            }),
    {
        match combine_results(symbol_results) {
            Ok(table) => self.export(&table),
            Err(_) => Err(ExportError::Arithmetic),
        }
    }
}

} // verus!
