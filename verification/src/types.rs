//! The data the kernel consumes and produces.

use vstd::prelude::*;
use crate::money::{Dec, Money, option_money_view};

pub use crate::IntrabarPolicy;
pub use crate::PerformanceMetrics;
pub use crate::RunManifest;
pub use crate::SlippageMode;

verus! {

/// What can stop a run or filter an entry.
#[derive(Clone, Copy, Debug, PartialEq, Eq, Structural)]
pub enum EngineError {
    /// A bar breaks an invariant: timestamps not strictly ascending,
    /// `low > high`, open or close outside `[low, high]`, negative volume, or
    /// a timestamp that has no calendar date.
    InvalidBar,
    /// An entry whose notional is below the exchange minimum.
    NotionalMin,
    /// An indicator name the registry does not know.
    UnknownIndicator,
    /// A series too short for the indicator asked for.
    InsufficientData,
    /// The floating-point self-test gave different results on repetition.
    NonDeterministicFP,
    /// Overflow or division by zero in money arithmetic.
    Arithmetic,
    /// The run was cancelled between two bars.
    Interrupted,
}

impl EngineError {
    /// A short description for messages.
    pub fn message(&self) -> (r: String)
        ensures
            r@ == (match *self {
                EngineError::InvalidBar => "invalid bar"@,
                EngineError::NotionalMin => "notional below minimum"@,
                EngineError::UnknownIndicator => "unknown indicator"@,
                EngineError::InsufficientData => "insufficient data"@,
                EngineError::NonDeterministicFP => "non-deterministic floating point"@,
                EngineError::Arithmetic => "arithmetic overflow or division by zero"@,
                EngineError::Interrupted => "interrupted"@,
            }),
    {
        match self {
            EngineError::InvalidBar => "invalid bar".to_string(),
            EngineError::NotionalMin => "notional below minimum".to_string(),
            EngineError::UnknownIndicator => "unknown indicator".to_string(),
            EngineError::InsufficientData => "insufficient data".to_string(),
            EngineError::NonDeterministicFP => "non-deterministic floating point".to_string(),
            EngineError::Arithmetic => "arithmetic overflow or division by zero".to_string(),
            EngineError::Interrupted => "interrupted".to_string(),
        }
    }
}

/// A money result in which a missing value is an arithmetic failure.
pub open spec fn arith(v: Option<Dec>) -> Result<Dec, EngineError> {
    match v {
        Some(d) => Ok(d),
        None => Err(EngineError::Arithmetic),
    }
}

/// The decimal inside a money result.
pub open spec fn money_result_view(r: Result<Money, EngineError>) -> Result<Dec, EngineError> {
    match r {
        Ok(v) => Ok(v@),
        Err(e) => Err(e),
    }
}

/// Turns a missing amount into the arithmetic error.
pub fn or_arithmetic(v: Option<Money>) -> (r: Result<Money, EngineError>)
    ensures
        money_result_view(r) == arith(option_money_view(v)),
{
    match v {
        Some(m) => Ok(m),
        None => Err(EngineError::Arithmetic),
    }
}

/// An error of a run together with the timestamp of the bar it arose on.
#[derive(Clone, Copy, Debug, PartialEq, Eq, Structural)]
pub struct RunError {
    pub kind: EngineError,
    pub timestamp: u64,
}

/// Side of an order.
#[derive(Clone, Copy, Debug, PartialEq, Eq, Structural)]
pub enum TradeSide {
    Buy,
    Sell,
}

/// Direction of a position.
#[derive(Clone, Copy, Debug, PartialEq, Eq, Structural)]
pub enum TradeType {
    Long,
    Short,
}

/// Why a position was closed.
#[derive(Clone, Copy, Debug, PartialEq, Eq, Structural)]
pub enum ExitReason {
    TakeProfit,
    StopLoss,
    StrategyExit,
    Liquidation,
    Timeout,
}

/// Which bracket level, if any, closed the position.
#[derive(Clone, Copy, Debug, PartialEq, Eq, Structural)]
pub enum HitTpSl {
    TakeProfit,
    StopLoss,
    /// Neither level was touched.
    Neither,
}

/// One OHLCV bar.
#[derive(Clone, Copy, Debug)]
pub struct Bar {
    /// Unix milliseconds.
    pub timestamp: u64,
    pub open: Money,
    pub high: Money,
    pub low: Money,
    pub close: Money,
    pub volume: Money,
    pub trade_count: u32,
}

/// One trade of the tape.
#[derive(Debug)]
pub struct Trade {
    /// Unix milliseconds.
    pub timestamp: u64,
    pub price: Money,
    pub quantity: Money,
    pub side: TradeSide,
    pub trade_id: String,
}

impl Clone for Trade {
    fn clone(&self) -> (r: Self)
        ensures
            r == *self,
    {
        Trade {
            timestamp: self.timestamp,
            price: self.price,
            quantity: self.quantity,
            side: self.side,
            trade_id: self.trade_id.clone(),
        }
    }
}

/// Static policy of one instrument.
#[derive(Clone, Copy, Debug)]
pub struct ExchangeRules {
    pub tick_size: Money,
    pub lot_size: Money,
    pub min_notional: Money,
    pub maker_fee: Money,
    pub taker_fee: Money,
    pub precision_price: u8,
    pub precision_quantity: u8,
}

impl Default for ExchangeRules {
    fn default() -> (r: Self)
        ensures
            r.tick_size@ == crate::money::dec(1, 8),
            r.lot_size@ == crate::money::dec(1, 8),
            r.min_notional@ == crate::money::dec(10, 0),
            r.maker_fee@ == crate::money::dec(1, 4),
            r.taker_fee@ == crate::money::dec(1, 4),
            r.precision_price == 8,
            r.precision_quantity == 8,
    {
        ExchangeRules {
            tick_size: Money::new(1, 8),
            lot_size: Money::new(1, 8),
            min_notional: Money::new(10, 0),
            maker_fee: Money::new(1, 4),
            taker_fee: Money::new(1, 4),
            precision_price: 8,
            precision_quantity: 8,
        }
    }
}

/// An entry request from a strategy.
#[derive(Debug)]
pub struct StrategySignal {
    pub symbol: String,
    pub side: TradeSide,
    /// Size of the entry in USD; the configured default applies where the
    /// signal carries none.
    pub size: Option<Money>,
    pub entry_price: Option<Money>,
    pub take_profit: Option<Money>,
    pub stop_loss: Option<Money>,
    /// Milliseconds after entry at which the position times out.
    pub time_to_live: Option<u64>,
}

impl Clone for StrategySignal {
    fn clone(&self) -> (r: Self)
        ensures
            r == *self,
    {
        StrategySignal {
            symbol: self.symbol.clone(),
            side: self.side,
            size: self.size,
            entry_price: self.entry_price,
            take_profit: self.take_profit,
            stop_loss: self.stop_loss,
            time_to_live: self.time_to_live,
        }
    }
}

/// An open position with its bracket.
#[derive(Debug)]
pub struct ActivePosition {
    pub symbol: String,
    pub trade_type: TradeType,
    pub entry_time: u64,
    pub entry_price: Money,
    pub quantity: Money,
    pub take_profit: Option<Money>,
    pub stop_loss: Option<Money>,
    pub time_to_live: Option<u64>,
    pub entry_fee: Money,
    pub size_usd: Money,
}

/// An open position as a value.
pub struct PositionView {
    pub symbol: Seq<char>,
    pub trade_type: TradeType,
    pub entry_time: u64,
    pub entry_price: Dec,
    pub quantity: Dec,
    pub take_profit: Option<Dec>,
    pub stop_loss: Option<Dec>,
    pub time_to_live: Option<u64>,
    pub entry_fee: Dec,
    pub size_usd: Dec,
}

impl View for ActivePosition {
    type V = PositionView;

    open spec fn view(&self) -> PositionView {
        PositionView {
            symbol: self.symbol@,
            trade_type: self.trade_type,
            entry_time: self.entry_time,
            entry_price: self.entry_price@,
            quantity: self.quantity@,
            take_profit: option_money_view(self.take_profit),
            stop_loss: option_money_view(self.stop_loss),
            time_to_live: self.time_to_live,
            entry_fee: self.entry_fee@,
            size_usd: self.size_usd@,
        }
    }
}

impl Clone for ActivePosition {
    fn clone(&self) -> (r: Self)
        ensures
            r == *self,
    {
        ActivePosition {
            symbol: self.symbol.clone(),
            trade_type: self.trade_type,
            entry_time: self.entry_time,
            entry_price: self.entry_price,
            quantity: self.quantity,
            take_profit: self.take_profit,
            stop_loss: self.stop_loss,
            time_to_live: self.time_to_live,
            entry_fee: self.entry_fee,
            size_usd: self.size_usd,
        }
    }
}

/// One closed trade.
#[derive(Debug)]
pub struct TradeRecord {
    /// UTC date of the exit, `YYYY-MM-DD`.
    pub date: String,
    pub trade_type: TradeType,
    pub entry_price: Money,
    /// ISO-8601 UTC with milliseconds.
    pub entry_time_utc: String,
    pub exit_price: Money,
    /// ISO-8601 UTC with milliseconds.
    pub exit_time_utc: String,
    pub exit_reason: ExitReason,
    pub hit_tp_sl: HitTpSl,
    pub size_usd: Money,
    pub qty: Money,
    /// Entry fee plus exit fee.
    pub fees_usd: Money,
    /// Net profit after fees.
    pub pnl_usd: Money,
    /// Net profit over size.
    pub pnl_pct: Money,
    pub symbol: String,
    /// Entry time in Unix milliseconds.
    pub entry_time_ms: u64,
    /// Exit time in Unix milliseconds.
    pub exit_time_ms: u64,
}

/// A closed trade as a value.
pub struct TradeRecordView {
    pub date: Seq<char>,
    pub trade_type: TradeType,
    pub entry_price: Dec,
    pub entry_time_utc: Seq<char>,
    pub exit_price: Dec,
    pub exit_time_utc: Seq<char>,
    pub exit_reason: ExitReason,
    pub hit_tp_sl: HitTpSl,
    pub size_usd: Dec,
    pub qty: Dec,
    pub fees_usd: Dec,
    pub pnl_usd: Dec,
    pub pnl_pct: Dec,
    pub symbol: Seq<char>,
    pub entry_time_ms: u64,
    pub exit_time_ms: u64,
}

impl View for TradeRecord {
    type V = TradeRecordView;

    open spec fn view(&self) -> TradeRecordView {
        TradeRecordView {
            date: self.date@,
            trade_type: self.trade_type,
            entry_price: self.entry_price@,
            entry_time_utc: self.entry_time_utc@,
            exit_price: self.exit_price@,
            exit_time_utc: self.exit_time_utc@,
            exit_reason: self.exit_reason,
            hit_tp_sl: self.hit_tp_sl,
            size_usd: self.size_usd@,
            qty: self.qty@,
            fees_usd: self.fees_usd@,
            pnl_usd: self.pnl_usd@,
            pnl_pct: self.pnl_pct@,
            symbol: self.symbol@,
            entry_time_ms: self.entry_time_ms,
            exit_time_ms: self.exit_time_ms,
        }
    }
}

impl Clone for TradeRecord {
    fn clone(&self) -> (r: Self)
        ensures
            r == *self,
    {
        TradeRecord {
            date: self.date.clone(),
            trade_type: self.trade_type,
            entry_price: self.entry_price,
            entry_time_utc: self.entry_time_utc.clone(),
            exit_price: self.exit_price,
            exit_time_utc: self.exit_time_utc.clone(),
            exit_reason: self.exit_reason,
            hit_tp_sl: self.hit_tp_sl,
            size_usd: self.size_usd,
            qty: self.qty,
            fees_usd: self.fees_usd,
            pnl_usd: self.pnl_usd,
            pnl_pct: self.pnl_pct,
            symbol: self.symbol.clone(),
            entry_time_ms: self.entry_time_ms,
            exit_time_ms: self.exit_time_ms,
        }
    }
}

/// An entry that the filters refused.
#[derive(Debug)]
pub struct RejectedTrade {
    pub timestamp: u64,
    pub symbol: String,
    pub side: TradeSide,
    pub reason: String,
    pub notional: Money,
}

/// A refused entry as a value.
pub struct RejectedTradeView {
    pub timestamp: u64,
    pub symbol: Seq<char>,
    pub side: TradeSide,
    pub reason: Seq<char>,
    pub notional: Dec,
}

impl View for RejectedTrade {
    type V = RejectedTradeView;

    open spec fn view(&self) -> RejectedTradeView {
        RejectedTradeView {
            timestamp: self.timestamp,
            symbol: self.symbol@,
            side: self.side,
            reason: self.reason@,
            notional: self.notional@,
        }
    }
}

impl Clone for RejectedTrade {
    fn clone(&self) -> (r: Self)
        ensures
            r == *self,
    {
        RejectedTrade {
            timestamp: self.timestamp,
            symbol: self.symbol.clone(),
            side: self.side,
            reason: self.reason.clone(),
            notional: self.notional,
        }
    }
}

/// Totals over a ledger of closed trades.
#[derive(Clone, Copy, Debug)]
pub struct TradeSummary {
    pub total_trades: u32,
    pub wins: u32,
    pub losses: u32,
    /// Percent.
    pub win_rate: Money,
    pub net_pnl_usd: Money,
    pub avg_win_usd: Money,
    pub avg_loss_usd: Money,
    pub expectancy: Money,
    pub max_drawdown: Money,
    pub profit_factor: Money,
    pub avg_holding_time_hours: Money,
}

/// Totals as values.
pub struct SummaryView {
    pub total_trades: u32,
    pub wins: u32,
    pub losses: u32,
    pub win_rate: Dec,
    pub net_pnl_usd: Dec,
    pub avg_win_usd: Dec,
    pub avg_loss_usd: Dec,
    pub expectancy: Dec,
    pub max_drawdown: Dec,
    pub profit_factor: Dec,
    pub avg_holding_time_hours: Dec,
}

impl View for TradeSummary {
    type V = SummaryView;

    open spec fn view(&self) -> SummaryView {
        SummaryView {
            total_trades: self.total_trades,
            wins: self.wins,
            losses: self.losses,
            win_rate: self.win_rate@,
            net_pnl_usd: self.net_pnl_usd@,
            avg_win_usd: self.avg_win_usd@,
            avg_loss_usd: self.avg_loss_usd@,
            expectancy: self.expectancy@,
            max_drawdown: self.max_drawdown@,
            profit_factor: self.profit_factor@,
            avg_holding_time_hours: self.avg_holding_time_hours@,
        }
    }
}

/// The positions of a vector as values.
pub open spec fn positions_view(v: Seq<ActivePosition>) -> Seq<PositionView> {
    v.map_values(|p: ActivePosition| p@)
}

/// The records of a vector as values.
pub open spec fn records_view(v: Seq<TradeRecord>) -> Seq<TradeRecordView> {
    v.map_values(|r: TradeRecord| r@)
}

/// The refused entries of a vector as values.
pub open spec fn rejected_view(v: Seq<RejectedTrade>) -> Seq<RejectedTradeView> {
    v.map_values(|r: RejectedTrade| r@)
}

/// The executions of a vector as values.
pub open spec fn executed_view(v: Seq<ExecutedTrade>) -> Seq<ExecutedTradeView> {
    v.map_values(|t: ExecutedTrade| t@)
}

/// Snapshot of a generator: ledger, totals and refused entries.
#[derive(Debug)]
pub struct TradeTableResult {
    pub trades: Vec<TradeRecord>,
    pub summary: TradeSummary,
    pub rejected_trades: Vec<RejectedTrade>,
}

/// A snapshot as a value.
pub struct ResultView {
    pub trades: Seq<TradeRecordView>,
    pub summary: SummaryView,
    pub rejected_trades: Seq<RejectedTradeView>,
}

impl View for TradeTableResult {
    type V = ResultView;

    open spec fn view(&self) -> ResultView {
        ResultView {
            trades: records_view(self.trades@),
            summary: self.summary@,
            rejected_trades: rejected_view(self.rejected_trades@),
        }
    }
}

/// A copy of a ledger.
pub fn copy_records(records: &Vec<TradeRecord>) -> (r: Vec<TradeRecord>)
    ensures
        r@ == records@,
{
    let mut out: Vec<TradeRecord> = Vec::new();
    let mut i: usize = 0;
    while i < records.len()
        invariant
            i <= records.len(),
            out@ == records@.take(i as int),
        decreases records.len() - i,
    {
        let item = records[i].clone();
        out.push(item);
        proof {
            assert(out@ =~= records@.take(i as int + 1));
        }
        i = i + 1;
    }
    proof {
        assert(records@.take(i as int) =~= records@);
    }
    out
}

/// A copy of a list of refused entries.
pub fn copy_rejected(rejected: &Vec<RejectedTrade>) -> (r: Vec<RejectedTrade>)
    ensures
        r@ == rejected@,
{
    let mut out: Vec<RejectedTrade> = Vec::new();
    let mut i: usize = 0;
    while i < rejected.len()
        invariant
            i <= rejected.len(),
            out@ == rejected@.take(i as int),
        decreases rejected.len() - i,
    {
        let item = rejected[i].clone();
        out.push(item);
        proof {
            assert(out@ =~= rejected@.take(i as int + 1));
        }
        i = i + 1;
    }
    proof {
        assert(rejected@.take(i as int) =~= rejected@);
    }
    out
}

/// Equity after one bar.
#[derive(Clone, Copy, Debug)]
pub struct EquityPoint {
    pub timestamp: u64,
    pub equity: Money,
    pub drawdown: Money,
    pub exposure: Money,
}

/// An equity point as a value.
pub struct EquityPointView {
    pub timestamp: u64,
    pub equity: Dec,
    pub drawdown: Dec,
    pub exposure: Dec,
}

impl View for EquityPoint {
    type V = EquityPointView;

    open spec fn view(&self) -> EquityPointView {
        EquityPointView {
            timestamp: self.timestamp,
            equity: self.equity@,
            drawdown: self.drawdown@,
            exposure: self.exposure@,
        }
    }
}

/// The points of a vector as values.
pub open spec fn curve_view(v: Seq<EquityPoint>) -> Seq<EquityPointView> {
    v.map_values(|p: EquityPoint| p@)
}

/// One value of an indicator series.
#[derive(Clone, Copy, Debug)]
pub struct IndicatorValue {
    pub timestamp: u64,
    pub value: Money,
}

/// One value of a series as a value.
pub struct PointView {
    pub timestamp: u64,
    pub value: Dec,
}

impl View for IndicatorValue {
    type V = PointView;

    open spec fn view(&self) -> PointView {
        PointView { timestamp: self.timestamp, value: self.value@ }
    }
}

/// The values of a vector as values.
pub open spec fn points_view(v: Seq<IndicatorValue>) -> Seq<PointView> {
    v.map_values(|x: IndicatorValue| x@)
}

/// Parameters of an indicator.
#[derive(Clone, Copy, Debug)]
pub struct IndicatorParams {
    pub period: usize,
    pub alpha: Option<Money>,
    pub threshold: Option<Money>,
}

/// An execution with its fee and slippage.
#[derive(Debug)]
pub struct ExecutedTrade {
    pub timestamp: u64,
    pub symbol: String,
    pub side: TradeSide,
    pub quantity: Money,
    pub price: Money,
    pub fee: Money,
    pub slippage: Money,
    pub reason_code: String,
}

/// An execution as a value.
pub struct ExecutedTradeView {
    pub timestamp: u64,
    pub symbol: Seq<char>,
    pub side: TradeSide,
    pub quantity: Dec,
    pub price: Dec,
    pub fee: Dec,
    pub slippage: Dec,
    pub reason_code: Seq<char>,
}

impl View for ExecutedTrade {
    type V = ExecutedTradeView;

    open spec fn view(&self) -> ExecutedTradeView {
        ExecutedTradeView {
            timestamp: self.timestamp,
            symbol: self.symbol@,
            side: self.side,
            quantity: self.quantity@,
            price: self.price@,
            fee: self.fee@,
            slippage: self.slippage@,
            reason_code: self.reason_code@,
        }
    }
}

/// Holdings in one symbol at a point in time.
#[derive(Debug)]
pub struct Position {
    pub timestamp: u64,
    pub symbol: String,
    pub quantity: Money,
    pub avg_price: Money,
    pub unrealized_pnl: Money,
    pub realized_pnl: Money,
}

/// Bars, tape and rules of one symbol.
#[derive(Debug)]
pub struct MarketData {
    pub symbol: String,
    pub timeframe: String,
    pub bars: Vec<Bar>,
    pub trades: Vec<Trade>,
    pub rules: ExchangeRules,
}

/// What one simulated symbol yields.
#[derive(Debug)]
pub struct SimulationResult {
    pub trades: Vec<ExecutedTrade>,
    pub positions: Vec<Position>,
    pub equity_curve: Vec<EquityPoint>,
    pub max_drawdown: Money,
    pub exposure: Money,
    /// Profit attributed to each rule, by name.
    pub attribution: Vec<(String, Money)>,
}

/// The named shares of a vector as values.
pub open spec fn shares_view(v: Seq<(String, Money)>) -> Seq<(Seq<char>, Dec)> {
    v.map_values(|x: (String, Money)| (x.0@, x.1@))
}

/// What one simulated symbol yields, as a value.
pub struct SimulationView {
    pub trades: Seq<ExecutedTradeView>,
    pub positions: Seq<Position>,
    pub equity_curve: Seq<EquityPointView>,
    pub max_drawdown: Dec,
    pub exposure: Dec,
    pub attribution: Seq<(Seq<char>, Dec)>,
}

impl View for SimulationResult {
    type V = SimulationView;

    open spec fn view(&self) -> SimulationView {
        SimulationView {
            trades: executed_view(self.trades@),
            positions: self.positions@,
            equity_curve: curve_view(self.equity_curve@),
            max_drawdown: self.max_drawdown@,
            exposure: self.exposure@,
            attribution: shares_view(self.attribution@),
        }
    }
}

/// Result of one symbol of a job.
#[derive(Debug)]
pub struct SymbolResult {
    pub symbol: String,
    pub trades: Vec<ExecutedTrade>,
    pub positions: Vec<Position>,
    pub equity_curve: Vec<EquityPoint>,
    pub drawdown: Money,
    pub exposure: Money,
    pub attribution: Vec<(String, Money)>,
    pub trade_table: Option<TradeTableResult>,
}


pub open spec fn option_table_view(t: Option<TradeTableResult>) -> Option<ResultView> {
    match t {
        Some(x) => Some(x@),
        None => None,
    }
}

/// Result of one symbol as a value.
pub struct SymbolResultView {
    pub symbol: Seq<char>,
    pub trades: Seq<ExecutedTradeView>,
    pub positions: Seq<Position>,
    pub equity_curve: Seq<EquityPointView>,
    pub drawdown: Dec,
    pub exposure: Dec,
    pub attribution: Seq<(Seq<char>, Dec)>,
    pub trade_table: Option<ResultView>,
}

impl View for SymbolResult {
    type V = SymbolResultView;

    open spec fn view(&self) -> SymbolResultView {
        SymbolResultView {
            symbol: self.symbol@,
            trades: executed_view(self.trades@),
            positions: self.positions@,
            equity_curve: curve_view(self.equity_curve@),
            drawdown: self.drawdown@,
            exposure: self.exposure@,
            attribution: shares_view(self.attribution@),
            trade_table: option_table_view(self.trade_table),
        }
    }
}

/// What a whole job yields.
#[derive(Debug)]
pub struct BacktestResult {
    pub job_id: String,
    pub execution_time_ms: u64,
    pub symbol_results: Vec<SymbolResult>,
    pub performance_metrics: PerformanceMetrics,
    pub manifest: crate::RunManifest,
}

} // verus!
