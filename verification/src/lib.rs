//! Deterministic bar-driven backtesting kernel.
//!
//! Every monetary value is a base-10 decimal ([`money::Money`]).  The kernel
//! consumes OHLCV bars and entry signals, applies exchange rules, tracks one
//! bracketed position per symbol and emits a ledger of closed trades with
//! aggregate statistics.

use vstd::prelude::*;

pub mod money;
pub mod precision;
pub mod types;
pub mod indicators;
pub mod simulator;
pub mod summary;
pub mod trade_table;
pub mod invariants;
pub mod laws;
pub mod csv_parse;
pub mod export;
pub mod versioning;

verus! {

/// Engine-wide settings.
#[derive(Clone, Debug)]
pub struct EngineConfig {
    /// Rounding of monetary values; `"nearest-even"` is the only mode the kernel uses.
    pub rounding_mode: String,
    /// Whether a vectorised moving average may be used by the host.
    pub enable_simd: bool,
    /// Cores the host may pin the run to.
    pub cpu_affinity: Option<Vec<usize>>,
    /// Number of bars to reserve room for.
    pub prealloc_size: usize,
    /// Seed for anything pseudo-random in a strategy.
    pub random_seed: u64,
}

impl Default for EngineConfig {
    fn default() -> (r: Self)
        ensures
            r.rounding_mode@ == "nearest-even"@,
            r.enable_simd,
            r.cpu_affinity is None,
            r.prealloc_size == 1_000_000,
            r.random_seed == 42,
    {
        EngineConfig {
            rounding_mode: "nearest-even".to_string(),
            enable_simd: true,
            cpu_affinity: None,
            prealloc_size: 1_000_000,
            random_seed: 42,
        }
    }
}

/// How events inside one bar are ordered.
#[derive(Clone, Copy, Debug, PartialEq, Eq, Structural)]
pub enum IntrabarPolicy {
    /// Follow the trades recorded inside the bar.
    ExactTrades,
    /// Walk sixty one-second steps from open to close.
    OneSecondBars,
    /// Decide by distance from the bar's open.
    LinearInterpolation,
}

/// How far an execution price is moved against the trader.
#[derive(Clone, Copy, Debug, PartialEq, Eq, Structural)]
pub enum SlippageMode {
    /// No displacement.
    Off,
    /// One basis point.
    TradeSweep,
    /// Five basis points.
    SyntheticBook,
}

/// What to backtest.
#[derive(Clone, Debug)]
pub struct BacktestJob {
    pub job_id: String,
    pub symbols: Vec<String>,
    pub timeframe: String,
    /// Unix milliseconds.
    pub start_time: u64,
    /// Unix milliseconds.
    pub end_time: u64,
    pub intrabar_policy: IntrabarPolicy,
    pub fee_version: String,
    pub slippage_mode: SlippageMode,
    pub strategy_wasm_hash: String,
    pub snapshot_id: String,
}

/// Counters of work done.
#[derive(Clone, Copy, Debug, PartialEq, Eq, Structural)]
pub struct PerformanceMetrics {
    pub bars_processed: u64,
    pub indicators_calculated: u64,
    pub trades_executed: u64,
    pub execution_time_ms: u64,
    pub memory_allocated_bytes: u64,
    pub cache_hits: u64,
    pub cache_misses: u64,
}

impl PerformanceMetrics {
    /// All counters at zero.
    pub fn new() -> (r: Self)
        ensures
            r == (PerformanceMetrics {
                bars_processed: 0,
                indicators_calculated: 0,
                trades_executed: 0,
                execution_time_ms: 0,
                memory_allocated_bytes: 0,
                cache_hits: 0,
                cache_misses: 0,
            }),
    {
        PerformanceMetrics {
            bars_processed: 0,
            indicators_calculated: 0,
            trades_executed: 0,
            execution_time_ms: 0,
            memory_allocated_bytes: 0,
            cache_hits: 0,
            cache_misses: 0,
        }
    }
}


/// The name of a policy as manifests record it.
pub open spec fn policy_name(policy: IntrabarPolicy) -> Seq<char> {
    match policy {
        IntrabarPolicy::ExactTrades => "ExactTrades"@,
        IntrabarPolicy::OneSecondBars => "OneSecondBars"@,
        IntrabarPolicy::LinearInterpolation => "LinearInterpolation"@,
    }
}

/// The name of a slippage mode as manifests record it.
pub open spec fn slippage_name(mode: SlippageMode) -> Seq<char> {
    match mode {
        SlippageMode::Off => "None"@,
        SlippageMode::TradeSweep => "TradeSweep"@,
        SlippageMode::SyntheticBook => "SyntheticBook"@,
    }
}

/// What identifies a run.
#[derive(Debug)]
pub struct RunManifest {
    pub job_id: String,
    pub snapshot_id: String,
    pub engine_version: String,
    pub strategy_hash: String,
    pub intrabar_policy: String,
    pub fee_version: String,
    pub slippage_mode: String,
    /// Unix milliseconds.
    pub created_at: u64,
    pub cpu_features: Vec<String>,
    pub fp_flags: String,
}

impl RunManifest {
    /// The manifest of `job`, made by engine `engine_version` at time
    /// `created_at`.
    pub fn from_job(job: &BacktestJob, engine_version: &str, created_at: u64) -> (r: Self)
        ensures
            r.job_id@ == job.job_id@,
            r.snapshot_id@ == job.snapshot_id@,
            r.engine_version@ == engine_version@,
            r.strategy_hash@ == job.strategy_wasm_hash@,
            r.intrabar_policy@ == policy_name(job.intrabar_policy),
            r.fee_version@ == job.fee_version@,
            r.slippage_mode@ == slippage_name(job.slippage_mode),
            r.created_at == created_at,
            r.cpu_features@.len() == 1,
            r.cpu_features@[0]@ == "simd"@,
            r.fp_flags@ == "nearest-even"@,
    {
        let mut cpu_features: Vec<String> = Vec::new();
        cpu_features.push("simd".to_string());
        RunManifest {
            job_id: job.job_id.clone(),
            snapshot_id: job.snapshot_id.clone(),
            engine_version: engine_version.to_string(),
            strategy_hash: job.strategy_wasm_hash.clone(),
            intrabar_policy: match job.intrabar_policy {
                IntrabarPolicy::ExactTrades => "ExactTrades".to_string(),
                IntrabarPolicy::OneSecondBars => "OneSecondBars".to_string(),
                IntrabarPolicy::LinearInterpolation => "LinearInterpolation".to_string(),
            },
            fee_version: job.fee_version.clone(),
            slippage_mode: match job.slippage_mode {
                SlippageMode::Off => "None".to_string(),
                SlippageMode::TradeSweep => "TradeSweep".to_string(),
                SlippageMode::SyntheticBook => "SyntheticBook".to_string(),
            },
            created_at,
            cpu_features,
            fp_flags: "nearest-even".to_string(),
        }
    }
}

/// The engine: its settings, an indicator registry and the simulator of
/// the symbol run last.
#[derive(Debug)]
pub struct BacktestEngine {
    config: EngineConfig,
    indicators: indicators::IndicatorRegistry,
    simulator: simulator::ExchangeSimulator,
    performance_metrics: PerformanceMetrics,
}

/// What one symbol of a job yields when its run is `outcome`: the report
/// of the run with the trade table of its generator.  A table that cannot
/// be summarized fails the symbol at the time of its last bar, or at zero
/// when it has none.
pub open spec fn symbol_result_spec(
    symbol: Seq<char>,
    data: types::MarketData,
    outcome: simulator::RunOutcome,
) -> Result<types::SymbolResultView, types::RunError> {
    match outcome.error {
        Some(e) => Err(e),
        None => match trade_table::result_spec(outcome.sim.generator) {
            Ok(table) => Ok(
                types::SymbolResultView {
                    symbol,
                    trades: outcome.executed,
                    positions: Seq::empty(),
                    equity_curve: outcome.sim.equity_curve,
                    drawdown: outcome.sim.generator.max_drawdown,
                    exposure: outcome.sim.exposure,
                    attribution: simulator::attribution_spec(),
                    trade_table: Some(table),
                },
            ),
            Err(e) => Err(
                types::RunError {
                    kind: e,
                    timestamp: if data.bars@.len() > 0 {
                        data.bars@.last().timestamp
                    } else {
                        0
                    },
                },
            ),
        },
    }
}

pub open spec fn symbol_result_view(r: Result<types::SymbolResult, types::RunError>) -> Result<
    types::SymbolResultView,
    types::RunError,
> {
    match r {
        Ok(s) => Ok(s@),
        Err(e) => Err(e),
    }
}

/// A simulator that has seen no bar.
pub open spec fn fresh_simulator() -> simulator::SimulatorView {
    simulator::SimulatorView {
        generator: trade_table::fresh_generator(money::dec(100000, 1), money::dec(10000, 1)),
        equity_curve: Seq::empty(),
        exposure: money::dec(0, 0),
    }
}

impl BacktestEngine {
    pub closed spec fn wf(&self) -> bool {
        self.indicators.wf() && self.simulator.wf()
    }

    pub closed spec fn config(&self) -> EngineConfig {
        self.config
    }

    pub closed spec fn metrics(&self) -> PerformanceMetrics {
        self.performance_metrics
    }

    /// The state of the engine's simulator.
    pub closed spec fn simulator_view(&self) -> simulator::SimulatorView {
        self.simulator@
    }

    /// The engine's indicator registry.
    pub closed spec fn registry(&self) -> indicators::IndicatorRegistry {
        self.indicators
    }

    /// An engine with an empty registry and a simulator that has seen no bar.
    pub fn new(config: EngineConfig) -> (r: Result<Self, types::EngineError>)
        ensures
            r is Ok,
            r->Ok_0.wf(),
            r->Ok_0.config() == config,
            r->Ok_0.registry().simd_enabled() == config.enable_simd,
            r->Ok_0.registry().remembered() == 0,
            r->Ok_0.simulator_view() == fresh_simulator(),
            r->Ok_0.metrics() == (PerformanceMetrics {
                bars_processed: 0,
                indicators_calculated: 0,
                trades_executed: 0,
                execution_time_ms: 0,
                memory_allocated_bytes: 0,
                cache_hits: 0,
                cache_misses: 0,
            }),
    {
        let indicators = match indicators::IndicatorRegistry::new(config.enable_simd) {
            Ok(r) => r,
            Err(e) => {
                return Err(e);
            },
        };
        let simulator = match simulator::ExchangeSimulator::new() {
            Ok(s) => s,
            Err(e) => {
                return Err(e);
            },
        };
        Ok(
            BacktestEngine {
                config,
                indicators,
                simulator,
                performance_metrics: PerformanceMetrics::new(),
            },
        )
    }

    /// The simulator of the symbol run last.
    pub fn simulator(&self) -> (r: &simulator::ExchangeSimulator)
        requires
            self.wf(),
        ensures
            r.wf(),
            r@ == self.simulator_view(),
    {
        &self.simulator
    }

    /// The counters of the engine.
    pub fn performance_metrics(&self) -> (r: PerformanceMetrics)
        ensures
            r == self.metrics(),
    {
        self.performance_metrics
    }

    /// The series `indicator_name` stands for on the bars of `market_data`.
    pub fn calculate_indicator(&mut self, indicator_name: &str, market_data: &types::MarketData) -> (r:
        Result<Vec<types::IndicatorValue>, types::EngineError>)
        requires
            old(self).wf(),
        ensures
            final(self).wf(),
            final(self).config() == old(self).config(),
            final(self).metrics() == old(self).metrics(),
            final(self).simulator_view() == old(self).simulator_view(),
            final(self).registry().simd_enabled() == old(self).registry().simd_enabled(),
            indicators::points_result_view(r) == indicators::indicator_spec(
                indicator_name@,
                market_data.bars@,
            ),
            r is Ok ==> final(self).registry().remembers(
                indicator_name@,
                market_data.symbol@,
                market_data.bars@,
            ),
            r is Err ==> final(self).registry().entries() == old(self).registry().entries(),
    {
        self.indicators.calculate(indicator_name, market_data)
    }

    /// The indicator registry.
    pub fn indicators(&self) -> (r: &indicators::IndicatorRegistry)
        requires
            self.wf(),
        ensures
            *r == self.registry(),
            r.wf(),
    {
        &self.indicators
    }

    /// Runs one symbol from a simulator that has seen no bar: bar `i` of
    /// `market_data` with the signals `signals[i]`, under the policy and
    /// slippage of `job`.
    pub fn execute_symbol_backtest(
        &mut self,
        symbol: &str,
        job: &BacktestJob,
        market_data: &types::MarketData,
        signals: &Vec<Vec<types::StrategySignal>>,
    ) -> (r: Result<types::SymbolResult, types::RunError>)
        requires
            old(self).wf(),
        ensures
            final(self).wf(),
            final(self).config() == old(self).config(),
            final(self).metrics() == old(self).metrics(),
            final(self).registry() == old(self).registry(),
            final(self).simulator_view() == simulator::run_spec(
                fresh_simulator(),
                *market_data,
                signals@,
                job.intrabar_policy,
                job.slippage_mode,
                market_data.bars@.len() as int,
            ).sim,
            symbol_result_view(r) == symbol_result_spec(
                symbol@,
                *market_data,
                simulator::run_spec(
                    fresh_simulator(),
                    *market_data,
                    signals@,
                    job.intrabar_policy,
                    job.slippage_mode,
                    market_data.bars@.len() as int,
                ),
            ),
    {
        let mut simulator = match simulator::ExchangeSimulator::new() {
            Ok(s) => s,
            Err(e) => {
                return Err(types::RunError { kind: e, timestamp: 0 });
            },
        };
        let run = simulator.simulate(market_data, signals, &job.intrabar_policy, &job.slippage_mode);
        let table = simulator.get_trade_table_result();
        self.simulator = simulator;
        let simulation = match run {
            Ok(s) => s,
            Err(e) => {
                return Err(e);
            },
        };
        match table {
            Ok(trade_table) => Ok(
                types::SymbolResult {
                    symbol: symbol.to_string(),
                    trades: simulation.trades,
                    positions: simulation.positions,
                    equity_curve: simulation.equity_curve,
                    drawdown: simulation.max_drawdown,
                    exposure: simulation.exposure,
                    attribution: simulation.attribution,
                    trade_table: Some(trade_table),
                },
            ),
            Err(e) => {
                let n = market_data.bars.len();
                let timestamp = if n > 0 {
                    market_data.bars[n - 1].timestamp
                } else {
                    0
                };
                Err(types::RunError { kind: e, timestamp })
            },
        }
    }
}

} // verus!
