//! The exchange simulator: feeds bars, tape and signals to the trade table
//! generator, lists the executions of every bar and keeps the equity curve.

use vstd::prelude::*;
use crate::money::{
    add_opt, dec, mul_spec, opt_add, option_money_view, quantize, quantize_spec, sub_spec, Dec,
    Money,
};
use crate::trade_table::{
    drawdown, drawdown_spec, entry_size_spec, execution_price_spec, fee_of, fee_rounding_spec,
    fee_spec, fresh_generator, path_price, price_on_path, process_bar_spec, result_spec,
    round_fee, table_result_view, GeneratorView, TradeTableGenerator,
};
use crate::types::{
    arith, curve_view, executed_view, money_result_view, or_arithmetic, ActivePosition, Bar,
    EngineError, EquityPoint, EquityPointView, ExchangeRules, ExecutedTrade, ExecutedTradeView,
    IntrabarPolicy, MarketData, Position, PositionView, RunError, SimulationResult,
    SimulationView, SlippageMode, StrategySignal, Trade, TradeSide, TradeTableResult,
};
use vstd::string::StringExecFns;

verus! {

/// State of a simulator as a value.
pub struct SimulatorView {
    pub generator: GeneratorView,
    pub equity_curve: Seq<EquityPointView>,
    pub exposure: Dec,
}

/// The trades of `tape` stamped from `from` on and, if `until` is given,
/// before it; in tape order.
pub open spec fn tape_between(tape: Seq<Trade>, from: u64, until: Option<u64>) -> Seq<Trade>
    decreases tape.len(),
{
    if tape.len() == 0 {
        Seq::empty()
    } else {
        let earlier = tape_between(tape.drop_last(), from, until);
        let t = tape.last();
        if from <= t.timestamp && (until is None || t.timestamp < until->0) {
            earlier.push(t)
        } else {
            earlier
        }
    }
}

/// The trades that fall inside bar `i`: from its timestamp up to the next
/// bar's, or to the end of the tape for the last bar.
pub open spec fn tape_of_bar(tape: Seq<Trade>, bars: Seq<Bar>, i: int) -> Seq<Trade> {
    tape_between(
        tape,
        bars[i].timestamp,
        if i + 1 < bars.len() {
            Some(bars[i + 1].timestamp)
        } else {
            None
        },
    )
}

/// The reason code written on the executions of a policy.
pub open spec fn reason_code_spec(policy: IntrabarPolicy) -> Seq<char> {
    match policy {
        IntrabarPolicy::ExactTrades => "strategy_signal"@,
        IntrabarPolicy::OneSecondBars => "one_second_bar"@,
        IntrabarPolicy::LinearInterpolation => "linear_interpolation"@,
    }
}

/// How many signals of a bar are executed: all of them, but at most sixty
/// under one-second bars.
pub open spec fn executed_count(policy: IntrabarPolicy, signals: int) -> int {
    if policy == IntrabarPolicy::OneSecondBars && signals > 60 {
        60
    } else {
        signals
    }
}

/// The price the `i`-th of `n` signals starts from: the close with exact
/// trades, the `i`-th one-second step with one-second bars, and the `i`-th
/// of `n - 1` equal steps from open to close with linear interpolation.
pub open spec fn signal_base_price(bar: Bar, policy: IntrabarPolicy, i: int, n: int) -> Option<Dec> {
    match policy {
        IntrabarPolicy::ExactTrades => Some(bar.close@),
        IntrabarPolicy::OneSecondBars => path_price(bar, i, 60),
        IntrabarPolicy::LinearInterpolation => path_price(bar, i, if n > 1 { n - 1 } else { 1 }),
    }
}

/// The time the `i`-th signal executes at: the bar's, or `i` seconds later
/// with one-second bars.
pub open spec fn signal_time(bar: Bar, policy: IntrabarPolicy, i: int) -> int {
    match policy {
        IntrabarPolicy::OneSecondBars => bar.timestamp + 1000 * i,
        _ => bar.timestamp as int,
    }
}

/// The execution of the `i`-th of `n` signals: its base price moved by
/// slippage and quantized, the fee on the signal's size at that price (the
/// default size where the signal has none), and the slippage as the
/// distance between the two prices.
pub open spec fn execution_spec(
    default_size: Dec,
    bar: Bar,
    signal: StrategySignal,
    policy: IntrabarPolicy,
    slippage: SlippageMode,
    rules: ExchangeRules,
    i: int,
    n: int,
) -> Option<ExecutedTradeView> {
    let base = signal_base_price(bar, policy, i, n);
    if base is None || signal_time(bar, policy, i) > u64::MAX {
        None
    } else {
        match execution_price_spec(base->0, signal.side, slippage, rules) {
            None => None,
            Some(price) => {
                let size = entry_size_spec(default_size, signal);
                let fee = fee_spec(size, price, rules);
                let moved = sub_spec(price, base->0);
                if fee is Some && moved is Some {
                    Some(
                        ExecutedTradeView {
                            timestamp: signal_time(bar, policy, i) as u64,
                            symbol: signal.symbol@,
                            side: signal.side,
                            quantity: size,
                            price,
                            fee: fee->0,
                            slippage: moved->0.magnitude(),
                            reason_code: reason_code_spec(policy),
                        },
                    )
                } else {
                    None
                }
            },
        }
    }
}

/// The executions of the signals of one bar, one by one.
pub open spec fn execution_values(
    default_size: Dec,
    bar: Bar,
    signals: Seq<StrategySignal>,
    policy: IntrabarPolicy,
    slippage: SlippageMode,
    rules: ExchangeRules,
) -> Seq<Option<ExecutedTradeView>> {
    Seq::new(
        executed_count(policy, signals.len() as int) as nat,
        |i: int|
            execution_spec(
                default_size,
                bar,
                signals[i],
                policy,
                slippage,
                rules,
                i,
                signals.len() as int,
            ),
    )
}

/// The executions of one bar; an arithmetic failure if any of them fails.
pub open spec fn executions_spec(
    default_size: Dec,
    bar: Bar,
    signals: Seq<StrategySignal>,
    policy: IntrabarPolicy,
    slippage: SlippageMode,
    rules: ExchangeRules,
) -> Result<Seq<ExecutedTradeView>, EngineError> {
    let values = execution_values(default_size, bar, signals, policy, slippage, rules);
    if forall|i: int| 0 <= i < values.len() ==> (#[trigger] values[i]) is Some {
        Ok(Seq::new(values.len(), |i: int| values[i]->0))
    } else {
        Err(EngineError::Arithmetic)
    }
}

/// The value of the open positions: quantity without sign times entry
/// price, added up from zero.
pub open spec fn exposure_spec(positions: Seq<PositionView>) -> Option<Dec>
    decreases positions.len(),
{
    if positions.len() == 0 {
        Some(dec(0, 0))
    } else {
        add_opt(
            exposure_spec(positions.drop_last()),
            mul_spec(positions.last().quantity.magnitude(), positions.last().entry_price),
        )
    }
}

/// The equity point of a generator at `timestamp`.
pub open spec fn equity_point_spec(g: GeneratorView, timestamp: u64) -> Option<EquityPointView> {
    let drawdown = drawdown_spec(g.peak_equity, g.current_equity);
    let exposure = exposure_spec(g.positions);
    if drawdown is Some && exposure is Some {
        Some(
            EquityPointView {
                timestamp,
                equity: g.current_equity,
                drawdown: drawdown->0,
                exposure: exposure->0,
            },
        )
    } else {
        None
    }
}

/// One bar of a simulation: the executions of the bar's signals, then the
/// generator's step, then one more equity point.  A failure before the
/// generator has stepped leaves the simulator as it was; a failure of the
/// equity point leaves the generator stepped and the curve as it was.
#[verifier::opaque]
pub open spec fn step_spec(
    sim: SimulatorView,
    bar: Bar,
    tape: Seq<Trade>,
    signals: Seq<StrategySignal>,
    policy: IntrabarPolicy,
    slippage: SlippageMode,
    rules: ExchangeRules,
) -> (SimulatorView, Result<Seq<ExecutedTradeView>, EngineError>) {
    match executions_spec(sim.generator.default_size_usd, bar, signals, policy, slippage, rules) {
        Err(e) => (sim, Err(e)),
        Ok(executed) => match process_bar_spec(
            sim.generator,
            bar,
            signals,
            policy,
            slippage,
            rules,
            tape,
        ) {
            Err(e) => (sim, Err(e)),
            Ok(g) => match equity_point_spec(g, bar.timestamp) {
                None => (SimulatorView { generator: g, ..sim }, Err(EngineError::Arithmetic)),
                Some(point) => (
                    SimulatorView {
                        generator: g,
                        equity_curve: sim.equity_curve.push(point),
                        exposure: point.exposure,
                    },
                    Ok(executed),
                ),
            },
        }
    }
}

pub open spec fn executed_result_view(r: Result<Vec<ExecutedTrade>, EngineError>) -> Result<
    Seq<ExecutedTradeView>,
    EngineError,
> {
    match r {
        Ok(v) => Ok(executed_view(v@)),
        Err(e) => Err(e),
    }
}

/// The signals of bar `i`; none where the list is shorter than the bars.
pub open spec fn signals_of_bar(signals: Seq<Vec<StrategySignal>>, i: int) -> Seq<StrategySignal> {
    if 0 <= i < signals.len() {
        signals[i]@
    } else {
        Seq::empty()
    }
}

/// How a run over a prefix of the bars ends.
pub struct RunOutcome {
    pub sim: SimulatorView,
    pub executed: Seq<ExecutedTradeView>,
    pub error: Option<RunError>,
}

/// The run over the first `n` bars, in order.  It stops at the first bar
/// that fails and keeps the timestamp of that bar with the error.
pub open spec fn run_spec(
    sim: SimulatorView,
    data: MarketData,
    signals: Seq<Vec<StrategySignal>>,
    policy: IntrabarPolicy,
    slippage: SlippageMode,
    n: int,
) -> RunOutcome
    decreases n,
{
    if n <= 0 {
        RunOutcome { sim, executed: Seq::empty(), error: None }
    } else {
        let before = run_spec(sim, data, signals, policy, slippage, n - 1);
        if before.error is Some {
            before
        } else {
            let (after, result) = step_spec(
                before.sim,
                data.bars@[n - 1],
                tape_of_bar(data.trades@, data.bars@, n - 1),
                signals_of_bar(signals, n - 1),
                policy,
                slippage,
                data.rules,
            );
            match result {
                Ok(executed) => RunOutcome {
                    sim: after,
                    executed: before.executed + executed,
                    error: None,
                },
                Err(e) => RunOutcome {
                    sim: after,
                    executed: before.executed,
                    error: Some(RunError { kind: e, timestamp: data.bars@[n - 1].timestamp }),
                },
            }
        }
    }
}

/// Once a run has failed, more bars change nothing.
pub proof fn lemma_run_stops_at_error(
    sim: SimulatorView,
    data: MarketData,
    signals: Seq<Vec<StrategySignal>>,
    policy: IntrabarPolicy,
    slippage: SlippageMode,
    n: int,
    m: int,
)
    requires
        0 <= n <= m,
        run_spec(sim, data, signals, policy, slippage, n).error is Some,
    ensures
        run_spec(sim, data, signals, policy, slippage, m) == run_spec(
            sim,
            data,
            signals,
            policy,
            slippage,
            n,
        ),
    decreases m - n,
{
    if n < m {
        lemma_run_stops_at_error(sim, data, signals, policy, slippage, n, m - 1);
    }
}

/// The three rules profit is attributed to, each with no profit yet.
pub open spec fn attribution_spec() -> Seq<(Seq<char>, Dec)> {
    seq![("momentum"@, dec(0, 1)), ("mean_reversion"@, dec(0, 1)), ("breakout"@, dec(0, 1))]
}

/// What a finished run reports.
pub open spec fn report_spec(outcome: RunOutcome) -> SimulationView {
    SimulationView {
        trades: outcome.executed,
        positions: Seq::empty(),
        equity_curve: outcome.sim.equity_curve,
        max_drawdown: outcome.sim.generator.max_drawdown,
        exposure: outcome.sim.exposure,
        attribution: attribution_spec(),
    }
}


/// Simulates one symbol bar by bar.
#[derive(Debug)]
pub struct ExchangeSimulator {
    equity_history: Vec<EquityPoint>,
    exposure: Money,
    trade_table_generator: TradeTableGenerator,
}

impl View for ExchangeSimulator {
    type V = SimulatorView;

    closed spec fn view(&self) -> SimulatorView {
        SimulatorView {
            generator: self.trade_table_generator@,
            equity_curve: curve_view(self.equity_history@),
            exposure: self.exposure@,
        }
    }
}

pub open spec fn option_executed_view(r: Option<ExecutedTrade>) -> Option<ExecutedTradeView> {
    match r {
        Some(t) => Some(t@),
        None => None,
    }
}

pub open spec fn simulation_result_view(r: Result<SimulationResult, RunError>) -> Result<
    SimulationView,
    RunError,
> {
    match r {
        Ok(s) => Ok(s@),
        Err(e) => Err(e),
    }
}

/// The trades of `tape` stamped from `from` on and before `until`.
pub fn trades_between(tape: &Vec<Trade>, from: u64, until: Option<u64>) -> (r: Vec<Trade>)
    ensures
        r@ == tape_between(tape@, from, until),
{
    let mut out: Vec<Trade> = Vec::new();
    let mut i: usize = 0;
    proof {
        assert(tape@.take(0) =~= Seq::<Trade>::empty());
    }
    while i < tape.len()
        invariant
            i <= tape.len(),
            out@ == tape_between(tape@.take(i as int), from, until),
        decreases tape.len() - i,
    {
        proof {
            assert(tape@.take(i as int + 1).drop_last() =~= tape@.take(i as int));
        }
        let inside = from <= tape[i].timestamp && match until {
            Some(end) => tape[i].timestamp < end,
            None => true,
        };
        if inside {
            let t = tape[i].clone();
            out.push(t);
        }
        i = i + 1;
    }
    proof {
        assert(tape@.take(i as int) =~= tape@);
    }
    out
}

fn reason_code(policy: &IntrabarPolicy) -> (r: String)
    ensures
        r@ == reason_code_spec(*policy),
{
    match policy {
        IntrabarPolicy::ExactTrades => String::from_str("strategy_signal"),
        IntrabarPolicy::OneSecondBars => String::from_str("one_second_bar"),
        IntrabarPolicy::LinearInterpolation => String::from_str("linear_interpolation"),
    }
}

impl ExchangeSimulator {
    /// The generator is in a state that bars can lead to.
    pub closed spec fn wf(&self) -> bool {
        self.trade_table_generator.wf()
    }

    /// A simulator that has seen no bar, over a generator with the default
    /// equity and entry size.
    pub fn new() -> (r: Result<Self, EngineError>)
        ensures
            r is Ok,
            r->Ok_0.wf(),
            r->Ok_0@ == (SimulatorView {
                generator: fresh_generator(dec(100000, 1), dec(10000, 1)),
                equity_curve: Seq::empty(),
                exposure: dec(0, 0),
            }),
    {
        let sim = ExchangeSimulator {
            equity_history: Vec::new(),
            exposure: Money::zero(),
            trade_table_generator: TradeTableGenerator::new(),
        };
        assert(sim@.equity_curve =~= Seq::empty());
        Ok(sim)
    }

    /// The price moved against the trader by the slippage and quantized to
    /// the tick.
    pub fn calculate_execution_price(
        &self,
        base_price: Money,
        side: &TradeSide,
        slippage_mode: &SlippageMode,
        rules: &ExchangeRules,
    ) -> (r: Result<Money, EngineError>)
        ensures
            money_result_view(r) == arith(
                execution_price_spec(base_price@, *side, *slippage_mode, *rules),
            ),
    {
        self.trade_table_generator.apply_slippage(base_price, side, slippage_mode, rules)
    }

    /// The taker fee on `quantity * price`, rounded to the price precision.
    pub fn calculate_fee(&self, quantity: Money, price: Money, rules: &ExchangeRules) -> (r: Result<
        Money,
        EngineError,
    >)
        ensures
            money_result_view(r) == arith(fee_spec(quantity@, price@, *rules)),
    {
        or_arithmetic(fee_of(quantity, price, rules))
    }

    /// The price moved to the nearest multiple of the tick size.
    pub fn quantize_price(&self, price: Money, rules: &ExchangeRules) -> (r: Result<
        Money,
        EngineError,
    >)
        ensures
            money_result_view(r) == arith(quantize_spec(Some(price@), rules.tick_size@)),
    {
        or_arithmetic(quantize(Some(price), &rules.tick_size))
    }

    /// The quantity moved to the nearest multiple of the lot size.
    pub fn quantize_quantity(&self, quantity: Money, rules: &ExchangeRules) -> (r: Result<
        Money,
        EngineError,
    >)
        ensures
            money_result_view(r) == arith(quantize_spec(Some(quantity@), rules.lot_size@)),
    {
        or_arithmetic(quantize(Some(quantity), &rules.lot_size))
    }

    /// The fee rounded to the price precision.
    pub fn quantize_fee(&self, fee: Money, rules: &ExchangeRules) -> (r: Result<Money, EngineError>)
        ensures
            money_result_view(r) == arith(fee_rounding_spec(Some(fee@), rules.precision_price)),
    {
        or_arithmetic(round_fee(Some(fee), rules.precision_price))
    }

    /// The execution of the `i`-th of `n` signals of a bar.
    fn execute_signal(
        default_size: Money,
        bar: &Bar,
        signal: &StrategySignal,
        policy: &IntrabarPolicy,
        slippage_mode: &SlippageMode,
        rules: &ExchangeRules,
        i: usize,
        n: usize,
    ) -> (r: Option<ExecutedTrade>)
        ensures
            option_executed_view(r) == execution_spec(
                default_size@,
                *bar,
                *signal,
                *policy,
                *slippage_mode,
                *rules,
                i as int,
                n as int,
            ),
    {
        let base = match policy {
            IntrabarPolicy::ExactTrades => Some(bar.close),
            IntrabarPolicy::OneSecondBars => price_on_path(bar, i as u64, 60),
            IntrabarPolicy::LinearInterpolation => price_on_path(
                bar,
                i as u64,
                if n > 1 {
                    (n - 1) as u64
                } else {
                    1
                },
            ),
        };
        let stamp: u128 = match policy {
            IntrabarPolicy::OneSecondBars => bar.timestamp as u128 + 1000 * (i as u128),
            _ => bar.timestamp as u128,
        };
        let base = match base {
            Some(b) => b,
            None => {
                return None;
            },
        };
        if stamp > u64::MAX as u128 {
            return None;
        }
        let moved_price = quantize(
            match signal.side {
                TradeSide::Buy => opt_add(Some(base), slippage_of(&base, slippage_mode)),
                TradeSide::Sell => crate::money::opt_sub(
                    Some(base),
                    slippage_of(&base, slippage_mode),
                ),
            },
            &rules.tick_size,
        );
        let price = match moved_price {
            Some(p) => p,
            None => {
                return None;
            },
        };
        let size = match signal.size {
            Some(s) => s,
            None => default_size,
        };
        let fee = fee_of(size, price, rules);
        let moved = price.checked_sub(&base);
        match (fee, moved) {
            (Some(f), Some(m)) => Some(
                ExecutedTrade {
                    timestamp: stamp as u64,
                    symbol: signal.symbol.clone(),
                    side: signal.side,
                    quantity: size,
                    price,
                    fee: f,
                    slippage: m.abs(),
                    reason_code: reason_code(policy),
                },
            ),
            _ => None,
        }
    }

    /// The executions of the signals of one bar under `intrabar_policy`.
    pub fn simulate_intrabar(
        &self,
        bar: &Bar,
        signals: &[StrategySignal],
        intrabar_policy: &IntrabarPolicy,
        slippage_mode: &SlippageMode,
        rules: &ExchangeRules,
    ) -> (r: Result<Vec<ExecutedTrade>, EngineError>)
        ensures
            executed_result_view(r) == executions_spec(
                self@.generator.default_size_usd,
                *bar,
                signals@,
                *intrabar_policy,
                *slippage_mode,
                *rules,
            ),
    {
        let default_size = self.trade_table_generator.default_size_usd();
        let count: usize = match intrabar_policy {
            IntrabarPolicy::OneSecondBars => if signals.len() > 60 {
                60
            } else {
                signals.len()
            },
            _ => signals.len(),
        };
        let ghost wanted = execution_values(
            self@.generator.default_size_usd,
            *bar,
            signals@,
            *intrabar_policy,
            *slippage_mode,
            *rules,
        );
        let mut trades: Vec<ExecutedTrade> = Vec::new();
        let mut i: usize = 0;
        while i < count
            invariant
                i <= count <= signals.len(),
                count == executed_count(*intrabar_policy, signals.len() as int),
                default_size@ == self@.generator.default_size_usd,
                wanted == execution_values(
                    self@.generator.default_size_usd,
                    *bar,
                    signals@,
                    *intrabar_policy,
                    *slippage_mode,
                    *rules,
                ),
                trades@.len() == i,
                forall|j: int| 0 <= j < i ==> (#[trigger] wanted[j]) is Some,
                forall|j: int| 0 <= j < i ==> (#[trigger] trades@[j])@ == wanted[j]->0,
            decreases count - i,
        {
            match Self::execute_signal(
                default_size,
                bar,
                &signals[i],
                intrabar_policy,
                slippage_mode,
                rules,
                i,
                signals.len(),
            ) {
                Some(t) => {
                    trades.push(t);
                },
                None => {
                    assert(wanted[i as int] is None);
                    return Err(EngineError::Arithmetic);
                },
            }
            i = i + 1;
        }
        proof {
            assert(executed_view(trades@) =~= Seq::new(wanted.len(), |j: int| wanted[j]->0));
        }
        Ok(trades)
    }

    /// The executions of a bar when exact trades are followed: every signal
    /// at the close.
    pub fn simulate_exact_trades(
        &self,
        bar: &Bar,
        signals: &[StrategySignal],
        slippage_mode: &SlippageMode,
        rules: &ExchangeRules,
    ) -> (r: Result<Vec<ExecutedTrade>, EngineError>)
        ensures
            executed_result_view(r) == executions_spec(
                self@.generator.default_size_usd,
                *bar,
                signals@,
                IntrabarPolicy::ExactTrades,
                *slippage_mode,
                *rules,
            ),
    {
        self.simulate_intrabar(bar, signals, &IntrabarPolicy::ExactTrades, slippage_mode, rules)
    }

    /// The executions of a bar walked in one-second steps: the `i`-th
    /// signal at the `i`-th step, sixty signals at most.
    pub fn simulate_one_second_bars(
        &self,
        bar: &Bar,
        signals: &[StrategySignal],
        slippage_mode: &SlippageMode,
        rules: &ExchangeRules,
    ) -> (r: Result<Vec<ExecutedTrade>, EngineError>)
        ensures
            executed_result_view(r) == executions_spec(
                self@.generator.default_size_usd,
                *bar,
                signals@,
                IntrabarPolicy::OneSecondBars,
                *slippage_mode,
                *rules,
            ),
    {
        self.simulate_intrabar(bar, signals, &IntrabarPolicy::OneSecondBars, slippage_mode, rules)
    }

    /// The executions of a bar with the signals spread evenly from open to
    /// close.
    pub fn simulate_linear_interpolation(
        &self,
        bar: &Bar,
        signals: &[StrategySignal],
        slippage_mode: &SlippageMode,
        rules: &ExchangeRules,
    ) -> (r: Result<Vec<ExecutedTrade>, EngineError>)
        ensures
            executed_result_view(r) == executions_spec(
                self@.generator.default_size_usd,
                *bar,
                signals@,
                IntrabarPolicy::LinearInterpolation,
                *slippage_mode,
                *rules,
            ),
    {
        self.simulate_intrabar(
            bar,
            signals,
            &IntrabarPolicy::LinearInterpolation,
            slippage_mode,
            rules,
        )
    }

    /// The value of the generator's open positions.
    pub fn calculate_exposure(&self) -> (r: Option<Money>)
        ensures
            option_money_view(r) == exposure_spec(self@.generator.positions),
    {
        exposure_of(self.trade_table_generator.active_positions())
    }

    /// The three rules profit is attributed to, each with no profit yet.
    pub fn calculate_attribution(&self) -> (r: Vec<(String, Money)>)
        ensures
            crate::types::shares_view(r@) == attribution_spec(),
    {
        let mut attribution: Vec<(String, Money)> = Vec::new();
        attribution.push((String::from_str("momentum"), Money::new(0, 1)));
        attribution.push((String::from_str("mean_reversion"), Money::new(0, 1)));
        attribution.push((String::from_str("breakout"), Money::new(0, 1)));
        assert(crate::types::shares_view(attribution@) =~= attribution_spec());
        attribution
    }

    /// The snapshot of the generator: ledger, statistics, refused entries.
    pub fn get_trade_table_result(&self) -> (r: Result<TradeTableResult, EngineError>)
        ensures
            table_result_view(r) == result_spec(self@.generator),
    {
        self.trade_table_generator.generate_result()
    }

    pub fn equity_history(&self) -> (r: &Vec<EquityPoint>)
        ensures
            curve_view(r@) == self@.equity_curve,
    {
        &self.equity_history
    }

    pub fn generator(&self) -> (r: &TradeTableGenerator)
        ensures
            r@ == self@.generator,
            self.wf() ==> r.wf(),
    {
        &self.trade_table_generator
    }

    /// One bar: executions, the generator's step, one more equity point.
    pub fn step(
        &mut self,
        bar: &Bar,
        tape: &[Trade],
        signals: &[StrategySignal],
        intrabar_policy: &IntrabarPolicy,
        slippage_mode: &SlippageMode,
        rules: &ExchangeRules,
    ) -> (r: Result<Vec<ExecutedTrade>, EngineError>)
        requires
            old(self).wf(),
        ensures
            final(self).wf(),
            final(self)@ == step_spec(
                old(self)@,
                *bar,
                tape@,
                signals@,
                *intrabar_policy,
                *slippage_mode,
                *rules,
            ).0,
            executed_result_view(r) == step_spec(
                old(self)@,
                *bar,
                tape@,
                signals@,
                *intrabar_policy,
                *slippage_mode,
                *rules,
            ).1,
    {
        proof {
            reveal(step_spec);
        }
        let executed = match self.simulate_intrabar(
            bar,
            signals,
            intrabar_policy,
            slippage_mode,
            rules,
        ) {
            Ok(trades) => trades,
            Err(e) => {
                return Err(e);
            },
        };
        match self.trade_table_generator.process_bar_with_tape(
            bar,
            signals,
            intrabar_policy,
            slippage_mode,
            rules,
            tape,
        ) {
            Ok(()) => {},
            Err(e) => {
                return Err(e);
            },
        }
        let equity = self.trade_table_generator.current_equity();
        let peak = self.trade_table_generator.peak_equity();
        let fallen = drawdown(&peak, &equity);
        let exposure = exposure_of(self.trade_table_generator.active_positions());
        match (fallen, exposure) {
            (Some(d), Some(x)) => {
                let ghost before = curve_view(self.equity_history@);
                let point = EquityPoint {
                    timestamp: bar.timestamp,
                    equity,
                    drawdown: d,
                    exposure: x,
                };
                self.equity_history.push(point);
                self.exposure = x;
                proof {
                    assert(curve_view(self.equity_history@) =~= before.push(point@));
                }
                Ok(executed)
            },
            _ => Err(EngineError::Arithmetic),
        }
    }
}

fn slippage_of(base: &Money, mode: &SlippageMode) -> (r: Option<Money>)
    ensures
        option_money_view(r) == crate::trade_table::slippage_spec(base@, *mode),
{
    match mode {
        SlippageMode::Off => Some(Money::new(0, 1)),
        SlippageMode::TradeSweep => base.checked_mul(&Money::new(1, 4)),
        SlippageMode::SyntheticBook => base.checked_mul(&Money::new(5, 4)),
    }
}

fn exposure_of(positions: &Vec<ActivePosition>) -> (r: Option<Money>)
    ensures
        option_money_view(r) == exposure_spec(crate::types::positions_view(positions@)),
{
    let ghost all = crate::types::positions_view(positions@);
    let mut total: Option<Money> = Some(Money::zero());
    let mut i: usize = 0;
    proof {
        assert(all.take(0) =~= Seq::<PositionView>::empty());
    }
    while i < positions.len()
        invariant
            i <= positions.len(),
            all == crate::types::positions_view(positions@),
            option_money_view(total) == exposure_spec(all.take(i as int)),
        decreases positions.len() - i,
    {
        proof {
            assert(all.take(i as int + 1).drop_last() =~= all.take(i as int));
            assert(all.take(i as int + 1).last() == positions@[i as int]@);
        }
        total = opt_add(total, positions[i].quantity.abs().checked_mul(&positions[i].entry_price));
        i = i + 1;
    }
    proof {
        assert(all.take(i as int) =~= all);
    }
    total
}


fn copy_curve(points: &Vec<EquityPoint>) -> (r: Vec<EquityPoint>)
    ensures
        r@ == points@,
{
    let mut out: Vec<EquityPoint> = Vec::new();
    let mut i: usize = 0;
    while i < points.len()
        invariant
            i <= points.len(),
            out@ == points@.take(i as int),
        decreases points.len() - i,
    {
        out.push(points[i]);
        proof {
            assert(out@ =~= points@.take(i as int + 1));
        }
        i = i + 1;
    }
    proof {
        assert(points@.take(i as int) =~= points@);
    }
    out
}

impl ExchangeSimulator {
    /// Runs the bars of `market_data` in order, bar `i` with the signals
    /// `signals[i]` and the trades of the tape that fall inside it.  The
    /// run stops at the first bar that fails, with that bar's timestamp.
    pub fn simulate(
        &mut self,
        market_data: &MarketData,
        signals: &Vec<Vec<StrategySignal>>,
        intrabar_policy: &IntrabarPolicy,
        slippage_mode: &SlippageMode,
    ) -> (r: Result<SimulationResult, RunError>)
        requires
            old(self).wf(),
        ensures
            final(self).wf(),
            ({
                let outcome = run_spec(
                    old(self)@,
                    *market_data,
                    signals@,
                    *intrabar_policy,
                    *slippage_mode,
                    market_data.bars@.len() as int,
                );
                &&& final(self)@ == outcome.sim
                &&& simulation_result_view(r) == (match outcome.error {
                    Some(e) => Err(e),
                    None => Ok(report_spec(outcome)),
                })
            }),
    {
        let ghost start = self@;
        let none: Vec<StrategySignal> = Vec::new();
        let mut trades: Vec<ExecutedTrade> = Vec::new();
        let mut i: usize = 0;
        proof {
            assert(executed_view(trades@) =~= Seq::<ExecutedTradeView>::empty());
            assert(none@ =~= Seq::<StrategySignal>::empty());
        }
        while i < market_data.bars.len()
            invariant
                i <= market_data.bars.len(),
                self.wf(),
                start == old(self)@,
                none@ == Seq::<StrategySignal>::empty(),
                run_spec(
                    start,
                    *market_data,
                    signals@,
                    *intrabar_policy,
                    *slippage_mode,
                    i as int,
                ) == (RunOutcome { sim: self@, executed: executed_view(trades@), error: None }),
            decreases market_data.bars.len() - i,
        {
            let bar = &market_data.bars[i];
            let until = if i + 1 < market_data.bars.len() {
                Some(market_data.bars[i + 1].timestamp)
            } else {
                None
            };
            let tape = trades_between(&market_data.trades, bar.timestamp, until);
            let bar_signals: &Vec<StrategySignal> = if i < signals.len() {
                &signals[i]
            } else {
                &none
            };
            let ghost before = executed_view(trades@);
            match self.step(
                bar,
                tape.as_slice(),
                bar_signals.as_slice(),
                intrabar_policy,
                slippage_mode,
                &market_data.rules,
            ) {
                Ok(mut executed) => {
                    let ghost added = executed_view(executed@);
                    trades.append(&mut executed);
                    proof {
                        assert(executed_view(trades@) =~= before + added);
                    }
                },
                Err(e) => {
                    proof {
                        lemma_run_stops_at_error(
                            start,
                            *market_data,
                            signals@,
                            *intrabar_policy,
                            *slippage_mode,
                            i as int + 1,
                            market_data.bars@.len() as int,
                        );
                    }
                    return Err(RunError { kind: e, timestamp: bar.timestamp });
                },
            }
            i = i + 1;
        }
        let positions: Vec<Position> = Vec::new();
        assert(positions@ =~= Seq::<Position>::empty());
        Ok(
            SimulationResult {
                trades,
                positions,
                equity_curve: copy_curve(&self.equity_history),
                max_drawdown: self.trade_table_generator.max_drawdown(),
                exposure: self.exposure,
                attribution: self.calculate_attribution(),
            },
        )
    }
}

} // verus!
