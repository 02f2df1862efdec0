//! Laws of the kernel, each proved from the definitions the contracts use.

use vstd::prelude::*;
use crate::indicators::{
    atr_spec, ema_spec, highest_high_spec, indicator_spec, known_indicator, lowest_low_spec,
    rsi_spec, sma_at, sma_spec, vwap_spec,
};
use crate::invariants::{
    closes_one_of, consistent, entries_not_after, lemma_admit_all_keeps, lemma_bar_keeps_consistent,
    lemma_close_all_keeps,
};
use crate::money::{
    add_opt, add_spec, dec, div_spec, exact_difference, exact_product, exact_sum,
    lemma_exact_difference_units, lemma_exact_product_sign, lemma_exact_sum_units, lemma_units_sign,
    max_scale, mul_spec, pow10, quantize_spec, round_spec, sub_spec, Dec, RoundingMode,
};
use crate::simulator::{run_spec, SimulatorView};
use crate::summary::{
    empty_summary, loss_size_total, net_total, profit_factor_spec, summary_spec, win_total,
};
use crate::trade_table::{
    admit_all_spec, admit_spec, close_all_spec, closed_record_spec, drawdown_spec,
    entry_notional_spec, entry_quantity_spec, entry_size_spec, exit_choice, exit_spec, fee_spec,
    has_position, notional_reason, opened_position, pnl_spec, process_bar_spec, settle_spec,
    stop_loss_touched, symbols_distinct, take_profit_touched, timeout_fires, ExitView,
    GeneratorView,
};
use crate::types::{
    Bar, EngineError, ExchangeRules, ExitReason, HitTpSl, IntrabarPolicy, MarketData, PointView,
    PositionView, SlippageMode, StrategySignal, SummaryView, Trade, TradeRecordView, TradeType,
};

verus! {

/// After any bar, each symbol has at most one open position.
pub proof fn law_one_position_per_symbol(
    g: GeneratorView,
    bar: Bar,
    signals: Seq<StrategySignal>,
    policy: IntrabarPolicy,
    slippage: SlippageMode,
    rules: ExchangeRules,
    tape: Seq<Trade>,
)
    requires
        consistent(g),
    ensures
        process_bar_spec(g, bar, signals, policy, slippage, rules, tape) matches Ok(g2)
            ==> symbols_distinct(g2.positions),
{
    if process_bar_spec(g, bar, signals, policy, slippage, rules, tape) is Ok {
        lemma_bar_keeps_consistent(g, bar, signals, policy, slippage, rules, tape);
    }
}

/// Every record that a bar adds to the ledger closes exactly one position
/// that was open on its symbol after the bar's entries: no two positions
/// share the symbol, the position is gone afterwards, it left no other
/// record, and the exit is not before the entry.
pub proof fn law_record_closes_one_entry(
    g: GeneratorView,
    bar: Bar,
    signals: Seq<StrategySignal>,
    policy: IntrabarPolicy,
    slippage: SlippageMode,
    rules: ExchangeRules,
    tape: Seq<Trade>,
)
    requires
        consistent(g),
        process_bar_spec(g, bar, signals, policy, slippage, rules, tape) is Ok,
    ensures
        ({
            let g1 = admit_all_spec(g, bar, signals, policy, slippage, rules)->Ok_0;
            let g2 = process_bar_spec(g, bar, signals, policy, slippage, rules, tape)->Ok_0;
            &&& symbols_distinct(g1.positions)
            &&& g2.records.len() - g.records.len() + g2.positions.len() == g1.positions.len()
            &&& forall|k: int|
                g.records.len() <= k < g2.records.len() ==> {
                    &&& closes_one_of(#[trigger] g2.records[k], g1.positions)
                    &&& !has_position(g2.positions, g2.records[k].symbol)
                    &&& g2.records[k].entry_time_ms <= g2.records[k].exit_time_ms
                    &&& g2.records[k].exit_time_ms == bar.timestamp
                }
        }),
{
    assert(entries_not_after(g.positions, bar.timestamp)) by {
        if g.positions.len() > 0 {
            assert forall|i: int| 0 <= i < g.positions.len() implies (
            #[trigger] g.positions[i]).entry_time <= bar.timestamp by {
                assert(g.positions[i].entry_time <= g.last_timestamp->0);
            }
        }
    }
    lemma_admit_all_keeps(g, bar, signals, policy, slippage, rules);
    let g1 = admit_all_spec(g, bar, signals, policy, slippage, rules)->Ok_0;
    lemma_close_all_keeps(g1.positions, bar, policy, tape, rules);
    let (staying, closed) = close_all_spec(g1.positions, bar, policy, tape, rules)->Ok_0;
    let g2 = process_bar_spec(g, bar, signals, policy, slippage, rules, tape)->Ok_0;
    assert(g2.positions == staying);
    assert(g2.records == g.records + closed);
    assert forall|k: int| g.records.len() <= k < g2.records.len() implies {
        &&& closes_one_of(#[trigger] g2.records[k], g1.positions)
        &&& !has_position(g2.positions, g2.records[k].symbol)
        &&& g2.records[k].entry_time_ms <= g2.records[k].exit_time_ms
        &&& g2.records[k].exit_time_ms == bar.timestamp
    } by {
        assert(g2.records[k] == closed[k - g.records.len()]);
    }
}

/// The fees of a record are the entry fee plus the exit fee, and both fees
/// come from the same formula under the same rules: the taker rate on
/// quantity times price, rounded to the price precision.
pub proof fn law_fees_are_entry_plus_exit(
    size: Dec,
    bar: Bar,
    signal: StrategySignal,
    policy: IntrabarPolicy,
    slippage: SlippageMode,
    rules: ExchangeRules,
    x: ExitView,
)
    requires
        opened_position(size, bar, signal, policy, slippage, rules) is Some,
        closed_record_spec(
            opened_position(size, bar, signal, policy, slippage, rules)->0,
            x,
            rules,
        ) is Ok,
    ensures
        ({
            let p = opened_position(size, bar, signal, policy, slippage, rules)->0;
            let r = closed_record_spec(p, x, rules)->Ok_0;
            let entry_fee = fee_spec(p.quantity, p.entry_price, rules);
            let exit_fee = fee_spec(p.quantity, x.exit_price, rules);
            &&& entry_fee == Some(p.entry_fee)
            &&& exit_fee is Some
            &&& Some(r.fees_usd) == add_spec(entry_fee->0, exit_fee->0)
        }),
{
}

/// A long position that exits above its entry has made money before fees:
/// profit plus fees is above zero.  Stated for a positive quantity and for
/// amounts on which none of the four operations has to round.
pub proof fn law_long_profit_sign(entry: Dec, exit: Dec, quantity: Dec, fees: Dec)
    requires
        entry.wf(),
        exit.wf(),
        quantity.wf(),
        fees.wf(),
        quantity.m > 0,
        entry.lt(exit),
        exact_difference(exit, entry).wf(),
        exact_product(exact_difference(exit, entry), quantity).wf(),
        exact_difference(exact_product(exact_difference(exit, entry), quantity), fees).wf(),
        exact_sum(
            exact_difference(exact_product(exact_difference(exit, entry), quantity), fees),
            fees,
        ).wf(),
    ensures
        pnl_spec(TradeType::Long, entry, exit, quantity, Some(fees)) is Some,
        add_spec(pnl_spec(TradeType::Long, entry, exit, quantity, Some(fees))->0, fees) is Some,
        dec(0, 0).lt(
            add_spec(pnl_spec(TradeType::Long, entry, exit, quantity, Some(fees))->0, fees)->0,
        ),
{
    lemma_profit_sign(exit, entry, quantity, fees);
}

/// A short position that exits below its entry has made money before fees:
/// profit plus fees is above zero.  Stated for a positive quantity and for
/// amounts on which none of the four operations has to round.
pub proof fn law_short_profit_sign(entry: Dec, exit: Dec, quantity: Dec, fees: Dec)
    requires
        entry.wf(),
        exit.wf(),
        quantity.wf(),
        fees.wf(),
        quantity.m > 0,
        exit.lt(entry),
        exact_difference(entry, exit).wf(),
        exact_product(exact_difference(entry, exit), quantity).wf(),
        exact_difference(exact_product(exact_difference(entry, exit), quantity), fees).wf(),
        exact_sum(
            exact_difference(exact_product(exact_difference(entry, exit), quantity), fees),
            fees,
        ).wf(),
    ensures
        pnl_spec(TradeType::Short, entry, exit, quantity, Some(fees)) is Some,
        add_spec(pnl_spec(TradeType::Short, entry, exit, quantity, Some(fees))->0, fees) is Some,
        dec(0, 0).lt(
            add_spec(pnl_spec(TradeType::Short, entry, exit, quantity, Some(fees))->0, fees)->0,
        ),
{
    lemma_profit_sign(entry, exit, quantity, fees);
}

proof fn lemma_profit_sign(high: Dec, low: Dec, quantity: Dec, fees: Dec)
    requires
        high.wf(),
        low.wf(),
        quantity.wf(),
        fees.wf(),
        quantity.m > 0,
        low.lt(high),
        exact_difference(high, low).wf(),
        exact_product(exact_difference(high, low), quantity).wf(),
        exact_difference(exact_product(exact_difference(high, low), quantity), fees).wf(),
        exact_sum(
            exact_difference(exact_product(exact_difference(high, low), quantity), fees),
            fees,
        ).wf(),
    ensures
        ({
            let pnl = exact_difference(exact_product(exact_difference(high, low), quantity), fees);
            &&& sub_spec(high, low) == Some(exact_difference(high, low))
            &&& mul_spec(exact_difference(high, low), quantity) == Some(
                exact_product(exact_difference(high, low), quantity),
            )
            &&& sub_spec(exact_product(exact_difference(high, low), quantity), fees) == Some(pnl)
            &&& add_spec(pnl, fees) == Some(exact_sum(pnl, fees))
            &&& dec(0, 0).lt(exact_sum(pnl, fees))
        }),
{
    let move_ = exact_difference(high, low);
    let gross = exact_product(move_, quantity);
    let pnl = exact_difference(gross, fees);
    let back = exact_sum(pnl, fees);
    lemma_exact_difference_units(high, low);
    lemma_units_sign(move_);
    lemma_exact_product_sign(move_, quantity);
    lemma_units_sign(gross);
    lemma_exact_difference_units(gross, fees);
    lemma_exact_sum_units(pnl, fees);
    lemma_units_sign(dec(0, 0));
}

/// The maximum drawdown is never negative and never falls from one bar to
/// the next.
pub proof fn law_drawdown_never_falls(
    g: GeneratorView,
    bar: Bar,
    signals: Seq<StrategySignal>,
    policy: IntrabarPolicy,
    slippage: SlippageMode,
    rules: ExchangeRules,
    tape: Seq<Trade>,
)
    requires
        consistent(g),
    ensures
        dec(0, 0).le(g.max_drawdown),
        process_bar_spec(g, bar, signals, policy, slippage, rules, tape) matches Ok(g2) ==> dec(
            0,
            0,
        ).le(g2.max_drawdown) && g.max_drawdown.le(g2.max_drawdown),
{
    if process_bar_spec(g, bar, signals, policy, slippage, rules, tape) is Ok {
        lemma_bar_keeps_consistent(g, bar, signals, policy, slippage, rules, tape);
    }
}

/// The value of a ledger's net profits added as integers, in units of
/// `10^-28`.
pub open spec fn profit_units(records: Seq<TradeRecordView>) -> int
    decreases records.len(),
{
    if records.len() == 0 {
        0
    } else {
        profit_units(records.drop_last()) + records.last().pnl_usd.units()
    }
}

/// Adding up the ledger never has to round.
pub open spec fn sums_without_rounding(records: Seq<TradeRecordView>) -> bool
    decreases records.len(),
{
    records.len() == 0 || {
        &&& sums_without_rounding(records.drop_last())
        &&& records.last().pnl_usd.wf()
        &&& net_total(records.drop_last()) is Some
        &&& exact_sum(net_total(records.drop_last())->0, records.last().pnl_usd).wf()
    }
}

/// A ledger that adds up without rounding has the total of its profits.
pub proof fn lemma_total_is_sum(records: Seq<TradeRecordView>)
    requires
        sums_without_rounding(records),
    ensures
        net_total(records) is Some,
        net_total(records)->0.wf(),
        net_total(records)->0.units() == profit_units(records),
    decreases records.len(),
{
    if records.len() > 0 {
        lemma_total_is_sum(records.drop_last());
        lemma_exact_sum_units(net_total(records.drop_last())->0, records.last().pnl_usd);
    } else {
        lemma_units_sign(dec(0, 0));
    }
}

/// The net profits of all records add up to equity less starting equity.
/// Stated for ledgers on which no addition has to round.
pub proof fn law_profit_is_equity_change(g: GeneratorView)
    requires
        consistent(g),
        g.starting_equity.wf(),
        sums_without_rounding(g.records),
        exact_sum(g.starting_equity, net_total(g.records)->0).wf(),
    ensures
        profit_units(g.records) == g.current_equity.units() - g.starting_equity.units(),
{
    lemma_total_is_sum(g.records);
    lemma_exact_sum_units(g.starting_equity, net_total(g.records)->0);
}

/// After any bar, equity is the starting equity plus the ledger's total.
pub proof fn law_equity_is_start_plus_profit(
    g: GeneratorView,
    bar: Bar,
    signals: Seq<StrategySignal>,
    policy: IntrabarPolicy,
    slippage: SlippageMode,
    rules: ExchangeRules,
    tape: Seq<Trade>,
)
    requires
        consistent(g),
    ensures
        process_bar_spec(g, bar, signals, policy, slippage, rules, tape) matches Ok(g2) ==> Some(
            g2.current_equity,
        ) == add_opt(Some(g2.starting_equity), net_total(g2.records)),
{
    if process_bar_spec(g, bar, signals, policy, slippage, rules, tape) is Ok {
        lemma_bar_keeps_consistent(g, bar, signals, policy, slippage, rules, tape);
    }
}

/// An entry on a flat symbol is refused, with the reason `NotionalMin`,
/// exactly when the quantity for the signal's size, quantized, times the
/// bar's close is below the minimum notional; nothing is opened then, and
/// nothing is refused otherwise.
pub proof fn law_notional_filter(
    g: GeneratorView,
    bar: Bar,
    signal: StrategySignal,
    policy: IntrabarPolicy,
    slippage: SlippageMode,
    rules: ExchangeRules,
)
    requires
        !has_position(g.positions, signal.symbol@),
        entry_notional_spec(entry_size_spec(g.default_size_usd, signal), bar, rules) is Some,
    ensures
        ({
            let notional = entry_notional_spec(
                entry_size_spec(g.default_size_usd, signal),
                bar,
                rules,
            )->0;
            let after = admit_spec(g, bar, signal, policy, slippage, rules);
            &&& notional.lt(rules.min_notional@) ==> after is Ok && after->Ok_0.positions
                == g.positions && after->Ok_0.rejected.len() == g.rejected.len() + 1
                && after->Ok_0.rejected.last().reason == notional_reason()
                && after->Ok_0.rejected.last().notional == notional
            &&& !notional.lt(rules.min_notional@) ==> (after matches Ok(g2) ==> g2.rejected
                == g.rejected && g2.positions.len() == g.positions.len() + 1)
        }),
{
    reveal(admit_spec);
}

/// An entry is sized by its signal: the position a signal opens on a flat
/// symbol carries the signal's size, or the configured default where the
/// signal has none, and the quantity that this size buys at the bar's
/// close, quantized to the lot.
pub proof fn law_entry_takes_the_signals_size(
    g: GeneratorView,
    bar: Bar,
    signal: StrategySignal,
    policy: IntrabarPolicy,
    slippage: SlippageMode,
    rules: ExchangeRules,
)
    requires
        !has_position(g.positions, signal.symbol@),
        admit_spec(g, bar, signal, policy, slippage, rules) is Ok,
        admit_spec(g, bar, signal, policy, slippage, rules)->Ok_0.positions.len()
            > g.positions.len(),
    ensures
        ({
            let opened = admit_spec(g, bar, signal, policy, slippage, rules)->Ok_0.positions.last();
            &&& signal.size matches Some(size) ==> opened.size_usd == size@
            &&& signal.size is None ==> opened.size_usd == g.default_size_usd
            &&& Some(opened.quantity) == entry_quantity_spec(
                opened.size_usd,
                bar,
                rules,
            )
            &&& opened.symbol == signal.symbol@
        }),
{
    reveal(admit_spec);
}

/// Equal states and equal inputs give equal outcomes: the step is a function.
pub proof fn law_same_inputs_same_outputs(
    a: GeneratorView,
    b: GeneratorView,
    bar: Bar,
    signals: Seq<StrategySignal>,
    policy: IntrabarPolicy,
    slippage: SlippageMode,
    rules: ExchangeRules,
    tape: Seq<Trade>,
)
    requires
        a == b,
    ensures
        process_bar_spec(a, bar, signals, policy, slippage, rules, tape) == process_bar_spec(
            b,
            bar,
            signals,
            policy,
            slippage,
            rules,
            tape,
        ),
{
}

/// An empty ledger has the zeroed summary, with a profit factor of zero.
pub proof fn law_empty_ledger_summary(max_drawdown: Dec)
    ensures
        summary_spec(Seq::empty(), max_drawdown) == Ok::<SummaryView, EngineError>(
            empty_summary(max_drawdown),
        ),
        empty_summary(max_drawdown).profit_factor == dec(0, 1),
        empty_summary(max_drawdown).total_trades == 0,
{
}

/// With no losses the profit factor is zero, not a division by zero.
pub proof fn law_profit_factor_without_losses(records: Seq<TradeRecordView>, max_drawdown: Dec)
    requires
        loss_size_total(records) is Some,
        !dec(0, 1).lt(loss_size_total(records)->0),
    ensures
        profit_factor_spec(win_total(records), loss_size_total(records), dec(0, 1)) == Some(
            dec(0, 1),
        ),
        summary_spec(records, max_drawdown) matches Ok(s) ==> s.profit_factor == dec(0, 1),
{
}

/// A bar stamped exactly `entry_time + ttl` times the position out, and
/// when no bracket level is touched the exit is at the close, by timeout.
pub proof fn law_timeout_boundary_inclusive(
    p: PositionView,
    bar: Bar,
    policy: IntrabarPolicy,
    tape: Seq<Trade>,
)
    requires
        p.time_to_live is Some,
        bar.timestamp == p.entry_time + p.time_to_live->0,
        !take_profit_touched(p, bar.high@, bar.low@),
        !stop_loss_touched(p, bar.high@, bar.low@),
    ensures
        timeout_fires(p, bar.timestamp as int),
        exit_spec(p, bar, policy, tape) == Ok::<Option<ExitView>, EngineError>(
            Some(
                ExitView {
                    exit_price: bar.close@,
                    exit_time: bar.timestamp,
                    exit_reason: ExitReason::Timeout,
                    hit_tp_sl: HitTpSl::Neither,
                },
            ),
        ),
{
}

/// Under linear interpolation a bar that touches both bracket levels exits
/// by stop loss exactly when the open is strictly closer to the stop loss
/// than to the take profit, and by take profit otherwise.
pub proof fn law_distance_rule(p: PositionView, bar: Bar, tape: Seq<Trade>)
    requires
        take_profit_touched(p, bar.high@, bar.low@),
        stop_loss_touched(p, bar.high@, bar.low@),
        sub_spec(bar.open@, p.stop_loss->0) is Some,
        sub_spec(bar.open@, p.take_profit->0) is Some,
    ensures
        ({
            let to_sl = sub_spec(bar.open@, p.stop_loss->0)->0.magnitude();
            let to_tp = sub_spec(bar.open@, p.take_profit->0)->0.magnitude();
            exit_choice(p, bar, IntrabarPolicy::LinearInterpolation, tape) == Ok::<
                Option<ExitReason>,
                EngineError,
            >(Some(if to_sl.lt(to_tp) { ExitReason::StopLoss } else { ExitReason::TakeProfit }))
        }),
{
}


/// Running the kernel twice on the same state and inputs gives the same
/// outcome: state, executions and error are functions of the inputs.
pub proof fn law_run_is_deterministic(
    a: SimulatorView,
    b: SimulatorView,
    data: MarketData,
    signals: Seq<Vec<StrategySignal>>,
    policy: IntrabarPolicy,
    slippage: SlippageMode,
)
    requires
        a == b,
    ensures
        run_spec(a, data, signals, policy, slippage, data.bars@.len() as int)
            == run_spec(
            b,
            data,
            signals,
            policy,
            slippage,
            data.bars@.len() as int,
        ),
{
}

/// A run over no bars from a simulator that has seen none: no executions,
/// no trades, no refused entries, the zeroed summary, a profit factor of
/// zero.
pub proof fn law_empty_run(
    symbol: Seq<char>,
    data: MarketData,
    signals: Seq<Vec<StrategySignal>>,
    policy: IntrabarPolicy,
    slippage: SlippageMode,
)
    requires
        data.bars@.len() == 0,
    ensures
        ({
            let outcome = run_spec(
                crate::fresh_simulator(),
                data,
                signals,
                policy,
                slippage,
                0,
            );
            let result = crate::symbol_result_spec(symbol, data, outcome);
            &&& outcome.error is None
            &&& outcome.executed.len() == 0
            &&& result is Ok
            &&& result->Ok_0.trades.len() == 0
            &&& result->Ok_0.trade_table is Some
            &&& result->Ok_0.trade_table->0.trades.len() == 0
            &&& result->Ok_0.trade_table->0.rejected_trades.len() == 0
            &&& result->Ok_0.trade_table->0.summary == empty_summary(dec(0, 1))
            &&& result->Ok_0.trade_table->0.summary.profit_factor == dec(0, 1)
        }),
{
}


/// Quantizing gives a whole multiple of the step: the quotient rounded to
/// a whole number `k`, times the step.  Stated for steps and quotients on
/// which the final product does not have to round.
pub proof fn law_quantized_is_multiple_of_step(value: Dec, step: Dec)
    requires
        value.wf(),
        step.wf(),
        div_spec(value, step) is Some,
        div_spec(value, step)->0.wf(),
        exact_product(
            round_spec(
                div_spec(value, step)->0,
                RoundingMode::NearestEven,
            ),
            step,
        ).wf(),
    ensures
        ({
            let k = round_spec(
                div_spec(value, step)->0,
                RoundingMode::NearestEven,
            );
            &&& k.s == 0
            &&& quantize_spec(Some(value), step) == Some(exact_product(k, step))
            &&& exact_product(k, step).units() == k.m * step.units()
        }),
{
    let k = round_spec(
        div_spec(value, step)->0,
        RoundingMode::NearestEven,
    );
    lemma_units_sign(step);
    if k.m != 0 && step.m != 0 {
        let p = pow10(max_scale() - step.s);
        assert((k.m * step.m) * p == k.m * (step.m * p)) by (nonlinear_arith);
    } else {
        lemma_units_sign(dec(0, 0));
        assert(k.m * step.units() == 0) by (nonlinear_arith)
            requires
                k.m == 0 || step.units() == 0,
        ;
    }
}


/// How many values each indicator gives and where they are stamped: the
/// moving averages and rolling extremes one per full window, stamped at the
/// window's last bar; the strength index from bar `period + 1` on; the
/// average true range from bar `period` on; the volume-weighted price at
/// every bar.  Too few bars give no values, and the exponential average
/// starts at the simple one.
pub proof fn law_indicator_series_shape(bars: Seq<Bar>, period: int, alpha: Option<Dec>)
    requires
        period > 0,
    ensures
        sma_spec(bars, period) matches Ok(s) ==> s.len() == (if bars.len()
            < period {
            0
        } else {
            bars.len() - period + 1
        }) && forall|j: int| 0 <= j < s.len() ==> (#[trigger] s[j]).timestamp == bars[j + period
            - 1].timestamp,
        ema_spec(bars, period, alpha) matches Ok(s) ==> s.len() == (if bars.len()
            < period {
            0
        } else {
            bars.len() - period + 1
        }) && (s.len() > 0 ==> Some(s[0].value) == sma_at(bars, period, 0)),
        rsi_spec(bars, period) matches Ok(s) ==> s.len() == (if bars.len()
            < period + 1 {
            0
        } else {
            bars.len() - period - 1
        }) && forall|j: int| 0 <= j < s.len() ==> (#[trigger] s[j]).timestamp == bars[j + period
            + 1].timestamp,
        atr_spec(bars, period) matches Ok(s) ==> s.len() == (if bars.len()
            < period + 1 {
            0
        } else {
            bars.len() - period
        }) && forall|j: int| 0 <= j < s.len() ==> (#[trigger] s[j]).timestamp == bars[j
            + period].timestamp,
        vwap_spec(bars) matches Ok(s) ==> s.len() == bars.len() && forall|j: int|
            0 <= j < s.len() ==> (#[trigger] s[j]).timestamp == bars[j].timestamp,
        highest_high_spec(bars, period) matches Ok(s) ==> s.len() == (
        if bars.len() < period {
            0
        } else {
            bars.len() - period + 1
        }),
        lowest_low_spec(bars, period) matches Ok(s) ==> s.len() == (
        if bars.len() < period {
            0
        } else {
            bars.len() - period + 1
        }),
{
}


/// An indicator the registry does not know is the unknown-indicator error,
/// whatever the bars, empty ones included; a known one is never that error.
pub proof fn law_unknown_indicator_is_fatal(name: Seq<char>, bars: Seq<Bar>)
    ensures
        !known_indicator(name) ==> indicator_spec(name, bars)
            == Err::<Seq<PointView>, EngineError>(EngineError::UnknownIndicator),
        known_indicator(name) ==> indicator_spec(name, bars)
            != Err::<Seq<PointView>, EngineError>(EngineError::UnknownIndicator),
        known_indicator(name) && bars.len() == 0
            ==> indicator_spec(name, bars) == Ok::<
            Seq<PointView>,
            EngineError,
        >(Seq::empty()),
{
    if known_indicator(name) && bars.len() == 0 {
        assert(vwap_spec(bars)->Ok_0 =~= Seq::<PointView>::empty());
    }
}


/// Equity at its peak has no drawdown.
pub proof fn law_no_drawdown_at_peak(peak: Dec)
    requires
        peak.wf(),
    ensures
        drawdown_spec(peak, peak) == Some(dec(0, 0)),
{
}

/// Settling that ends with equity at its peak leaves the maximum drawdown
/// as it was, and with it every bound that held of it.
pub proof fn law_peak_keeps_max_drawdown(g: GeneratorView)
    requires
        dec(0, 0).le(g.max_drawdown),
        settle_spec(g) is Ok,
        settle_spec(g)->Ok_0.peak_equity.wf(),
        settle_spec(g)->Ok_0.current_equity == settle_spec(g)->Ok_0.peak_equity,
    ensures
        settle_spec(g)->Ok_0.max_drawdown == g.max_drawdown,
{
    let g2 = settle_spec(g)->Ok_0;
    law_no_drawdown_at_peak(g2.peak_equity);
    lemma_units_sign(dec(0, 0));
}

/// After a bar the maximum drawdown is the larger of what it was and the
/// decline of the bar's final equity from the peak, so a bound that holds
/// of both holds of it.
pub proof fn law_max_drawdown_is_larger_of_old_and_current(
    g: GeneratorView,
    bar: Bar,
    signals: Seq<StrategySignal>,
    policy: IntrabarPolicy,
    slippage: SlippageMode,
    rules: ExchangeRules,
    tape: Seq<Trade>,
    bound: Dec,
)
    requires
        consistent(g),
        process_bar_spec(g, bar, signals, policy, slippage, rules, tape) is Ok,
    ensures
        ({
            let g2 = process_bar_spec(g, bar, signals, policy, slippage, rules, tape)->Ok_0;
            let decline = drawdown_spec(g2.peak_equity, g2.current_equity);
            &&& decline is Some
            &&& g2.max_drawdown == (if g.max_drawdown.lt(decline->0) {
                decline->0
            } else {
                g.max_drawdown
            })
            &&& g.max_drawdown.le(bound) && decline->0.le(bound) ==> g2.max_drawdown.le(bound)
        }),
{
    assert(entries_not_after(g.positions, bar.timestamp)) by {
        if g.positions.len() > 0 {
            assert forall|i: int| 0 <= i < g.positions.len() implies (
            #[trigger] g.positions[i]).entry_time <= bar.timestamp by {
                assert(g.positions[i].entry_time <= g.last_timestamp->0);
            }
        }
    }
    lemma_admit_all_keeps(g, bar, signals, policy, slippage, rules);
}

} // verus!
