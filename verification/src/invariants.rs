//! What holds of every generator state that bars can lead to, and the
//! proofs that one bar keeps it so.

use vstd::prelude::*;
use crate::money::{add_opt, dec, lemma_pow10_monotonic, max_scale, Dec};
use crate::summary::net_total;
use crate::trade_table::{
    admit_all_spec, admit_spec, close_all_spec, closed_record_spec, entry_size_spec, exit_spec,
    fresh_generator, has_position, opened_position, process_bar_spec, settle_spec,
    symbols_distinct, GeneratorView,
};
use crate::types::{
    Bar, ExchangeRules, IntrabarPolicy, PositionView, SlippageMode, StrategySignal, Trade,
    TradeRecordView,
};

verus! {

/// No position was entered after time `t`.
pub open spec fn entries_not_after(positions: Seq<PositionView>, t: u64) -> bool {
    forall|i: int| 0 <= i < positions.len() ==> (#[trigger] positions[i]).entry_time <= t
}

/// No record has its exit before its entry.
pub open spec fn ledger_ordered(records: Seq<TradeRecordView>) -> bool {
    forall|i: int|
        0 <= i < records.len() ==> (#[trigger] records[i]).entry_time_ms <= records[i].exit_time_ms
}

/// Equity is the starting equity plus the net profit of the ledger.
pub open spec fn equity_matches_ledger(g: GeneratorView) -> bool {
    Some(g.current_equity) == add_opt(Some(g.starting_equity), net_total(g.records))
}

/// The record `r` closes the position `p`.
pub open spec fn closes(r: TradeRecordView, p: PositionView) -> bool {
    &&& r.symbol == p.symbol
    &&& r.entry_time_ms == p.entry_time
    &&& r.entry_price == p.entry_price
    &&& r.qty == p.quantity
    &&& r.trade_type == p.trade_type
}

/// Some position among `positions` is the one that `r` closes.
pub open spec fn closes_one_of(r: TradeRecordView, positions: Seq<PositionView>) -> bool {
    exists|j: int| 0 <= j < positions.len() && closes(r, #[trigger] positions[j])
}

/// What every reachable generator state satisfies: one position per symbol
/// at most, no position entered after the last bar, an ordered ledger, a
/// drawdown that is not negative, equity that is the starting equity plus
/// realized profit, and a peak that is not below equity.
pub open spec fn consistent(g: GeneratorView) -> bool {
    &&& symbols_distinct(g.positions)
    &&& (g.positions.len() > 0 ==> g.last_timestamp is Some)
    &&& (g.last_timestamp is Some ==> entries_not_after(g.positions, g.last_timestamp->0))
    &&& ledger_ordered(g.records)
    &&& dec(0, 0).le(g.max_drawdown)
    &&& equity_matches_ledger(g)
    &&& g.current_equity.le(g.peak_equity)
}

/// A generator that has seen no bar is consistent.
pub proof fn lemma_fresh_is_consistent(starting_equity: Dec, default_size_usd: Dec)
    requires
        starting_equity.wf(),
    ensures
        consistent(fresh_generator(starting_equity, default_size_usd)),
{
    lemma_pow10_monotonic(0, max_scale());
    lemma_pow10_monotonic(0, max_scale() - 1);
}

/// One signal leaves the ledger alone, opens at most one position, on a
/// symbol that had none, and stamps it with the bar's time.
pub proof fn lemma_admit_keeps(
    g: GeneratorView,
    bar: Bar,
    signal: StrategySignal,
    policy: IntrabarPolicy,
    slippage: SlippageMode,
    rules: ExchangeRules,
)
    requires
        symbols_distinct(g.positions),
        entries_not_after(g.positions, bar.timestamp),
        admit_spec(g, bar, signal, policy, slippage, rules) is Ok,
    ensures
        ({
            let g2 = admit_spec(g, bar, signal, policy, slippage, rules)->Ok_0;
            &&& symbols_distinct(g2.positions)
            &&& entries_not_after(g2.positions, bar.timestamp)
            &&& g2.records == g.records
            &&& g2.starting_equity == g.starting_equity
            &&& g2.default_size_usd == g.default_size_usd
            &&& g2.current_equity == g.current_equity
            &&& g2.peak_equity == g.peak_equity
            &&& g2.max_drawdown == g.max_drawdown
            &&& g2.last_timestamp == g.last_timestamp
            &&& g.positions.len() <= g2.positions.len() <= g.positions.len() + 1
            &&& g.rejected.len() <= g2.rejected.len()
        }),
{
    reveal(admit_spec);
    let g2 = admit_spec(g, bar, signal, policy, slippage, rules)->Ok_0;
    if g2.positions.len() > g.positions.len() {
        let p = opened_position(
            entry_size_spec(g.default_size_usd, signal),
            bar,
            signal,
            policy,
            slippage,
            rules,
        )->0;
        assert(g2.positions == g.positions.push(p));
        assert(!has_position(g.positions, signal.symbol@));
        assert forall|i: int, j: int| 0 <= i < j < g2.positions.len() implies (
        #[trigger] g2.positions[i]).symbol != (#[trigger] g2.positions[j]).symbol by {
            if j == g.positions.len() {
                assert(g.positions[i].symbol != signal.symbol@);
            } else {
                assert(g.positions[i].symbol != g.positions[j].symbol);
            }
        }
        assert forall|i: int| 0 <= i < g2.positions.len() implies (
        #[trigger] g2.positions[i]).entry_time <= bar.timestamp by {
            if i < g.positions.len() {
                assert(g.positions[i].entry_time <= bar.timestamp);
            }
        }
    }
}

/// The signals of a bar leave the ledger alone and keep one position per
/// symbol.
pub proof fn lemma_admit_all_keeps(
    g: GeneratorView,
    bar: Bar,
    signals: Seq<StrategySignal>,
    policy: IntrabarPolicy,
    slippage: SlippageMode,
    rules: ExchangeRules,
)
    requires
        symbols_distinct(g.positions),
        entries_not_after(g.positions, bar.timestamp),
        admit_all_spec(g, bar, signals, policy, slippage, rules) is Ok,
    ensures
        ({
            let g2 = admit_all_spec(g, bar, signals, policy, slippage, rules)->Ok_0;
            &&& symbols_distinct(g2.positions)
            &&& entries_not_after(g2.positions, bar.timestamp)
            &&& g2.records == g.records
            &&& g2.starting_equity == g.starting_equity
            &&& g2.default_size_usd == g.default_size_usd
            &&& g2.current_equity == g.current_equity
            &&& g2.peak_equity == g.peak_equity
            &&& g2.max_drawdown == g.max_drawdown
            &&& g2.last_timestamp == g.last_timestamp
            &&& g.positions.len() <= g2.positions.len()
            &&& g.rejected.len() <= g2.rejected.len()
        }),
    decreases signals.len(),
{
    if signals.len() > 0 {
        lemma_admit_all_keeps(g, bar, signals.drop_last(), policy, slippage, rules);
        let g1 = admit_all_spec(g, bar, signals.drop_last(), policy, slippage, rules)->Ok_0;
        lemma_admit_keeps(g1, bar, signals.last(), policy, slippage, rules);
    }
}

/// What the exits of one bar do.  Every position either stays or leaves
/// exactly one record; a record carries the symbol and entry of the
/// position it closes, exits at the bar's time, and its symbol is flat
/// afterwards.
pub proof fn lemma_close_all_keeps(
    positions: Seq<PositionView>,
    bar: Bar,
    policy: IntrabarPolicy,
    tape: Seq<Trade>,
    rules: ExchangeRules,
)
    requires
        symbols_distinct(positions),
        entries_not_after(positions, bar.timestamp),
        close_all_spec(positions, bar, policy, tape, rules) is Ok,
    ensures
        ({
            let (staying, closed) = close_all_spec(positions, bar, policy, tape, rules)->Ok_0;
            &&& staying.len() + closed.len() == positions.len()
            &&& symbols_distinct(staying)
            &&& entries_not_after(staying, bar.timestamp)
            &&& forall|k: int| 0 <= k < staying.len() ==> positions.contains(#[trigger] staying[k])
            &&& forall|k: int|
                0 <= k < closed.len() ==> {
                    &&& closes_one_of(#[trigger] closed[k], positions)
                    &&& closed[k].entry_time_ms <= closed[k].exit_time_ms
                    &&& closed[k].exit_time_ms == bar.timestamp
                    &&& !has_position(staying, closed[k].symbol)
                }
        }),
    decreases positions.len(),
{
    if positions.len() > 0 {
        let front = positions.drop_last();
        let last = positions.last();
        assert(symbols_distinct(front)) by {
            assert forall|i: int, j: int| 0 <= i < j < front.len() implies (
            #[trigger] front[i]).symbol != (#[trigger] front[j]).symbol by {
                assert(positions[i].symbol != positions[j].symbol);
            }
        }
        assert(entries_not_after(front, bar.timestamp)) by {
            assert forall|i: int| 0 <= i < front.len() implies (#[trigger] front[i]).entry_time
                <= bar.timestamp by {
                assert(positions[i].entry_time <= bar.timestamp);
            }
        }
        lemma_close_all_keeps(front, bar, policy, tape, rules);
        let (staying0, closed0) = close_all_spec(front, bar, policy, tape, rules)->Ok_0;
        let (staying, closed) = close_all_spec(positions, bar, policy, tape, rules)->Ok_0;
        // every position that stayed so far is one of the front, so its symbol is not the last's
        assert forall|k: int| 0 <= k < staying0.len() implies (#[trigger] staying0[k]).symbol
            != last.symbol && positions.contains(staying0[k]) by {
            assert(front.contains(staying0[k]));
            let j = choose|j: int| 0 <= j < front.len() && front[j] == staying0[k];
            assert(positions[j] == staying0[k]);
            assert(positions[j].symbol != positions[positions.len() - 1].symbol);
        }
        assert forall|k: int| 0 <= k < closed0.len() implies closes_one_of(
            #[trigger] closed0[k],
            positions,
        ) && closed0[k].symbol != last.symbol by {
            assert(closes_one_of(closed0[k], front));
            let j = choose|j: int| 0 <= j < front.len() && closes(closed0[k], #[trigger] front[j]);
            assert(closes(closed0[k], positions[j]));
            assert(positions[j].symbol != positions[positions.len() - 1].symbol);
        }
        assert(positions[positions.len() - 1] == last);
        match exit_spec(last, bar, policy, tape) {
            Ok(None) => {
                assert(staying == staying0.push(last));
                assert(closed == closed0);
                assert forall|i: int, j: int| 0 <= i < j < staying.len() implies (
                #[trigger] staying[i]).symbol != (#[trigger] staying[j]).symbol by {
                    if j == staying0.len() {
                        assert(staying0[i].symbol != last.symbol);
                    } else {
                        assert(staying0[i].symbol != staying0[j].symbol);
                    }
                }
                assert forall|k: int| 0 <= k < staying.len() implies positions.contains(
                    #[trigger] staying[k],
                ) by {
                    if k < staying0.len() {
                        assert(positions.contains(staying0[k]));
                    }
                }
                assert forall|k: int| 0 <= k < staying.len() implies (
                #[trigger] staying[k]).entry_time <= bar.timestamp by {
                    if k < staying0.len() {
                        assert(staying0[k].entry_time <= bar.timestamp);
                    }
                }
                assert forall|k: int| 0 <= k < closed.len() implies !has_position(
                    staying,
                    (#[trigger] closed[k]).symbol,
                ) by {
                    assert(!has_position(staying0, closed0[k].symbol));
                    if has_position(staying, closed[k].symbol) {
                        let i = choose|i: int|
                            0 <= i < staying.len() && (#[trigger] staying[i]).symbol
                                == closed[k].symbol;
                        if i < staying0.len() {
                            assert(staying0[i].symbol == closed0[k].symbol);
                        }
                    }
                }
            },
            Ok(Some(x)) => {
                let record = closed_record_spec(last, x, rules)->Ok_0;
                assert(staying == staying0);
                assert(closed == closed0.push(record));
                assert(closes(record, positions[positions.len() - 1]));
                assert(closes_one_of(record, positions));
                assert(x.exit_time == bar.timestamp);
                assert(last.entry_time <= bar.timestamp);
                assert(!has_position(staying, record.symbol)) by {
                    if has_position(staying, record.symbol) {
                        let i = choose|i: int|
                            0 <= i < staying.len() && (#[trigger] staying[i]).symbol
                                == record.symbol;
                        assert(staying0[i].symbol != last.symbol);
                    }
                }
                assert forall|k: int| 0 <= k < closed.len() implies {
                    &&& closes_one_of(#[trigger] closed[k], positions)
                    &&& closed[k].entry_time_ms <= closed[k].exit_time_ms
                    &&& closed[k].exit_time_ms == bar.timestamp
                    &&& !has_position(staying, closed[k].symbol)
                } by {
                    if k < closed0.len() {
                        assert(closes_one_of(closed0[k], positions));
                    }
                }
            },
            Err(_) => {},
        }
    }
}

/// Settling keeps positions and ledger, makes equity the starting equity
/// plus realized profit, keeps the peak at or above equity, and never lowers
/// the maximum drawdown.
pub proof fn lemma_settle_keeps(g: GeneratorView)
    requires
        settle_spec(g) is Ok,
    ensures
        ({
            let g2 = settle_spec(g)->Ok_0;
            &&& g2.positions == g.positions
            &&& g2.records == g.records
            &&& g2.rejected == g.rejected
            &&& g2.last_timestamp == g.last_timestamp
            &&& g2.starting_equity == g.starting_equity
            &&& g2.default_size_usd == g.default_size_usd
            &&& equity_matches_ledger(g2)
            &&& g2.current_equity.le(g2.peak_equity)
            &&& g.peak_equity.le(g2.peak_equity)
            &&& g.max_drawdown.le(g2.max_drawdown)
        }),
{
}

/// One bar keeps a consistent generator consistent, and neither the
/// maximum drawdown nor the peak ever goes down.
pub proof fn lemma_bar_keeps_consistent(
    g: GeneratorView,
    bar: Bar,
    signals: Seq<StrategySignal>,
    policy: IntrabarPolicy,
    slippage: SlippageMode,
    rules: ExchangeRules,
    tape: Seq<Trade>,
)
    requires
        consistent(g),
        process_bar_spec(g, bar, signals, policy, slippage, rules, tape) is Ok,
    ensures
        ({
            let g2 = process_bar_spec(g, bar, signals, policy, slippage, rules, tape)->Ok_0;
            &&& consistent(g2)
            &&& g.max_drawdown.le(g2.max_drawdown)
            &&& g.peak_equity.le(g2.peak_equity)
            &&& g2.last_timestamp == Some(bar.timestamp)
            &&& g.records.len() <= g2.records.len()
            &&& g2.records.subrange(0, g.records.len() as int) == g.records
        }),
{
    assert(entries_not_after(g.positions, bar.timestamp)) by {
        if g.positions.len() > 0 {
            assert forall|i: int| 0 <= i < g.positions.len() implies (
            #[trigger] g.positions[i]).entry_time <= bar.timestamp by {
                assert(g.positions[i].entry_time <= g.last_timestamp->0);
            }
        }
    }
    lemma_admit_all_keeps(g, bar, signals, policy, slippage, rules);
    let g1 = admit_all_spec(g, bar, signals, policy, slippage, rules)->Ok_0;
    lemma_close_all_keeps(g1.positions, bar, policy, tape, rules);
    let (staying, closed) = close_all_spec(g1.positions, bar, policy, tape, rules)->Ok_0;
    let g15 = GeneratorView {
        positions: staying,
        records: g1.records + closed,
        last_timestamp: Some(bar.timestamp),
        ..g1
    };
    lemma_settle_keeps(g15);
    let g2 = settle_spec(g15)->Ok_0;
    assert(ledger_ordered(g2.records)) by {
        assert forall|i: int| 0 <= i < g2.records.len() implies (
        #[trigger] g2.records[i]).entry_time_ms <= g2.records[i].exit_time_ms by {
            if i < g.records.len() {
                assert(g2.records[i] == g.records[i]);
            } else {
                assert(g2.records[i] == closed[i - g.records.len()]);
            }
        }
    }
    assert(g2.records.subrange(0, g.records.len() as int) =~= g.records);
}

} // verus!
