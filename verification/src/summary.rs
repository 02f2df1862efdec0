//! Aggregate statistics over a ledger of closed trades.

use vstd::prelude::*;
use crate::money::{
    add_opt, dec, div_opt, div_spec, mul_opt, opt_add, opt_div, opt_mul, opt_sub,
    option_money_view, sub_opt, Dec, Money,
};
use crate::types::{
    records_view, EngineError, SummaryView, TradeRecord, TradeRecordView, TradeSummary,
};

verus! {

/// A trade is a winner when its net profit is above zero.
pub open spec fn is_win(r: TradeRecordView) -> bool {
    dec(0, 1).lt(r.pnl_usd)
}

/// The number of winners.
pub open spec fn win_count(records: Seq<TradeRecordView>) -> int
    decreases records.len(),
{
    if records.len() == 0 {
        0
    } else {
        win_count(records.drop_last()) + (if is_win(records.last()) { 1int } else { 0 })
    }
}

/// The net profit of all trades, added up from the first.
pub open spec fn net_total(records: Seq<TradeRecordView>) -> Option<Dec>
    decreases records.len(),
{
    if records.len() == 0 {
        Some(dec(0, 0))
    } else {
        add_opt(net_total(records.drop_last()), Some(records.last().pnl_usd))
    }
}

/// The net profit of the winners, added up from the first.
pub open spec fn win_total(records: Seq<TradeRecordView>) -> Option<Dec>
    decreases records.len(),
{
    if records.len() == 0 {
        Some(dec(0, 0))
    } else if is_win(records.last()) {
        add_opt(win_total(records.drop_last()), Some(records.last().pnl_usd))
    } else {
        win_total(records.drop_last())
    }
}

/// The net profit of the trades that did not win, added up from the first.
pub open spec fn loss_total(records: Seq<TradeRecordView>) -> Option<Dec>
    decreases records.len(),
{
    if records.len() == 0 {
        Some(dec(0, 0))
    } else if is_win(records.last()) {
        loss_total(records.drop_last())
    } else {
        add_opt(loss_total(records.drop_last()), Some(records.last().pnl_usd))
    }
}

/// The sizes of the losses, added up from the first.
pub open spec fn loss_size_total(records: Seq<TradeRecordView>) -> Option<Dec>
    decreases records.len(),
{
    if records.len() == 0 {
        Some(dec(0, 0))
    } else if is_win(records.last()) {
        loss_size_total(records.drop_last())
    } else {
        add_opt(loss_size_total(records.drop_last()), Some(records.last().pnl_usd.magnitude()))
    }
}

/// Milliseconds a trade was held; zero for a record whose exit precedes its
/// entry.
pub open spec fn held_ms(r: TradeRecordView) -> int {
    if r.exit_time_ms >= r.entry_time_ms {
        r.exit_time_ms - r.entry_time_ms
    } else {
        0
    }
}

/// Milliseconds held over all trades.
pub open spec fn held_total(records: Seq<TradeRecordView>) -> int
    decreases records.len(),
{
    if records.len() == 0 {
        0
    } else {
        held_total(records.drop_last()) + held_ms(records.last())
    }
}

/// The summary of an empty ledger: every figure zero, the drawdown carried.
pub open spec fn empty_summary(max_drawdown: Dec) -> SummaryView {
    SummaryView {
        total_trades: 0,
        wins: 0,
        losses: 0,
        win_rate: dec(0, 1),
        net_pnl_usd: dec(0, 1),
        avg_win_usd: dec(0, 1),
        avg_loss_usd: dec(0, 1),
        expectancy: dec(0, 1),
        max_drawdown,
        profit_factor: dec(0, 1),
        avg_holding_time_hours: dec(0, 1),
    }
}

/// Wins over trades, in percent.
pub open spec fn win_rate_spec(wins: int, total: int) -> Option<Dec> {
    mul_opt(div_spec(dec(wins, 0), dec(total, 0)), Some(dec(1000, 1)))
}

/// The mean of `count` values whose sum is `sum`; `zero` when there are none.
pub open spec fn mean_spec(sum: Option<Dec>, count: int, zero: Dec) -> Option<Dec> {
    if count > 0 {
        div_opt(sum, Some(dec(count, 0)))
    } else {
        Some(zero)
    }
}

/// `rate/100 * avg_win + (1 - rate/100) * avg_loss`.
pub open spec fn expectancy_spec(
    win_rate: Option<Dec>,
    avg_win: Option<Dec>,
    avg_loss: Option<Dec>,
) -> Option<Dec> {
    let share = div_opt(win_rate, Some(dec(1000, 1)));
    add_opt(mul_opt(share, avg_win), mul_opt(sub_opt(Some(dec(10, 1)), share), avg_loss))
}

/// Gross profit over gross loss; `zero` when nothing was lost.
pub open spec fn profit_factor_spec(
    gross_profit: Option<Dec>,
    gross_loss: Option<Dec>,
    zero: Dec,
) -> Option<Dec> {
    match gross_loss {
        Some(lost) => if dec(0, 1).lt(lost) {
            div_opt(gross_profit, Some(lost))
        } else {
            Some(zero)
        },
        None => None,
    }
}

/// Mean holding time in hours.
pub open spec fn holding_hours_spec(held: int, total: int) -> Option<Dec> {
    div_opt(div_spec(dec(held, 0), dec(total, 0)), Some(dec(36000000, 1)))
}

/// The statistics of a ledger.  More than `u32::MAX` trades cannot be
/// counted and are an arithmetic failure, as is any overflow on the way.
pub open spec fn summary_spec(records: Seq<TradeRecordView>, max_drawdown: Dec) -> Result<
    SummaryView,
    EngineError,
> {
    if records.len() == 0 {
        Ok(empty_summary(max_drawdown))
    } else if records.len() > u32::MAX {
        Err(EngineError::Arithmetic)
    } else {
        let total = records.len() as int;
        let wins = win_count(records);
        let win_rate = win_rate_spec(wins, total);
        let net = net_total(records);
        let avg_win = mean_spec(win_total(records), wins, dec(0, 1));
        let avg_loss = mean_spec(loss_total(records), total - wins, dec(0, 1));
        let expectancy = expectancy_spec(win_rate, avg_win, avg_loss);
        let profit_factor = profit_factor_spec(
            win_total(records),
            loss_size_total(records),
            dec(0, 1),
        );
        let hours = holding_hours_spec(held_total(records), total);
        if net is Some && expectancy is Some && profit_factor is Some && hours is Some {
            Ok(
                SummaryView {
                    total_trades: total as u32,
                    wins: wins as u32,
                    losses: (total - wins) as u32,
                    win_rate: win_rate->0,
                    net_pnl_usd: net->0,
                    avg_win_usd: avg_win->0,
                    avg_loss_usd: avg_loss->0,
                    expectancy: expectancy->0,
                    max_drawdown,
                    profit_factor: profit_factor->0,
                    avg_holding_time_hours: hours->0,
                },
            )
        } else {
            Err(EngineError::Arithmetic)
        }
    }
}

pub open spec fn summary_result_view(r: Result<TradeSummary, EngineError>) -> Result<
    SummaryView,
    EngineError,
> {
    match r {
        Ok(s) => Ok(s@),
        Err(e) => Err(e),
    }
}

/// Winners never outnumber trades, and no trade is held longer than the
/// largest timestamp.
pub proof fn lemma_counts_bounded(records: Seq<TradeRecordView>)
    ensures
        0 <= win_count(records) <= records.len(),
        0 <= held_total(records) <= records.len() * 0xffff_ffff_ffff_ffff,
    decreases records.len(),
{
    if records.len() > 0 {
        lemma_counts_bounded(records.drop_last());
        assert((records.len() - 1) * 0xffff_ffff_ffff_ffff + 0xffff_ffff_ffff_ffff == records.len()
            * 0xffff_ffff_ffff_ffff) by (nonlinear_arith);
    }
}

/// The mean of `count` values whose sum is `sum`; `zero` when there are none.
pub fn mean(sum: Option<Money>, count: u32, zero: Money) -> (r: Option<Money>)
    ensures
        option_money_view(r) == mean_spec(option_money_view(sum), count as int, zero@),
{
    if count > 0 {
        opt_div(sum, Some(Money::from_u64(count as u64)))
    } else {
        Some(zero)
    }
}

/// Gross profit over gross loss; `zero` when nothing was lost.
pub fn profit_factor(gross_profit: Option<Money>, gross_loss: Option<Money>, zero: Money) -> (r:
    Option<Money>)
    ensures
        option_money_view(r) == profit_factor_spec(
            option_money_view(gross_profit),
            option_money_view(gross_loss),
            zero@,
        ),
{
    match gross_loss {
        Some(lost) => if Money::new(0, 1).lt(&lost) {
            opt_div(gross_profit, Some(lost))
        } else {
            Some(zero)
        },
        None => None,
    }
}

/// `rate/100 * avg_win + (1 - rate/100) * avg_loss`.
pub fn expectancy_of(win_rate: Option<Money>, avg_win: Option<Money>, avg_loss: Option<Money>) -> (r:
    Option<Money>)
    ensures
        option_money_view(r) == expectancy_spec(
            option_money_view(win_rate),
            option_money_view(avg_win),
            option_money_view(avg_loss),
        ),
{
    let share = opt_div(win_rate, Some(Money::new(1000, 1)));
    opt_add(opt_mul(share, avg_win), opt_mul(opt_sub(Some(Money::new(10, 1)), share), avg_loss))
}

/// Wins over trades, in percent.
pub fn win_rate_of(wins: u32, total: u32) -> (r: Option<Money>)
    ensures
        option_money_view(r) == win_rate_spec(wins as int, total as int),
{
    opt_mul(
        Money::from_u64(wins as u64).checked_div(&Money::from_u64(total as u64)),
        Some(Money::new(1000, 1)),
    )
}

/// The statistics of `records`, with `max_drawdown` carried over.
pub fn summarize(records: &Vec<TradeRecord>, max_drawdown: Money) -> (r: Result<
    TradeSummary,
    EngineError,
>)
    ensures
        summary_result_view(r) == summary_spec(records_view(records@), max_drawdown@),
{
    let zero = Money::new(0, 1);
    let ghost all = records_view(records@);
    if records.len() == 0 {
        return Ok(
            TradeSummary {
                total_trades: 0,
                wins: 0,
                losses: 0,
                win_rate: zero,
                net_pnl_usd: zero,
                avg_win_usd: zero,
                avg_loss_usd: zero,
                expectancy: zero,
                max_drawdown,
                profit_factor: zero,
                avg_holding_time_hours: zero,
            },
        );
    }
    if records.len() > u32::MAX as usize {
        return Err(EngineError::Arithmetic);
    }
    let total_trades: u32 = records.len() as u32;
    let mut wins: u32 = 0;
    let mut net: Option<Money> = Some(Money::zero());
    let mut gross_profit: Option<Money> = Some(Money::zero());
    let mut losses_sum: Option<Money> = Some(Money::zero());
    let mut gross_loss: Option<Money> = Some(Money::zero());
    let mut held: u128 = 0;
    let mut i: usize = 0;
    proof {
        assert(all.take(0) =~= Seq::<TradeRecordView>::empty());
    }
    while i < records.len()
        invariant
            i <= records.len() <= u32::MAX,
            all == records_view(records@),
            zero@ == dec(0, 1),
            wins as int == win_count(all.take(i as int)),
            option_money_view(net) == net_total(all.take(i as int)),
            option_money_view(gross_profit) == win_total(all.take(i as int)),
            option_money_view(losses_sum) == loss_total(all.take(i as int)),
            option_money_view(gross_loss) == loss_size_total(all.take(i as int)),
            held as int == held_total(all.take(i as int)),
        decreases records.len() - i,
    {
        proof {
            assert(all.take(i as int + 1).drop_last() =~= all.take(i as int));
            assert(all.take(i as int + 1).last() == records@[i as int]@);
            lemma_counts_bounded(all.take(i as int));
            assert(i * 0xffff_ffff_ffff_ffff <= 0xffff_ffff * 0xffff_ffff_ffff_ffff)
                by (nonlinear_arith)
                requires
                    i <= 0xffff_ffff,
            ;
        }
        let record = &records[i];
        net = opt_add(net, Some(record.pnl_usd));
        if zero.lt(&record.pnl_usd) {
            wins = wins + 1;
            gross_profit = opt_add(gross_profit, Some(record.pnl_usd));
        } else {
            losses_sum = opt_add(losses_sum, Some(record.pnl_usd));
            gross_loss = opt_add(gross_loss, Some(record.pnl_usd.abs()));
        }
        if record.exit_time_ms >= record.entry_time_ms {
            held = held + (record.exit_time_ms - record.entry_time_ms) as u128;
        }
        i = i + 1;
    }
    proof {
        assert(all.take(i as int) =~= all);
        lemma_counts_bounded(all);
        assert(records.len() * 0xffff_ffff_ffff_ffff <= 0xffff_ffff * 0xffff_ffff_ffff_ffff)
            by (nonlinear_arith)
            requires
                records.len() <= 0xffff_ffff,
        ;
    }
    let losses: u32 = total_trades - wins;
    let count = Money::from_u64(total_trades as u64);
    let win_rate = win_rate_of(wins, total_trades);
    let avg_win_usd = mean(gross_profit, wins, zero);
    let avg_loss_usd = mean(losses_sum, losses, zero);
    let expectancy = expectancy_of(win_rate, avg_win_usd, avg_loss_usd);
    let profit_factor = profit_factor(gross_profit, gross_loss, zero);
    let held_money = Money::from_parts(held as i128, 0);
    assert(held_money is Some);
    let hours = opt_div(opt_div(held_money, Some(count)), Some(Money::new(36000000, 1)));
    match (net, expectancy, profit_factor, hours) {
        (Some(net_pnl_usd), Some(e), Some(pf), Some(h)) => {
            match (win_rate, avg_win_usd, avg_loss_usd) {
                (Some(rate), Some(aw), Some(al)) => Ok(
                    TradeSummary {
                        total_trades,
                        wins,
                        losses,
                        win_rate: rate,
                        net_pnl_usd,
                        avg_win_usd: aw,
                        avg_loss_usd: al,
                        expectancy: e,
                        max_drawdown,
                        profit_factor: pf,
                        avg_holding_time_hours: h,
                    },
                ),
                _ => Err(EngineError::Arithmetic),
            }
        },
        _ => Err(EngineError::Arithmetic),
    }
}

} // verus!
