//! Technical indicators over a bar sequence, in decimal arithmetic, and a
//! registry that remembers what it has computed.

use vstd::prelude::*;
use crate::money::{
    add_opt, add_spec, dec, div_opt, div_spec, mul_opt, opt_add, opt_div, opt_mul, opt_sub,
    option_money_view, sub_opt, sub_spec, Dec, Money,
};
use crate::types::{
    points_view, Bar, EngineError, IndicatorParams, IndicatorValue, MarketData, PointView,
};
use vstd::string::StringExecFns;

verus! {

/// The timestamps of `count` bars from bar `first` on.
pub open spec fn stamps_from(bars: Seq<Bar>, first: int, count: int) -> Seq<u64> {
    Seq::new((if count < 0 { 0 } else { count }) as nat, |j: int| bars[first + j].timestamp)
}

/// The series whose `j`-th point is stamped `stamps[j]` and valued
/// `values[j]`; an arithmetic failure if any value is missing.
pub open spec fn series_spec(stamps: Seq<u64>, values: Seq<Option<Dec>>) -> Result<
    Seq<PointView>,
    EngineError,
> {
    if forall|j: int| 0 <= j < values.len() ==> (#[trigger] values[j]) is Some {
        Ok(Seq::new(values.len(), |j: int| PointView { timestamp: stamps[j], value: values[j]->0 }))
    } else {
        Err(EngineError::Arithmetic)
    }
}

/// `count` values, the `j`-th being `f(j)`.
pub open spec fn tabulate(count: int, f: spec_fn(int) -> Option<Dec>) -> Seq<Option<Dec>> {
    Seq::new((if count < 0 { 0 } else { count }) as nat, f)
}

pub open spec fn points_result_view(r: Result<Vec<IndicatorValue>, EngineError>) -> Result<
    Seq<PointView>,
    EngineError,
> {
    match r {
        Ok(v) => Ok(points_view(v@)),
        Err(e) => Err(e),
    }
}

/// The closes of bars `from..to`, added up from zero.
pub open spec fn closes_sum(bars: Seq<Bar>, from: int, to: int) -> Option<Dec>
    decreases to - from,
{
    if to <= from {
        Some(dec(0, 0))
    } else {
        add_opt(closes_sum(bars, from, to - 1), Some(bars[to - 1].close@))
    }
}

/// The mean close of the `period` bars from `i` on.
pub open spec fn sma_at(bars: Seq<Bar>, period: int, i: int) -> Option<Dec> {
    div_opt(closes_sum(bars, i, i + period), Some(dec(period, 0)))
}

/// The mean close of every full window of `period` bars.
pub open spec fn sma_values(bars: Seq<Bar>, period: int) -> Seq<Option<Dec>> {
    tabulate(bars.len() - period + 1, |j: int| sma_at(bars, period, j))
}

/// The simple moving average: one value per full window, stamped at the
/// window's last bar.  Empty when there are fewer bars than `period`.
pub open spec fn sma_spec(bars: Seq<Bar>, period: int) -> Result<Seq<PointView>, EngineError> {
    if period <= 0 {
        Err(EngineError::Arithmetic)
    } else if bars.len() < period {
        Ok(Seq::empty())
    } else {
        series_spec(stamps_from(bars, period - 1, bars.len() - period + 1), sma_values(bars, period))
    }
}

/// The smoothing factor of an exponential average: the one given, else
/// `2 / (period + 1)`.
pub open spec fn alpha_spec(given: Option<Dec>, period: int) -> Option<Dec> {
    match given {
        Some(a) => Some(a),
        None => div_spec(dec(20, 1), dec(period + 1, 0)),
    }
}

/// The `k`-th value of the exponential average: the simple average of the
/// first window, then `alpha * close + (1 - alpha) * previous`.
pub open spec fn ema_at(bars: Seq<Bar>, period: int, alpha: Option<Dec>, k: int) -> Option<Dec>
    decreases k,
{
    if k <= 0 {
        sma_at(bars, period, 0)
    } else {
        add_opt(
            mul_opt(alpha, Some(bars[period + k - 1].close@)),
            mul_opt(sub_opt(Some(dec(10, 1)), alpha), ema_at(bars, period, alpha, k - 1)),
        )
    }
}

/// The exponential average at every bar from bar `period - 1` on.
pub open spec fn ema_values(bars: Seq<Bar>, period: int, alpha: Option<Dec>) -> Seq<Option<Dec>> {
    tabulate(bars.len() - period + 1, |j: int| ema_at(bars, period, alpha, j))
}

/// The exponential moving average, stamped from bar `period - 1` on.
pub open spec fn ema_spec(bars: Seq<Bar>, period: int, given: Option<Dec>) -> Result<
    Seq<PointView>,
    EngineError,
> {
    if period <= 0 {
        Err(EngineError::Arithmetic)
    } else if bars.len() < period {
        Ok(Seq::empty())
    } else {
        series_spec(
            stamps_from(bars, period - 1, bars.len() - period + 1),
            ema_values(bars, period, alpha_spec(given, period)),
        )
    }
}

/// The rise of the close from bar `i` to bar `i + 1`; zero if it did not rise.
pub open spec fn gain_at(bars: Seq<Bar>, i: int) -> Option<Dec> {
    match sub_spec(bars[i + 1].close@, bars[i].close@) {
        Some(change) => if dec(0, 1).lt(change) {
            Some(change)
        } else {
            Some(dec(0, 1))
        },
        None => None,
    }
}

/// The fall of the close from bar `i` to bar `i + 1`; zero if it rose.
pub open spec fn loss_at(bars: Seq<Bar>, i: int) -> Option<Dec> {
    match sub_spec(bars[i + 1].close@, bars[i].close@) {
        Some(change) => if dec(0, 1).lt(change) {
            Some(dec(0, 1))
        } else {
            Some(change.negated())
        },
        None => None,
    }
}

/// The first `n` gains, added up from zero.
pub open spec fn gains_sum(bars: Seq<Bar>, n: int) -> Option<Dec>
    decreases n,
{
    if n <= 0 {
        Some(dec(0, 0))
    } else {
        add_opt(gains_sum(bars, n - 1), gain_at(bars, n - 1))
    }
}

/// The first `n` losses, added up from zero.
pub open spec fn losses_sum(bars: Seq<Bar>, n: int) -> Option<Dec>
    decreases n,
{
    if n <= 0 {
        Some(dec(0, 0))
    } else {
        add_opt(losses_sum(bars, n - 1), loss_at(bars, n - 1))
    }
}

/// Wilder's smoothing: `(previous * (period - 1) + next) / period`.
pub open spec fn wilder_spec(previous: Option<Dec>, next: Option<Dec>, period: int) -> Option<Dec> {
    div_opt(add_opt(mul_opt(previous, Some(dec(period - 1, 0))), next), Some(dec(period, 0)))
}

/// The smoothed average gain after `k` smoothing steps.
pub open spec fn avg_gain_at(bars: Seq<Bar>, period: int, k: int) -> Option<Dec>
    decreases k,
{
    if k <= 0 {
        div_opt(gains_sum(bars, period), Some(dec(period, 0)))
    } else {
        wilder_spec(avg_gain_at(bars, period, k - 1), gain_at(bars, period + k - 1), period)
    }
}

/// The smoothed average loss after `k` smoothing steps.
pub open spec fn avg_loss_at(bars: Seq<Bar>, period: int, k: int) -> Option<Dec>
    decreases k,
{
    if k <= 0 {
        div_opt(losses_sum(bars, period), Some(dec(period, 0)))
    } else {
        wilder_spec(avg_loss_at(bars, period, k - 1), loss_at(bars, period + k - 1), period)
    }
}

/// `100 - 100 / (1 + gain / loss)`, and 100 when there is no loss.
pub open spec fn strength_spec(avg_gain: Option<Dec>, avg_loss: Option<Dec>) -> Option<Dec> {
    if avg_gain is Some && avg_loss is Some {
        if avg_loss->0.is_zero() {
            Some(dec(1000, 1))
        } else {
            sub_opt(
                Some(dec(1000, 1)),
                div_opt(
                    Some(dec(1000, 1)),
                    add_opt(Some(dec(10, 1)), div_spec(avg_gain->0, avg_loss->0)),
                ),
            )
        }
    } else {
        None
    }
}

/// The strength index at every bar from bar `period + 1` on.
pub open spec fn rsi_values(bars: Seq<Bar>, period: int) -> Seq<Option<Dec>> {
    tabulate(
        bars.len() - period - 1,
        |j: int| strength_spec(avg_gain_at(bars, period, j + 1), avg_loss_at(bars, period, j + 1)),
    )
}

/// The relative strength index with Wilder's smoothing, one value per bar
/// from bar `period + 1` on.
pub open spec fn rsi_spec(bars: Seq<Bar>, period: int) -> Result<Seq<PointView>, EngineError> {
    if period <= 0 {
        Err(EngineError::Arithmetic)
    } else if bars.len() < period + 1 {
        Ok(Seq::empty())
    } else {
        series_spec(
            stamps_from(bars, period + 1, bars.len() - period - 1),
            rsi_values(bars, period),
        )
    }
}

/// The larger of two amounts, the first when they are equal.
pub open spec fn larger(a: Dec, b: Dec) -> Dec {
    if a.lt(b) {
        b
    } else {
        a
    }
}

/// The true range of bar `i + 1`: the largest of high less low, the
/// distance from high to the previous close, and from low to it.
pub open spec fn true_range_at(bars: Seq<Bar>, i: int) -> Option<Dec> {
    let hl = sub_spec(bars[i + 1].high@, bars[i + 1].low@);
    let hc = sub_spec(bars[i + 1].high@, bars[i].close@);
    let lc = sub_spec(bars[i + 1].low@, bars[i].close@);
    if hl is Some && hc is Some && lc is Some {
        Some(larger(larger(hl->0, hc->0.magnitude()), lc->0.magnitude()))
    } else {
        None
    }
}

/// The first `n` true ranges, added up from zero.
pub open spec fn ranges_sum(bars: Seq<Bar>, n: int) -> Option<Dec>
    decreases n,
{
    if n <= 0 {
        Some(dec(0, 0))
    } else {
        add_opt(ranges_sum(bars, n - 1), true_range_at(bars, n - 1))
    }
}

/// The average true range after `k` smoothing steps.
pub open spec fn atr_at(bars: Seq<Bar>, period: int, k: int) -> Option<Dec>
    decreases k,
{
    if k <= 0 {
        div_opt(ranges_sum(bars, period), Some(dec(period, 0)))
    } else {
        wilder_spec(atr_at(bars, period, k - 1), true_range_at(bars, period + k - 1), period)
    }
}

/// The average true range at every bar from bar `period` on.
pub open spec fn atr_values(bars: Seq<Bar>, period: int) -> Seq<Option<Dec>> {
    tabulate(bars.len() - period, |j: int| atr_at(bars, period, j))
}

/// The average true range, one value per bar from bar `period` on.
pub open spec fn atr_spec(bars: Seq<Bar>, period: int) -> Result<Seq<PointView>, EngineError> {
    if period <= 0 {
        Err(EngineError::Arithmetic)
    } else if bars.len() < period + 1 {
        Ok(Seq::empty())
    } else {
        series_spec(stamps_from(bars, period, bars.len() - period), atr_values(bars, period))
    }
}

/// `(high + low + close) / 3`.
pub open spec fn typical_price(bar: Bar) -> Option<Dec> {
    div_opt(add_opt(add_spec(bar.high@, bar.low@), Some(bar.close@)), Some(dec(30, 1)))
}

/// Typical price times volume over the first `n` bars, added up.
pub open spec fn turnover_sum(bars: Seq<Bar>, n: int) -> Option<Dec>
    decreases n,
{
    if n <= 0 {
        Some(dec(0, 1))
    } else {
        add_opt(
            turnover_sum(bars, n - 1),
            mul_opt(typical_price(bars[n - 1]), Some(bars[n - 1].volume@)),
        )
    }
}

/// Volume over the first `n` bars, added up.
pub open spec fn volume_sum(bars: Seq<Bar>, n: int) -> Option<Dec>
    decreases n,
{
    if n <= 0 {
        Some(dec(0, 1))
    } else {
        add_opt(volume_sum(bars, n - 1), Some(bars[n - 1].volume@))
    }
}

/// Turnover over volume; zero until there is volume.
pub open spec fn vwap_value(turnover: Option<Dec>, volume: Option<Dec>) -> Option<Dec> {
    if turnover is Some && volume is Some {
        if dec(0, 1).lt(volume->0) {
            div_spec(turnover->0, volume->0)
        } else {
            Some(dec(0, 1))
        }
    } else {
        None
    }
}

/// The volume-weighted average price up to each bar.
pub open spec fn vwap_values(bars: Seq<Bar>) -> Seq<Option<Dec>> {
    tabulate(
        bars.len() as int,
        |j: int| vwap_value(turnover_sum(bars, j + 1), volume_sum(bars, j + 1)),
    )
}

/// The cumulative volume-weighted average price, one value per bar.
pub open spec fn vwap_spec(bars: Seq<Bar>) -> Result<Seq<PointView>, EngineError> {
    series_spec(stamps_from(bars, 0, bars.len() as int), vwap_values(bars))
}

/// The highest high of the `n` bars from `from` on; of equal highs the
/// latest.
pub open spec fn window_high(bars: Seq<Bar>, from: int, n: int) -> Dec
    decreases n,
{
    if n <= 1 {
        bars[from].high@
    } else {
        let before = window_high(bars, from, n - 1);
        let next = bars[from + n - 1].high@;
        if next.lt(before) {
            before
        } else {
            next
        }
    }
}

/// The lowest low of the `n` bars from `from` on; of equal lows the
/// earliest.
pub open spec fn window_low(bars: Seq<Bar>, from: int, n: int) -> Dec
    decreases n,
{
    if n <= 1 {
        bars[from].low@
    } else {
        let before = window_low(bars, from, n - 1);
        let next = bars[from + n - 1].low@;
        if next.lt(before) {
            next
        } else {
            before
        }
    }
}

/// The highest high of every full window.
pub open spec fn high_values(bars: Seq<Bar>, period: int) -> Seq<Option<Dec>> {
    tabulate(bars.len() - period + 1, |j: int| Some(window_high(bars, j, period)))
}

/// The lowest low of every full window.
pub open spec fn low_values(bars: Seq<Bar>, period: int) -> Seq<Option<Dec>> {
    tabulate(bars.len() - period + 1, |j: int| Some(window_low(bars, j, period)))
}

/// The rolling highest high, stamped at each window's last bar.
pub open spec fn highest_high_spec(bars: Seq<Bar>, period: int) -> Result<
    Seq<PointView>,
    EngineError,
> {
    if period <= 0 {
        Err(EngineError::Arithmetic)
    } else if bars.len() < period {
        Ok(Seq::empty())
    } else {
        series_spec(
            stamps_from(bars, period - 1, bars.len() - period + 1),
            high_values(bars, period),
        )
    }
}

/// The rolling lowest low, stamped at each window's last bar.
pub open spec fn lowest_low_spec(bars: Seq<Bar>, period: int) -> Result<
    Seq<PointView>,
    EngineError,
> {
    if period <= 0 {
        Err(EngineError::Arithmetic)
    } else if bars.len() < period {
        Ok(Seq::empty())
    } else {
        series_spec(
            stamps_from(bars, period - 1, bars.len() - period + 1),
            low_values(bars, period),
        )
    }
}

fn sum_closes(bars: &[Bar], from: usize, to: usize) -> (r: Option<Money>)
    requires
        from <= to <= bars.len(),
    ensures
        option_money_view(r) == closes_sum(bars@, from as int, to as int),
{
    let mut total: Option<Money> = Some(Money::zero());
    let mut i: usize = from;
    while i < to
        invariant
            from <= i <= to <= bars.len(),
            option_money_view(total) == closes_sum(bars@, from as int, i as int),
        decreases to - i,
    {
        total = opt_add(total, Some(bars[i].close));
        i = i + 1;
    }
    total
}

fn whole(n: usize) -> (r: Money)
    ensures
        r@ == dec(n as int, 0),
{
    Money::from_u64(n as u64)
}

/// Whether the first `n` points of `out` are the first `n` points of the
/// series with these stamps and values.
pub open spec fn filled(
    out: Seq<IndicatorValue>,
    stamps: Seq<u64>,
    values: Seq<Option<Dec>>,
    n: int,
) -> bool {
    &&& out.len() == n
    &&& forall|j: int| 0 <= j < n ==> (#[trigger] values[j]) is Some
    &&& forall|j: int|
        0 <= j < n ==> (#[trigger] out[j])@ == (PointView {
            timestamp: stamps[j],
            value: values[j]->0,
        })
}

proof fn lemma_missing_is_failure(stamps: Seq<u64>, values: Seq<Option<Dec>>, i: int)
    requires
        0 <= i < values.len(),
        values[i] is None,
    ensures
        series_spec(stamps, values) == Err::<Seq<PointView>, EngineError>(EngineError::Arithmetic),
{
}

proof fn lemma_filled_is_series(out: Seq<IndicatorValue>, stamps: Seq<u64>, values: Seq<Option<Dec>>)
    requires
        filled(out, stamps, values, values.len() as int),
    ensures
        series_spec(stamps, values) == Ok::<Seq<PointView>, EngineError>(points_view(out)),
{
    assert(points_view(out) =~= series_spec(stamps, values)->Ok_0);
}

/// The simple moving average of the closes over `period` bars.
pub fn calculate_sma(bars: &[Bar], params: &IndicatorParams) -> (r: Result<
    Vec<IndicatorValue>,
    EngineError,
>)
    ensures
        points_result_view(r) == sma_spec(bars@, params.period as int),
{
    let period = params.period;
    if period == 0 {
        return Err(EngineError::Arithmetic);
    }
    let mut values: Vec<IndicatorValue> = Vec::new();
    if bars.len() < period {
        assert(points_view(values@) =~= Seq::<PointView>::empty());
        return Ok(values);
    }
    let count: usize = bars.len() - period + 1;
    let ghost stamps = stamps_from(bars@, period - 1, count as int);
    let ghost wanted = sma_values(bars@, period as int);
    let mut i: usize = 0;
    while i < count
        invariant
            period == params.period,
            0 < period <= bars.len(),
            count == bars.len() - period + 1,
            i <= count,
            stamps == stamps_from(bars@, period - 1, count as int),
            wanted == sma_values(bars@, period as int),
            filled(values@, stamps, wanted, i as int),
        decreases count - i,
    {
        let sum = sum_closes(bars, i, i + period);
        match opt_div(sum, Some(whole(period))) {
            Some(sma) => {
                values.push(IndicatorValue { timestamp: bars[i + period - 1].timestamp, value: sma });
            },
            None => {
                proof {
                    lemma_missing_is_failure(stamps, wanted, i as int);
                }
                return Err(EngineError::Arithmetic);
            },
        }
        i = i + 1;
    }
    proof {
        lemma_filled_is_series(values@, stamps, wanted);
    }
    Ok(values)
}


/// The exponential moving average of the closes.
pub fn calculate_ema(bars: &[Bar], params: &IndicatorParams) -> (r: Result<
    Vec<IndicatorValue>,
    EngineError,
>)
    ensures
        points_result_view(r) == ema_spec(
            bars@,
            params.period as int,
            option_money_view(params.alpha),
        ),
{
    let period = params.period;
    if period == 0 {
        return Err(EngineError::Arithmetic);
    }
    let mut values: Vec<IndicatorValue> = Vec::new();
    if bars.len() < period {
        assert(points_view(values@) =~= Seq::<PointView>::empty());
        return Ok(values);
    }
    let alpha: Option<Money> = match params.alpha {
        Some(a) => Some(a),
        None => opt_div(Some(Money::new(20, 1)), Money::from_parts(period as i128 + 1, 0)),
    };
    let rest = opt_sub(Some(Money::new(10, 1)), alpha);
    let count: usize = bars.len() - period + 1;
    let ghost stamps = stamps_from(bars@, period - 1, count as int);
    let ghost wanted = ema_values(bars@, period as int, option_money_view(alpha));
    let mut ema = opt_div(sum_closes(bars, 0, period), Some(whole(period)));
    let mut k: usize = 0;
    while k < count
        invariant
            period == params.period,
            0 < period <= bars.len(),
            count == bars.len() - period + 1,
            k <= count,
            option_money_view(alpha) == alpha_spec(option_money_view(params.alpha), period as int),
            option_money_view(rest) == sub_opt(Some(dec(10, 1)), option_money_view(alpha)),
            stamps == stamps_from(bars@, period - 1, count as int),
            wanted == ema_values(bars@, period as int, option_money_view(alpha)),
            filled(values@, stamps, wanted, k as int),
            k < count ==> option_money_view(ema) == ema_at(
                bars@,
                period as int,
                option_money_view(alpha),
                k as int,
            ),
        decreases count - k,
    {
        match ema {
            Some(value) => {
                values.push(IndicatorValue { timestamp: bars[k + period - 1].timestamp, value });
            },
            None => {
                proof {
                    lemma_missing_is_failure(stamps, wanted, k as int);
                }
                return Err(EngineError::Arithmetic);
            },
        }
        k = k + 1;
        if k < count {
            ema = opt_add(opt_mul(alpha, Some(bars[period + k - 1].close)), opt_mul(rest, ema));
        }
    }
    proof {
        lemma_filled_is_series(values@, stamps, wanted);
    }
    Ok(values)
}

fn gain_of(bars: &[Bar], i: usize) -> (r: Option<Money>)
    requires
        i + 1 < bars.len(),
    ensures
        option_money_view(r) == gain_at(bars@, i as int),
{
    match bars[i + 1].close.checked_sub(&bars[i].close) {
        Some(change) => if Money::new(0, 1).lt(&change) {
            Some(change)
        } else {
            Some(Money::new(0, 1))
        },
        None => None,
    }
}

fn loss_of(bars: &[Bar], i: usize) -> (r: Option<Money>)
    requires
        i + 1 < bars.len(),
    ensures
        option_money_view(r) == loss_at(bars@, i as int),
{
    match bars[i + 1].close.checked_sub(&bars[i].close) {
        Some(change) => if Money::new(0, 1).lt(&change) {
            Some(Money::new(0, 1))
        } else {
            Some(change.neg())
        },
        None => None,
    }
}

fn smooth(previous: Option<Money>, next: Option<Money>, period: usize) -> (r: Option<Money>)
    requires
        period > 0,
    ensures
        option_money_view(r) == wilder_spec(
            option_money_view(previous),
            option_money_view(next),
            period as int,
        ),
{
    opt_div(opt_add(opt_mul(previous, Some(whole(period - 1))), next), Some(whole(period)))
}

fn strength(avg_gain: Option<Money>, avg_loss: Option<Money>) -> (r: Option<Money>)
    ensures
        option_money_view(r) == strength_spec(
            option_money_view(avg_gain),
            option_money_view(avg_loss),
        ),
{
    match (avg_gain, avg_loss) {
        (Some(gain), Some(loss)) => {
            if loss.is_zero() {
                Some(Money::new(1000, 1))
            } else {
                let hundred = Some(Money::new(1000, 1));
                opt_sub(
                    hundred,
                    opt_div(hundred, opt_add(Some(Money::new(10, 1)), gain.checked_div(&loss))),
                )
            }
        },
        _ => None,
    }
}

/// The relative strength index with Wilder's smoothing.
pub fn calculate_rsi(bars: &[Bar], params: &IndicatorParams) -> (r: Result<
    Vec<IndicatorValue>,
    EngineError,
>)
    ensures
        points_result_view(r) == rsi_spec(bars@, params.period as int),
{
    let period = params.period;
    if period == 0 {
        return Err(EngineError::Arithmetic);
    }
    let mut values: Vec<IndicatorValue> = Vec::new();
    if bars.len() <= period {
        assert(points_view(values@) =~= Seq::<PointView>::empty());
        return Ok(values);
    }
    let count: usize = bars.len() - period - 1;
    let ghost stamps = stamps_from(bars@, period + 1, count as int);
    let ghost wanted = rsi_values(bars@, period as int);
    let mut gains: Option<Money> = Some(Money::zero());
    let mut losses: Option<Money> = Some(Money::zero());
    let mut i: usize = 0;
    while i < period
        invariant
            i <= period < bars.len(),
            option_money_view(gains) == gains_sum(bars@, i as int),
            option_money_view(losses) == losses_sum(bars@, i as int),
        decreases period - i,
    {
        gains = opt_add(gains, gain_of(bars, i));
        losses = opt_add(losses, loss_of(bars, i));
        i = i + 1;
    }
    let mut avg_gain = opt_div(gains, Some(whole(period)));
    let mut avg_loss = opt_div(losses, Some(whole(period)));
    let mut j: usize = 0;
    while j < count
        invariant
            period == params.period,
            0 < period < bars.len(),
            count == bars.len() - period - 1,
            j <= count,
            stamps == stamps_from(bars@, period + 1, count as int),
            wanted == rsi_values(bars@, period as int),
            filled(values@, stamps, wanted, j as int),
            option_money_view(avg_gain) == avg_gain_at(bars@, period as int, j as int),
            option_money_view(avg_loss) == avg_loss_at(bars@, period as int, j as int),
        decreases count - j,
    {
        avg_gain = smooth(avg_gain, gain_of(bars, period + j), period);
        avg_loss = smooth(avg_loss, loss_of(bars, period + j), period);
        match strength(avg_gain, avg_loss) {
            Some(value) => {
                values.push(IndicatorValue { timestamp: bars[period + j + 1].timestamp, value });
            },
            None => {
                proof {
                    lemma_missing_is_failure(stamps, wanted, j as int);
                }
                return Err(EngineError::Arithmetic);
            },
        }
        j = j + 1;
    }
    proof {
        lemma_filled_is_series(values@, stamps, wanted);
    }
    Ok(values)
}

fn true_range_of(bars: &[Bar], i: usize) -> (r: Option<Money>)
    requires
        i + 1 < bars.len(),
    ensures
        option_money_view(r) == true_range_at(bars@, i as int),
{
    let hl = bars[i + 1].high.checked_sub(&bars[i + 1].low);
    let hc = bars[i + 1].high.checked_sub(&bars[i].close);
    let lc = bars[i + 1].low.checked_sub(&bars[i].close);
    match (hl, hc, lc) {
        (Some(a), Some(b), Some(c)) => Some(a.max(b.abs()).max(c.abs())),
        _ => None,
    }
}

/// The average true range with Wilder's smoothing.
pub fn calculate_atr(bars: &[Bar], params: &IndicatorParams) -> (r: Result<
    Vec<IndicatorValue>,
    EngineError,
>)
    ensures
        points_result_view(r) == atr_spec(bars@, params.period as int),
{
    let period = params.period;
    if period == 0 {
        return Err(EngineError::Arithmetic);
    }
    let mut values: Vec<IndicatorValue> = Vec::new();
    if bars.len() <= period {
        assert(points_view(values@) =~= Seq::<PointView>::empty());
        return Ok(values);
    }
    let count: usize = bars.len() - period;
    let ghost stamps = stamps_from(bars@, period as int, count as int);
    let ghost wanted = atr_values(bars@, period as int);
    let mut ranges: Option<Money> = Some(Money::zero());
    let mut i: usize = 0;
    while i < period
        invariant
            i <= period < bars.len(),
            option_money_view(ranges) == ranges_sum(bars@, i as int),
        decreases period - i,
    {
        ranges = opt_add(ranges, true_range_of(bars, i));
        i = i + 1;
    }
    let mut atr = opt_div(ranges, Some(whole(period)));
    let mut k: usize = 0;
    while k < count
        invariant
            period == params.period,
            0 < period < bars.len(),
            count == bars.len() - period,
            k <= count,
            stamps == stamps_from(bars@, period as int, count as int),
            wanted == atr_values(bars@, period as int),
            filled(values@, stamps, wanted, k as int),
            k < count ==> option_money_view(atr) == atr_at(bars@, period as int, k as int),
        decreases count - k,
    {
        match atr {
            Some(value) => {
                values.push(IndicatorValue { timestamp: bars[period + k].timestamp, value });
            },
            None => {
                proof {
                    lemma_missing_is_failure(stamps, wanted, k as int);
                }
                return Err(EngineError::Arithmetic);
            },
        }
        k = k + 1;
        if k < count {
            atr = smooth(atr, true_range_of(bars, period + k - 1), period);
        }
    }
    proof {
        lemma_filled_is_series(values@, stamps, wanted);
    }
    Ok(values)
}

fn typical_of(bar: &Bar) -> (r: Option<Money>)
    ensures
        option_money_view(r) == typical_price(*bar),
{
    opt_div(opt_add(bar.high.checked_add(&bar.low), Some(bar.close)), Some(Money::new(30, 1)))
}

fn vwap_of(turnover: Option<Money>, volume: Option<Money>) -> (r: Option<Money>)
    ensures
        option_money_view(r) == vwap_value(option_money_view(turnover), option_money_view(volume)),
{
    match (turnover, volume) {
        (Some(t), Some(v)) => if Money::new(0, 1).lt(&v) {
            t.checked_div(&v)
        } else {
            Some(Money::new(0, 1))
        },
        _ => None,
    }
}

/// The cumulative volume-weighted average price.
pub fn calculate_vwap(bars: &[Bar], _params: &IndicatorParams) -> (r: Result<
    Vec<IndicatorValue>,
    EngineError,
>)
    ensures
        points_result_view(r) == vwap_spec(bars@),
{
    let mut values: Vec<IndicatorValue> = Vec::new();
    let ghost stamps = stamps_from(bars@, 0, bars.len() as int);
    let ghost wanted = vwap_values(bars@);
    let mut turnover: Option<Money> = Some(Money::new(0, 1));
    let mut volume: Option<Money> = Some(Money::new(0, 1));
    let mut j: usize = 0;
    while j < bars.len()
        invariant
            j <= bars.len(),
            stamps == stamps_from(bars@, 0, bars.len() as int),
            wanted == vwap_values(bars@),
            filled(values@, stamps, wanted, j as int),
            option_money_view(turnover) == turnover_sum(bars@, j as int),
            option_money_view(volume) == volume_sum(bars@, j as int),
        decreases bars.len() - j,
    {
        turnover = opt_add(turnover, opt_mul(typical_of(&bars[j]), Some(bars[j].volume)));
        volume = opt_add(volume, Some(bars[j].volume));
        match vwap_of(turnover, volume) {
            Some(value) => {
                values.push(IndicatorValue { timestamp: bars[j].timestamp, value });
            },
            None => {
                proof {
                    lemma_missing_is_failure(stamps, wanted, j as int);
                }
                return Err(EngineError::Arithmetic);
            },
        }
        j = j + 1;
    }
    proof {
        lemma_filled_is_series(values@, stamps, wanted);
    }
    Ok(values)
}

fn high_of_window(bars: &[Bar], from: usize, period: usize) -> (r: Money)
    requires
        period > 0,
        from + period <= bars.len(),
    ensures
        r@ == window_high(bars@, from as int, period as int),
{
    let mut best = bars[from].high;
    let mut n: usize = 1;
    while n < period
        invariant
            1 <= n <= period,
            from + period <= bars.len(),
            best@ == window_high(bars@, from as int, n as int),
        decreases period - n,
    {
        let next = bars[from + n].high;
        if !next.lt(&best) {
            best = next;
        }
        n = n + 1;
    }
    best
}

fn low_of_window(bars: &[Bar], from: usize, period: usize) -> (r: Money)
    requires
        period > 0,
        from + period <= bars.len(),
    ensures
        r@ == window_low(bars@, from as int, period as int),
{
    let mut best = bars[from].low;
    let mut n: usize = 1;
    while n < period
        invariant
            1 <= n <= period,
            from + period <= bars.len(),
            best@ == window_low(bars@, from as int, n as int),
        decreases period - n,
    {
        let next = bars[from + n].low;
        if next.lt(&best) {
            best = next;
        }
        n = n + 1;
    }
    best
}

/// The rolling highest high.
pub fn calculate_highest_high(bars: &[Bar], params: &IndicatorParams) -> (r: Result<
    Vec<IndicatorValue>,
    EngineError,
>)
    ensures
        points_result_view(r) == highest_high_spec(bars@, params.period as int),
{
    let period = params.period;
    if period == 0 {
        return Err(EngineError::Arithmetic);
    }
    let mut values: Vec<IndicatorValue> = Vec::new();
    if bars.len() < period {
        assert(points_view(values@) =~= Seq::<PointView>::empty());
        return Ok(values);
    }
    let count: usize = bars.len() - period + 1;
    let ghost stamps = stamps_from(bars@, period - 1, count as int);
    let ghost wanted = high_values(bars@, period as int);
    let mut j: usize = 0;
    while j < count
        invariant
            period == params.period,
            0 < period <= bars.len(),
            count == bars.len() - period + 1,
            j <= count,
            stamps == stamps_from(bars@, period - 1, count as int),
            wanted == high_values(bars@, period as int),
            filled(values@, stamps, wanted, j as int),
        decreases count - j,
    {
        let value = high_of_window(bars, j, period);
        values.push(IndicatorValue { timestamp: bars[j + period - 1].timestamp, value });
        j = j + 1;
    }
    proof {
        lemma_filled_is_series(values@, stamps, wanted);
    }
    Ok(values)
}

/// The rolling lowest low.
pub fn calculate_lowest_low(bars: &[Bar], params: &IndicatorParams) -> (r: Result<
    Vec<IndicatorValue>,
    EngineError,
>)
    ensures
        points_result_view(r) == lowest_low_spec(bars@, params.period as int),
{
    let period = params.period;
    if period == 0 {
        return Err(EngineError::Arithmetic);
    }
    let mut values: Vec<IndicatorValue> = Vec::new();
    if bars.len() < period {
        assert(points_view(values@) =~= Seq::<PointView>::empty());
        return Ok(values);
    }
    let count: usize = bars.len() - period + 1;
    let ghost stamps = stamps_from(bars@, period - 1, count as int);
    let ghost wanted = low_values(bars@, period as int);
    let mut j: usize = 0;
    while j < count
        invariant
            period == params.period,
            0 < period <= bars.len(),
            count == bars.len() - period + 1,
            j <= count,
            stamps == stamps_from(bars@, period - 1, count as int),
            wanted == low_values(bars@, period as int),
            filled(values@, stamps, wanted, j as int),
        decreases count - j,
    {
        let value = low_of_window(bars, j, period);
        values.push(IndicatorValue { timestamp: bars[j + period - 1].timestamp, value });
        j = j + 1;
    }
    proof {
        lemma_filled_is_series(values@, stamps, wanted);
    }
    Ok(values)
}


/// Whether the registry knows an indicator of this name.
pub open spec fn known_indicator(name: Seq<char>) -> bool {
    name == "ema"@ || name == "sma"@ || name == "rsi"@ || name == "atr"@ || name == "vwap"@
        || name == "hh"@ || name == "ll"@
}

/// The series an indicator name stands for: `ema` and `sma` and the
/// rolling extremes `hh` and `ll` run over 20 bars, `rsi` and `atr` over
/// 14, and `vwap` over all of them.  Any other name is unknown, whatever
/// the bars.
pub open spec fn indicator_spec(name: Seq<char>, bars: Seq<Bar>) -> Result<
    Seq<PointView>,
    EngineError,
> {
    if name == "ema"@ {
        ema_spec(bars, 20, None)
    } else if name == "sma"@ {
        sma_spec(bars, 20)
    } else if name == "rsi"@ {
        rsi_spec(bars, 14)
    } else if name == "atr"@ {
        atr_spec(bars, 14)
    } else if name == "vwap"@ {
        vwap_spec(bars)
    } else if name == "hh"@ {
        highest_high_spec(bars, 20)
    } else if name == "ll"@ {
        lowest_low_spec(bars, 20)
    } else {
        Err(EngineError::UnknownIndicator)
    }
}

/// A series the registry has computed, with the bars it was computed from.
#[derive(Debug)]
pub struct CacheEntry {
    name: String,
    symbol: String,
    bars: Vec<Bar>,
    values: Vec<IndicatorValue>,
}

impl CacheEntry {
    /// The values are what the name stands for on the bars.
    pub closed spec fn holds(&self) -> bool {
        indicator_spec(self.name@, self.bars@) == Ok::<Seq<PointView>, EngineError>(
            points_view(self.values@),
        )
    }
}

/// Computes indicators by name and remembers the results per name and
/// symbol, for as long as the bars stay the same.
#[derive(Debug)]
pub struct IndicatorRegistry {
    enable_simd: bool,
    cache: Vec<CacheEntry>,
}

fn same_bar(a: &Bar, b: &Bar) -> (r: bool)
    ensures
        r == (*a == *b),
{
    a.timestamp == b.timestamp && a.open.identical(&b.open) && a.high.identical(&b.high)
        && a.low.identical(&b.low) && a.close.identical(&b.close) && a.volume.identical(
        &b.volume,
    ) && a.trade_count == b.trade_count
}

fn same_bars(a: &Vec<Bar>, b: &Vec<Bar>) -> (r: bool)
    ensures
        r == (a@ == b@),
{
    if a.len() != b.len() {
        return false;
    }
    let mut i: usize = 0;
    while i < a.len()
        invariant
            i <= a.len(),
            a.len() == b.len(),
            forall|j: int| 0 <= j < i ==> a@[j] == b@[j],
        decreases a.len() - i,
    {
        if !same_bar(&a[i], &b[i]) {
            return false;
        }
        i = i + 1;
    }
    assert(a@ =~= b@);
    true
}

fn copy_bars(bars: &Vec<Bar>) -> (r: Vec<Bar>)
    ensures
        r@ == bars@,
{
    let mut out: Vec<Bar> = Vec::new();
    let mut i: usize = 0;
    while i < bars.len()
        invariant
            i <= bars.len(),
            out@ == bars@.take(i as int),
        decreases bars.len() - i,
    {
        out.push(bars[i]);
        proof {
            assert(out@ =~= bars@.take(i as int + 1));
        }
        i = i + 1;
    }
    proof {
        assert(bars@.take(i as int) =~= bars@);
    }
    out
}

fn copy_points(values: &Vec<IndicatorValue>) -> (r: Vec<IndicatorValue>)
    ensures
        r@ == values@,
{
    let mut out: Vec<IndicatorValue> = Vec::new();
    let mut i: usize = 0;
    while i < values.len()
        invariant
            i <= values.len(),
            out@ == values@.take(i as int),
        decreases values.len() - i,
    {
        out.push(values[i]);
        proof {
            assert(out@ =~= values@.take(i as int + 1));
        }
        i = i + 1;
    }
    proof {
        assert(values@.take(i as int) =~= values@);
    }
    out
}

fn is_name(name: &String, literal: &str) -> (r: bool)
    ensures
        r == (name@ == literal@),
{
    let other = String::from_str(literal);
    *name == other
}

/// The series `name` stands for on `bars`, computed afresh.
pub fn compute_indicator(name: &String, bars: &Vec<Bar>) -> (r: Result<
    Vec<IndicatorValue>,
    EngineError,
>)
    ensures
        points_result_view(r) == indicator_spec(name@, bars@),
{
    let twenty = IndicatorParams { period: 20, alpha: None, threshold: None };
    let fourteen = IndicatorParams { period: 14, alpha: None, threshold: None };
    if is_name(name, "ema") {
        calculate_ema(bars.as_slice(), &twenty)
    } else if is_name(name, "sma") {
        calculate_sma(bars.as_slice(), &twenty)
    } else if is_name(name, "rsi") {
        calculate_rsi(bars.as_slice(), &fourteen)
    } else if is_name(name, "atr") {
        calculate_atr(bars.as_slice(), &fourteen)
    } else if is_name(name, "vwap") {
        calculate_vwap(bars.as_slice(), &IndicatorParams { period: 0, alpha: None, threshold: None })
    } else if is_name(name, "hh") {
        calculate_highest_high(bars.as_slice(), &twenty)
    } else if is_name(name, "ll") {
        calculate_lowest_low(bars.as_slice(), &twenty)
    } else {
        Err(EngineError::UnknownIndicator)
    }
}

impl IndicatorRegistry {
    /// Every remembered series is what a fresh computation would give.
    pub closed spec fn wf(&self) -> bool {
        forall|i: int| 0 <= i < self.cache@.len() ==> (#[trigger] self.cache@[i]).holds()
    }

    pub closed spec fn simd_enabled(&self) -> bool {
        self.enable_simd
    }

    /// The remembered series, oldest first.
    pub closed spec fn entries(&self) -> Seq<CacheEntry> {
        self.cache@
    }

    /// How many series are remembered.
    pub open spec fn remembered(&self) -> nat {
        self.entries().len()
    }

    /// An empty registry.  `enable_simd` records whether the host may use a
    /// vectorised moving average; the registry itself computes in decimals.
    pub fn new(enable_simd: bool) -> (r: Result<Self, EngineError>)
        ensures
            r is Ok,
            r->Ok_0.wf(),
            r->Ok_0.simd_enabled() == enable_simd,
            r->Ok_0.remembered() == 0,
    {
        Ok(IndicatorRegistry { enable_simd, cache: Vec::new() })
    }

    pub fn enable_simd(&self) -> (r: bool)
        ensures
            r == self.simd_enabled(),
    {
        self.enable_simd
    }

    /// Forgets every remembered series.
    pub fn clear(&mut self)
        ensures
            final(self).wf(),
            final(self).remembered() == 0,
            final(self).simd_enabled() == old(self).simd_enabled(),
    {
        self.cache = Vec::new();
    }

    fn find(&self, name: &String, symbol: &String) -> (r: Option<usize>)
        ensures
            match r {
                Some(i) => i < self.cache@.len() && self.cache@[i as int].is_for(name@, symbol@)
                    && forall|j: int| 0 <= j < i ==> !(#[trigger] self.cache@[j]).is_for(
                        name@,
                        symbol@,
                    ),
                None => forall|j: int|
                    0 <= j < self.cache@.len() ==> !(#[trigger] self.cache@[j]).is_for(
                        name@,
                        symbol@,
                    ),
            },
    {
        let mut i: usize = 0;
        while i < self.cache.len()
            invariant
                i <= self.cache.len(),
                forall|j: int| 0 <= j < i ==> !(#[trigger] self.cache@[j]).is_for(name@, symbol@),
            decreases self.cache.len() - i,
        {
            if self.cache[i].name == *name && self.cache[i].symbol == *symbol {
                return Some(i);
            }
            i = i + 1;
        }
        None
    }

    /// The series `indicator_name` stands for on the bars of `market_data`.
    /// A remembered series is handed back only while the bars are the ones
    /// it was computed from, so the answer is always that of a fresh
    /// computation.  An unknown name is an error whatever the bars, and an
    /// error leaves the registry as it was.
    pub fn calculate(&mut self, indicator_name: &str, market_data: &MarketData) -> (r: Result<
        Vec<IndicatorValue>,
        EngineError,
    >)
        requires
            old(self).wf(),
        ensures
            final(self).wf(),
            final(self).simd_enabled() == old(self).simd_enabled(),
            points_result_view(r) == indicator_spec(indicator_name@, market_data.bars@),
            r is Ok ==> final(self).remembers(
                indicator_name@,
                market_data.symbol@,
                market_data.bars@,
            ),
            r is Err ==> final(self).entries() == old(self).entries(),
            !known_indicator(indicator_name@) ==> r == Err::<Vec<IndicatorValue>, EngineError>(
                EngineError::UnknownIndicator,
            ),
    {
        let name = String::from_str(indicator_name);
        let found = self.find(&name, &market_data.symbol);
        match found {
            Some(i) => {
                if same_bars(&self.cache[i].bars, &market_data.bars) {
                    assert(self.cache@[i as int].holds());
                    assert(self.cache@[i as int].keeps(
                        indicator_name@,
                        market_data.symbol@,
                        market_data.bars@,
                    ));
                    return Ok(copy_points(&self.cache[i].values));
                }
            },
            None => {},
        }
        let values = match compute_indicator(&name, &market_data.bars) {
            Ok(v) => v,
            Err(e) => {
                return Err(e);
            },
        };
        let entry = CacheEntry {
            name,
            symbol: market_data.symbol.clone(),
            bars: copy_bars(&market_data.bars),
            values: copy_points(&values),
        };
        assert(entry.holds());
        match found {
            Some(i) => {
                let ghost before = self.cache@;
                self.cache.remove(i);
                assert forall|j: int| 0 <= j < self.cache@.len() implies (
                #[trigger] self.cache@[j]).holds() by {
                    if j < i {
                        assert(before[j].holds());
                    } else {
                        assert(before[j + 1].holds());
                    }
                }
            },
            None => {},
        }
        let ghost kept = self.cache@;
        self.cache.push(entry);
        assert forall|j: int| 0 <= j < self.cache@.len() implies (
        #[trigger] self.cache@[j]).holds() by {
            if j < kept.len() {
                assert(kept[j].holds());
            }
        }
        assert(self.cache@[kept.len() as int].keeps(
            indicator_name@,
            market_data.symbol@,
            market_data.bars@,
        ));
        Ok(values)
    }
}

impl CacheEntry {
    /// Whether the entry is kept under this indicator name and symbol.
    pub closed spec fn is_for(&self, name: Seq<char>, symbol: Seq<char>) -> bool {
        self.name@ == name && self.symbol@ == symbol
    }

    /// Whether the entry is kept under this name and symbol for these bars.
    pub closed spec fn keeps(&self, name: Seq<char>, symbol: Seq<char>, bars: Seq<Bar>) -> bool {
        self.is_for(name, symbol) && self.bars@ == bars
    }
}

impl IndicatorRegistry {
    /// Whether the registry remembers a series under this name and symbol
    /// that was computed from these bars.
    pub closed spec fn remembers(&self, name: Seq<char>, symbol: Seq<char>, bars: Seq<Bar>) -> bool {
        exists|i: int| 0 <= i < self.cache@.len() && (#[trigger] self.cache@[i]).keeps(
            name,
            symbol,
            bars,
        )
    }
}

} // verus!
