//! The trade table generator: admits entry signals, watches every open
//! position for its first exit, and keeps the ledger of closed trades with
//! equity, peak and drawdown.

use vstd::prelude::*;
use crate::invariants::{consistent, lemma_bar_keeps_consistent, lemma_fresh_is_consistent};
use crate::money::{
    add_opt, dec, decimal_digits, div_opt, exact_sum, mul_opt, mul_spec, opt_add, opt_div,
    opt_mul, opt_round, opt_sub, option_money_view, padded_digits, pow10, quantize,
    quantize_spec, round_opt, sub_opt, sub_spec, Dec, Money,
};
use crate::summary::{net_total, summarize, summary_result_view, summary_spec};
use crate::types::{
    arith, copy_records, copy_rejected, money_result_view, or_arithmetic, positions_view,
    records_view, rejected_view, ActivePosition, Bar, EngineError, ExchangeRules, ExitReason,
    HitTpSl, IntrabarPolicy, PositionView, RejectedTrade, RejectedTradeView, ResultView,
    SlippageMode, StrategySignal, Trade, TradeRecord, TradeRecordView, TradeSide, TradeSummary,
    TradeTableResult, TradeType,
};
use vstd::string::StrSliceExecFns;
use vstd::string::StringExecFns;

verus! {

/// Whether the character `c` does not occur in `text`.
pub open spec fn free_of(text: Seq<char>, c: char) -> bool {
    forall|i: int| 0 <= i < text.len() ==> (#[trigger] text[i]) != c
}

/// Whether a text can stand in a field of a table: no comma, no line feed.
#[verifier::opaque]
pub open spec fn plain(text: Seq<char>) -> bool {
    free_of(text, ',') && free_of(text, '\n')
}

/// Year, month and day of the day that lies `days` days after 1 January
/// 1970, in the Gregorian calendar.
pub open spec fn civil_date(days: int) -> (int, int, int) {
    let z = days + 719468;
    let era = z / 146097;
    let doe = z % 146097;
    let yoe = (doe - doe / 1460 + doe / 36524 - doe / 146096) / 365;
    let doy = doe - (365 * yoe + yoe / 4 - yoe / 100);
    let mp = (5 * doy + 2) / 153;
    let day = doy - (153 * mp + 2) / 5 + 1;
    let month = if mp < 10 { mp + 3 } else { mp - 9 };
    let year = yoe + era * 400 + (if month <= 2 { 1int } else { 0 });
    (year, month, day)
}

/// A year as text: four digits up to 9999, a plus sign and all its
/// digits from 10000 on.
pub open spec fn year_text(year: int) -> Seq<char> {
    if year < 10000 {
        padded_digits(year as nat, 4)
    } else {
        seq!['+'] + decimal_digits(year as nat)
    }
}

/// The ISO-8601 UTC text `YYYY-MM-DDTHH:MM:SS.sssZ` of the moment `ms`
/// milliseconds after the start of 1970.
pub open spec fn iso_text(ms: int) -> Seq<char> {
    let date = civil_date(ms / 86_400_000);
    let rest = ms % 86_400_000;
    year_text(date.0) + seq!['-'] + padded_digits(date.1 as nat, 2) + seq!['-'] + padded_digits(
        date.2 as nat,
        2,
    ) + seq!['T'] + padded_digits((rest / 3_600_000) as nat, 2) + seq![':'] + padded_digits(
        (rest / 60_000 % 60) as nat,
        2,
    ) + seq![':'] + padded_digits((rest / 1000 % 60) as nat, 2) + seq!['.'] + padded_digits(
        (rest % 1000) as nat,
        3,
    ) + seq!['Z']
}

/// The first millisecond after the calendar: the start of the year 262143.
pub open spec fn calendar_end() -> int {
    8_210_266_876_800_000
}

/// The ISO-8601 UTC text of a Unix-millisecond timestamp, with milliseconds
/// and a trailing `Z`; `None` where the timestamp lies beyond the calendar.
pub open spec fn utc_text(timestamp: u64) -> Option<Seq<char>> {
    if timestamp < calendar_end() {
        Some(iso_text(timestamp as int))
    } else {
        None
    }
}

pub open spec fn option_string_view(r: Option<String>) -> Option<Seq<char>> {
    match r {
        Some(s) => Some(s@),
        None => None,
    }
}

/// `chrono::DateTime::from_timestamp_millis` followed by `format` with
/// `%Y-%m-%dT%H:%M:%S%.3fZ`: the calendar date and time of day written
/// out, the year with four digits up to 9999 and with a plus sign and all
/// its digits after.  `None` is what `chrono` answers for a timestamp past
/// the last day of its calendar, 31 December 262142.
#[verifier::external_body]
fn format_utc_millis(timestamp: u64) -> (r: Option<String>)
    ensures
        option_string_view(r) == (if timestamp < calendar_end() {
            Some(iso_text(timestamp as int))
        } else {
            None
        }),
{
    let millis = i64::try_from(timestamp).ok()?;
    let moment = chrono::DateTime::from_timestamp_millis(millis)?;
    Some(moment.format("%Y-%m-%dT%H:%M:%S%.3fZ").to_string())
}

proof fn lemma_plain_number(n: nat)
    ensures
        plain(decimal_digits(n)),
    decreases n,
{
    reveal(plain);
    let s = decimal_digits(n);
    if n >= 10 {
        lemma_plain_number(n / 10);
        let front = decimal_digits(n / 10);
        assert forall|i: int| 0 <= i < s.len() implies (#[trigger] s[i]) != ',' && s[i] != '\n' by {
            if i < front.len() {
                assert(s[i] == front[i]);
            }
        }
    }
}

proof fn lemma_plain_year(year: int)
    ensures
        plain(year_text(year)),
{
    if year < 10000 {
        lemma_plain_digits(year as nat, 4);
    } else {
        lemma_plain_number(year as nat);
        reveal(plain);
        let digits = decimal_digits(year as nat);
        let text = seq!['+'] + digits;
        assert forall|i: int| 0 <= i < text.len() implies (#[trigger] text[i]) != ',' && text[i]
            != '\n' by {
            if i > 0 {
                assert(text[i] == digits[i - 1]);
            }
        }
    }
}

proof fn lemma_plain_digits(n: nat, width: nat)
    ensures
        plain(padded_digits(n, width)),
    decreases width,
{
    reveal(plain);
    if width > 0 {
        lemma_plain_digits(n / 10, (width - 1) as nat);
        let s = padded_digits(n, width);
        let front = padded_digits(n / 10, (width - 1) as nat);
        assert forall|i: int| 0 <= i < s.len() implies (#[trigger] s[i]) != ',' && s[i] != '\n' by {
            if i < front.len() {
                assert(s[i] == front[i]);
            }
        }
    }
}

proof fn lemma_plain_then(a: Seq<char>, mark: char, b: Seq<char>)
    requires
        plain(a),
        plain(b),
        mark != ',',
        mark != '\n',
    ensures
        plain(a + seq![mark] + b),
{
    reveal(plain);
    let whole = a + seq![mark] + b;
    assert forall|i: int| 0 <= i < whole.len() implies (#[trigger] whole[i]) != ',' && whole[i]
        != '\n' by {
        if i < a.len() {
            assert(whole[i] == a[i]);
        } else if i > a.len() {
            assert(whole[i] == b[i - a.len() - 1]);
        }
    }
}

/// The text of a moment holds neither comma nor line feed.
pub proof fn lemma_iso_text_plain(ms: int)
    ensures
        plain(iso_text(ms)),
{
    reveal(plain);
    let date = civil_date(ms / 86_400_000);
    let rest = ms % 86_400_000;
    let y = year_text(date.0);
    let mo = padded_digits(date.1 as nat, 2);
    let d = padded_digits(date.2 as nat, 2);
    let h = padded_digits((rest / 3_600_000) as nat, 2);
    let mi = padded_digits((rest / 60_000 % 60) as nat, 2);
    let se = padded_digits((rest / 1000 % 60) as nat, 2);
    let f = padded_digits((rest % 1000) as nat, 3);
    lemma_plain_year(date.0);
    lemma_plain_digits(date.1 as nat, 2);
    lemma_plain_digits(date.2 as nat, 2);
    lemma_plain_digits((rest / 3_600_000) as nat, 2);
    lemma_plain_digits((rest / 60_000 % 60) as nat, 2);
    lemma_plain_digits((rest / 1000 % 60) as nat, 2);
    lemma_plain_digits((rest % 1000) as nat, 3);
    lemma_plain_then(y, '-', mo);
    lemma_plain_then(y + seq!['-'] + mo, '-', d);
    lemma_plain_then(y + seq!['-'] + mo + seq!['-'] + d, 'T', h);
    lemma_plain_then(y + seq!['-'] + mo + seq!['-'] + d + seq!['T'] + h, ':', mi);
    lemma_plain_then(y + seq!['-'] + mo + seq!['-'] + d + seq!['T'] + h + seq![':'] + mi, ':', se);
    lemma_plain_then(
        y + seq!['-'] + mo + seq!['-'] + d + seq!['T'] + h + seq![':'] + mi + seq![':'] + se,
        '.',
        f,
    );
    lemma_plain_then(
        y + seq!['-'] + mo + seq!['-'] + d + seq!['T'] + h + seq![':'] + mi + seq![':'] + se
            + seq!['.'] + f,
        'Z',
        Seq::<char>::empty(),
    );
    assert(iso_text(ms) + Seq::<char>::empty() =~= iso_text(ms));
}

/// The ISO-8601 UTC text of a timestamp, if it has a calendar date.
pub fn utc_string(timestamp: u64) -> (r: Option<String>)
    ensures
        option_string_view(r) == utc_text(timestamp),
        r matches Some(s) ==> plain(s@),
{
    proof {
        lemma_iso_text_plain(timestamp as int);
    }
    format_utc_millis(timestamp)
}

/// The adverse displacement of a price: nothing, one basis point, or five.
pub open spec fn slippage_spec(base: Dec, mode: SlippageMode) -> Option<Dec> {
    match mode {
        SlippageMode::Off => Some(dec(0, 1)),
        SlippageMode::TradeSweep => mul_spec(base, dec(1, 4)),
        SlippageMode::SyntheticBook => mul_spec(base, dec(5, 4)),
    }
}

/// The price an order executes at: buys pay the slippage, sells lose it, and
/// the result is quantized to the tick.
pub open spec fn execution_price_spec(
    base: Dec,
    side: TradeSide,
    mode: SlippageMode,
    rules: ExchangeRules,
) -> Option<Dec> {
    quantize_spec(
        match side {
            TradeSide::Buy => add_opt(Some(base), slippage_spec(base, mode)),
            TradeSide::Sell => sub_opt(Some(base), slippage_spec(base, mode)),
        },
        rules.tick_size@,
    )
}

/// The price an entry starts from: with exact trades the price the signal
/// asks for, or the close if it names none; otherwise the bar's open.
pub open spec fn base_price_spec(bar: Bar, wanted: Option<Dec>, policy: IntrabarPolicy) -> Dec {
    match policy {
        IntrabarPolicy::ExactTrades => match wanted {
            Some(p) => p,
            None => bar.close@,
        },
        _ => bar.open@,
    }
}

/// An amount rounded half-even to `precision` decimals: scaled up by
/// `10^precision`, rounded to a whole number, scaled down again.  There is
/// no result for a precision above 19, whose power of ten exceeds 64 bits.
pub open spec fn fee_rounding_spec(raw: Option<Dec>, precision: u8) -> Option<Dec> {
    if precision > 19 {
        None
    } else {
        let unit = Some(dec(pow10(precision as int), 0));
        div_opt(round_opt(mul_opt(raw, unit)), unit)
    }
}

/// The taker fee on `quantity * price`, rounded to the price precision.
pub open spec fn fee_spec(quantity: Dec, price: Dec, rules: ExchangeRules) -> Option<Dec> {
    fee_rounding_spec(
        mul_opt(mul_spec(quantity, price), Some(rules.taker_fee@)),
        rules.precision_price,
    )
}

/// The quantity bought for `size` at the bar's close, quantized to the lot.
pub open spec fn entry_quantity_spec(size: Dec, bar: Bar, rules: ExchangeRules) -> Option<Dec> {
    quantize_spec(div_opt(Some(size), Some(bar.close@)), rules.lot_size@)
}

/// The notional of the quantized quantity at the bar's close.
pub open spec fn entry_notional_spec(size: Dec, bar: Bar, rules: ExchangeRules) -> Option<Dec> {
    mul_opt(entry_quantity_spec(size, bar, rules), Some(bar.close@))
}

/// Whether the position's time to live has run out at time `now`.
pub open spec fn timeout_fires(p: PositionView, now: int) -> bool {
    p.time_to_live is Some && now >= p.entry_time + p.time_to_live->0
}

/// Whether prices between `low` and `high` reach the take-profit level.
pub open spec fn take_profit_touched(p: PositionView, high: Dec, low: Dec) -> bool {
    p.take_profit is Some && match p.trade_type {
        TradeType::Long => p.take_profit->0.le(high),
        TradeType::Short => low.le(p.take_profit->0),
    }
}

/// Whether prices between `low` and `high` reach the stop-loss level.
pub open spec fn stop_loss_touched(p: PositionView, high: Dec, low: Dec) -> bool {
    p.stop_loss is Some && match p.trade_type {
        TradeType::Long => low.le(p.stop_loss->0),
        TradeType::Short => p.stop_loss->0.le(high),
    }
}

/// The exit that a single price `x` at time `now` decides, among the
/// conditions that fire on the bar: stop loss before take profit before
/// timeout.
pub open spec fn choice_at(p: PositionView, bar: Bar, x: Dec, now: int) -> Option<ExitReason> {
    if stop_loss_touched(p, bar.high@, bar.low@) && stop_loss_touched(p, x, x) {
        Some(ExitReason::StopLoss)
    } else if take_profit_touched(p, bar.high@, bar.low@) && take_profit_touched(p, x, x) {
        Some(ExitReason::TakeProfit)
    } else if timeout_fires(p, bar.timestamp as int) && timeout_fires(p, now) {
        Some(ExitReason::Timeout)
    } else {
        None
    }
}

/// The distance rule.  When the bar touches both levels, the stop loss wins
/// if the open lies strictly closer to it than to the take profit, else the
/// take profit.  A single touched level wins outright, and the timeout only
/// when no level is touched.
pub open spec fn choice_by_distance(p: PositionView, bar: Bar) -> Result<
    Option<ExitReason>,
    EngineError,
> {
    let tp = take_profit_touched(p, bar.high@, bar.low@);
    let sl = stop_loss_touched(p, bar.high@, bar.low@);
    if tp && sl {
        let to_sl = sub_spec(bar.open@, p.stop_loss->0);
        let to_tp = sub_spec(bar.open@, p.take_profit->0);
        if to_sl is Some && to_tp is Some {
            if to_sl->0.magnitude().lt(to_tp->0.magnitude()) {
                Ok(Some(ExitReason::StopLoss))
            } else {
                Ok(Some(ExitReason::TakeProfit))
            }
        } else {
            Err(EngineError::Arithmetic)
        }
    } else if tp {
        Ok(Some(ExitReason::TakeProfit))
    } else if sl {
        Ok(Some(ExitReason::StopLoss))
    } else if timeout_fires(p, bar.timestamp as int) {
        Ok(Some(ExitReason::Timeout))
    } else {
        Ok(None)
    }
}

/// The price `k` of `n` steps along the straight line from open to close:
/// `open + (close - open) * k / n`.
pub open spec fn path_price(bar: Bar, k: int, n: int) -> Option<Dec> {
    add_opt(
        Some(bar.open@),
        div_opt(mul_opt(sub_spec(bar.close@, bar.open@), Some(dec(k, 0))), Some(dec(n, 0))),
    )
}

/// The price of the `k`-th of the sixty one-second steps of a bar.
pub open spec fn step_price(bar: Bar, k: int) -> Option<Dec> {
    path_price(bar, k, 60)
}

/// The one-second rule from step `k` on: the first of the sixty steps whose
/// price decides an exit; the distance rule if none does.
pub open spec fn choice_by_steps(p: PositionView, bar: Bar, k: int) -> Result<
    Option<ExitReason>,
    EngineError,
>
    decreases 60 - k,
{
    if k >= 60 {
        choice_by_distance(p, bar)
    } else {
        match step_price(bar, k) {
            None => Err(EngineError::Arithmetic),
            Some(x) => match choice_at(p, bar, x, bar.timestamp + 1000 * k) {
                Some(c) => Ok(Some(c)),
                None => choice_by_steps(p, bar, k + 1),
            },
        }
    }
}

/// The tape rule from trade `i` on: the first trade whose price decides an
/// exit; the one-second rule if none does.
pub open spec fn choice_by_tape(p: PositionView, bar: Bar, tape: Seq<Trade>, i: int) -> Result<
    Option<ExitReason>,
    EngineError,
>
    decreases tape.len() - i,
{
    if i < 0 || i >= tape.len() {
        choice_by_steps(p, bar, 0)
    } else {
        match choice_at(p, bar, tape[i].price@, tape[i].timestamp as int) {
            Some(c) => Ok(Some(c)),
            None => choice_by_tape(p, bar, tape, i + 1),
        }
    }
}

/// How many of the three exit conditions fire on the bar.
pub open spec fn fired_count(p: PositionView, bar: Bar) -> int {
    (if take_profit_touched(p, bar.high@, bar.low@) { 1int } else { 0 })
        + (if stop_loss_touched(p, bar.high@, bar.low@) { 1int } else { 0 })
        + (if timeout_fires(p, bar.timestamp as int) { 1int } else { 0 })
}

/// Which exit, if any, closes the position on this bar.  A single firing
/// condition is the exit; between several the intrabar policy decides.
pub open spec fn exit_choice(
    p: PositionView,
    bar: Bar,
    policy: IntrabarPolicy,
    tape: Seq<Trade>,
) -> Result<Option<ExitReason>, EngineError> {
    if fired_count(p, bar) <= 1 {
        choice_by_distance(p, bar)
    } else {
        match policy {
            IntrabarPolicy::LinearInterpolation => choice_by_distance(p, bar),
            IntrabarPolicy::OneSecondBars => choice_by_steps(p, bar, 0),
            IntrabarPolicy::ExactTrades => choice_by_tape(p, bar, tape, 0),
        }
    }
}

/// How and when a position leaves.
#[derive(Clone, Copy, Debug)]
pub struct ExitInfo {
    pub exit_price: Money,
    pub exit_time: u64,
    pub exit_reason: ExitReason,
    pub hit_tp_sl: HitTpSl,
}

/// An exit as a value.
pub struct ExitView {
    pub exit_price: Dec,
    pub exit_time: u64,
    pub exit_reason: ExitReason,
    pub hit_tp_sl: HitTpSl,
}

impl View for ExitInfo {
    type V = ExitView;

    open spec fn view(&self) -> ExitView {
        ExitView {
            exit_price: self.exit_price@,
            exit_time: self.exit_time,
            exit_reason: self.exit_reason,
            hit_tp_sl: self.hit_tp_sl,
        }
    }
}

/// The exit that `reason` stands for: a bracket level exits at that level,
/// everything else at the bar's close.
pub open spec fn exit_for(p: PositionView, bar: Bar, reason: ExitReason) -> ExitView {
    match reason {
        ExitReason::TakeProfit => ExitView {
            exit_price: p.take_profit->0,
            exit_time: bar.timestamp,
            exit_reason: ExitReason::TakeProfit,
            hit_tp_sl: HitTpSl::TakeProfit,
        },
        ExitReason::StopLoss => ExitView {
            exit_price: p.stop_loss->0,
            exit_time: bar.timestamp,
            exit_reason: ExitReason::StopLoss,
            hit_tp_sl: HitTpSl::StopLoss,
        },
        _ => ExitView {
            exit_price: bar.close@,
            exit_time: bar.timestamp,
            exit_reason: reason,
            hit_tp_sl: HitTpSl::Neither,
        },
    }
}

/// The exit of a position on a bar, if it has one.
pub open spec fn exit_spec(
    p: PositionView,
    bar: Bar,
    policy: IntrabarPolicy,
    tape: Seq<Trade>,
) -> Result<Option<ExitView>, EngineError> {
    match exit_choice(p, bar, policy, tape) {
        Ok(Some(c)) => Ok(Some(exit_for(p, bar, c))),
        Ok(None) => Ok(None),
        Err(e) => Err(e),
    }
}

pub open spec fn exit_result_view(r: Result<Option<ExitInfo>, EngineError>) -> Result<
    Option<ExitView>,
    EngineError,
> {
    match r {
        Ok(Some(x)) => Ok(Some(x@)),
        Ok(None) => Ok(None),
        Err(e) => Err(e),
    }
}

fn timed_out(position: &ActivePosition, now: u128) -> (r: bool)
    ensures
        r == timeout_fires(position@, now as int),
{
    match position.time_to_live {
        Some(ttl) => {
            let deadline: u128 = position.entry_time as u128 + ttl as u128;
            now >= deadline
        },
        None => false,
    }
}

fn touches_take_profit(position: &ActivePosition, high: &Money, low: &Money) -> (r: bool)
    ensures
        r == take_profit_touched(position@, high@, low@),
{
    match position.take_profit {
        Some(tp) => match position.trade_type {
            TradeType::Long => tp.le(high),
            TradeType::Short => low.le(&tp),
        },
        None => false,
    }
}

fn touches_stop_loss(position: &ActivePosition, high: &Money, low: &Money) -> (r: bool)
    ensures
        r == stop_loss_touched(position@, high@, low@),
{
    match position.stop_loss {
        Some(sl) => match position.trade_type {
            TradeType::Long => low.le(&sl),
            TradeType::Short => sl.le(high),
        },
        None => false,
    }
}

fn choose_at(position: &ActivePosition, bar: &Bar, x: &Money, now: u128) -> (r: Option<ExitReason>)
    ensures
        r == choice_at(position@, *bar, x@, now as int),
{
    if touches_stop_loss(position, &bar.high, &bar.low) && touches_stop_loss(position, x, x) {
        Some(ExitReason::StopLoss)
    } else if touches_take_profit(position, &bar.high, &bar.low) && touches_take_profit(
        position,
        x,
        x,
    ) {
        Some(ExitReason::TakeProfit)
    } else if timed_out(position, bar.timestamp as u128) && timed_out(position, now) {
        Some(ExitReason::Timeout)
    } else {
        None
    }
}

fn choose_by_distance(position: &ActivePosition, bar: &Bar) -> (r: Result<
    Option<ExitReason>,
    EngineError,
>)
    ensures
        r == choice_by_distance(position@, *bar),
{
    let tp = touches_take_profit(position, &bar.high, &bar.low);
    let sl = touches_stop_loss(position, &bar.high, &bar.low);
    if tp && sl {
        let to_sl = opt_sub(Some(bar.open), position.stop_loss);
        let to_tp = opt_sub(Some(bar.open), position.take_profit);
        match (to_sl, to_tp) {
            (Some(a), Some(b)) => {
                if a.abs().lt(&b.abs()) {
                    Ok(Some(ExitReason::StopLoss))
                } else {
                    Ok(Some(ExitReason::TakeProfit))
                }
            },
            _ => Err(EngineError::Arithmetic),
        }
    } else if tp {
        Ok(Some(ExitReason::TakeProfit))
    } else if sl {
        Ok(Some(ExitReason::StopLoss))
    } else if timed_out(position, bar.timestamp as u128) {
        Ok(Some(ExitReason::Timeout))
    } else {
        Ok(None)
    }
}

/// The price `k` of `n` steps along the straight line from open to close.
pub fn price_on_path(bar: &Bar, k: u64, n: u64) -> (r: Option<Money>)
    ensures
        option_money_view(r) == path_price(*bar, k as int, n as int),
{
    let span = opt_sub(Some(bar.close), Some(bar.open));
    let moved = opt_div(opt_mul(span, Some(Money::from_u64(k))), Some(Money::from_u64(n)));
    opt_add(Some(bar.open), moved)
}

fn price_at_step(bar: &Bar, k: u64) -> (r: Option<Money>)
    ensures
        option_money_view(r) == step_price(*bar, k as int),
{
    price_on_path(bar, k, 60)
}

fn choose_by_steps(position: &ActivePosition, bar: &Bar) -> (r: Result<
    Option<ExitReason>,
    EngineError,
>)
    ensures
        r == choice_by_steps(position@, *bar, 0),
{
    let mut k: u64 = 0;
    while k < 60
        invariant
            k <= 60,
            choice_by_steps(position@, *bar, 0) == choice_by_steps(position@, *bar, k as int),
        decreases 60 - k,
    {
        match price_at_step(bar, k) {
            None => {
                return Err(EngineError::Arithmetic);
            },
            Some(x) => {
                let now: u128 = bar.timestamp as u128 + 1000 * (k as u128);
                match choose_at(position, bar, &x, now) {
                    Some(c) => {
                        return Ok(Some(c));
                    },
                    None => {},
                }
            },
        }
        k = k + 1;
    }
    choose_by_distance(position, bar)
}

fn choose_by_tape(position: &ActivePosition, bar: &Bar, tape: &[Trade]) -> (r: Result<
    Option<ExitReason>,
    EngineError,
>)
    ensures
        r == choice_by_tape(position@, *bar, tape@, 0),
{
    let mut i: usize = 0;
    while i < tape.len()
        invariant
            i <= tape.len(),
            choice_by_tape(position@, *bar, tape@, 0) == choice_by_tape(
                position@,
                *bar,
                tape@,
                i as int,
            ),
        decreases tape.len() - i,
    {
        match choose_at(position, bar, &tape[i].price, tape[i].timestamp as u128) {
            Some(c) => {
                return Ok(Some(c));
            },
            None => {},
        }
        i = i + 1;
    }
    choose_by_steps(position, bar)
}

/// The exit of `position` on `bar`, if any of its conditions fires; between
/// several the policy decides, reading `tape` where it follows exact trades.
pub fn check_exit_conditions(
    bar: &Bar,
    position: &ActivePosition,
    policy: &IntrabarPolicy,
    tape: &[Trade],
) -> (r: Result<Option<ExitInfo>, EngineError>)
    ensures
        exit_result_view(r) == exit_spec(position@, *bar, *policy, tape@),
{
    let tp = touches_take_profit(position, &bar.high, &bar.low);
    let sl = touches_stop_loss(position, &bar.high, &bar.low);
    let late = timed_out(position, bar.timestamp as u128);
    let several = (tp && sl) || (tp && late) || (sl && late);
    let choice = if !several {
        choose_by_distance(position, bar)
    } else {
        match policy {
            IntrabarPolicy::LinearInterpolation => choose_by_distance(position, bar),
            IntrabarPolicy::OneSecondBars => choose_by_steps(position, bar),
            IntrabarPolicy::ExactTrades => choose_by_tape(position, bar, tape),
        }
    };
    match choice {
        Err(e) => Err(e),
        Ok(None) => Ok(None),
        Ok(Some(ExitReason::TakeProfit)) => match position.take_profit {
            Some(tp_price) => Ok(
                Some(
                    ExitInfo {
                        exit_price: tp_price,
                        exit_time: bar.timestamp,
                        exit_reason: ExitReason::TakeProfit,
                        hit_tp_sl: HitTpSl::TakeProfit,
                    },
                ),
            ),
            None => {
                proof {
                    lemma_choice_is_fired(position@, *bar, *policy, tape@);
                }
                Ok(None)
            },
        },
        Ok(Some(ExitReason::StopLoss)) => match position.stop_loss {
            Some(sl_price) => Ok(
                Some(
                    ExitInfo {
                        exit_price: sl_price,
                        exit_time: bar.timestamp,
                        exit_reason: ExitReason::StopLoss,
                        hit_tp_sl: HitTpSl::StopLoss,
                    },
                ),
            ),
            None => {
                proof {
                    lemma_choice_is_fired(position@, *bar, *policy, tape@);
                }
                Ok(None)
            },
        },
        Ok(Some(reason)) => Ok(
            Some(
                ExitInfo {
                    exit_price: bar.close,
                    exit_time: bar.timestamp,
                    exit_reason: reason,
                    hit_tp_sl: HitTpSl::Neither,
                },
            ),
        ),
    }
}

/// The steps rule only ever picks a condition that fires on the bar.
proof fn lemma_steps_choice_is_fired(p: PositionView, bar: Bar, k: int)
    ensures
        choice_by_steps(p, bar, k) == Ok::<Option<ExitReason>, EngineError>(
            Some(ExitReason::TakeProfit),
        ) ==> take_profit_touched(p, bar.high@, bar.low@),
        choice_by_steps(p, bar, k) == Ok::<Option<ExitReason>, EngineError>(
            Some(ExitReason::StopLoss),
        ) ==> stop_loss_touched(p, bar.high@, bar.low@),
        choice_by_steps(p, bar, k) == Ok::<Option<ExitReason>, EngineError>(
            Some(ExitReason::Timeout),
        ) ==> timeout_fires(p, bar.timestamp as int),
        choice_by_steps(p, bar, k) matches Ok(Some(c)) ==> c == ExitReason::TakeProfit || c
            == ExitReason::StopLoss || c == ExitReason::Timeout,
    decreases 60 - k,
{
    if k < 60 {
        lemma_steps_choice_is_fired(p, bar, k + 1);
    }
}

/// The tape rule only ever picks a condition that fires on the bar.
proof fn lemma_tape_choice_is_fired(p: PositionView, bar: Bar, tape: Seq<Trade>, i: int)
    ensures
        choice_by_tape(p, bar, tape, i) == Ok::<Option<ExitReason>, EngineError>(
            Some(ExitReason::TakeProfit),
        ) ==> take_profit_touched(p, bar.high@, bar.low@),
        choice_by_tape(p, bar, tape, i) == Ok::<Option<ExitReason>, EngineError>(
            Some(ExitReason::StopLoss),
        ) ==> stop_loss_touched(p, bar.high@, bar.low@),
        choice_by_tape(p, bar, tape, i) == Ok::<Option<ExitReason>, EngineError>(
            Some(ExitReason::Timeout),
        ) ==> timeout_fires(p, bar.timestamp as int),
        choice_by_tape(p, bar, tape, i) matches Ok(Some(c)) ==> c == ExitReason::TakeProfit || c
            == ExitReason::StopLoss || c == ExitReason::Timeout,
    decreases tape.len() - i,
{
    if i < 0 || i >= tape.len() {
        lemma_steps_choice_is_fired(p, bar, 0);
    } else {
        lemma_tape_choice_is_fired(p, bar, tape, i + 1);
    }
}

/// Whatever the policy, the exit chosen is one of the three conditions and
/// that condition fires on the bar.
pub proof fn lemma_choice_is_fired(p: PositionView, bar: Bar, policy: IntrabarPolicy, tape: Seq<Trade>)
    ensures
        exit_choice(p, bar, policy, tape) == Ok::<Option<ExitReason>, EngineError>(
            Some(ExitReason::TakeProfit),
        ) ==> take_profit_touched(p, bar.high@, bar.low@),
        exit_choice(p, bar, policy, tape) == Ok::<Option<ExitReason>, EngineError>(
            Some(ExitReason::StopLoss),
        ) ==> stop_loss_touched(p, bar.high@, bar.low@),
        exit_choice(p, bar, policy, tape) == Ok::<Option<ExitReason>, EngineError>(
            Some(ExitReason::Timeout),
        ) ==> timeout_fires(p, bar.timestamp as int),
        exit_choice(p, bar, policy, tape) matches Ok(Some(c)) ==> c == ExitReason::TakeProfit || c
            == ExitReason::StopLoss || c == ExitReason::Timeout,
        exit_choice(p, bar, policy, tape) == Ok::<Option<ExitReason>, EngineError>(None)
            ==> fired_count(p, bar) == 0,
{
    lemma_steps_choice_is_fired(p, bar, 0);
    lemma_tape_choice_is_fired(p, bar, tape, 0);
    lemma_none_means_nothing_fired_steps(p, bar, 0);
    lemma_none_means_nothing_fired_tape(p, bar, tape, 0);
}

proof fn lemma_none_means_nothing_fired_steps(p: PositionView, bar: Bar, k: int)
    ensures
        choice_by_steps(p, bar, k) == Ok::<Option<ExitReason>, EngineError>(None) ==> fired_count(
            p,
            bar,
        ) == 0,
    decreases 60 - k,
{
    if k < 60 {
        lemma_none_means_nothing_fired_steps(p, bar, k + 1);
    }
}

proof fn lemma_none_means_nothing_fired_tape(p: PositionView, bar: Bar, tape: Seq<Trade>, i: int)
    ensures
        choice_by_tape(p, bar, tape, i) == Ok::<Option<ExitReason>, EngineError>(None)
            ==> fired_count(p, bar) == 0,
    decreases tape.len() - i,
{
    if i < 0 || i >= tape.len() {
        lemma_none_means_nothing_fired_steps(p, bar, 0);
    } else {
        lemma_none_means_nothing_fired_tape(p, bar, tape, i + 1);
    }
}


/// The part of `text` before the first occurrence of `stop`; all of it if
/// `stop` does not occur.
pub open spec fn prefix_before(text: Seq<char>, stop: char) -> Seq<char>
    decreases text.len(),
{
    if text.len() == 0 || text[0] == stop {
        Seq::empty()
    } else {
        seq![text[0]] + prefix_before(text.subrange(1, text.len() as int), stop)
    }
}

/// The prefix before `stop` ends at the first `stop`, or at the end.
pub proof fn lemma_prefix_before(text: Seq<char>, stop: char, n: int)
    requires
        0 <= n <= text.len(),
        forall|j: int| 0 <= j < n ==> text[j] != stop,
        n == text.len() || text[n] == stop,
    ensures
        prefix_before(text, stop) == text.subrange(0, n),
    decreases text.len(),
{
    if n == 0 {
        assert(text.subrange(0, 0) =~= Seq::<char>::empty());
    } else {
        let rest = text.subrange(1, text.len() as int);
        assert forall|j: int| 0 <= j < n - 1 implies rest[j] != stop by {
            assert(rest[j] == text[j + 1]);
        }
        lemma_prefix_before(rest, stop, n - 1);
        assert(seq![text[0]] + rest.subrange(0, n - 1) =~= text.subrange(0, n));
    }
}

/// The calendar date of an ISO-8601 text: what stands before its `T`.
pub fn date_of(iso: &str) -> (r: String)
    ensures
        r@ == prefix_before(iso@, 'T'),
        plain(iso@) ==> plain(r@),
{
    let n = iso.unicode_len();
    let mut i: usize = 0;
    while i < n && iso.get_char(i) != 'T'
        invariant
            i <= n,
            n == iso@.len(),
            forall|j: int| 0 <= j < i ==> iso@[j] != 'T',
        decreases n - i,
    {
        i = i + 1;
    }
    proof {
        reveal(plain);
        lemma_prefix_before(iso@, 'T', i as int);
        let part = iso@.subrange(0, i as int);
        if plain(iso@) {
            assert forall|j: int| 0 <= j < part.len() implies (#[trigger] part[j]) != ',' && part[j]
                != '\n' by {
                assert(part[j] == iso@[j]);
            }
        }
    }
    String::from_str(iso.substring_char(0, i))
}

/// A bar that keeps the invariants of its kind and follows the bar before it.
pub open spec fn bar_valid(last: Option<u64>, bar: Bar) -> bool {
    &&& bar.low@.le(bar.open@)
    &&& bar.open@.le(bar.high@)
    &&& bar.low@.le(bar.close@)
    &&& bar.close@.le(bar.high@)
    &&& bar.low@.le(bar.high@)
    &&& dec(0, 0).le(bar.volume@)
    &&& (last is Some ==> last->0 < bar.timestamp)
    &&& utc_text(bar.timestamp) is Some
}

/// Whether `bar` may follow a bar stamped `last`.
pub fn bar_is_valid(last: Option<u64>, bar: &Bar) -> (r: bool)
    ensures
        r == bar_valid(last, *bar),
{
    let ordered = bar.low.le(&bar.open) && bar.open.le(&bar.high) && bar.low.le(&bar.close)
        && bar.close.le(&bar.high) && bar.low.le(&bar.high) && Money::zero().le(&bar.volume);
    let fresh = match last {
        Some(t) => t < bar.timestamp,
        None => true,
    };
    ordered && fresh && utc_string(bar.timestamp).is_some()
}

/// Whether some position is open on `symbol`.
pub open spec fn has_position(positions: Seq<PositionView>, symbol: Seq<char>) -> bool {
    exists|i: int| 0 <= i < positions.len() && (#[trigger] positions[i]).symbol == symbol
}

/// No two open positions share a symbol.
pub open spec fn symbols_distinct(positions: Seq<PositionView>) -> bool {
    forall|i: int, j: int|
        0 <= i < j < positions.len() ==> (#[trigger] positions[i]).symbol != (
        #[trigger] positions[j]).symbol
}

/// The state of a generator as a value.
pub struct GeneratorView {
    pub default_size_usd: Dec,
    pub starting_equity: Dec,
    pub positions: Seq<PositionView>,
    pub records: Seq<TradeRecordView>,
    pub rejected: Seq<RejectedTradeView>,
    pub current_equity: Dec,
    pub peak_equity: Dec,
    pub max_drawdown: Dec,
    pub last_timestamp: Option<u64>,
}

/// The direction a side opens.
pub open spec fn direction_of(side: TradeSide) -> TradeType {
    match side {
        TradeSide::Buy => TradeType::Long,
        TradeSide::Sell => TradeType::Short,
    }
}

/// The size of an entry in USD: the signal's own, and the configured
/// default where the signal carries none.
pub open spec fn entry_size_spec(default_size_usd: Dec, signal: StrategySignal) -> Dec {
    match signal.size {
        Some(size) => size@,
        None => default_size_usd,
    }
}

/// The position a signal opens on a bar: the quantity bought for `size` at
/// the close, the execution price of its side, and the entry fee on both.
pub open spec fn opened_position(
    size: Dec,
    bar: Bar,
    signal: StrategySignal,
    policy: IntrabarPolicy,
    slippage: SlippageMode,
    rules: ExchangeRules,
) -> Option<PositionView> {
    let quantity = entry_quantity_spec(size, bar, rules);
    let price = execution_price_spec(
        base_price_spec(bar, option_money_view(signal.entry_price), policy),
        signal.side,
        slippage,
        rules,
    );
    if quantity is Some && price is Some {
        match fee_spec(quantity->0, price->0, rules) {
            Some(fee) => Some(
                PositionView {
                    symbol: signal.symbol@,
                    trade_type: direction_of(signal.side),
                    entry_time: bar.timestamp,
                    entry_price: price->0,
                    quantity: quantity->0,
                    take_profit: option_money_view(signal.take_profit),
                    stop_loss: option_money_view(signal.stop_loss),
                    time_to_live: signal.time_to_live,
                    entry_fee: fee,
                    size_usd: size,
                },
            ),
            None => None,
        }
    } else {
        None
    }
}

/// The reason written on an entry refused for its notional.
pub open spec fn notional_reason() -> Seq<char> {
    "NotionalMin"@
}

/// What one signal does to the generator.  A symbol that is open ignores
/// it.  Otherwise the entry, at the size of the signal, is refused when its
/// notional is below the minimum, and opened if not.
#[verifier::opaque]
pub open spec fn admit_spec(
    g: GeneratorView,
    bar: Bar,
    signal: StrategySignal,
    policy: IntrabarPolicy,
    slippage: SlippageMode,
    rules: ExchangeRules,
) -> Result<GeneratorView, EngineError> {
    if has_position(g.positions, signal.symbol@) {
        Ok(g)
    } else {
        match entry_notional_spec(entry_size_spec(g.default_size_usd, signal), bar, rules) {
            None => Err(EngineError::Arithmetic),
            Some(notional) => if notional.lt(rules.min_notional@) {
                Ok(
                    GeneratorView {
                        rejected: g.rejected.push(
                            RejectedTradeView {
                                timestamp: bar.timestamp,
                                symbol: signal.symbol@,
                                side: signal.side,
                                reason: notional_reason(),
                                notional,
                            },
                        ),
                        ..g
                    },
                )
            } else {
                match opened_position(
                    entry_size_spec(g.default_size_usd, signal),
                    bar,
                    signal,
                    policy,
                    slippage,
                    rules,
                ) {
                    Some(p) => Ok(GeneratorView { positions: g.positions.push(p), ..g }),
                    None => Err(EngineError::Arithmetic),
                }
            },
        }
    }
}

/// What the signals of one bar do, taken in their order.
pub open spec fn admit_all_spec(
    g: GeneratorView,
    bar: Bar,
    signals: Seq<StrategySignal>,
    policy: IntrabarPolicy,
    slippage: SlippageMode,
    rules: ExchangeRules,
) -> Result<GeneratorView, EngineError>
    decreases signals.len(),
{
    if signals.len() == 0 {
        Ok(g)
    } else {
        match admit_all_spec(g, bar, signals.drop_last(), policy, slippage, rules) {
            Ok(g1) => admit_spec(g1, bar, signals.last(), policy, slippage, rules),
            Err(e) => Err(e),
        }
    }
}

/// Net profit of a closed position: the price move in its favour times the
/// quantity, less all fees.
pub open spec fn pnl_spec(
    direction: TradeType,
    entry: Dec,
    exit: Dec,
    quantity: Dec,
    fees: Option<Dec>,
) -> Option<Dec> {
    sub_opt(
        mul_opt(
            match direction {
                TradeType::Long => sub_spec(exit, entry),
                TradeType::Short => sub_spec(entry, exit),
            },
            Some(quantity),
        ),
        fees,
    )
}

/// Entry fee plus the fee of the exit.
pub open spec fn total_fees_spec(p: PositionView, x: ExitView, rules: ExchangeRules) -> Option<Dec> {
    add_opt(Some(p.entry_fee), fee_spec(p.quantity, x.exit_price, rules))
}

/// Whether the texts of a record hold neither comma nor line feed and its
/// amounts are representable.
pub open spec fn well_written(r: TradeRecordView) -> bool {
    &&& plain(r.date)
    &&& plain(r.entry_time_utc)
    &&& plain(r.exit_time_utc)
    &&& r.entry_price.wf()
    &&& r.exit_price.wf()
    &&& r.size_usd.wf()
    &&& r.qty.wf()
    &&& r.fees_usd.wf()
    &&& r.pnl_usd.wf()
    &&& r.pnl_pct.wf()
}

/// Whether every record of a ledger is well written.
pub open spec fn all_well_written(records: Seq<TradeRecordView>) -> bool {
    forall|i: int| 0 <= i < records.len() ==> well_written(#[trigger] records[i])
}

/// The record a position leaves when it exits.
pub open spec fn closed_record_spec(p: PositionView, x: ExitView, rules: ExchangeRules) -> Result<
    TradeRecordView,
    EngineError,
> {
    let fees = total_fees_spec(p, x, rules);
    let pnl = pnl_spec(p.trade_type, p.entry_price, x.exit_price, p.quantity, fees);
    let pct = div_opt(pnl, Some(p.size_usd));
    if pct is None {
        Err(EngineError::Arithmetic)
    } else if utc_text(p.entry_time) is None || utc_text(x.exit_time) is None {
        Err(EngineError::InvalidBar)
    } else {
        Ok(
            TradeRecordView {
                date: prefix_before(utc_text(x.exit_time)->0, 'T'),
                trade_type: p.trade_type,
                entry_price: p.entry_price,
                entry_time_utc: utc_text(p.entry_time)->0,
                exit_price: x.exit_price,
                exit_time_utc: utc_text(x.exit_time)->0,
                exit_reason: x.exit_reason,
                hit_tp_sl: x.hit_tp_sl,
                size_usd: p.size_usd,
                qty: p.quantity,
                fees_usd: fees->0,
                pnl_usd: pnl->0,
                pnl_pct: pct->0,
                symbol: p.symbol,
                entry_time_ms: p.entry_time,
                exit_time_ms: x.exit_time,
            },
        )
    }
}

/// What a bar does to the open positions, taken in their order: those
/// that stay, and the records of those that leave.
pub open spec fn close_all_spec(
    positions: Seq<PositionView>,
    bar: Bar,
    policy: IntrabarPolicy,
    tape: Seq<Trade>,
    rules: ExchangeRules,
) -> Result<(Seq<PositionView>, Seq<TradeRecordView>), EngineError>
    decreases positions.len(),
{
    if positions.len() == 0 {
        Ok((Seq::empty(), Seq::empty()))
    } else {
        match close_all_spec(positions.drop_last(), bar, policy, tape, rules) {
            Err(e) => Err(e),
            Ok((staying, closed)) => match exit_spec(positions.last(), bar, policy, tape) {
                Err(e) => Err(e),
                Ok(None) => Ok((staying.push(positions.last()), closed)),
                Ok(Some(x)) => match closed_record_spec(positions.last(), x, rules) {
                    Err(e) => Err(e),
                    Ok(record) => Ok((staying, closed.push(record))),
                },
            },
        }
    }
}

/// The relative decline from `peak` to `equity`; zero for a zero peak.
pub open spec fn drawdown_spec(peak: Dec, equity: Dec) -> Option<Dec> {
    if peak.is_zero() {
        Some(dec(0, 0))
    } else {
        div_opt(sub_spec(peak, equity), Some(peak))
    }
}

/// Equity, peak and maximum drawdown brought up to date with the ledger.
/// Equity is the starting equity plus all realized profit; open positions
/// do not count.
pub open spec fn settle_spec(g: GeneratorView) -> Result<GeneratorView, EngineError> {
    match add_opt(Some(g.starting_equity), net_total(g.records)) {
        None => Err(EngineError::Arithmetic),
        Some(equity) => {
            let peak = if g.peak_equity.lt(equity) { equity } else { g.peak_equity };
            match drawdown_spec(peak, equity) {
                None => Err(EngineError::Arithmetic),
                Some(drawdown) => Ok(
                    GeneratorView {
                        current_equity: equity,
                        peak_equity: peak,
                        max_drawdown: if g.max_drawdown.lt(drawdown) {
                            drawdown
                        } else {
                            g.max_drawdown
                        },
                        ..g
                    },
                ),
            }
        },
    }
}

/// One bar: validation, then entries, then exits, then equity.
pub open spec fn process_bar_spec(
    g: GeneratorView,
    bar: Bar,
    signals: Seq<StrategySignal>,
    policy: IntrabarPolicy,
    slippage: SlippageMode,
    rules: ExchangeRules,
    tape: Seq<Trade>,
) -> Result<GeneratorView, EngineError> {
    if !bar_valid(g.last_timestamp, bar) {
        Err(EngineError::InvalidBar)
    } else {
        match admit_all_spec(g, bar, signals, policy, slippage, rules) {
            Err(e) => Err(e),
            Ok(g1) => match close_all_spec(g1.positions, bar, policy, tape, rules) {
                Err(e) => Err(e),
                Ok((staying, closed)) => settle_spec(
                    GeneratorView {
                        positions: staying,
                        records: g1.records + closed,
                        last_timestamp: Some(bar.timestamp),
                        ..g1
                    },
                ),
            },
        }
    }
}


/// A generator whose positions and refused entries have grown by what
/// the current bar has admitted so far.
pub open spec fn staged(
    g: GeneratorView,
    opened: Seq<PositionView>,
    refused: Seq<RejectedTradeView>,
) -> GeneratorView {
    GeneratorView { positions: g.positions + opened, rejected: g.rejected + refused, ..g }
}

/// What a signal came to.
#[derive(Debug)]
pub enum Admission {
    /// The symbol already has a position.
    Ignored,
    /// The entry is below the minimum notional.
    Refused(RejectedTrade),
    /// The entry was accepted.
    Opened(ActivePosition),
}

/// The generator after an admission.
pub open spec fn admitted(g: GeneratorView, a: Admission) -> GeneratorView {
    match a {
        Admission::Ignored => g,
        Admission::Refused(x) => GeneratorView { rejected: g.rejected.push(x@), ..g },
        Admission::Opened(p) => GeneratorView { positions: g.positions.push(p@), ..g },
    }
}

pub open spec fn record_result_view(r: Result<TradeRecord, EngineError>) -> Result<
    TradeRecordView,
    EngineError,
> {
    match r {
        Ok(v) => Ok(v@),
        Err(e) => Err(e),
    }
}

proof fn lemma_has_position_split(a: Seq<PositionView>, b: Seq<PositionView>, symbol: Seq<char>)
    ensures
        has_position(a + b, symbol) == (has_position(a, symbol) || has_position(b, symbol)),
{
    if has_position(a + b, symbol) {
        let i = choose|i: int| 0 <= i < (a + b).len() && (#[trigger] (a + b)[i]).symbol == symbol;
        if i < a.len() {
            assert(a[i].symbol == symbol);
        } else {
            assert(b[i - a.len()].symbol == symbol);
        }
    }
    if has_position(a, symbol) {
        let i = choose|i: int| 0 <= i < a.len() && (#[trigger] a[i]).symbol == symbol;
        assert((a + b)[i].symbol == symbol);
    }
    if has_position(b, symbol) {
        let i = choose|i: int| 0 <= i < b.len() && (#[trigger] b[i]).symbol == symbol;
        assert((a + b)[i + a.len()].symbol == symbol);
    }
}

proof fn lemma_admit_error_stays(
    g: GeneratorView,
    bar: Bar,
    signals: Seq<StrategySignal>,
    policy: IntrabarPolicy,
    slippage: SlippageMode,
    rules: ExchangeRules,
    n: int,
)
    requires
        0 <= n <= signals.len(),
        admit_all_spec(g, bar, signals.take(n), policy, slippage, rules) is Err,
    ensures
        admit_all_spec(g, bar, signals, policy, slippage, rules) == admit_all_spec(
            g,
            bar,
            signals.take(n),
            policy,
            slippage,
            rules,
        ),
    decreases signals.len(),
{
    if n == signals.len() {
        assert(signals.take(n) =~= signals);
    } else {
        assert(signals.drop_last().take(n) =~= signals.take(n));
        lemma_admit_error_stays(g, bar, signals.drop_last(), policy, slippage, rules, n);
    }
}

/// The signals up to and with signal `i` do what signal `i` does to what
/// the signals before it did.
proof fn lemma_admit_next(
    g: GeneratorView,
    bar: Bar,
    signals: Seq<StrategySignal>,
    policy: IntrabarPolicy,
    slippage: SlippageMode,
    rules: ExchangeRules,
    i: int,
    now: GeneratorView,
)
    requires
        0 <= i < signals.len(),
        admit_all_spec(g, bar, signals.take(i), policy, slippage, rules) == Ok::<
            GeneratorView,
            EngineError,
        >(now),
    ensures
        admit_all_spec(g, bar, signals.take(i + 1), policy, slippage, rules) == admit_spec(
            now,
            bar,
            signals[i],
            policy,
            slippage,
            rules,
        ),
{
    assert(signals.take(i + 1).drop_last() =~= signals.take(i));
    assert(signals.take(i + 1).last() == signals[i]);
}

/// One more opened position, seen from the state staged so far.
proof fn lemma_staged_opened(
    g: GeneratorView,
    opened: Seq<PositionView>,
    refused: Seq<RejectedTradeView>,
    p: PositionView,
)
    ensures
        staged(g, opened.push(p), refused) == (GeneratorView {
            positions: staged(g, opened, refused).positions.push(p),
            ..staged(g, opened, refused)
        }),
{
    assert(g.positions + opened.push(p) =~= (g.positions + opened).push(p));
}

/// One more refused entry, seen from the state staged so far.
proof fn lemma_staged_refused(
    g: GeneratorView,
    opened: Seq<PositionView>,
    refused: Seq<RejectedTradeView>,
    x: RejectedTradeView,
)
    ensures
        staged(g, opened, refused.push(x)) == (GeneratorView {
            rejected: staged(g, opened, refused).rejected.push(x),
            ..staged(g, opened, refused)
        }),
{
    assert(g.rejected + refused.push(x) =~= (g.rejected + refused).push(x));
}

proof fn lemma_close_error_stays(
    positions: Seq<PositionView>,
    bar: Bar,
    policy: IntrabarPolicy,
    tape: Seq<Trade>,
    rules: ExchangeRules,
    n: int,
)
    requires
        0 <= n <= positions.len(),
        close_all_spec(positions.take(n), bar, policy, tape, rules) is Err,
    ensures
        close_all_spec(positions, bar, policy, tape, rules) == close_all_spec(
            positions.take(n),
            bar,
            policy,
            tape,
            rules,
        ),
    decreases positions.len(),
{
    if n == positions.len() {
        assert(positions.take(n) =~= positions);
    } else {
        assert(positions.drop_last().take(n) =~= positions.take(n));
        lemma_close_error_stays(positions.drop_last(), bar, policy, tape, rules, n);
    }
}

fn holds_symbol(positions: &Vec<ActivePosition>, symbol: &String) -> (r: bool)
    ensures
        r == has_position(positions_view(positions@), symbol@),
{
    let mut i: usize = 0;
    while i < positions.len()
        invariant
            i <= positions.len(),
            forall|j: int| 0 <= j < i ==> (#[trigger] positions_view(positions@)[j]).symbol != symbol@,
        decreases positions.len() - i,
    {
        if positions[i].symbol == *symbol {
            assert(positions_view(positions@)[i as int].symbol == symbol@);
            return true;
        }
        i = i + 1;
    }
    false
}

/// Bookkeeping of closed trades for one symbol set: open positions, the
/// ledger, refused entries, equity, its peak and the deepest drawdown.
#[derive(Debug)]
pub struct TradeTableGenerator {
    default_size_usd: Money,
    starting_equity: Money,
    active_positions: Vec<ActivePosition>,
    trade_records: Vec<TradeRecord>,
    rejected_trades: Vec<RejectedTrade>,
    realized_pnl: Money,
    current_equity: Money,
    peak_equity: Money,
    max_drawdown: Money,
    last_timestamp: Option<u64>,
}

impl View for TradeTableGenerator {
    type V = GeneratorView;

    closed spec fn view(&self) -> GeneratorView {
        GeneratorView {
            default_size_usd: self.default_size_usd@,
            starting_equity: self.starting_equity@,
            positions: positions_view(self.active_positions@),
            records: records_view(self.trade_records@),
            rejected: rejected_view(self.rejected_trades@),
            current_equity: self.current_equity@,
            peak_equity: self.peak_equity@,
            max_drawdown: self.max_drawdown@,
            last_timestamp: self.last_timestamp,
        }
    }
}

/// A generator that has seen no bar: nothing open, nothing recorded, equity
/// and peak at the starting equity plus no profit, no drawdown.
pub open spec fn fresh_generator(starting_equity: Dec, default_size_usd: Dec) -> GeneratorView {
    GeneratorView {
        default_size_usd,
        starting_equity,
        positions: Seq::empty(),
        records: Seq::empty(),
        rejected: Seq::empty(),
        current_equity: exact_sum(starting_equity, dec(0, 0)),
        peak_equity: exact_sum(starting_equity, dec(0, 0)),
        max_drawdown: dec(0, 1),
        last_timestamp: None,
    }
}

impl TradeTableGenerator {
    /// The running total of realized profit agrees with the ledger, and
    /// every record of the ledger is well written.
    pub closed spec fn totals_agree(&self) -> bool {
        &&& Some(self.realized_pnl@) == net_total(records_view(self.trade_records@))
        &&& all_well_written(records_view(self.trade_records@))
    }

    /// Every record of the ledger is well written.
    pub proof fn lemma_ledger_is_well_written(&self)
        requires
            self.wf(),
        ensures
            all_well_written(self@.records),
    {
    }

    /// The generator is in a state that bars can lead to.
    pub open spec fn wf(&self) -> bool {
        self.totals_agree() && consistent(self@)
    }

    /// A generator with 10 000 of starting equity that sizes entries at
    /// 1 000 where their signal carries no size.
    pub fn new() -> (r: Self)
        ensures
            r.wf(),
            r@ == fresh_generator(dec(100000, 1), dec(10000, 1)),
            r@.current_equity == dec(100000, 1),
            r@.peak_equity == dec(100000, 1),
    {
        Self::with_settings(Money::new(100000, 1), Money::new(10000, 1))
    }

    /// A generator with the given starting equity and entry size.
    pub fn with_settings(starting_equity: Money, default_size_usd: Money) -> (r: Self)
        ensures
            r.wf(),
            r@ == fresh_generator(starting_equity@, default_size_usd@),
    {
        let equity = if starting_equity.is_zero() {
            Money::zero()
        } else {
            starting_equity
        };
        let r = TradeTableGenerator {
            default_size_usd,
            starting_equity,
            active_positions: Vec::new(),
            trade_records: Vec::new(),
            rejected_trades: Vec::new(),
            realized_pnl: Money::zero(),
            current_equity: equity,
            peak_equity: equity,
            max_drawdown: Money::new(0, 1),
            last_timestamp: None,
        };
        proof {
            use_type_invariant(&starting_equity);
            assert(r@.positions =~= Seq::empty());
            assert(r@.records =~= Seq::empty());
            assert(r@.rejected =~= Seq::empty());
            lemma_fresh_is_consistent(starting_equity@, default_size_usd@);
        }
        r
    }

    pub fn default_size_usd(&self) -> (r: Money)
        ensures
            r@ == self@.default_size_usd,
    {
        self.default_size_usd
    }

    pub fn starting_equity(&self) -> (r: Money)
        ensures
            r@ == self@.starting_equity,
    {
        self.starting_equity
    }

    pub fn current_equity(&self) -> (r: Money)
        ensures
            r@ == self@.current_equity,
    {
        self.current_equity
    }

    pub fn peak_equity(&self) -> (r: Money)
        ensures
            r@ == self@.peak_equity,
    {
        self.peak_equity
    }

    pub fn max_drawdown(&self) -> (r: Money)
        ensures
            r@ == self@.max_drawdown,
    {
        self.max_drawdown
    }

    pub fn active_positions(&self) -> (r: &Vec<ActivePosition>)
        ensures
            positions_view(r@) == self@.positions,
    {
        &self.active_positions
    }

    pub fn trade_records(&self) -> (r: &Vec<TradeRecord>)
        ensures
            records_view(r@) == self@.records,
    {
        &self.trade_records
    }

    pub fn rejected_trades(&self) -> (r: &Vec<RejectedTrade>)
        ensures
            rejected_view(r@) == self@.rejected,
    {
        &self.rejected_trades
    }

    /// The size of the entry `signal` asks for: its own, and the configured
    /// default where it carries none.
    pub fn entry_size(&self, signal: &StrategySignal) -> (r: Money)
        ensures
            r@ == entry_size_spec(self@.default_size_usd, *signal),
    {
        match signal.size {
            Some(size) => size,
            None => self.default_size_usd,
        }
    }

    /// The ISO-8601 UTC text of a timestamp, if it has a calendar date.
    pub fn timestamp_to_iso_utc(&self, timestamp: u64) -> (r: Option<String>)
        ensures
            option_string_view(r) == utc_text(timestamp),
    {
        utc_string(timestamp)
    }

    /// The quantity quantized to the lot size.
    pub fn apply_symbol_filters(&self, quantity: Money, rules: &ExchangeRules) -> (r: Result<
        Money,
        EngineError,
    >)
        ensures
            money_result_view(r) == arith(quantize_spec(Some(quantity@), rules.lot_size@)),
    {
        or_arithmetic(quantize(Some(quantity), &rules.lot_size))
    }

    /// The price moved against the trader by the slippage of `slippage_mode`,
    /// quantized to the tick.
    pub fn apply_slippage(
        &self,
        base_price: Money,
        side: &TradeSide,
        slippage_mode: &SlippageMode,
        rules: &ExchangeRules,
    ) -> (r: Result<Money, EngineError>)
        ensures
            money_result_view(r) == arith(
                execution_price_spec(base_price@, *side, *slippage_mode, *rules),
            ),
    {
        let slippage = match slippage_mode {
            SlippageMode::Off => Some(Money::new(0, 1)),
            SlippageMode::TradeSweep => base_price.checked_mul(&Money::new(1, 4)),
            SlippageMode::SyntheticBook => base_price.checked_mul(&Money::new(5, 4)),
        };
        let moved = match side {
            TradeSide::Buy => opt_add(Some(base_price), slippage),
            TradeSide::Sell => opt_sub(Some(base_price), slippage),
        };
        or_arithmetic(quantize(moved, &rules.tick_size))
    }

    /// The execution price of an entry on `bar`: the base price of the
    /// policy, `wanted` being the price the signal asks for, with slippage.
    pub fn calculate_entry_price(
        &self,
        bar: &Bar,
        wanted: Option<Money>,
        side: &TradeSide,
        intrabar_policy: &IntrabarPolicy,
        slippage_mode: &SlippageMode,
        rules: &ExchangeRules,
    ) -> (r: Result<Money, EngineError>)
        ensures
            money_result_view(r) == arith(
                execution_price_spec(
                    base_price_spec(*bar, option_money_view(wanted), *intrabar_policy),
                    *side,
                    *slippage_mode,
                    *rules,
                ),
            ),
    {
        let base_price = match intrabar_policy {
            IntrabarPolicy::ExactTrades => match wanted {
                Some(p) => p,
                None => bar.close,
            },
            _ => bar.open,
        };
        self.apply_slippage(base_price, side, slippage_mode, rules)
    }

    /// The taker fee on `quantity * price`, rounded to the price precision.
    pub fn calculate_fee(&self, quantity: Money, price: Money, rules: &ExchangeRules) -> (r: Result<
        Money,
        EngineError,
    >)
        ensures
            money_result_view(r) == arith(fee_spec(quantity@, price@, *rules)),
    {
        or_arithmetic(fee_of(quantity, price, rules))
    }
}

/// An amount rounded half-even to `precision` decimals.
pub fn round_fee(raw: Option<Money>, precision: u8) -> (r: Option<Money>)
    ensures
        option_money_view(r) == fee_rounding_spec(option_money_view(raw), precision),
{
    let unit = Money::power_of_ten(precision);
    if unit.is_none() {
        return None;
    }
    opt_div(opt_round(opt_mul(raw, unit)), unit)
}

/// The taker fee on `quantity * price`, rounded to the price precision.
pub fn fee_of(quantity: Money, price: Money, rules: &ExchangeRules) -> (r: Option<Money>)
    ensures
        option_money_view(r) == fee_spec(quantity@, price@, *rules),
{
    round_fee(opt_mul(quantity.checked_mul(&price), Some(rules.taker_fee)), rules.precision_price)
}

/// The relative decline from `peak` to `equity`; zero for a zero peak.
pub fn drawdown(peak: &Money, equity: &Money) -> (r: Option<Money>)
    ensures
        option_money_view(r) == drawdown_spec(peak@, equity@),
{
    if peak.is_zero() {
        Some(Money::zero())
    } else {
        opt_div(peak.checked_sub(equity), Some(*peak))
    }
}

fn type_of(side: &TradeSide) -> (r: TradeType)
    ensures
        r == direction_of(*side),
{
    match side {
        TradeSide::Buy => TradeType::Long,
        TradeSide::Sell => TradeType::Short,
    }
}


impl TradeTableGenerator {
    /// What `signal` comes to on `bar`, given the positions opened earlier on
    /// the same bar.
    fn admit_one(
        &self,
        bar: &Bar,
        signal: &StrategySignal,
        intrabar_policy: &IntrabarPolicy,
        slippage_mode: &SlippageMode,
        rules: &ExchangeRules,
        opened: &Vec<ActivePosition>,
        Ghost(refused): Ghost<Seq<RejectedTradeView>>,
    ) -> (r: Result<Admission, EngineError>)
        ensures
            match admit_spec(
                staged(self@, positions_view(opened@), refused),
                *bar,
                *signal,
                *intrabar_policy,
                *slippage_mode,
                *rules,
            ) {
                Ok(g) => r is Ok && g == admitted(
                    staged(self@, positions_view(opened@), refused),
                    r->Ok_0,
                ),
                Err(e) => r == Err::<Admission, EngineError>(e),
            },
    {
        proof {
            reveal(admit_spec);
            lemma_has_position_split(self@.positions, positions_view(opened@), signal.symbol@);
        }
        if holds_symbol(&self.active_positions, &signal.symbol) || holds_symbol(
            opened,
            &signal.symbol,
        ) {
            return Ok(Admission::Ignored);
        }
        let size_usd = self.entry_size(signal);
        let raw_quantity = opt_div(Some(size_usd), Some(bar.close));
        let quantity = quantize(raw_quantity, &rules.lot_size);
        let final_notional = match opt_mul(quantity, Some(bar.close)) {
            Some(n) => n,
            None => {
                return Err(EngineError::Arithmetic);
            },
        };
        if final_notional.lt(&rules.min_notional) {
            return Ok(
                Admission::Refused(
                    RejectedTrade {
                        timestamp: bar.timestamp,
                        symbol: signal.symbol.clone(),
                        side: signal.side,
                        reason: "NotionalMin".to_string(),
                        notional: final_notional,
                    },
                ),
            );
        }
        let entry_price = match self.calculate_entry_price(
            bar,
            signal.entry_price,
            &signal.side,
            intrabar_policy,
            slippage_mode,
            rules,
        ) {
            Ok(p) => p,
            Err(e) => {
                return Err(EngineError::Arithmetic);
            },
        };
        let quantity = match quantity {
            Some(q) => q,
            None => {
                return Err(EngineError::Arithmetic);
            },
        };
        let entry_fee = match fee_of(quantity, entry_price, rules) {
            Some(f) => f,
            None => {
                return Err(EngineError::Arithmetic);
            },
        };
        Ok(
            Admission::Opened(
                ActivePosition {
                    symbol: signal.symbol.clone(),
                    trade_type: type_of(&signal.side),
                    entry_time: bar.timestamp,
                    entry_price,
                    quantity,
                    take_profit: signal.take_profit,
                    stop_loss: signal.stop_loss,
                    time_to_live: signal.time_to_live,
                    entry_fee,
                    size_usd,
                },
            ),
        )
    }

    /// Entry admission for one bar: the positions the signals open and the
    /// entries they are refused, in signal order.
    fn process_entry_signals(
        &self,
        bar: &Bar,
        signals: &[StrategySignal],
        intrabar_policy: &IntrabarPolicy,
        slippage_mode: &SlippageMode,
        rules: &ExchangeRules,
    ) -> (r: Result<(Vec<ActivePosition>, Vec<RejectedTrade>), EngineError>)
        ensures
            match admit_all_spec(
                self@,
                *bar,
                signals@,
                *intrabar_policy,
                *slippage_mode,
                *rules,
            ) {
                Ok(g) => r is Ok && g == staged(
                    self@,
                    positions_view(r->Ok_0.0@),
                    rejected_view(r->Ok_0.1@),
                ),
                Err(e) => r == Err::<(Vec<ActivePosition>, Vec<RejectedTrade>), EngineError>(e),
            },
    {
        let mut opened: Vec<ActivePosition> = Vec::new();
        let mut refused: Vec<RejectedTrade> = Vec::new();
        let mut i: usize = 0;
        proof {
            assert(signals@.take(0) =~= Seq::<StrategySignal>::empty());
            assert(self@.positions + positions_view(opened@) =~= self@.positions);
            assert(self@.rejected + rejected_view(refused@) =~= self@.rejected);
        }
        while i < signals.len()
            invariant
                i <= signals.len(),
                admit_all_spec(
                    self@,
                    *bar,
                    signals@.take(i as int),
                    *intrabar_policy,
                    *slippage_mode,
                    *rules,
                ) == Ok::<GeneratorView, EngineError>(
                    staged(self@, positions_view(opened@), rejected_view(refused@)),
                ),
            decreases signals.len() - i,
        {
            let ghost before_opened = positions_view(opened@);
            let ghost before_refused = rejected_view(refused@);
            let ghost now = staged(self@, before_opened, before_refused);
            match self.admit_one(
                bar,
                &signals[i],
                intrabar_policy,
                slippage_mode,
                rules,
                &opened,
                Ghost(rejected_view(refused@)),
            ) {
                Err(e) => {
                    proof {
                        lemma_admit_next(
                            self@,
                            *bar,
                            signals@,
                            *intrabar_policy,
                            *slippage_mode,
                            *rules,
                            i as int,
                            now,
                        );
                        lemma_admit_error_stays(
                            self@,
                            *bar,
                            signals@,
                            *intrabar_policy,
                            *slippage_mode,
                            *rules,
                            i as int + 1,
                        );
                    }
                    return Err(e);
                },
                Ok(Admission::Ignored) => {},
                Ok(Admission::Refused(x)) => {
                    refused.push(x);
                    proof {
                        lemma_staged_refused(self@, before_opened, before_refused, x@);
                        assert(rejected_view(refused@) =~= before_refused.push(x@));
                    }
                },
                Ok(Admission::Opened(p)) => {
                    opened.push(p);
                    proof {
                        lemma_staged_opened(self@, before_opened, before_refused, p@);
                        assert(positions_view(opened@) =~= before_opened.push(p@));
                    }
                },
            }
            proof {
                lemma_admit_next(
                    self@,
                    *bar,
                    signals@,
                    *intrabar_policy,
                    *slippage_mode,
                    *rules,
                    i as int,
                    now,
                );
            }
            i = i + 1;
        }
        proof {
            assert(signals@.take(i as int) =~= signals@);
        }
        Ok((opened, refused))
    }
}

/// The record `position` leaves when it exits by `exit`.
pub fn create_trade_record(position: &ActivePosition, exit: &ExitInfo, rules: &ExchangeRules) -> (r:
    Result<TradeRecord, EngineError>)
    ensures
        record_result_view(r) == closed_record_spec(position@, exit@, *rules),
        r matches Ok(record) ==> well_written(record@),
{
    let exit_fee = fee_of(position.quantity, exit.exit_price, rules);
    let total_fees = opt_add(Some(position.entry_fee), exit_fee);
    let gross = opt_mul(
        match position.trade_type {
            TradeType::Long => exit.exit_price.checked_sub(&position.entry_price),
            TradeType::Short => position.entry_price.checked_sub(&exit.exit_price),
        },
        Some(position.quantity),
    );
    let pnl_usd = opt_sub(gross, total_fees);
    let pnl_pct = opt_div(pnl_usd, Some(position.size_usd));
    match (total_fees, pnl_usd, pnl_pct) {
        (Some(fees), Some(pnl), Some(pct)) => {
            match (utc_string(position.entry_time), utc_string(exit.exit_time)) {
                (Some(entry_time_utc), Some(exit_time_utc)) => {
                    let date = date_of(exit_time_utc.as_str());
                    proof {
                        use_type_invariant(&position.entry_price);
                        use_type_invariant(&exit.exit_price);
                        use_type_invariant(&position.size_usd);
                        use_type_invariant(&position.quantity);
                        use_type_invariant(&fees);
                        use_type_invariant(&pnl);
                        use_type_invariant(&pct);
                    }
                    Ok(
                        TradeRecord {
                            date,
                            trade_type: position.trade_type,
                            entry_price: position.entry_price,
                            entry_time_utc,
                            exit_price: exit.exit_price,
                            exit_time_utc,
                            exit_reason: exit.exit_reason,
                            hit_tp_sl: exit.hit_tp_sl,
                            size_usd: position.size_usd,
                            qty: position.quantity,
                            fees_usd: fees,
                            pnl_usd: pnl,
                            pnl_pct: pct,
                            symbol: position.symbol.clone(),
                            entry_time_ms: position.entry_time,
                            exit_time_ms: exit.exit_time,
                        },
                    )
                },
                _ => Err(EngineError::InvalidBar),
            }
        },
        _ => Err(EngineError::Arithmetic),
    }
}

/// Exit evaluation for one bar over `positions`: those that stay and the
/// records of those that leave, both in position order.
pub fn process_exits(
    positions: &Vec<ActivePosition>,
    bar: &Bar,
    intrabar_policy: &IntrabarPolicy,
    tape: &[Trade],
    rules: &ExchangeRules,
) -> (r: Result<(Vec<ActivePosition>, Vec<TradeRecord>), EngineError>)
    ensures
        match close_all_spec(positions_view(positions@), *bar, *intrabar_policy, tape@, *rules) {
            Ok((staying, closed)) => r is Ok && positions_view(r->Ok_0.0@) == staying
                && records_view(r->Ok_0.1@) == closed,
            Err(e) => r == Err::<(Vec<ActivePosition>, Vec<TradeRecord>), EngineError>(e),
        },
        r matches Ok(pair) ==> all_well_written(records_view(pair.1@)),
{
    let mut staying: Vec<ActivePosition> = Vec::new();
    let mut closed: Vec<TradeRecord> = Vec::new();
    let ghost all = positions_view(positions@);
    let mut i: usize = 0;
    proof {
        assert(all.take(0) =~= Seq::<PositionView>::empty());
        assert(positions_view(staying@) =~= Seq::<PositionView>::empty());
        assert(records_view(closed@) =~= Seq::<TradeRecordView>::empty());
    }
    while i < positions.len()
        invariant
            i <= positions.len(),
            all == positions_view(positions@),
            close_all_spec(all.take(i as int), *bar, *intrabar_policy, tape@, *rules) == Ok::<
                (Seq<PositionView>, Seq<TradeRecordView>),
                EngineError,
            >((positions_view(staying@), records_view(closed@))),
            all_well_written(records_view(closed@)),
        decreases positions.len() - i,
    {
        proof {
            assert(all.take(i as int + 1).drop_last() =~= all.take(i as int));
            assert(all.take(i as int + 1).last() == positions@[i as int]@);
        }
        let ghost before_staying = positions_view(staying@);
        let ghost before_closed = records_view(closed@);
        match check_exit_conditions(bar, &positions[i], intrabar_policy, tape) {
            Err(e) => {
                proof {
                    lemma_close_error_stays(all, *bar, *intrabar_policy, tape@, *rules, i as int + 1);
                }
                return Err(e);
            },
            Ok(None) => {
                let kept = positions[i].clone();
                staying.push(kept);
                proof {
                    assert(positions_view(staying@) =~= before_staying.push(positions@[i as int]@));
                }
            },
            Ok(Some(exit)) => {
                match create_trade_record(&positions[i], &exit, rules) {
                    Err(e) => {
                        proof {
                            lemma_close_error_stays(
                                all,
                                *bar,
                                *intrabar_policy,
                                tape@,
                                *rules,
                                i as int + 1,
                            );
                        }
                        return Err(e);
                    },
                    Ok(record) => {
                        closed.push(record);
                        proof {
                            assert(records_view(closed@) =~= before_closed.push(record@));
                        }
                    },
                }
            },
        }
        i = i + 1;
    }
    proof {
        assert(all.take(i as int) =~= all);
    }
    Ok((staying, closed))
}


fn copy_positions(positions: &Vec<ActivePosition>) -> (r: Vec<ActivePosition>)
    ensures
        r@ == positions@,
{
    let mut out: Vec<ActivePosition> = Vec::new();
    let mut i: usize = 0;
    while i < positions.len()
        invariant
            i <= positions.len(),
            out@ == positions@.take(i as int),
        decreases positions.len() - i,
    {
        let p = positions[i].clone();
        out.push(p);
        proof {
            assert(out@ =~= positions@.take(i as int + 1));
        }
        i = i + 1;
    }
    proof {
        assert(positions@.take(i as int) =~= positions@);
    }
    out
}

/// The ledger total after `closed` has been added to a ledger whose total
/// is `realized`.
fn extend_total(
    realized: Money,
    closed: &Vec<TradeRecord>,
    Ghost(ledger): Ghost<Seq<TradeRecordView>>,
) -> (r: Option<Money>)
    requires
        Some(realized@) == net_total(ledger),
    ensures
        option_money_view(r) == net_total(ledger + records_view(closed@)),
{
    let mut total: Option<Money> = Some(realized);
    let ghost added = records_view(closed@);
    let mut j: usize = 0;
    proof {
        assert(ledger + added.take(0) =~= ledger);
    }
    while j < closed.len()
        invariant
            j <= closed.len(),
            added == records_view(closed@),
            option_money_view(total) == net_total(ledger + added.take(j as int)),
        decreases closed.len() - j,
    {
        proof {
            let next = ledger + added.take(j as int + 1);
            assert(next.drop_last() =~= ledger + added.take(j as int));
            assert(next.last() == closed@[j as int]@);
        }
        total = opt_add(total, Some(closed[j].pnl_usd));
        j = j + 1;
    }
    proof {
        assert(added.take(j as int) =~= added);
    }
    total
}

impl TradeTableGenerator {
    /// One bar with no tape: entries first, then exits, then equity.  On an
    /// error nothing changes.
    pub fn process_bar(
        &mut self,
        bar: &Bar,
        signals: &[StrategySignal],
        intrabar_policy: &IntrabarPolicy,
        slippage_mode: &SlippageMode,
        rules: &ExchangeRules,
    ) -> (r: Result<(), EngineError>)
        requires
            old(self).wf(),
        ensures
            final(self).wf(),
            match process_bar_spec(
                old(self)@,
                *bar,
                signals@,
                *intrabar_policy,
                *slippage_mode,
                *rules,
                Seq::empty(),
            ) {
                Ok(g) => r is Ok && final(self)@ == g,
                Err(e) => r == Err::<(), EngineError>(e) && final(self)@ == old(self)@,
            },
    {
        let tape: Vec<Trade> = Vec::new();
        assert(tape@ =~= Seq::<Trade>::empty());
        self.process_bar_with_tape(
            bar,
            signals,
            intrabar_policy,
            slippage_mode,
            rules,
            tape.as_slice(),
        )
    }

    /// One bar together with the trades recorded inside it: entries first,
    /// then exits, then equity.  On an error nothing changes.
    pub fn process_bar_with_tape(
        &mut self,
        bar: &Bar,
        signals: &[StrategySignal],
        intrabar_policy: &IntrabarPolicy,
        slippage_mode: &SlippageMode,
        rules: &ExchangeRules,
        tape: &[Trade],
    ) -> (r: Result<(), EngineError>)
        requires
            old(self).wf(),
        ensures
            final(self).wf(),
            match process_bar_spec(
                old(self)@,
                *bar,
                signals@,
                *intrabar_policy,
                *slippage_mode,
                *rules,
                tape@,
            ) {
                Ok(g) => r is Ok && final(self)@ == g,
                Err(e) => r == Err::<(), EngineError>(e) && final(self)@ == old(self)@,
            },
    {
        let plan = match self.plan_bar(bar, signals, intrabar_policy, slippage_mode, rules, tape) {
            Ok(p) => p,
            Err(e) => {
                return Err(e);
            },
        };
        let ghost before = *self;
        let ghost g = process_bar_spec(
            self@,
            *bar,
            signals@,
            *intrabar_policy,
            *slippage_mode,
            *rules,
            tape@,
        )->Ok_0;
        let BarPlan { staying, mut closed, mut refused, realized, equity, peak, deepest } = plan;
        let ghost added = closed@;
        let ghost turned_away = refused@;
        self.trade_records.append(&mut closed);
        self.rejected_trades.append(&mut refused);
        self.active_positions = staying;
        self.realized_pnl = realized;
        self.current_equity = equity;
        self.peak_equity = peak;
        self.max_drawdown = deepest;
        self.last_timestamp = Some(bar.timestamp);
        proof {
            lemma_records_view_joined(before.trade_records@, added);
            lemma_rejected_view_joined(before.rejected_trades@, turned_away);
            lemma_ledger_grows(records_view(before.trade_records@), records_view(added));
            lemma_bar_keeps_consistent(
                before@,
                *bar,
                signals@,
                *intrabar_policy,
                *slippage_mode,
                *rules,
                tape@,
            );
            assert(self@ == g);
        }
        Ok(())
    }
}

/// What one bar comes to, worked out before anything is changed.
struct BarPlan {
    staying: Vec<ActivePosition>,
    closed: Vec<TradeRecord>,
    refused: Vec<RejectedTrade>,
    realized: Money,
    equity: Money,
    peak: Money,
    deepest: Money,
}

/// Equity, peak and maximum drawdown after a bar, with the ledger total
/// they rest on.
struct Settlement {
    realized: Money,
    equity: Money,
    peak: Money,
    deepest: Money,
}

/// The views of two ledgers put together.
proof fn lemma_records_view_joined(a: Seq<TradeRecord>, b: Seq<TradeRecord>)
    ensures
        records_view(a + b) == records_view(a) + records_view(b),
{
    assert(records_view(a + b) =~= records_view(a) + records_view(b));
}

/// The views of two lists of refused entries put together.
proof fn lemma_rejected_view_joined(a: Seq<RejectedTrade>, b: Seq<RejectedTrade>)
    ensures
        rejected_view(a + b) == rejected_view(a) + rejected_view(b),
{
    assert(rejected_view(a + b) =~= rejected_view(a) + rejected_view(b));
}

/// Well-written records added to a well-written ledger leave it well written.
proof fn lemma_ledger_grows(ledger: Seq<TradeRecordView>, added: Seq<TradeRecordView>)
    requires
        all_well_written(ledger),
        all_well_written(added),
    ensures
        all_well_written(ledger + added),
{
    assert forall|i: int| 0 <= i < (ledger + added).len() implies well_written(
        #[trigger] (ledger + added)[i],
    ) by {
        if i < ledger.len() {
            assert(well_written(ledger[i]));
        } else {
            assert(well_written(added[i - ledger.len()]));
        }
    }
}

impl TradeTableGenerator {
    /// Equity, peak and maximum drawdown once `closed` has joined the
    /// ledger; `g` is the state with the ledger so grown.
    fn settle(&self, closed: &Vec<TradeRecord>, Ghost(g): Ghost<GeneratorView>) -> (r: Result<
        Settlement,
        EngineError,
    >)
        requires
            self.totals_agree(),
            g.records == self@.records + records_view(closed@),
            g.starting_equity == self@.starting_equity,
            g.peak_equity == self@.peak_equity,
            g.max_drawdown == self@.max_drawdown,
        ensures
            match settle_spec(g) {
                Ok(g2) => r is Ok && r->Ok_0.equity@ == g2.current_equity && r->Ok_0.peak@
                    == g2.peak_equity && r->Ok_0.deepest@ == g2.max_drawdown && Some(
                    r->Ok_0.realized@,
                ) == net_total(g.records),
                Err(e) => r == Err::<Settlement, EngineError>(e),
            },
    {
        let realized = match extend_total(
            self.realized_pnl,
            closed,
            Ghost(records_view(self.trade_records@)),
        ) {
            Some(t) => t,
            None => {
                return Err(EngineError::Arithmetic);
            },
        };
        let equity = match self.starting_equity.checked_add(&realized) {
            Some(x) => x,
            None => {
                return Err(EngineError::Arithmetic);
            },
        };
        let peak = if self.peak_equity.lt(&equity) {
            equity
        } else {
            self.peak_equity
        };
        let current_drawdown = match drawdown(&peak, &equity) {
            Some(x) => x,
            None => {
                return Err(EngineError::Arithmetic);
            },
        };
        let deepest = if self.max_drawdown.lt(&current_drawdown) {
            current_drawdown
        } else {
            self.max_drawdown
        };
        Ok(Settlement { realized, equity, peak, deepest })
    }

    /// What `bar` comes to: the positions that stay, the records and
    /// refused entries it adds, and equity, peak and drawdown after it.
    fn plan_bar(
        &self,
        bar: &Bar,
        signals: &[StrategySignal],
        intrabar_policy: &IntrabarPolicy,
        slippage_mode: &SlippageMode,
        rules: &ExchangeRules,
        tape: &[Trade],
    ) -> (r: Result<BarPlan, EngineError>)
        requires
            self.wf(),
        ensures
            match process_bar_spec(
                self@,
                *bar,
                signals@,
                *intrabar_policy,
                *slippage_mode,
                *rules,
                tape@,
            ) {
                Ok(g) => r is Ok && g == (GeneratorView {
                    positions: positions_view(r->Ok_0.staying@),
                    records: self@.records + records_view(r->Ok_0.closed@),
                    rejected: self@.rejected + rejected_view(r->Ok_0.refused@),
                    current_equity: r->Ok_0.equity@,
                    peak_equity: r->Ok_0.peak@,
                    max_drawdown: r->Ok_0.deepest@,
                    last_timestamp: Some(bar.timestamp),
                    ..self@
                }) && Some(r->Ok_0.realized@) == net_total(g.records) && all_well_written(
                    records_view(r->Ok_0.closed@),
                ),
                Err(e) => r == Err::<BarPlan, EngineError>(e),
            },
    {
        if !bar_is_valid(self.last_timestamp, bar) {
            return Err(EngineError::InvalidBar);
        }
        let (mut opened, refused) = match self.process_entry_signals(
            bar,
            signals,
            intrabar_policy,
            slippage_mode,
            rules,
        ) {
            Ok(pair) => pair,
            Err(e) => {
                return Err(e);
            },
        };
        let ghost g1 = staged(self@, positions_view(opened@), rejected_view(refused@));
        let mut all = copy_positions(&self.active_positions);
        all.append(&mut opened);
        proof {
            assert(positions_view(all@) =~= g1.positions);
        }
        let (staying, closed) = match process_exits(&all, bar, intrabar_policy, tape, rules) {
            Ok(pair) => pair,
            Err(e) => {
                return Err(e);
            },
        };
        let ghost grown = GeneratorView {
            positions: positions_view(staying@),
            records: g1.records + records_view(closed@),
            last_timestamp: Some(bar.timestamp),
            ..g1
        };
        match self.settle(&closed, Ghost(grown)) {
            Ok(totals) => Ok(
                BarPlan {
                    staying,
                    closed,
                    refused,
                    realized: totals.realized,
                    equity: totals.equity,
                    peak: totals.peak,
                    deepest: totals.deepest,
                },
            ),
            Err(e) => Err(e),
        }
    }
}

/// The snapshot of a generator: its ledger, the statistics of the ledger
/// and its refused entries.
pub open spec fn result_spec(g: GeneratorView) -> Result<ResultView, EngineError> {
    match summary_spec(g.records, g.max_drawdown) {
        Ok(summary) => Ok(ResultView { trades: g.records, summary, rejected_trades: g.rejected }),
        Err(e) => Err(e),
    }
}

pub open spec fn table_result_view(r: Result<TradeTableResult, EngineError>) -> Result<
    ResultView,
    EngineError,
> {
    match r {
        Ok(t) => Ok(t@),
        Err(e) => Err(e),
    }
}

impl TradeTableGenerator {
    /// The statistics of the ledger so far.
    pub fn calculate_summary(&self) -> (r: Result<TradeSummary, EngineError>)
        ensures
            summary_result_view(r) == summary_spec(self@.records, self@.max_drawdown),
    {
        summarize(&self.trade_records, self.max_drawdown)
    }

    /// A snapshot of ledger, statistics and refused entries; the generator
    /// itself is left as it is.
    pub fn generate_result(&self) -> (r: Result<TradeTableResult, EngineError>)
        ensures
            table_result_view(r) == result_spec(self@),
    {
        match self.calculate_summary() {
            Ok(summary) => Ok(
                TradeTableResult {
                    trades: copy_records(&self.trade_records),
                    summary,
                    rejected_trades: copy_rejected(&self.rejected_trades),
                },
            ),
            Err(e) => Err(e),
        }
    }
}

} // verus!
