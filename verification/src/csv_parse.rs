//! Reading back the trade rows of a CSV text.

use vstd::prelude::*;
use crate::money::{
    dec, decimal_digits, decimal_text, digit_char, lemma_pow10_step, mantissa_limit,
    option_money_view, padded_digits, pow10, Dec, Money,
};
use crate::export::{
    csv_header, csv_text, hit_text, reason_text, rejected_section, summary_rows, trade_line,
    trade_lines, type_text,
};
use crate::trade_table::{
    free_of, lemma_prefix_before, plain, prefix_before, result_spec, well_written,
    TradeTableGenerator,
};
use crate::types::{ExitReason, HitTpSl, ResultView, TradeRecordView, TradeType};
use vstd::string::StringExecFns;

verus! {

/// The characters of a text.
pub fn characters(s: &str) -> (r: Vec<char>)
    ensures
        r@ == s@,
{
    broadcast use vstd::string::group_string_axioms;

    let mut out: Vec<char> = Vec::new();
    for c in it: s.chars()
        invariant
            it.seq() == s@,
            out@ == s@.take(it.index() as int),
    {
        out.push(c);
        proof {
            assert(out@ =~= s@.take(it.index() + 1));
        }
    }
    proof {
        assert(s@.take(s@.len() as int) =~= s@);
    }
    out
}

/// Whether a character is a decimal digit.
pub open spec fn is_digit(c: char) -> bool {
    c == '0' || c == '1' || c == '2' || c == '3' || c == '4' || c == '5' || c == '6' || c == '7'
        || c == '8' || c == '9'
}

/// The value of a decimal digit.
pub open spec fn digit_value(c: char) -> int {
    if c == '0' {
        0
    } else if c == '1' {
        1
    } else if c == '2' {
        2
    } else if c == '3' {
        3
    } else if c == '4' {
        4
    } else if c == '5' {
        5
    } else if c == '6' {
        6
    } else if c == '7' {
        7
    } else if c == '8' {
        8
    } else {
        9
    }
}

/// Whether a text consists of decimal digits only.
pub open spec fn all_digits(s: Seq<char>) -> bool {
    forall|i: int| 0 <= i < s.len() ==> is_digit(#[trigger] s[i])
}

/// The number a text of decimal digits writes.
pub open spec fn digits_value(s: Seq<char>) -> nat
    decreases s.len(),
{
    if s.len() == 0 {
        0
    } else {
        (digits_value(s.drop_last()) * 10 + digit_value(s.last())) as nat
    }
}

/// The decimal a text writes: an optional minus sign, at least one digit,
/// and optionally a point followed by one to twenty-eight digits, which
/// give the scale.  Nothing for any other text, nor for a number the
/// representation cannot hold.
#[verifier::opaque]
pub open spec fn parse_decimal(text: Seq<char>) -> Option<Dec> {
    let negative = text.len() > 0 && text[0] == '-';
    let body = if negative { text.skip(1) } else { text };
    let whole = prefix_before(body, '.');
    let pointed = whole.len() < body.len();
    let frac = if pointed { body.skip(whole.len() as int + 1) } else { Seq::empty() };
    if whole.len() == 0 || !all_digits(whole) || !all_digits(frac) || (pointed && frac.len() == 0)
        || frac.len() > 28 {
        None
    } else {
        let m = digits_value(whole + frac) as int;
        let d = dec(if negative { -m } else { m }, frac.len() as int);
        if d.wf() {
            Some(d)
        } else {
            None
        }
    }
}

/// The digit of a number below ten is a digit with that value.
pub proof fn lemma_digit_char(d: int)
    requires
        0 <= d <= 9,
    ensures
        is_digit(digit_char(d)),
        digit_value(digit_char(d)) == d,
{
}

/// A text followed by more digits writes the number shifted and added.
pub proof fn lemma_digits_value_concat(a: Seq<char>, b: Seq<char>)
    ensures
        digits_value(a + b) == digits_value(a) * pow10(b.len() as int) + digits_value(b),
    decreases b.len(),
{
    if b.len() == 0 {
        assert(a + b =~= a);
        vstd::arithmetic::power::lemma_pow0(10);
    } else {
        assert((a + b).drop_last() =~= a + b.drop_last());
        lemma_digits_value_concat(a, b.drop_last());
        lemma_pow10_step(b.len() - 1);
        let x = digits_value(a) as int;
        let p = pow10(b.len() - 1);
        let y = digits_value(b.drop_last()) as int;
        assert((x * p + y) * 10 == x * (10 * p) + y * 10) by (nonlinear_arith);
    }
}

/// The digits of a number write that number.
pub proof fn lemma_decimal_digits(n: nat)
    ensures
        decimal_digits(n).len() >= 1,
        all_digits(decimal_digits(n)),
        digits_value(decimal_digits(n)) == n,
    decreases n,
{
    if n < 10 {
        lemma_digit_char(n as int);
        let s = decimal_digits(n);
        assert(s.drop_last() =~= Seq::<char>::empty());
        assert(s.last() == digit_char(n as int));
        assert(digits_value(s.drop_last()) == 0);
        assert(digits_value(s) == digits_value(s.drop_last()) * 10 + digit_value(s.last()));
    } else {
        lemma_decimal_digits(n / 10);
        lemma_digit_char((n % 10) as int);
        let s = decimal_digits(n);
        assert(s.drop_last() =~= decimal_digits(n / 10));
        assert(s.last() == digit_char((n % 10) as int));
        assert(digits_value(s) == digits_value(s.drop_last()) * 10 + digit_value(s.last()));
        assert forall|i: int| 0 <= i < s.len() implies is_digit(#[trigger] s[i]) by {
            if i < s.len() - 1 {
                assert(s[i] == decimal_digits(n / 10)[i]);
            }
        }
    }
}

/// The last `width` digits of a number write its remainder by `10^width`.
pub proof fn lemma_padded_digits(n: nat, width: nat)
    ensures
        padded_digits(n, width).len() == width,
        all_digits(padded_digits(n, width)),
        digits_value(padded_digits(n, width)) == n % (pow10(width as int) as nat),
    decreases width,
{
    if width == 0 {
        vstd::arithmetic::power::lemma_pow0(10);
    } else {
        lemma_padded_digits(n / 10, (width - 1) as nat);
        lemma_digit_char((n % 10) as int);
        let s = padded_digits(n, width);
        assert(s.drop_last() =~= padded_digits(n / 10, (width - 1) as nat));
        lemma_pow10_step(width - 1);
        let q = pow10(width - 1);
        vstd::arithmetic::div_mod::lemma_mod_breakdown(n as int, 10, q);
    }
}

/// Reading the text of a decimal gives the decimal back.
pub proof fn lemma_parse_decimal_text(d: Dec)
    requires
        d.wf(),
    ensures
        parse_decimal(decimal_text(d)) == Some(d),
        forall|i: int|
            0 <= i < decimal_text(d).len() ==> (#[trigger] decimal_text(d)[i]) != ','
                && decimal_text(d)[i] != '\n',
        decimal_text(d).len() >= 1,
{
    reveal(parse_decimal);
    let mag = (if d.m < 0 { -d.m } else { d.m }) as nat;
    let unit = pow10(d.s) as nat;
    crate::money::lemma_pow10_monotonic(0, d.s);
    let w = decimal_digits(mag / unit);
    let f = padded_digits(mag % unit, d.s as nat);
    let p = if d.s > 0 { seq!['.'] + f } else { Seq::<char>::empty() };
    let sign = if d.m < 0 { seq!['-'] } else { Seq::<char>::empty() };
    let text = decimal_text(d);
    lemma_decimal_digits(mag / unit);
    lemma_padded_digits(mag % unit, d.s as nat);
    assert(text == sign + w + p);
    let body = w + p;
    let negative = text.len() > 0 && text[0] == '-';
    if d.m < 0 {
        assert(text[0] == '-');
        assert(text.skip(1) =~= body);
    } else {
        assert(text =~= body);
        assert(text[0] == w[0]);
        assert(is_digit(w[0]));
    }
    assert(negative == (d.m < 0));
    assert forall|j: int| 0 <= j < w.len() implies body[j] != '.' by {
        assert(body[j] == w[j]);
        assert(is_digit(w[j]));
    }
    if d.s > 0 {
        assert(body[w.len() as int] == '.');
    } else {
        assert(body =~= w);
    }
    lemma_prefix_before(body, '.', w.len() as int);
    let whole = prefix_before(body, '.');
    assert(whole =~= w);
    let pointed = whole.len() < body.len();
    let frac = if pointed { body.skip(whole.len() as int + 1) } else { Seq::<char>::empty() };
    assert(frac =~= f);
    lemma_digits_value_concat(w, f);
    vstd::arithmetic::div_mod::lemma_fundamental_div_mod(mag as int, unit as int);
    vstd::arithmetic::div_mod::lemma_mod_bound(mag as int, unit as int);
    vstd::arithmetic::div_mod::lemma_small_mod((mag % unit) as nat, unit);
    assert(digits_value(w + f) == mag) by {
        assert((mag / unit) * unit == unit * (mag / unit)) by (nonlinear_arith);
    }
    assert forall|i: int| 0 <= i < text.len() implies (#[trigger] text[i]) != ',' && text[i]
        != '\n' by {
        if i < sign.len() {
            assert(text[i] == '-');
        } else if i < sign.len() + w.len() {
            assert(text[i] == w[i - sign.len()]);
            assert(is_digit(w[i - sign.len()]));
        } else {
            let k = i - sign.len() - w.len();
            assert(text[i] == p[k]);
            if k > 0 {
                assert(p[k] == f[k - 1]);
                assert(is_digit(f[k - 1]));
            }
        }
    }
}


/// The fields of a text between the separators `sep`: one more than there
/// are separators, empty fields included.
pub open spec fn split(text: Seq<char>, sep: char) -> Seq<Seq<char>>
    decreases text.len(),
{
    if text.len() == 0 {
        seq![Seq::<char>::empty()]
    } else {
        let before = split(text.drop_last(), sep);
        if text.last() == sep {
            before.push(Seq::empty())
        } else {
            before.drop_last().push(before.last().push(text.last()))
        }
    }
}

/// The fields with `sep` between them.
pub open spec fn joined(fields: Seq<Seq<char>>, sep: char) -> Seq<char>
    decreases fields.len(),
{
    if fields.len() == 0 {
        Seq::empty()
    } else if fields.len() == 1 {
        fields[0]
    } else {
        joined(fields.drop_last(), sep) + seq![sep] + fields.last()
    }
}

/// The lines, each followed by `sep`.
pub open spec fn terminated(lines: Seq<Seq<char>>, sep: char) -> Seq<char>
    decreases lines.len(),
{
    if lines.len() == 0 {
        Seq::empty()
    } else {
        terminated(lines.drop_last(), sep) + lines.last() + seq![sep]
    }
}

pub proof fn lemma_split_nonempty(text: Seq<char>, sep: char)
    ensures
        split(text, sep).len() >= 1,
    decreases text.len(),
{
    if text.len() > 0 {
        lemma_split_nonempty(text.drop_last(), sep);
    }
}

/// More text without a separator only lengthens the last field.
pub proof fn lemma_split_extend(a: Seq<char>, b: Seq<char>, sep: char)
    requires
        free_of(b, sep),
    ensures
        split(a + b, sep) == split(a, sep).drop_last().push(split(a, sep).last() + b),
    decreases b.len(),
{
    lemma_split_nonempty(a, sep);
    if b.len() == 0 {
        assert(a + b =~= a);
        assert(split(a, sep).last() + b =~= split(a, sep).last());
        assert(split(a, sep).drop_last().push(split(a, sep).last()) =~= split(a, sep));
    } else {
        let front = b.drop_last();
        assert((a + b).drop_last() =~= a + front);
        assert(free_of(front, sep)) by {
            assert forall|i: int| 0 <= i < front.len() implies (#[trigger] front[i]) != sep by {
                assert(front[i] == b[i]);
            }
        }
        lemma_split_extend(a, front, sep);
        assert((a + b).last() == b.last());
        assert(b[b.len() - 1] != sep);
        let base = split(a, sep).drop_last();
        let grown = base.push(split(a, sep).last() + front);
        assert(grown.drop_last() =~= base);
        assert((split(a, sep).last() + front).push(b.last()) =~= split(a, sep).last() + b);
    }
}

/// A text that ends in a separator splits into its own fields, the empty
/// last one replaced by the fields of what follows.
pub proof fn lemma_split_after_separator(x: Seq<char>, tail: Seq<char>, sep: char)
    requires
        x.len() > 0,
        x.last() == sep,
    ensures
        split(x + tail, sep) == split(x, sep).drop_last() + split(tail, sep),
    decreases tail.len(),
{
    lemma_split_nonempty(x.drop_last(), sep);
    let head = split(x, sep).drop_last();
    assert(head =~= split(x.drop_last(), sep));
    if tail.len() == 0 {
        assert(x + tail =~= x);
        assert(split(x, sep) =~= head + split(tail, sep));
    } else {
        let front = tail.drop_last();
        assert((x + tail).drop_last() =~= x + front);
        lemma_split_after_separator(x, front, sep);
        lemma_split_nonempty(front, sep);
        let inner = split(front, sep);
        if tail.last() == sep {
            assert((head + inner).push(Seq::<char>::empty()) =~= head + inner.push(
                Seq::<char>::empty(),
            ));
        } else {
            assert((head + inner).last() == inner.last());
            assert((head + inner).drop_last() =~= head + inner.drop_last());
            assert((head + inner.drop_last()).push(inner.last().push(tail.last())) =~= head
                + inner.drop_last().push(inner.last().push(tail.last())));
        }
    }
}

/// A text that starts with a separator has an empty first field.
pub proof fn lemma_split_leading_separator(text: Seq<char>, sep: char)
    requires
        text.len() > 0,
        text[0] == sep,
    ensures
        split(text, sep).len() >= 2,
        split(text, sep)[0].len() == 0,
    decreases text.len(),
{
    if text.len() == 1 {
        assert(text.drop_last() =~= Seq::<char>::empty());
        assert(split(text.drop_last(), sep) =~= seq![Seq::<char>::empty()]);
    } else {
        assert(text.drop_last()[0] == text[0]);
        lemma_split_leading_separator(text.drop_last(), sep);
    }
}

/// Splitting what was joined gives the fields back, when no field holds
/// the separator.
pub proof fn lemma_split_joined(fields: Seq<Seq<char>>, sep: char)
    requires
        fields.len() >= 1,
        forall|i: int| 0 <= i < fields.len() ==> free_of(#[trigger] fields[i], sep),
    ensures
        split(joined(fields, sep), sep) == fields,
    decreases fields.len(),
{
    let empty = Seq::<char>::empty();
    if fields.len() == 1 {
        lemma_split_extend(empty, fields[0], sep);
        assert(empty + fields[0] =~= fields[0]);
        assert(split(empty, sep) =~= seq![empty]);
        assert(seq![empty].drop_last().push(empty + fields[0]) =~= fields);
    } else {
        let front = fields.drop_last();
        assert forall|i: int| 0 <= i < front.len() implies free_of(#[trigger] front[i], sep) by {
            assert(front[i] == fields[i]);
        }
        lemma_split_joined(front, sep);
        let j = joined(front, sep);
        assert((j + seq![sep]).drop_last() =~= j);
        assert(split(j + seq![sep], sep) == front.push(empty));
        lemma_split_extend(j + seq![sep], fields.last(), sep);
        assert(front.push(empty).drop_last() =~= front);
        assert(empty + fields.last() =~= fields.last());
        assert(front.push(fields.last()) =~= fields);
    }
}

/// What was joined holds a character only if a field or the separator does.
pub proof fn lemma_joined_free_of(fields: Seq<Seq<char>>, sep: char, c: char)
    requires
        sep != c,
        forall|i: int| 0 <= i < fields.len() ==> free_of(#[trigger] fields[i], c),
    ensures
        free_of(joined(fields, sep), c),
    decreases fields.len(),
{
    if fields.len() >= 2 {
        let front = fields.drop_last();
        assert forall|i: int| 0 <= i < front.len() implies free_of(#[trigger] front[i], c) by {
            assert(front[i] == fields[i]);
        }
        lemma_joined_free_of(front, sep, c);
        let j = joined(front, sep);
        let whole = joined(fields, sep);
        assert forall|i: int| 0 <= i < whole.len() implies (#[trigger] whole[i]) != c by {
            if i < j.len() {
                assert(whole[i] == j[i]);
            } else if i == j.len() {
                assert(whole[i] == sep);
            } else {
                assert(whole[i] == fields.last()[i - j.len() - 1]);
            }
        }
    } else if fields.len() == 1 {
        assert(free_of(fields[0], c));
    }
}

/// One more field joins on behind a separator.
pub proof fn lemma_joined_push(fields: Seq<Seq<char>>, x: Seq<char>, sep: char)
    requires
        fields.len() >= 1,
    ensures
        joined(fields.push(x), sep) == joined(fields, sep) + seq![sep] + x,
{
    assert(fields.push(x).drop_last() =~= fields);
}

/// The lines of terminated lines are the lines and an empty one.
pub proof fn lemma_split_terminated(lines: Seq<Seq<char>>, sep: char)
    requires
        forall|i: int| 0 <= i < lines.len() ==> free_of(#[trigger] lines[i], sep),
    ensures
        split(terminated(lines, sep), sep) == lines.push(Seq::<char>::empty()),
        lines.len() > 0 ==> terminated(lines, sep).len() > 0 && terminated(lines, sep).last()
            == sep,
    decreases lines.len(),
{
    let empty = Seq::<char>::empty();
    if lines.len() == 0 {
        assert(split(empty, sep) =~= Seq::<Seq<char>>::empty().push(empty));
    } else {
        let front = lines.drop_last();
        assert forall|i: int| 0 <= i < front.len() implies free_of(#[trigger] front[i], sep) by {
            assert(front[i] == lines[i]);
        }
        lemma_split_terminated(front, sep);
        let t = terminated(front, sep);
        let y = t + lines.last();
        assert(free_of(lines.last(), sep)) by {
            assert(lines[lines.len() - 1] == lines.last());
        }
        lemma_split_extend(t, lines.last(), sep);
        assert(front.push(empty).drop_last() =~= front);
        assert(empty + lines.last() =~= lines.last());
        assert(split(y, sep) == front.push(lines.last()));
        assert(front.push(lines.last()) =~= lines);
        assert((y + seq![sep]).drop_last() =~= y);
        assert(split(y + seq![sep], sep) == lines.push(empty));
    }
}

/// What the CSV carries of a trade.
pub struct CsvTradeView {
    pub date: Seq<char>,
    pub trade_type: TradeType,
    pub entry_price: Dec,
    pub entry_time_utc: Seq<char>,
    pub exit_price: Dec,
    pub exit_time_utc: Seq<char>,
    pub exit_reason: ExitReason,
    pub hit_tp_sl: HitTpSl,
    pub size_usd: Dec,
    pub qty: Dec,
    pub fees_usd: Dec,
    pub pnl_usd: Dec,
    pub pnl_pct: Dec,
    pub symbol: Seq<char>,
}

/// What the CSV carries of a record: everything but the two times in
/// milliseconds.
pub open spec fn csv_part(r: TradeRecordView) -> CsvTradeView {
    CsvTradeView {
        date: r.date,
        trade_type: r.trade_type,
        entry_price: r.entry_price,
        entry_time_utc: r.entry_time_utc,
        exit_price: r.exit_price,
        exit_time_utc: r.exit_time_utc,
        exit_reason: r.exit_reason,
        hit_tp_sl: r.hit_tp_sl,
        size_usd: r.size_usd,
        qty: r.qty,
        fees_usd: r.fees_usd,
        pnl_usd: r.pnl_usd,
        pnl_pct: r.pnl_pct,
        symbol: r.symbol,
    }
}

/// The fourteen fields of a trade row.
pub open spec fn trade_fields(r: TradeRecordView) -> Seq<Seq<char>> {
    seq![
        r.date,
        type_text(r.trade_type),
        decimal_text(r.entry_price),
        r.entry_time_utc,
        decimal_text(r.exit_price),
        r.exit_time_utc,
        reason_text(r.exit_reason),
        hit_text(r.hit_tp_sl),
        decimal_text(r.size_usd),
        decimal_text(r.qty),
        decimal_text(r.fees_usd),
        decimal_text(r.pnl_usd),
        decimal_text(r.pnl_pct),
        r.symbol,
    ]
}

pub open spec fn parse_type(f: Seq<char>) -> Option<TradeType> {
    if f == "Long"@ {
        Some(TradeType::Long)
    } else if f == "Short"@ {
        Some(TradeType::Short)
    } else {
        None
    }
}

pub open spec fn parse_reason(f: Seq<char>) -> Option<ExitReason> {
    if f == "TP"@ {
        Some(ExitReason::TakeProfit)
    } else if f == "SL"@ {
        Some(ExitReason::StopLoss)
    } else if f == "StrategyExit"@ {
        Some(ExitReason::StrategyExit)
    } else if f == "Liquidation"@ {
        Some(ExitReason::Liquidation)
    } else if f == "Timeout"@ {
        Some(ExitReason::Timeout)
    } else {
        None
    }
}

pub open spec fn parse_hit(f: Seq<char>) -> Option<HitTpSl> {
    if f == "TP"@ {
        Some(HitTpSl::TakeProfit)
    } else if f == "SL"@ {
        Some(HitTpSl::StopLoss)
    } else if f == "None"@ {
        Some(HitTpSl::Neither)
    } else {
        None
    }
}

/// The trade that fourteen fields write, if each of them reads.
pub open spec fn parse_fields(f: Seq<Seq<char>>) -> Option<CsvTradeView> {
    if f.len() != 14 {
        None
    } else if parse_type(f[1]) is None || parse_decimal(f[2]) is None || parse_decimal(f[4]) is None
        || parse_reason(f[6]) is None || parse_hit(f[7]) is None || parse_decimal(f[8]) is None
        || parse_decimal(f[9]) is None || parse_decimal(f[10]) is None || parse_decimal(f[11])
        is None || parse_decimal(f[12]) is None {
        None
    } else {
        Some(
            CsvTradeView {
                date: f[0],
                trade_type: parse_type(f[1])->0,
                entry_price: parse_decimal(f[2])->0,
                entry_time_utc: f[3],
                exit_price: parse_decimal(f[4])->0,
                exit_time_utc: f[5],
                exit_reason: parse_reason(f[6])->0,
                hit_tp_sl: parse_hit(f[7])->0,
                size_usd: parse_decimal(f[8])->0,
                qty: parse_decimal(f[9])->0,
                fees_usd: parse_decimal(f[10])->0,
                pnl_usd: parse_decimal(f[11])->0,
                pnl_pct: parse_decimal(f[12])->0,
                symbol: f[13],
            },
        )
    }
}

/// The trade a row writes.
pub open spec fn parse_line(line: Seq<char>) -> Option<CsvTradeView> {
    parse_fields(split(line, ','))
}

/// The header row without its line feed.
pub open spec fn header_line() -> Seq<char> {
    "date,type,entry_price,entry_time_utc,exit_price,exit_time_utc,exit_reason,hit_tp_sl,size_usd,qty,fees_usd,pnl_usd,pnl_pct,symbol"@
}

/// The trades of the rows from line `i` up to the first empty line.
pub open spec fn rows_from(lines: Seq<Seq<char>>, i: int) -> Option<Seq<CsvTradeView>>
    decreases lines.len() - i,
{
    if i < 0 || i >= lines.len() || lines[i].len() == 0 {
        Some(Seq::empty())
    } else {
        match parse_line(lines[i]) {
            None => None,
            Some(r) => match rows_from(lines, i + 1) {
                None => None,
                Some(rest) => Some(seq![r] + rest),
            },
        }
    }
}

/// The trades of a CSV text: the rows between the header and the first
/// empty line.  Nothing if the header is another or a row does not read.
pub open spec fn parse_csv_spec(text: Seq<char>) -> Option<Seq<CsvTradeView>> {
    let lines = split(text, '\n');
    if lines.len() == 0 || lines[0] != header_line() {
        None
    } else {
        rows_from(lines, 1)
    }
}

/// Whether a record can be written to CSV and read back: its texts hold no
/// comma and no line feed, and its amounts are representable.
pub open spec fn writable(r: TradeRecordView) -> bool {
    well_written(r) && plain(r.symbol)
}

/// The row of a trade without its line feed.
pub open spec fn trade_body(r: TradeRecordView) -> Seq<char> {
    joined(trade_fields(r), ',')
}

proof fn lemma_keywords()
    ensures
        plain("Long"@),
        plain("Short"@),
        plain("TP"@),
        plain("SL"@),
        plain("StrategyExit"@),
        plain("Liquidation"@),
        plain("Timeout"@),
        plain("None"@),
        "Long"@ != "Short"@,
        "TP"@ != "SL"@,
        "TP"@ != "StrategyExit"@,
        "TP"@ != "Liquidation"@,
        "TP"@ != "Timeout"@,
        "TP"@ != "None"@,
        "SL"@ != "StrategyExit"@,
        "SL"@ != "Liquidation"@,
        "SL"@ != "Timeout"@,
        "SL"@ != "None"@,
        "StrategyExit"@ != "Liquidation"@,
        "StrategyExit"@ != "Timeout"@,
        "Liquidation"@ != "Timeout"@,
        ","@ == seq![','],
        "\n"@ == seq!['\n'],
{
    reveal(plain);
    reveal_strlit("Long");
    reveal_strlit("Short");
    reveal_strlit("TP");
    reveal_strlit("SL");
    reveal_strlit("StrategyExit");
    reveal_strlit("Liquidation");
    reveal_strlit("Timeout");
    reveal_strlit("None");
    reveal_strlit(",");
    reveal_strlit("\n");
    assert("TP"@[0] != "SL"@[0]);
    assert("StrategyExit"@[0] != "Liquidation"@[0]);
    assert("StrategyExit"@[0] != "Timeout"@[0]);
    assert("Liquidation"@[0] != "Timeout"@[0]);
    assert(","@ =~= seq![',']);
    assert("\n"@ =~= seq!['\n']);
}

/// The text of an amount is plain and reads back.
proof fn lemma_amount_field(d: Dec)
    requires
        d.wf(),
    ensures
        plain(decimal_text(d)),
        parse_decimal(decimal_text(d)) == Some(d),
{
    reveal(plain);
    lemma_parse_decimal_text(d);
}

/// The words for direction, exit reason and bracket level are plain and
/// read back.
proof fn lemma_word_fields(t: TradeType, x: ExitReason, h: HitTpSl)
    ensures
        plain(type_text(t)),
        parse_type(type_text(t)) == Some(t),
        plain(reason_text(x)),
        parse_reason(reason_text(x)) == Some(x),
        plain(hit_text(h)),
        parse_hit(hit_text(h)) == Some(h),
{
    lemma_keywords();
}

/// Fourteen plain texts in a row are a row of plain fields.
proof fn lemma_fourteen_plain(f: Seq<Seq<char>>)
    requires
        f.len() == 14,
        plain(f[0]),
        plain(f[1]),
        plain(f[2]),
        plain(f[3]),
        plain(f[4]),
        plain(f[5]),
        plain(f[6]),
        plain(f[7]),
        plain(f[8]),
        plain(f[9]),
        plain(f[10]),
        plain(f[11]),
        plain(f[12]),
        plain(f[13]),
    ensures
        forall|i: int| 0 <= i < 14 ==> plain(#[trigger] f[i]),
{
}

/// The fields of a writable record are plain.
proof fn lemma_fields_are_plain(r: TradeRecordView)
    requires
        writable(r),
    ensures
        trade_fields(r).len() == 14,
        forall|i: int| 0 <= i < 14 ==> plain(#[trigger] trade_fields(r)[i]),
{
    lemma_word_fields(r.trade_type, r.exit_reason, r.hit_tp_sl);
    lemma_amount_field(r.entry_price);
    lemma_amount_field(r.exit_price);
    lemma_amount_field(r.size_usd);
    lemma_amount_field(r.qty);
    lemma_amount_field(r.fees_usd);
    lemma_amount_field(r.pnl_usd);
    lemma_amount_field(r.pnl_pct);
    lemma_fourteen_plain(trade_fields(r));
}

/// The fields of a writable record read back.
proof fn lemma_fields_read_back(r: TradeRecordView)
    requires
        writable(r),
    ensures
        parse_fields(trade_fields(r)) == Some(csv_part(r)),
{
    lemma_word_fields(r.trade_type, r.exit_reason, r.hit_tp_sl);
    lemma_amount_field(r.entry_price);
    lemma_amount_field(r.exit_price);
    lemma_amount_field(r.size_usd);
    lemma_amount_field(r.qty);
    lemma_amount_field(r.fees_usd);
    lemma_amount_field(r.pnl_usd);
    lemma_amount_field(r.pnl_pct);
}

/// The row of a writable record holds no line feed, is not empty, and reads
/// back.
proof fn lemma_body_reads_back(r: TradeRecordView)
    requires
        writable(r),
    ensures
        free_of(trade_body(r), '\n'),
        trade_body(r).len() > 0,
        parse_line(trade_body(r)) == Some(csv_part(r)),
{
    reveal(plain);
    lemma_fields_read_back(r);
    lemma_fields_are_plain(r);
    assert forall|j: int| 0 <= j < trade_fields(r).len() implies free_of(
        #[trigger] trade_fields(r)[j],
        '\n',
    ) && free_of(trade_fields(r)[j], ',') by {
        assert(plain(trade_fields(r)[j]));
    }
    lemma_joined_free_of(trade_fields(r), ',', '\n');
    lemma_split_joined(trade_fields(r), ',');
    if trade_body(r).len() == 0 {
        assert(split(trade_body(r), ',') =~= seq![Seq::<char>::empty()]);
    }
}

/// A row is its fields joined by commas, followed by a line feed.
proof fn lemma_trade_line_is_joined(r: TradeRecordView)
    ensures
        trade_line(r) == trade_body(r) + seq!['\n'],
{
    lemma_keywords();
    let f = trade_fields(r);
    let f1 = seq![f[0]];
    let f2 = f1.push(f[1]);
    let f3 = f2.push(f[2]);
    let f4 = f3.push(f[3]);
    let f5 = f4.push(f[4]);
    let f6 = f5.push(f[5]);
    let f7 = f6.push(f[6]);
    let f8 = f7.push(f[7]);
    let f9 = f8.push(f[8]);
    let f10 = f9.push(f[9]);
    let f11 = f10.push(f[10]);
    let f12 = f11.push(f[11]);
    let f13 = f12.push(f[12]);
    let f14 = f13.push(f[13]);
    assert(joined(f1, ',') == f[0]);
    lemma_joined_push(f1, f[1], ',');
    lemma_joined_push(f2, f[2], ',');
    lemma_joined_push(f3, f[3], ',');
    lemma_joined_push(f4, f[4], ',');
    lemma_joined_push(f5, f[5], ',');
    lemma_joined_push(f6, f[6], ',');
    lemma_joined_push(f7, f[7], ',');
    lemma_joined_push(f8, f[8], ',');
    lemma_joined_push(f9, f[9], ',');
    lemma_joined_push(f10, f[10], ',');
    lemma_joined_push(f11, f[11], ',');
    lemma_joined_push(f12, f[12], ',');
    lemma_joined_push(f13, f[13], ',');
    assert(f14 =~= f);
}


/// The rows of a ledger without their line feeds.
pub open spec fn trade_bodies(trades: Seq<TradeRecordView>) -> Seq<Seq<char>> {
    trades.map_values(|r: TradeRecordView| trade_body(r))
}

/// What the CSV carries of each record of a ledger.
pub open spec fn csv_parts(trades: Seq<TradeRecordView>) -> Seq<CsvTradeView> {
    trades.map_values(|r: TradeRecordView| csv_part(r))
}

proof fn lemma_header()
    ensures
        csv_header() == header_line() + seq!['\n'],
        free_of(header_line(), '\n'),
{
    reveal_strlit(
        "date,type,entry_price,entry_time_utc,exit_price,exit_time_utc,exit_reason,hit_tp_sl,size_usd,qty,fees_usd,pnl_usd,pnl_pct,symbol\n",
    );
    reveal_strlit(
        "date,type,entry_price,entry_time_utc,exit_price,exit_time_utc,exit_reason,hit_tp_sl,size_usd,qty,fees_usd,pnl_usd,pnl_pct,symbol",
    );
    assert(csv_header() =~= header_line() + seq!['\n']);
}

/// Header and rows are the header line and the row bodies, each followed
/// by a line feed.
proof fn lemma_rows_are_terminated_lines(trades: Seq<TradeRecordView>)
    ensures
        csv_header() + trade_lines(trades) == terminated(
            seq![header_line()] + trade_bodies(trades),
            '\n',
        ),
    decreases trades.len(),
{
    let lines = seq![header_line()] + trade_bodies(trades);
    if trades.len() == 0 {
        lemma_header_is_terminated();
        assert(lines =~= seq![header_line()]);
        assert(trade_lines(trades) =~= Seq::<char>::empty());
        assert(csv_header() + Seq::<char>::empty() =~= csv_header());
    } else {
        let front = trades.drop_last();
        lemma_rows_are_terminated_lines(front);
        lemma_trade_line_is_joined(trades.last());
        assert(lines.drop_last() =~= seq![header_line()] + trade_bodies(front));
        assert(lines.last() == trade_body(trades.last()));
        lemma_one_more_line(
            csv_header(),
            trade_lines(front),
            trade_body(trades.last()),
            seq!['\n'],
        );
    }
}

/// The header is the header line followed by a line feed.
proof fn lemma_header_is_terminated()
    ensures
        csv_header() == terminated(seq![header_line()], '\n'),
{
    lemma_header();
    let one = seq![header_line()];
    assert(one.drop_last() =~= Seq::<Seq<char>>::empty());
    assert(terminated(one.drop_last(), '\n') =~= Seq::<char>::empty());
    assert(Seq::<char>::empty() + header_line() + seq!['\n'] =~= header_line() + seq!['\n']);
}

/// Putting texts together does not depend on the grouping.
proof fn lemma_one_more_line(head: Seq<char>, lines: Seq<char>, body: Seq<char>, end: Seq<char>)
    ensures
        head + (lines + (body + end)) == ((head + lines) + body) + end,
{
    assert(head + (lines + (body + end)) =~= ((head + lines) + body) + end);
}

proof fn lemma_rows_read_back(lines: Seq<Seq<char>>, trades: Seq<TradeRecordView>, k: int)
    requires
        0 <= k <= trades.len(),
        lines.len() > trades.len() + 1,
        forall|i: int| 0 <= i < trades.len() ==> writable(#[trigger] trades[i]),
        forall|i: int| 0 <= i < trades.len() ==> lines[i + 1] == trade_body(#[trigger] trades[i]),
        lines[trades.len() as int + 1].len() == 0,
    ensures
        rows_from(lines, k + 1) == Some(csv_parts(trades).skip(k)),
    decreases trades.len() - k,
{
    if k == trades.len() {
        assert(csv_parts(trades).skip(k) =~= Seq::<CsvTradeView>::empty());
    } else {
        let r = trades[k];
        assert(writable(r));
        assert(lines[k + 1] == trade_body(r));
        lemma_body_reads_back(r);
        lemma_rows_read_back(lines, trades, k + 1);
        assert(seq![csv_part(r)] + csv_parts(trades).skip(k + 1) =~= csv_parts(trades).skip(k));
    }
}

/// What a CSV text goes on with after its rows: the summary and the
/// refused entries.
pub open spec fn after_rows(result: ResultView) -> Seq<char> {
    "\n# Summary\n"@ + summary_rows(result.summary) + rejected_section(result.rejected_trades)
}

/// A CSV text is header and rows, followed by a part that starts with a
/// line feed.
proof fn lemma_csv_text_shape(result: ResultView)
    ensures
        csv_text(result) == csv_header() + trade_lines(result.trades) + after_rows(result),
        after_rows(result).len() > 0,
        after_rows(result)[0] == '\n',
{
    reveal_strlit("\n# Summary\n");
    assert(csv_text(result) =~= csv_header() + trade_lines(result.trades) + after_rows(result));
}

/// Neither the header line nor a row of a writable record holds a line feed.
proof fn lemma_lines_hold_no_line_feed(trades: Seq<TradeRecordView>)
    requires
        forall|i: int| 0 <= i < trades.len() ==> writable(#[trigger] trades[i]),
    ensures
        forall|i: int|
            0 <= i < trades.len() + 1 ==> free_of(
                #[trigger] (seq![header_line()] + trade_bodies(trades))[i],
                '\n',
            ),
{
    let ls = seq![header_line()] + trade_bodies(trades);
    lemma_header();
    assert forall|i: int| 0 <= i < trades.len() + 1 implies free_of(#[trigger] ls[i], '\n') by {
        if i > 0 {
            assert(ls[i] == trade_body(trades[i - 1]));
            lemma_body_reads_back(trades[i - 1]);
        }
    }
}

/// The lines of header and rows followed by more text: the header line,
/// the row bodies, and then the lines of that text.
proof fn lemma_lines_then_rest(trades: Seq<TradeRecordView>, rest: Seq<char>)
    requires
        forall|i: int| 0 <= i < trades.len() ==> writable(#[trigger] trades[i]),
    ensures
        split(csv_header() + trade_lines(trades) + rest, '\n') == seq![header_line()]
            + trade_bodies(trades) + split(rest, '\n'),
{
    let ls = seq![header_line()] + trade_bodies(trades);
    lemma_lines_hold_no_line_feed(trades);
    lemma_rows_are_terminated_lines(trades);
    lemma_split_terminated(ls, '\n');
    lemma_split_after_separator(csv_header() + trade_lines(trades), rest, '\n');
    assert(ls.push(Seq::<char>::empty()).drop_last() =~= ls);
}

/// The lines of a CSV text: the header line, the rows, and then what the
/// text goes on with, which starts with an empty line.
proof fn lemma_csv_lines(result: ResultView)
    requires
        forall|i: int| 0 <= i < result.trades.len() ==> writable(#[trigger] result.trades[i]),
    ensures
        ({
            let lines = split(csv_text(result), '\n');
            &&& lines.len() > result.trades.len() + 1
            &&& lines[0] == header_line()
            &&& forall|i: int|
                0 <= i < result.trades.len() ==> lines[i + 1] == trade_body(
                    #[trigger] result.trades[i],
                )
            &&& lines[result.trades.len() as int + 1].len() == 0
        }),
{
    let trades = result.trades;
    let ls = seq![header_line()] + trade_bodies(trades);
    let rest = after_rows(result);
    lemma_csv_text_shape(result);
    lemma_lines_then_rest(trades, rest);
    lemma_split_leading_separator(rest, '\n');
    let lines = split(csv_text(result), '\n');
    assert(lines == ls + split(rest, '\n'));
    assert forall|i: int| 0 <= i < trades.len() implies lines[i + 1] == trade_body(
        #[trigger] trades[i],
    ) by {
        assert(lines[i + 1] == ls[i + 1]);
    }
    assert(lines[trades.len() as int + 1] == split(rest, '\n')[0]);
}

/// Writing a trade table as CSV and reading the text back gives, for every
/// trade, what the CSV carries of it: every field but the two times in
/// milliseconds, the amounts with their full scale.  Stated for tables
/// whose texts hold neither comma nor line feed.
pub proof fn law_csv_round_trip(result: ResultView)
    requires
        forall|i: int| 0 <= i < result.trades.len() ==> writable(#[trigger] result.trades[i]),
    ensures
        parse_csv_spec(csv_text(result)) == Some(csv_parts(result.trades)),
{
    lemma_csv_lines(result);
    lemma_rows_read_back(split(csv_text(result), '\n'), result.trades, 0);
    assert(csv_parts(result.trades).skip(0) =~= csv_parts(result.trades));
}

/// What the CSV carries of a trade.
#[derive(Debug)]
pub struct CsvTrade {
    pub date: String,
    pub trade_type: TradeType,
    pub entry_price: Money,
    pub entry_time_utc: String,
    pub exit_price: Money,
    pub exit_time_utc: String,
    pub exit_reason: ExitReason,
    pub hit_tp_sl: HitTpSl,
    pub size_usd: Money,
    pub qty: Money,
    pub fees_usd: Money,
    pub pnl_usd: Money,
    pub pnl_pct: Money,
    pub symbol: String,
}

impl View for CsvTrade {
    type V = CsvTradeView;

    open spec fn view(&self) -> CsvTradeView {
        CsvTradeView {
            date: self.date@,
            trade_type: self.trade_type,
            entry_price: self.entry_price@,
            entry_time_utc: self.entry_time_utc@,
            exit_price: self.exit_price@,
            exit_time_utc: self.exit_time_utc@,
            exit_reason: self.exit_reason,
            hit_tp_sl: self.hit_tp_sl,
            size_usd: self.size_usd@,
            qty: self.qty@,
            fees_usd: self.fees_usd@,
            pnl_usd: self.pnl_usd@,
            pnl_pct: self.pnl_pct@,
            symbol: self.symbol@,
        }
    }
}

/// The parsed trades of a vector as values.
pub open spec fn csv_trades_view(v: Seq<CsvTrade>) -> Seq<CsvTradeView> {
    v.map_values(|t: CsvTrade| t@)
}

pub open spec fn option_csv_trades_view(r: Option<Vec<CsvTrade>>) -> Option<Seq<CsvTradeView>> {
    match r {
        Some(v) => Some(csv_trades_view(v@)),
        None => None,
    }
}

/// The texts of a vector of character vectors.
pub open spec fn nested(v: Seq<Vec<char>>) -> Seq<Seq<char>> {
    v.map_values(|x: Vec<char>| x@)
}

/// The fields of `text` between the separators `sep`.
pub fn split_chars(text: &Vec<char>, sep: char) -> (r: Vec<Vec<char>>)
    ensures
        nested(r@) == split(text@, sep),
{
    let mut done: Vec<Vec<char>> = Vec::new();
    let mut current: Vec<char> = Vec::new();
    let mut i: usize = 0;
    proof {
        assert(text@.take(0) =~= Seq::<char>::empty());
        assert(nested(done@).push(current@) =~= seq![Seq::<char>::empty()]);
    }
    while i < text.len()
        invariant
            i <= text.len(),
            split(text@.take(i as int), sep) == nested(done@).push(current@),
        decreases text.len() - i,
    {
        proof {
            assert(text@.take(i as int + 1).drop_last() =~= text@.take(i as int));
            assert(text@.take(i as int + 1).last() == text@[i as int]);
        }
        let ghost before = nested(done@);
        let ghost field = current@;
        let c = text[i];
        if c == sep {
            done.push(current);
            current = Vec::new();
            proof {
                assert(nested(done@) =~= before.push(field));
                assert(current@ =~= Seq::<char>::empty());
            }
        } else {
            current.push(c);
            proof {
                assert(before.push(field).drop_last() =~= before);
            }
        }
        i = i + 1;
    }
    let ghost before = nested(done@);
    let ghost field = current@;
    done.push(current);
    proof {
        assert(text@.take(i as int) =~= text@);
        assert(nested(done@) =~= before.push(field));
    }
    done
}

/// The text made of the characters.
pub fn text_of(chars: &Vec<char>) -> (r: String)
    ensures
        r@ == chars@,
{
    let mut out = String::new();
    let mut i: usize = 0;
    while i < chars.len()
        invariant
            i <= chars.len(),
            out@ == chars@.take(i as int),
        decreases chars.len() - i,
    {
        out.push(chars[i]);
        proof {
            assert(out@ =~= chars@.take(i as int + 1));
        }
        i = i + 1;
    }
    proof {
        assert(chars@.take(i as int) =~= chars@);
    }
    out
}

fn digit_of(c: char) -> (r: Option<i128>)
    ensures
        r is Some == is_digit(c),
        r matches Some(d) ==> d == digit_value(c),
{
    if c == '0' {
        Some(0)
    } else if c == '1' {
        Some(1)
    } else if c == '2' {
        Some(2)
    } else if c == '3' {
        Some(3)
    } else if c == '4' {
        Some(4)
    } else if c == '5' {
        Some(5)
    } else if c == '6' {
        Some(6)
    } else if c == '7' {
        Some(7)
    } else if c == '8' {
        Some(8)
    } else if c == '9' {
        Some(9)
    } else {
        None
    }
}

proof fn lemma_value_grows(a: Seq<char>, b: Seq<char>)
    ensures
        digits_value(a + b) >= digits_value(a),
{
    lemma_digits_value_concat(a, b);
    crate::money::lemma_pow10_monotonic(0, b.len() as int);
    vstd::arithmetic::power::lemma_pow0(10);
    let x = digits_value(a) as int;
    let p = pow10(b.len() as int);
    assert(x * p >= x) by (nonlinear_arith)
        requires
            x >= 0,
            p >= 1,
    ;
}

/// The digits `text[from..to]` appended to a number written so far as
/// `value`; nothing if a character is no digit or the number reaches
/// `2^96`.
fn append_digits(
    text: &Vec<char>,
    from: usize,
    to: usize,
    value: i128,
    Ghost(written): Ghost<Seq<char>>,
) -> (r: Option<i128>)
    requires
        from <= to <= text.len(),
        0 <= value < mantissa_limit(),
        value == digits_value(written),
    ensures
        r matches Some(v) ==> all_digits(text@.subrange(from as int, to as int)) && v
            == digits_value(written + text@.subrange(from as int, to as int)) && 0 <= v
            < mantissa_limit(),
        r is None ==> !all_digits(text@.subrange(from as int, to as int)) || digits_value(
            written + text@.subrange(from as int, to as int),
        ) >= mantissa_limit(),
{
    let ghost part = text@.subrange(from as int, to as int);
    let mut v: i128 = value;
    let mut i: usize = from;
    proof {
        assert(written + part.take(0) =~= written);
    }
    while i < to
        invariant
            from <= i <= to <= text.len(),
            part == text@.subrange(from as int, to as int),
            0 <= v < mantissa_limit(),
            v == digits_value(written + part.take(i - from)),
            forall|k: int| 0 <= k < i - from ==> is_digit(#[trigger] part[k]),
        decreases to - i,
    {
        let ghost so_far = written + part.take(i - from);
        let ghost next = written + part.take(i - from + 1);
        proof {
            assert(next.drop_last() =~= so_far);
            assert(next.last() == text@[i as int]);
            assert(part[i - from] == text@[i as int]);
        }
        match digit_of(text[i]) {
            None => {
                return None;
            },
            Some(d) => {
                let grown: i128 = v * 10 + d;
                if grown >= 79228162514264337593543950336i128 {
                    proof {
                        assert(written + part =~= next + part.skip(i - from + 1));
                        lemma_value_grows(next, part.skip(i - from + 1));
                    }
                    return None;
                }
                v = grown;
            },
        }
        i = i + 1;
    }
    proof {
        assert(part.take(to - from) =~= part);
    }
    Some(v)
}

/// The amount a text writes.
pub fn parse_decimal_chars(text: &Vec<char>) -> (r: Option<Money>)
    ensures
        option_money_view(r) == parse_decimal(text@),
{
    proof {
        reveal(parse_decimal);
    }
    let n = text.len();
    let negative = n > 0 && text[0] == '-';
    let start: usize = if negative { 1 } else { 0 };
    let ghost body = if negative { text@.skip(1) } else { text@ };
    proof {
        assert(body =~= text@.subrange(start as int, n as int));
    }
    let mut p: usize = start;
    while p < n && text[p] != '.'
        invariant
            start <= p <= n,
            n == text.len(),
            forall|k: int| start <= k < p ==> text@[k] != '.',
        decreases n - p,
    {
        p = p + 1;
    }
    proof {
        assert forall|j: int| 0 <= j < p - start implies body[j] != '.' by {
            assert(body[j] == text@[j + start]);
        }
        if p < n {
            assert(body[p - start] == text@[p as int]);
        }
        lemma_prefix_before(body, '.', p - start);
    }
    let ghost whole = prefix_before(body, '.');
    let ghost pointed = whole.len() < body.len();
    let ghost frac = if pointed { body.skip(whole.len() as int + 1) } else { Seq::<char>::empty() };
    proof {
        assert(whole =~= text@.subrange(start as int, p as int));
        if p < n {
            assert(frac =~= text@.subrange(p as int + 1, n as int));
        }
    }
    if p == start {
        return None;
    }
    let whole_value = match append_digits(text, start, p, 0, Ghost(Seq::<char>::empty())) {
        Some(v) => v,
        None => {
            proof {
                assert(Seq::<char>::empty() + whole =~= whole);
                if all_digits(whole) && all_digits(frac) {
                    lemma_value_grows(whole, frac);
                }
            }
            return None;
        },
    };
    proof {
        assert(Seq::<char>::empty() + whole =~= whole);
    }
    if p == n {
        proof {
            assert(whole + frac =~= whole);
        }
        let mantissa: i128 = if negative { -whole_value } else { whole_value };
        return Money::from_parts(mantissa, 0);
    }
    let digits: usize = n - p - 1;
    if digits == 0 || digits > 28 {
        return None;
    }
    match append_digits(text, p + 1, n, whole_value, Ghost(whole)) {
        Some(v) => {
            let mantissa: i128 = if negative { -v } else { v };
            Money::from_parts(mantissa, digits as u32)
        },
        None => None,
    }
}

fn is_word(text: &String, word: &str) -> (r: bool)
    ensures
        r == (text@ == word@),
{
    let other = String::from_str(word);
    *text == other
}

fn parse_type_chars(field: &Vec<char>) -> (r: Option<TradeType>)
    ensures
        r == parse_type(field@),
{
    let text = text_of(field);
    if is_word(&text, "Long") {
        Some(TradeType::Long)
    } else if is_word(&text, "Short") {
        Some(TradeType::Short)
    } else {
        None
    }
}

fn parse_reason_chars(field: &Vec<char>) -> (r: Option<ExitReason>)
    ensures
        r == parse_reason(field@),
{
    let text = text_of(field);
    if is_word(&text, "TP") {
        Some(ExitReason::TakeProfit)
    } else if is_word(&text, "SL") {
        Some(ExitReason::StopLoss)
    } else if is_word(&text, "StrategyExit") {
        Some(ExitReason::StrategyExit)
    } else if is_word(&text, "Liquidation") {
        Some(ExitReason::Liquidation)
    } else if is_word(&text, "Timeout") {
        Some(ExitReason::Timeout)
    } else {
        None
    }
}

fn parse_hit_chars(field: &Vec<char>) -> (r: Option<HitTpSl>)
    ensures
        r == parse_hit(field@),
{
    let text = text_of(field);
    if is_word(&text, "TP") {
        Some(HitTpSl::TakeProfit)
    } else if is_word(&text, "SL") {
        Some(HitTpSl::StopLoss)
    } else if is_word(&text, "None") {
        Some(HitTpSl::Neither)
    } else {
        None
    }
}

pub open spec fn option_csv_trade_view(r: Option<CsvTrade>) -> Option<CsvTradeView> {
    match r {
        Some(t) => Some(t@),
        None => None,
    }
}

/// The trade a row writes.
pub fn parse_row(line: &Vec<char>) -> (r: Option<CsvTrade>)
    ensures
        option_csv_trade_view(r) == parse_line(line@),
{
    let f = split_chars(line, ',');
    if f.len() != 14 {
        return None;
    }
    proof {
        assert(nested(f@).len() == 14);
        assert forall|k: int| 0 <= k < 14 implies nested(f@)[k] == (#[trigger] f@[k])@ by {}
    }
    let trade_type = parse_type_chars(&f[1]);
    let entry_price = parse_decimal_chars(&f[2]);
    let exit_price = parse_decimal_chars(&f[4]);
    let exit_reason = parse_reason_chars(&f[6]);
    let hit_tp_sl = parse_hit_chars(&f[7]);
    let size_usd = parse_decimal_chars(&f[8]);
    let qty = parse_decimal_chars(&f[9]);
    let fees_usd = parse_decimal_chars(&f[10]);
    let pnl_usd = parse_decimal_chars(&f[11]);
    let pnl_pct = parse_decimal_chars(&f[12]);
    match (trade_type, entry_price, exit_price, exit_reason, hit_tp_sl) {
        (Some(t), Some(entry), Some(exit), Some(reason), Some(hit)) => {
            match (size_usd, qty, fees_usd, pnl_usd, pnl_pct) {
                (Some(size), Some(q), Some(fees), Some(pnl), Some(pct)) => Some(
                    CsvTrade {
                        date: text_of(&f[0]),
                        trade_type: t,
                        entry_price: entry,
                        entry_time_utc: text_of(&f[3]),
                        exit_price: exit,
                        exit_time_utc: text_of(&f[5]),
                        exit_reason: reason,
                        hit_tp_sl: hit,
                        size_usd: size,
                        qty: q,
                        fees_usd: fees,
                        pnl_usd: pnl,
                        pnl_pct: pct,
                        symbol: text_of(&f[13]),
                    },
                ),
                _ => None,
            }
        },
        _ => None,
    }
}

/// The trades of a CSV text: the rows between the header and the first
/// empty line.
pub fn parse_csv_trades(text: &str) -> (r: Option<Vec<CsvTrade>>)
    ensures
        option_csv_trades_view(r) == parse_csv_spec(text@),
{
    let chars = characters(text);
    let lines = split_chars(&chars, '\n');
    proof {
        lemma_split_nonempty(text@, '\n');
        assert(nested(lines@).len() == lines@.len());
    }
    let ghost all = nested(lines@);
    let first = text_of(&lines[0]);
    if !is_word(
        &first,
        "date,type,entry_price,entry_time_utc,exit_price,exit_time_utc,exit_reason,hit_tp_sl,size_usd,qty,fees_usd,pnl_usd,pnl_pct,symbol",
    ) {
        return None;
    }
    let mut out: Vec<CsvTrade> = Vec::new();
    let mut i: usize = 1;
    proof {
        assert(csv_trades_view(out@) =~= Seq::<CsvTradeView>::empty());
        match rows_from(all, 1) {
            Some(rest) => {
                assert(csv_trades_view(out@) + rest =~= rest);
            },
            None => {},
        }
    }
    while i < lines.len() && lines[i].len() > 0
        invariant
            1 <= i,
            all == nested(lines@),
            all == split(text@, '\n'),
            all[0] == header_line(),
            all.len() == lines@.len(),
            rows_from(all, 1) == (match rows_from(all, i as int) {
                Some(rest) => Some(csv_trades_view(out@) + rest),
                None => None,
            }),
        decreases lines.len() - i,
    {
        proof {
            assert(all[i as int] == lines@[i as int]@);
        }
        let ghost before = csv_trades_view(out@);
        match parse_row(&lines[i]) {
            None => {
                return None;
            },
            Some(trade) => {
                out.push(trade);
                proof {
                    assert(csv_trades_view(out@) =~= before.push(trade@));
                    match rows_from(all, i as int + 1) {
                        Some(rest) => {
                            assert(before + (seq![trade@] + rest) =~= before.push(trade@) + rest);
                        },
                        None => {},
                    }
                }
            },
        }
        i = i + 1;
    }
    proof {
        if i < lines.len() {
            assert(all[i as int] == lines@[i as int]@);
        }
        assert(csv_trades_view(out@) + Seq::<CsvTradeView>::empty() =~= csv_trades_view(out@));
    }
    Some(out)
}


/// The CSV of a generator's snapshot reads back as the generator's ledger,
/// provided no symbol of the ledger holds a comma or a line feed.
pub proof fn law_generated_csv_reads_back(g: &TradeTableGenerator, result: ResultView)
    requires
        g.wf(),
        result_spec(g@) == Ok::<ResultView, crate::types::EngineError>(result),
        forall|i: int| 0 <= i < g@.records.len() ==> plain((#[trigger] g@.records[i]).symbol),
    ensures
        parse_csv_spec(csv_text(result)) == Some(csv_parts(g@.records)),
{
    g.lemma_ledger_is_well_written();
    assert(result.trades == g@.records);
    law_csv_round_trip(result);
}

} // verus!
