//! The money type: a base-10 decimal held as a signed 96-bit mantissa and a
//! scale between 0 and 28, with arithmetic carried out by `rust_decimal`.

use vstd::prelude::*;
use vstd::arithmetic::power::pow;

verus! {

/// Mathematical model of a decimal: the number `m / 10^s`.
pub struct Dec {
    pub m: int,
    pub s: int,
}

/// The decimal `m / 10^s`.
pub open spec fn dec(m: int, s: int) -> Dec {
    Dec { m, s }
}

/// `10^e` for `e >= 0`.
pub open spec fn pow10(e: int) -> int {
    pow(10, e as nat)
}

/// `10^(e+1) = 10 * 10^e`.
pub proof fn lemma_pow10_step(e: int)
    requires
        0 <= e,
    ensures
        pow10(e + 1) == 10 * pow10(e),
        pow10(e) > 0,
{
    vstd::arithmetic::power::lemma_pow_positive(10, e as nat);
    vstd::arithmetic::power::lemma_pow_adds(10, 1, e as nat);
    vstd::arithmetic::power::lemma_pow1(10);
    assert((1 + e) as nat == (e + 1) as nat);
}

/// `10^a <= 10^b` for `a <= b`.
pub proof fn lemma_pow10_monotonic(a: int, b: int)
    requires
        0 <= a <= b,
    ensures
        0 < pow10(a) <= pow10(b),
{
    vstd::arithmetic::power::lemma_pow_positive(10, a as nat);
    vstd::arithmetic::power::lemma_pow_increases(10, a as nat, b as nat);
}

/// `10^19`, the largest power of ten below `2^64`.
pub proof fn lemma_pow10_19()
    ensures
        pow10(19) == 10000000000000000000,
{
    reveal_with_fuel(pow, 20);
}

/// Mantissas lie strictly between `-2^96` and `2^96`.
pub open spec fn mantissa_limit() -> int {
    79228162514264337593543950336
}

/// The largest scale a decimal can carry.
pub open spec fn max_scale() -> int {
    28
}

impl Dec {
    /// A decimal that the 96-bit representation can hold.
    pub open spec fn wf(self) -> bool {
        &&& -mantissa_limit() < self.m < mantissa_limit()
        &&& 0 <= self.s <= max_scale()
    }

    /// The value in units of `10^-28`, an integer for every well-formed decimal.
    pub open spec fn units(self) -> int {
        self.m * pow10(max_scale() - self.s)
    }

    pub open spec fn is_zero(self) -> bool {
        self.m == 0
    }

    pub open spec fn lt(self, other: Dec) -> bool {
        self.units() < other.units()
    }

    pub open spec fn le(self, other: Dec) -> bool {
        self.units() <= other.units()
    }

    /// Equality of value, whatever the scales.
    pub open spec fn same_value(self, other: Dec) -> bool {
        self.units() == other.units()
    }

    pub open spec fn negated(self) -> Dec {
        dec(-self.m, self.s)
    }

    pub open spec fn magnitude(self) -> Dec {
        dec(if self.m < 0 { -self.m } else { self.m }, self.s)
    }
}

pub open spec fn larger_scale(a: Dec, b: Dec) -> int {
    if a.s >= b.s { a.s } else { b.s }
}

/// The sum of two decimals written without rounding: a zero operand hands
/// the other one back, otherwise the sum carries the larger of the two scales.
pub open spec fn exact_sum(a: Dec, b: Dec) -> Dec {
    if a.m == 0 {
        b
    } else if b.m == 0 {
        a
    } else {
        let s = larger_scale(a, b);
        dec(a.m * pow10(s - a.s) + b.m * pow10(s - b.s), s)
    }
}

/// `a - b` written without rounding.
pub open spec fn exact_difference(a: Dec, b: Dec) -> Dec {
    if a.m == 0 {
        b.negated()
    } else if b.m == 0 {
        a
    } else {
        let s = larger_scale(a, b);
        dec(a.m * pow10(s - a.s) - b.m * pow10(s - b.s), s)
    }
}

/// `a * b` written without rounding: a zero product is the plain zero,
/// otherwise mantissas multiply and scales add.
pub open spec fn exact_product(a: Dec, b: Dec) -> Dec {
    if a.m == 0 || b.m == 0 {
        dec(0, 0)
    } else {
        dec(a.m * b.m, a.s + b.s)
    }
}

/// What `rust_decimal` returns for `a + b` when the exact sum needs more than
/// 96 bits at the larger scale: a rounded sum at a smaller scale, or `None`
/// on overflow.
pub uninterp spec fn rounded_sum(a: Dec, b: Dec) -> Option<Dec>;

/// What `rust_decimal` returns for `a - b` when the exact difference does not fit.
pub uninterp spec fn rounded_difference(a: Dec, b: Dec) -> Option<Dec>;

/// What `rust_decimal` returns for `a * b` when the exact product does not
/// fit in 96 bits and 28 decimals.
pub uninterp spec fn rounded_product(a: Dec, b: Dec) -> Option<Dec>;

/// What `rust_decimal` returns for `a / b` with both operands non-zero: the
/// quotient rounded to the precision the representation allows, or `None` on
/// overflow.
pub uninterp spec fn quotient(a: Dec, b: Dec) -> Option<Dec>;

/// `String::push` of std: the character is appended.
pub assume_specification[ String::push ](s: &mut String, ch: char)
    ensures
        final(s)@ == old(s)@.push(ch),
;

/// The character of a decimal digit.
pub open spec fn digit_char(d: int) -> char {
    if d == 0 {
        '0'
    } else if d == 1 {
        '1'
    } else if d == 2 {
        '2'
    } else if d == 3 {
        '3'
    } else if d == 4 {
        '4'
    } else if d == 5 {
        '5'
    } else if d == 6 {
        '6'
    } else if d == 7 {
        '7'
    } else if d == 8 {
        '8'
    } else {
        '9'
    }
}

/// The decimal digits of a natural number, without leading zeros.
pub open spec fn decimal_digits(n: nat) -> Seq<char>
    decreases n,
{
    if n < 10 {
        seq![digit_char(n as int)]
    } else {
        decimal_digits(n / 10).push(digit_char((n % 10) as int))
    }
}

/// The last `width` decimal digits of a natural number, with leading zeros.
pub open spec fn padded_digits(n: nat, width: nat) -> Seq<char>
    decreases width,
{
    if width == 0 {
        Seq::empty()
    } else {
        padded_digits(n / 10, (width - 1) as nat).push(digit_char((n % 10) as int))
    }
}

/// The text of a decimal: a minus sign for a negative mantissa, the digits
/// of the whole part, and for a scale above zero a point and exactly
/// `scale` digits of the fraction.
pub open spec fn decimal_text(d: Dec) -> Seq<char> {
    let mag = (if d.m < 0 { -d.m } else { d.m }) as nat;
    let unit = pow10(d.s) as nat;
    (if d.m < 0 { seq!['-'] } else { Seq::empty() }) + decimal_digits(mag / unit) + (if d.s > 0 {
        seq!['.'] + padded_digits(mag % unit, d.s as nat)
    } else {
        Seq::empty()
    })
}

/// Result of a checked addition.
pub open spec fn add_spec(a: Dec, b: Dec) -> Option<Dec> {
    if exact_sum(a, b).wf() {
        Some(exact_sum(a, b))
    } else {
        rounded_sum(a, b)
    }
}

/// Result of a checked subtraction.
pub open spec fn sub_spec(a: Dec, b: Dec) -> Option<Dec> {
    if exact_difference(a, b).wf() {
        Some(exact_difference(a, b))
    } else {
        rounded_difference(a, b)
    }
}

/// Result of a checked multiplication.
pub open spec fn mul_spec(a: Dec, b: Dec) -> Option<Dec> {
    if exact_product(a, b).wf() {
        Some(exact_product(a, b))
    } else {
        rounded_product(a, b)
    }
}

/// Result of a checked division: `None` for a zero divisor, the plain zero
/// for a zero dividend.
pub open spec fn div_spec(a: Dec, b: Dec) -> Option<Dec> {
    if b.m == 0 {
        None
    } else if a.m == 0 {
        Some(dec(0, 0))
    } else {
        quotient(a, b)
    }
}

/// How a value is rounded to a whole number.
#[derive(Clone, Copy, Debug, PartialEq, Eq, Structural)]
pub enum RoundingMode {
    /// Half-way cases go to the even neighbour.
    NearestEven,
    /// Half-way cases go away from zero.
    NearestAway,
    /// The fraction is dropped.
    TowardZero,
    /// Up, toward positive infinity.
    TowardPositive,
    /// Down, toward negative infinity.
    TowardNegative,
}

/// Whether the magnitude `q + rem / p` rounds to `q + 1`.
pub open spec fn rounds_up(mode: RoundingMode, negative: bool, q: int, rem: int, p: int) -> bool {
    match mode {
        RoundingMode::NearestEven => 2 * rem > p || (2 * rem == p && q % 2 == 1),
        RoundingMode::NearestAway => 2 * rem >= p,
        RoundingMode::TowardZero => false,
        RoundingMode::TowardPositive => !negative && rem > 0,
        RoundingMode::TowardNegative => negative && rem > 0,
    }
}

/// The whole number nearest to `d` under `mode`, at scale 0.  A decimal that
/// already has scale 0 is its own rounding.
pub open spec fn round_spec(d: Dec, mode: RoundingMode) -> Dec {
    if d.s <= 0 {
        d
    } else {
        let p = pow10(d.s);
        let mag = if d.m < 0 { -d.m } else { d.m };
        let q = mag / p;
        let r = if rounds_up(mode, d.m < 0, q, mag % p, p) { q + 1 } else { q };
        dec(if d.m < 0 { -r } else { r }, 0)
    }
}

pub open spec fn parts_dec(m: i128, s: u32) -> Dec {
    dec(m as int, s as int)
}

pub open spec fn option_parts_dec(r: Option<(i128, u32)>) -> Option<Dec> {
    match r {
        Some(p) => Some(parts_dec(p.0, p.1)),
        None => None,
    }
}

pub open spec fn option_parts_wf(r: Option<(i128, u32)>) -> bool {
    match r {
        Some(p) => parts_dec(p.0, p.1).wf(),
        None => true,
    }
}

/// `rust_decimal::Decimal::checked_add`.  The sum is exact whenever it fits
/// at the larger scale; otherwise the crate's rounded result is named, not
/// described.  A result, when there is one, is a representable decimal.
#[verifier::external_body]
fn decimal_add(am: i128, asc: u32, bm: i128, bsc: u32) -> (r: Option<(i128, u32)>)
    requires
        parts_dec(am, asc).wf(),
        parts_dec(bm, bsc).wf(),
    ensures
        option_parts_dec(r) == (if exact_sum(parts_dec(am, asc), parts_dec(bm, bsc)).wf() {
            Some(exact_sum(parts_dec(am, asc), parts_dec(bm, bsc)))
        } else {
            rounded_sum(parts_dec(am, asc), parts_dec(bm, bsc))
        }),
        option_parts_wf(r),
{
    let a = rust_decimal::Decimal::from_i128_with_scale(am, asc);
    let b = rust_decimal::Decimal::from_i128_with_scale(bm, bsc);
    match a.checked_add(b) {
        Some(d) => Some((d.mantissa(), d.scale())),
        None => None,
    }
}

/// `rust_decimal::Decimal::checked_sub`, stated as `decimal_add` is.
#[verifier::external_body]
fn decimal_sub(am: i128, asc: u32, bm: i128, bsc: u32) -> (r: Option<(i128, u32)>)
    requires
        parts_dec(am, asc).wf(),
        parts_dec(bm, bsc).wf(),
    ensures
        option_parts_dec(r) == (if exact_difference(parts_dec(am, asc), parts_dec(bm, bsc)).wf() {
            Some(exact_difference(parts_dec(am, asc), parts_dec(bm, bsc)))
        } else {
            rounded_difference(parts_dec(am, asc), parts_dec(bm, bsc))
        }),
        option_parts_wf(r),
{
    let a = rust_decimal::Decimal::from_i128_with_scale(am, asc);
    let b = rust_decimal::Decimal::from_i128_with_scale(bm, bsc);
    match a.checked_sub(b) {
        Some(d) => Some((d.mantissa(), d.scale())),
        None => None,
    }
}

/// `rust_decimal::Decimal::checked_mul`.  The product is exact whenever the
/// product of the mantissas fits in 96 bits and the scales add up to at most
/// 28; a zero product is the plain zero.
#[verifier::external_body]
fn decimal_mul(am: i128, asc: u32, bm: i128, bsc: u32) -> (r: Option<(i128, u32)>)
    requires
        parts_dec(am, asc).wf(),
        parts_dec(bm, bsc).wf(),
    ensures
        option_parts_dec(r) == (if exact_product(parts_dec(am, asc), parts_dec(bm, bsc)).wf() {
            Some(exact_product(parts_dec(am, asc), parts_dec(bm, bsc)))
        } else {
            rounded_product(parts_dec(am, asc), parts_dec(bm, bsc))
        }),
        option_parts_wf(r),
{
    let a = rust_decimal::Decimal::from_i128_with_scale(am, asc);
    let b = rust_decimal::Decimal::from_i128_with_scale(bm, bsc);
    match a.checked_mul(b) {
        Some(d) => Some((d.mantissa(), d.scale())),
        None => None,
    }
}

/// `rust_decimal::Decimal::checked_div`.  A zero divisor gives `None`, a
/// zero dividend the plain zero; every other quotient is named.
#[verifier::external_body]
fn decimal_div(am: i128, asc: u32, bm: i128, bsc: u32) -> (r: Option<(i128, u32)>)
    requires
        parts_dec(am, asc).wf(),
        parts_dec(bm, bsc).wf(),
    ensures
        option_parts_dec(r) == (if bm == 0 {
            None
        } else if am == 0 {
            Some(dec(0, 0))
        } else {
            quotient(parts_dec(am, asc), parts_dec(bm, bsc))
        }),
        option_parts_wf(r),
{
    let a = rust_decimal::Decimal::from_i128_with_scale(am, asc);
    let b = rust_decimal::Decimal::from_i128_with_scale(bm, bsc);
    match a.checked_div(b) {
        Some(d) => Some((d.mantissa(), d.scale())),
        None => None,
    }
}

/// `rust_decimal::Decimal::round_dp_with_strategy` with zero decimal places:
/// the whole number that `round_spec` describes, at scale 0.
#[verifier::external_body]
fn decimal_round(m: i128, s: u32, mode: RoundingMode) -> (r: (i128, u32))
    requires
        parts_dec(m, s).wf(),
    ensures
        parts_dec(r.0, r.1) == round_spec(parts_dec(m, s), mode),
        parts_dec(r.0, r.1).wf(),
{
    let strategy = match mode {
        RoundingMode::NearestEven => rust_decimal::RoundingStrategy::MidpointNearestEven,
        RoundingMode::NearestAway => rust_decimal::RoundingStrategy::MidpointAwayFromZero,
        RoundingMode::TowardZero => rust_decimal::RoundingStrategy::ToZero,
        RoundingMode::TowardPositive => rust_decimal::RoundingStrategy::ToPositiveInfinity,
        RoundingMode::TowardNegative => rust_decimal::RoundingStrategy::ToNegativeInfinity,
    };
    let d = rust_decimal::Decimal::from_i128_with_scale(m, s).round_dp_with_strategy(0, strategy);
    (d.mantissa(), d.scale())
}

/// The `<` of `rust_decimal::Decimal`: a comparison of the two values,
/// whatever their scales.
#[verifier::external_body]
fn decimal_less(am: i128, asc: u32, bm: i128, bsc: u32) -> (r: bool)
    requires
        parts_dec(am, asc).wf(),
        parts_dec(bm, bsc).wf(),
    ensures
        r == parts_dec(am, asc).lt(parts_dec(bm, bsc)),
{
    rust_decimal::Decimal::from_i128_with_scale(am, asc) < rust_decimal::Decimal::from_i128_with_scale(bm, bsc)
}

/// The `to_string` of `rust_decimal::Decimal`: sign, whole part, and the
/// fraction written out to the full scale.
#[verifier::external_body]
fn decimal_to_string(m: i128, s: u32) -> (r: String)
    requires
        parts_dec(m, s).wf(),
    ensures
        r@ == decimal_text(parts_dec(m, s)),
{
    rust_decimal::Decimal::from_i128_with_scale(m, s).to_string()
}

/// A decimal amount: price, quantity, fee, notional or profit.
#[derive(Clone, Copy, Debug)]
pub struct Money {
    mantissa: i128,
    scale: u32,
}

impl View for Money {
    type V = Dec;

    closed spec fn view(&self) -> Dec {
        parts_dec(self.mantissa, self.scale)
    }
}

pub open spec fn option_money_view(r: Option<Money>) -> Option<Dec> {
    match r {
        Some(v) => Some(v@),
        None => None,
    }
}

impl Money {
    /// Every amount is one the representation can hold.
    #[verifier::type_invariant]
    pub open spec fn representable(self) -> bool {
        self@.wf()
    }

    /// The decimal `num / 10^scale`.
    pub fn new(num: i64, scale: u32) -> (r: Money)
        requires
            scale <= 28,
        ensures
            r@ == dec(num as int, scale as int),
    {
        Money { mantissa: num as i128, scale }
    }

    /// The decimal `mantissa / 10^scale`, if the representation can hold it.
    pub fn from_parts(mantissa: i128, scale: u32) -> (r: Option<Money>)
        ensures
            dec(mantissa as int, scale as int).wf() ==> r is Some && r->0@ == dec(
                mantissa as int,
                scale as int,
            ),
            !dec(mantissa as int, scale as int).wf() ==> r is None,
    {
        if scale <= 28 && -79228162514264337593543950336i128 < mantissa && mantissa
            < 79228162514264337593543950336i128 {
            Some(Money { mantissa, scale })
        } else {
            None
        }
    }

    /// The plain zero.
    pub fn zero() -> (r: Money)
        ensures
            r@ == dec(0, 0),
    {
        Money { mantissa: 0, scale: 0 }
    }

    /// A whole number.
    pub fn from_u64(n: u64) -> (r: Money)
        ensures
            r@ == dec(n as int, 0),
    {
        Money { mantissa: n as i128, scale: 0 }
    }

    pub fn mantissa(&self) -> (r: i128)
        ensures
            r == self@.m,
            self@.wf(),
    {
        proof {
            use_type_invariant(self);
        }
        self.mantissa
    }

    pub fn scale(&self) -> (r: u32)
        ensures
            r == self@.s,
            self@.wf(),
    {
        proof {
            use_type_invariant(self);
        }
        self.scale
    }

    /// `self + other`, or `None` on overflow.
    pub fn checked_add(&self, other: &Money) -> (r: Option<Money>)
        ensures
            option_money_view(r) == add_spec(self@, other@),
    {
        proof {
            use_type_invariant(self);
            use_type_invariant(other);
        }
        match decimal_add(self.mantissa, self.scale, other.mantissa, other.scale) {
            Some(p) => Some(Money { mantissa: p.0, scale: p.1 }),
            None => None,
        }
    }

    /// `self - other`, or `None` on overflow.
    pub fn checked_sub(&self, other: &Money) -> (r: Option<Money>)
        ensures
            option_money_view(r) == sub_spec(self@, other@),
    {
        proof {
            use_type_invariant(self);
            use_type_invariant(other);
        }
        match decimal_sub(self.mantissa, self.scale, other.mantissa, other.scale) {
            Some(p) => Some(Money { mantissa: p.0, scale: p.1 }),
            None => None,
        }
    }

    /// `self * other`, or `None` on overflow.
    pub fn checked_mul(&self, other: &Money) -> (r: Option<Money>)
        ensures
            option_money_view(r) == mul_spec(self@, other@),
    {
        proof {
            use_type_invariant(self);
            use_type_invariant(other);
        }
        match decimal_mul(self.mantissa, self.scale, other.mantissa, other.scale) {
            Some(p) => Some(Money { mantissa: p.0, scale: p.1 }),
            None => None,
        }
    }

    /// `self / other`, or `None` for a zero divisor or on overflow.
    pub fn checked_div(&self, other: &Money) -> (r: Option<Money>)
        ensures
            option_money_view(r) == div_spec(self@, other@),
    {
        proof {
            use_type_invariant(self);
            use_type_invariant(other);
        }
        match decimal_div(self.mantissa, self.scale, other.mantissa, other.scale) {
            Some(p) => Some(Money { mantissa: p.0, scale: p.1 }),
            None => None,
        }
    }

    /// The nearest whole number under `mode`.
    pub fn round_with(&self, mode: RoundingMode) -> (r: Money)
        ensures
            r@ == round_spec(self@, mode),
    {
        proof {
            use_type_invariant(self);
        }
        let p = decimal_round(self.mantissa, self.scale, mode);
        Money { mantissa: p.0, scale: p.1 }
    }

    /// The nearest whole number, half-way cases to the even neighbour.
    pub fn round(&self) -> (r: Money)
        ensures
            r@ == round_spec(self@, RoundingMode::NearestEven),
    {
        self.round_with(RoundingMode::NearestEven)
    }

    /// The value without its sign.
    pub fn abs(&self) -> (r: Money)
        ensures
            r@ == self@.magnitude(),
    {
        proof {
            use_type_invariant(self);
        }
        if self.mantissa < 0 {
            Money { mantissa: -self.mantissa, scale: self.scale }
        } else {
            Money { mantissa: self.mantissa, scale: self.scale }
        }
    }

    /// The value with its sign flipped.
    pub fn neg(&self) -> (r: Money)
        ensures
            r@ == self@.negated(),
    {
        proof {
            use_type_invariant(self);
        }
        Money { mantissa: -self.mantissa, scale: self.scale }
    }

    pub fn is_zero(&self) -> (r: bool)
        ensures
            r == self@.is_zero(),
    {
        self.mantissa == 0
    }

    /// `self < other` by value.
    pub fn lt(&self, other: &Money) -> (r: bool)
        ensures
            r == self@.lt(other@),
    {
        proof {
            use_type_invariant(self);
            use_type_invariant(other);
        }
        decimal_less(self.mantissa, self.scale, other.mantissa, other.scale)
    }

    /// `self > other` by value.
    pub fn gt(&self, other: &Money) -> (r: bool)
        ensures
            r == other@.lt(self@),
    {
        other.lt(self)
    }

    /// `self <= other` by value.
    pub fn le(&self, other: &Money) -> (r: bool)
        ensures
            r == self@.le(other@),
    {
        !other.lt(self)
    }

    /// `self >= other` by value.
    pub fn ge(&self, other: &Money) -> (r: bool)
        ensures
            r == other@.le(self@),
    {
        !self.lt(other)
    }

    /// Equality of value: `1.0` and `1.00` are the same amount.
    pub fn same_value(&self, other: &Money) -> (r: bool)
        ensures
            r == self@.same_value(other@),
    {
        !self.lt(other) && !other.lt(self)
    }

    /// The larger of two amounts; the receiver when they are equal.
    pub fn max(self, other: Money) -> (r: Money)
        ensures
            r == (if self@.lt(other@) { other } else { self }),
    {
        if self.lt(&other) { other } else { self }
    }

    /// The smaller of two amounts; the receiver when they are equal.
    pub fn min(self, other: Money) -> (r: Money)
        ensures
            r == (if other@.lt(self@) { other } else { self }),
    {
        if other.lt(&self) { other } else { self }
    }

    /// `10^p` as a whole number, for the exponents whose power fits in 64 bits.
    pub fn power_of_ten(p: u8) -> (r: Option<Money>)
        ensures
            option_money_view(r) == (if p <= 19 {
                Some(dec(pow10(p as int), 0))
            } else {
                None
            }),
    {
        if p > 19 {
            return None;
        }
        let mut value: u64 = 1;
        let mut i: u8 = 0;
        proof {
            vstd::arithmetic::power::lemma_pow0(10);
        }
        while i < p
            invariant
                i <= p <= 19,
                value as int == pow10(i as int),
            decreases p - i,
        {
            proof {
                lemma_pow10_step(i as int);
                lemma_pow10_monotonic(i as int + 1, 19);
                lemma_pow10_19();
            }
            value = value * 10;
            i = i + 1;
        }
        Some(Money::from_u64(value))
    }

    /// Whether two amounts are written alike: same mantissa, same scale.
    pub fn identical(&self, other: &Money) -> (r: bool)
        ensures
            r == (self@ == other@),
            r == (*self == *other),
    {
        self.mantissa == other.mantissa && self.scale == other.scale
    }

    /// The decimal digits, trailing zeros of the scale included.
    pub fn to_text(&self) -> (r: String)
        ensures
            r@ == decimal_text(self@),
    {
        proof {
            use_type_invariant(self);
        }
        decimal_to_string(self.mantissa, self.scale)
    }
}

impl PartialEq for Money {
    fn eq(&self, other: &Money) -> (r: bool) {
        self.same_value(other)
    }
}

impl vstd::std_specs::cmp::PartialEqSpecImpl for Money {
    open spec fn obeys_eq_spec() -> bool {
        true
    }

    open spec fn eq_spec(&self, other: &Money) -> bool {
        self@.same_value(other@)
    }
}

/// `a + b` where either operand may already be missing.
pub open spec fn add_opt(a: Option<Dec>, b: Option<Dec>) -> Option<Dec> {
    if a is Some && b is Some {
        add_spec(a->0, b->0)
    } else {
        None
    }
}

/// `a - b` where either operand may already be missing.
pub open spec fn sub_opt(a: Option<Dec>, b: Option<Dec>) -> Option<Dec> {
    if a is Some && b is Some {
        sub_spec(a->0, b->0)
    } else {
        None
    }
}

/// `a * b` where either operand may already be missing.
pub open spec fn mul_opt(a: Option<Dec>, b: Option<Dec>) -> Option<Dec> {
    if a is Some && b is Some {
        mul_spec(a->0, b->0)
    } else {
        None
    }
}

/// `a / b` where either operand may already be missing.
pub open spec fn div_opt(a: Option<Dec>, b: Option<Dec>) -> Option<Dec> {
    if a is Some && b is Some {
        div_spec(a->0, b->0)
    } else {
        None
    }
}

/// Rounding to the nearest whole number, half-way cases to even, of a value
/// that may already be missing.
pub open spec fn round_opt(a: Option<Dec>) -> Option<Dec> {
    match a {
        Some(v) => Some(round_spec(v, RoundingMode::NearestEven)),
        None => None,
    }
}

/// `round(value / step) * step`: the multiple of `step` nearest to `value`.
pub open spec fn quantize_spec(value: Option<Dec>, step: Dec) -> Option<Dec> {
    mul_opt(round_opt(div_opt(value, Some(step))), Some(step))
}

/// `a + b`, missing when an operand is.
pub fn opt_add(a: Option<Money>, b: Option<Money>) -> (r: Option<Money>)
    ensures
        option_money_view(r) == add_opt(option_money_view(a), option_money_view(b)),
{
    match (a, b) {
        (Some(x), Some(y)) => x.checked_add(&y),
        _ => None,
    }
}

/// `a - b`, missing when an operand is.
pub fn opt_sub(a: Option<Money>, b: Option<Money>) -> (r: Option<Money>)
    ensures
        option_money_view(r) == sub_opt(option_money_view(a), option_money_view(b)),
{
    match (a, b) {
        (Some(x), Some(y)) => x.checked_sub(&y),
        _ => None,
    }
}

/// `a * b`, missing when an operand is.
pub fn opt_mul(a: Option<Money>, b: Option<Money>) -> (r: Option<Money>)
    ensures
        option_money_view(r) == mul_opt(option_money_view(a), option_money_view(b)),
{
    match (a, b) {
        (Some(x), Some(y)) => x.checked_mul(&y),
        _ => None,
    }
}

/// `a / b`, missing when an operand is.
pub fn opt_div(a: Option<Money>, b: Option<Money>) -> (r: Option<Money>)
    ensures
        option_money_view(r) == div_opt(option_money_view(a), option_money_view(b)),
{
    match (a, b) {
        (Some(x), Some(y)) => x.checked_div(&y),
        _ => None,
    }
}

/// The nearest whole number, missing when the operand is.
pub fn opt_round(a: Option<Money>) -> (r: Option<Money>)
    ensures
        option_money_view(r) == round_opt(option_money_view(a)),
{
    match a {
        Some(x) => Some(x.round()),
        None => None,
    }
}

/// The multiple of `step` nearest to `value`.
pub fn quantize(value: Option<Money>, step: &Money) -> (r: Option<Money>)
    ensures
        option_money_view(r) == quantize_spec(option_money_view(value), step@),
{
    opt_mul(opt_round(opt_div(value, Some(*step))), Some(*step))
}


/// `10^a * 10^b = 10^(a+b)`.
pub proof fn lemma_pow10_adds(a: int, b: int)
    requires
        0 <= a,
        0 <= b,
    ensures
        pow10(a) * pow10(b) == pow10(a + b),
        pow10(a) > 0,
        pow10(b) > 0,
{
    vstd::arithmetic::power::lemma_pow_adds(10, a as nat, b as nat);
    vstd::arithmetic::power::lemma_pow_positive(10, a as nat);
    vstd::arithmetic::power::lemma_pow_positive(10, b as nat);
    assert((a as nat + b as nat) as nat == (a + b) as nat);
}

/// The units of a decimal carry the sign of its mantissa.
pub proof fn lemma_units_sign(a: Dec)
    requires
        a.wf(),
    ensures
        (a.units() > 0) == (a.m > 0),
        (a.units() < 0) == (a.m < 0),
        (a.units() == 0) == (a.m == 0),
        a.negated().units() == -a.units(),
        a.magnitude().units() == (if a.units() < 0 { -a.units() } else { a.units() }),
{
    let p = pow10(max_scale() - a.s);
    lemma_pow10_monotonic(0, max_scale() - a.s);
    assert((a.m * p > 0) == (a.m > 0) && (a.m * p < 0) == (a.m < 0) && (-a.m) * p == -(a.m * p))
        by (nonlinear_arith)
        requires
            p > 0,
    ;
}

/// Rewriting a decimal at a larger scale keeps its value.
proof fn lemma_rescaled_units(m: int, from: int, to: int)
    requires
        0 <= from <= to <= max_scale(),
    ensures
        dec(m * pow10(to - from), to).units() == dec(m, from).units(),
{
    lemma_pow10_adds(to - from, max_scale() - to);
    let x = pow10(to - from);
    let y = pow10(max_scale() - to);
    assert((m * x) * y == m * (x * y)) by (nonlinear_arith);
}

/// An exact sum has the value of its operands added.
pub proof fn lemma_exact_sum_units(a: Dec, b: Dec)
    requires
        a.wf(),
        b.wf(),
    ensures
        exact_sum(a, b).units() == a.units() + b.units(),
{
    lemma_units_sign(a);
    lemma_units_sign(b);
    if a.m != 0 && b.m != 0 {
        let s = larger_scale(a, b);
        lemma_rescaled_units(a.m, a.s, s);
        lemma_rescaled_units(b.m, b.s, s);
        let x = a.m * pow10(s - a.s);
        let y = b.m * pow10(s - b.s);
        let r = pow10(max_scale() - s);
        assert((x + y) * r == x * r + y * r) by (nonlinear_arith);
    }
}

/// An exact difference has the value of its operands subtracted.
pub proof fn lemma_exact_difference_units(a: Dec, b: Dec)
    requires
        a.wf(),
        b.wf(),
    ensures
        exact_difference(a, b).units() == a.units() - b.units(),
{
    lemma_units_sign(a);
    lemma_units_sign(b);
    if a.m != 0 && b.m != 0 {
        let s = larger_scale(a, b);
        lemma_rescaled_units(a.m, a.s, s);
        lemma_rescaled_units(b.m, b.s, s);
        let x = a.m * pow10(s - a.s);
        let y = b.m * pow10(s - b.s);
        let r = pow10(max_scale() - s);
        assert((x - y) * r == x * r - y * r) by (nonlinear_arith);
    }
}

/// An exact product of two positive amounts is positive, and so on for the
/// other signs.
pub proof fn lemma_exact_product_sign(a: Dec, b: Dec)
    requires
        a.wf(),
        b.wf(),
    ensures
        (exact_product(a, b).m > 0) == ((a.m > 0 && b.m > 0) || (a.m < 0 && b.m < 0)),
        (exact_product(a, b).m == 0) == (a.m == 0 || b.m == 0),
{
    assert((a.m * b.m > 0) == ((a.m > 0 && b.m > 0) || (a.m < 0 && b.m < 0)) && (a.m * b.m == 0)
        == (a.m == 0 || b.m == 0)) by (nonlinear_arith);
}

} // verus!
