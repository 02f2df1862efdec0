//! Amounts held to a declared number of decimals under a declared rounding.

use vstd::prelude::*;
use crate::money::{
    dec, div_opt, mul_spec, opt_div, option_money_view, pow10, quantize, quantize_spec, round_spec,
    Dec, Money,
};
use crate::types::{arith, or_arithmetic, EngineError};

pub use crate::money::RoundingMode;

verus! {

/// Decimals kept for prices, quantities and fees, and how they are rounded.
#[derive(Clone, Copy, Debug)]
pub struct PrecisionConfig {
    pub price_precision: u8,
    pub quantity_precision: u8,
    pub fee_precision: u8,
    pub rounding_mode: RoundingMode,
}

impl Default for PrecisionConfig {
    fn default() -> (r: Self)
        ensures
            r.price_precision == 8,
            r.quantity_precision == 8,
            r.fee_precision == 8,
            r.rounding_mode == RoundingMode::NearestEven,
    {
        PrecisionConfig {
            price_precision: 8,
            quantity_precision: 8,
            fee_precision: 8,
            rounding_mode: RoundingMode::NearestEven,
        }
    }
}

/// What floating point outside the kernel has to keep to.
#[derive(Clone, Copy, Debug)]
pub struct FloatConfig {
    pub rounding_mode: RoundingMode,
    pub enable_fma: bool,
    pub enable_fast_math: bool,
}

impl Default for FloatConfig {
    fn default() -> (r: Self)
        ensures
            r.rounding_mode == RoundingMode::NearestEven,
            !r.enable_fma,
            !r.enable_fast_math,
    {
        FloatConfig {
            rounding_mode: RoundingMode::NearestEven,
            enable_fma: false,
            enable_fast_math: false,
        }
    }
}

/// `value` rounded to `precision` decimals: scaled up by `10^precision`,
/// rounded to a whole number under `mode`, and scaled down again.  There
/// is no result for a precision above 19, whose power of ten exceeds 64
/// bits.
pub open spec fn round_to_precision_spec(value: Dec, precision: u8, mode: RoundingMode) -> Option<
    Dec,
> {
    if precision > 19 {
        None
    } else {
        let unit = dec(pow10(precision as int), 0);
        match mul_spec(value, unit) {
            Some(scaled) => div_opt(Some(round_spec(scaled, mode)), Some(unit)),
            None => None,
        }
    }
}

/// An amount with the precision and rounding it is kept at.
#[derive(Debug)]
pub struct PreciseDecimal {
    value: Money,
    precision: u8,
    rounding_mode: RoundingMode,
}

/// A precise amount as a value.
pub struct PreciseView {
    pub value: Dec,
    pub precision: u8,
    pub rounding_mode: RoundingMode,
}

impl View for PreciseDecimal {
    type V = PreciseView;

    closed spec fn view(&self) -> PreciseView {
        PreciseView {
            value: self.value@,
            precision: self.precision,
            rounding_mode: self.rounding_mode,
        }
    }
}

/// The precise amount made from `value`, if rounding it succeeds.
pub open spec fn precise_spec(value: Option<Dec>, precision: u8, mode: RoundingMode) -> Result<
    PreciseView,
    EngineError,
> {
    match value {
        Some(v) => match round_to_precision_spec(v, precision, mode) {
            Some(rounded) => Ok(PreciseView { value: rounded, precision, rounding_mode: mode }),
            None => Err(EngineError::Arithmetic),
        },
        None => Err(EngineError::Arithmetic),
    }
}

pub open spec fn precise_result_view(r: Result<PreciseDecimal, EngineError>) -> Result<
    PreciseView,
    EngineError,
> {
    match r {
        Ok(p) => Ok(p@),
        Err(e) => Err(e),
    }
}

pub open spec fn larger_precision(a: u8, b: u8) -> u8 {
    if a >= b {
        a
    } else {
        b
    }
}

impl Clone for PreciseDecimal {
    fn clone(&self) -> (r: Self)
        ensures
            r == *self,
    {
        PreciseDecimal {
            value: self.value,
            precision: self.precision,
            rounding_mode: self.rounding_mode,
        }
    }
}

impl PreciseDecimal {
    /// `value` kept at `precision` decimals under `rounding_mode`.
    pub fn new(value: Money, precision: u8, rounding_mode: RoundingMode) -> (r: Result<
        Self,
        EngineError,
    >)
        ensures
            precise_result_view(r) == precise_spec(Some(value@), precision, rounding_mode),
    {
        Self::from_parts(Some(value), precision, rounding_mode)
    }

    fn from_parts(value: Option<Money>, precision: u8, rounding_mode: RoundingMode) -> (r: Result<
        Self,
        EngineError,
    >)
        ensures
            precise_result_view(r) == precise_spec(
                option_money_view(value),
                precision,
                rounding_mode,
            ),
    {
        match value {
            Some(v) => match Self::round_to_precision(v, precision, rounding_mode) {
                Ok(rounded) => Ok(PreciseDecimal { value: rounded, precision, rounding_mode }),
                Err(e) => Err(EngineError::Arithmetic),
            },
            None => Err(EngineError::Arithmetic),
        }
    }

    pub fn value(&self) -> (r: Money)
        ensures
            r@ == self@.value,
    {
        self.value
    }

    pub fn precision(&self) -> (r: u8)
        ensures
            r == self@.precision,
    {
        self.precision
    }

    pub fn rounding_mode(&self) -> (r: RoundingMode)
        ensures
            r == self@.rounding_mode,
    {
        self.rounding_mode
    }

    /// `value` rounded to `precision` decimals under `mode`.
    pub fn round_to_precision(value: Money, precision: u8, mode: RoundingMode) -> (r: Result<
        Money,
        EngineError,
    >)
        ensures
            crate::types::money_result_view(r) == arith(
                round_to_precision_spec(value@, precision, mode),
            ),
    {
        let unit = match Money::power_of_ten(precision) {
            Some(u) => u,
            None => {
                return Err(EngineError::Arithmetic);
            },
        };
        match value.checked_mul(&unit) {
            Some(scaled) => or_arithmetic(opt_div(Some(scaled.round_with(mode)), Some(unit))),
            None => Err(EngineError::Arithmetic),
        }
    }

    /// The amount moved to the nearest multiple of `tick_size`, kept at the
    /// same precision and rounding.
    pub fn quantize_to_tick(&self, tick_size: Money) -> (r: Result<Self, EngineError>)
        ensures
            precise_result_view(r) == precise_spec(
                quantize_spec(Some(self@.value), tick_size@),
                self@.precision,
                self@.rounding_mode,
            ),
    {
        Self::from_parts(
            quantize(Some(self.value), &tick_size),
            self.precision,
            self.rounding_mode,
        )
    }

    /// The amount itself if, taken as a price for `quantity`, it reaches the
    /// minimum notional; the notional error if it falls short.
    pub fn ensure_min_notional(&self, min_notional: Money, quantity: Money) -> (r: Result<
        Self,
        EngineError,
    >)
        ensures
            precise_result_view(r) == (match mul_spec(self@.value, quantity@) {
                Some(notional) => if notional.lt(min_notional@) {
                    Err(EngineError::NotionalMin)
                } else {
                    Ok(self@)
                },
                None => Err(EngineError::Arithmetic),
            }),
    {
        match self.value.checked_mul(&quantity) {
            Some(notional) => if notional.lt(&min_notional) {
                Err(EngineError::NotionalMin)
            } else {
                Ok(self.clone())
            },
            None => Err(EngineError::Arithmetic),
        }
    }

    /// The sum, kept at the larger precision and the receiver's rounding.
    pub fn add(self, rhs: Self) -> (r: Result<Self, EngineError>)
        ensures
            precise_result_view(r) == precise_spec(
                crate::money::add_spec(self@.value, rhs@.value),
                larger_precision(self@.precision, rhs@.precision),
                self@.rounding_mode,
            ),
    {
        let precision = if self.precision >= rhs.precision {
            self.precision
        } else {
            rhs.precision
        };
        Self::from_parts(self.value.checked_add(&rhs.value), precision, self.rounding_mode)
    }

    /// The difference, kept at the larger precision and the receiver's rounding.
    pub fn sub(self, rhs: Self) -> (r: Result<Self, EngineError>)
        ensures
            precise_result_view(r) == precise_spec(
                crate::money::sub_spec(self@.value, rhs@.value),
                larger_precision(self@.precision, rhs@.precision),
                self@.rounding_mode,
            ),
    {
        let precision = if self.precision >= rhs.precision {
            self.precision
        } else {
            rhs.precision
        };
        Self::from_parts(self.value.checked_sub(&rhs.value), precision, self.rounding_mode)
    }

    /// The product, kept at the larger precision and the receiver's rounding.
    pub fn mul(self, rhs: Self) -> (r: Result<Self, EngineError>)
        ensures
            precise_result_view(r) == precise_spec(
                mul_spec(self@.value, rhs@.value),
                larger_precision(self@.precision, rhs@.precision),
                self@.rounding_mode,
            ),
    {
        let precision = if self.precision >= rhs.precision {
            self.precision
        } else {
            rhs.precision
        };
        Self::from_parts(self.value.checked_mul(&rhs.value), precision, self.rounding_mode)
    }

    /// The quotient, kept at the larger precision and the receiver's
    /// rounding; an arithmetic error for a zero divisor.
    pub fn div(self, rhs: Self) -> (r: Result<Self, EngineError>)
        ensures
            precise_result_view(r) == precise_spec(
                crate::money::div_spec(self@.value, rhs@.value),
                larger_precision(self@.precision, rhs@.precision),
                self@.rounding_mode,
            ),
            rhs@.value.is_zero() ==> r is Err,
    {
        let precision = if self.precision >= rhs.precision {
            self.precision
        } else {
            rhs.precision
        };
        Self::from_parts(self.value.checked_div(&rhs.value), precision, self.rounding_mode)
    }
}

} // verus!
