//! Currency conversion.
//!
//! Prices are in USD; other currencies are presentation, produced by a dated
//! rate. A converted amount is at best calculated. One converted with a stale
//! rate is at best an estimate, and a floor that is converted with one says how
//! old the rate is.
use vstd::prelude::*;
use vstd::string::StringExecFns;

use crate::decimal::{decimal_product, Decimal};
use crate::measurement::{
    kind_strength, Accuracy, AccuracyView, Measured, MeasuredView, MeasurementSource,
    UnavailableReason, UnavailableReasonView,
};
use crate::money::{currency_code, Currency, Money};
use crate::pricing::measured_amount;
use crate::text::{dec, dec_u64, Text};
use crate::time::{date_text, day_nanos, days_between, elapsed, truncated, Timestamp};

verus! {

/// A rate, and when it was true.
#[derive(Debug, Clone, PartialEq, Eq)]
pub struct ExchangeRate {
    pub quote: Currency,
    /// Units of `quote` per 1 USD.
    pub rate: Decimal,
    pub as_of: Timestamp,
    pub source: String,
}

/// A rate this many days old is stale.
pub const STALE_AFTER_DAYS: i64 = 7;

#[derive(Debug, Clone, Copy, PartialEq, Eq, Structural)]
pub enum FxError {
    NoRate(Currency),
    Unusable { currency: Currency },
}

/// A rate that is too old to be taken for current.
pub open spec fn stale(as_of: (i64, u32), now: (i64, u32)) -> bool {
    days_between(as_of, now) >= STALE_AFTER_DAYS
}

/// A currency's name as it is shown in an error.
pub open spec fn currency_name(c: Currency) -> Text {
    match c {
        Currency::Usd => "Usd"@,
        Currency::Eur => "Eur"@,
        Currency::Czk => "Czk"@,
    }
}

fn name_of(c: Currency) -> (s: &'static str)
    ensures
        s@ == currency_name(c),
{
    match c {
        Currency::Usd => "Usd",
        Currency::Eur => "Eur",
        Currency::Czk => "Czk",
    }
}

impl FxError {
    /// The error in words.
    pub fn message(&self) -> (s: String)
        ensures
            s@ == match *self {
                FxError::NoRate(c) => "no exchange rate is available for "@ + currency_name(c),
                FxError::Unusable { currency } => "the exchange rate for "@ + currency_name(
                    currency,
                ) + " is not a usable number"@,
            },
    {
        match *self {
            FxError::NoRate(c) => {
                let mut s = "no exchange rate is available for ".to_owned();
                s.append(name_of(c));
                s
            },
            FxError::Unusable { currency } => {
                let mut s = "the exchange rate for ".to_owned();
                s.append(name_of(currency));
                s.append(" is not a usable number");
                s
            },
        }
    }
}

impl ExchangeRate {
    pub fn age_days(&self, now: Timestamp) -> (d: i64)
        ensures
            d == days_between(self.as_of@, now@),
            self.as_of@.1 < 1_000_000_000 && now@.1 < 1_000_000_000 ==> d == truncated(
                elapsed(self.as_of@, now@),
                day_nanos(),
            ),
    {
        now.days_since(&self.as_of)
    }

    /// Whether the rate is too old to be taken for current. Outside leap seconds
    /// it is exactly from seven times twenty-four hours on.
    pub fn is_stale(&self, now: Timestamp) -> (b: bool)
        ensures
            b == stale(self.as_of@, now@),
            self.as_of@.1 < 1_000_000_000 && now@.1 < 1_000_000_000 ==> b == (elapsed(
                self.as_of@,
                now@,
            ) >= STALE_AFTER_DAYS * day_nanos()),
    {
        let age: i64 = self.age_days(now);
        proof {
            let e = elapsed(self.as_of@, now@);
            if e >= 0 {
                assert((e / day_nanos() >= 7) == (e >= 7 * day_nanos())) by (nonlinear_arith)
                    requires
                        e >= 0,
                        day_nanos() == 86_400_000_000_000,
                ;
            } else {
                assert((-e) / day_nanos() >= 0) by (nonlinear_arith)
                    requires
                        e < 0,
                        day_nanos() == 86_400_000_000_000,
                ;
            }
        }
        age >= STALE_AFTER_DAYS
    }
}

/// How certain an amount is once it is converted. With a fresh rate a floor
/// stays a floor and an estimate an estimate; what was exact or calculated is
/// calculated. With a stale one a floor says that too, with the rate's age and
/// date, and everything else is an estimate.
pub open spec fn after_conversion(
    a: AccuracyView,
    rate: ExchangeRate,
    now: (i64, u32),
) -> AccuracyView {
    if stale(rate.as_of@, now) {
        match a {
            AccuracyView::Partial { measured, total, reason } => AccuracyView::Partial {
                measured,
                total,
                reason: reason + "; "@ + described(Some(rate), now),
            },
            AccuracyView::Unavailable { .. } => a,
            _ => AccuracyView::Estimated { source: MeasurementSource::Estimated },
        }
    } else {
        match a {
            AccuracyView::Exact { .. } | AccuracyView::Calculated { .. } => {
                AccuracyView::Calculated { source: MeasurementSource::ApplicationTelemetry }
            },
            _ => a,
        }
    }
}

/// What an amount in USD comes to in a currency, and how certain that is.
pub open spec fn converted(
    amount: MeasuredView<(i128, u32)>,
    to: Currency,
    rate: Option<ExchangeRate>,
    now: (i64, u32),
) -> MeasuredView<(i128, u32)> {
    if to == Currency::Usd {
        amount
    } else {
        match (amount.value, rate) {
            (None, _) => amount,
            (Some(_), None) => MeasuredView {
                value: None,
                accuracy: AccuracyView::Unavailable {
                    reason: UnavailableReasonView::NoTelemetry {
                        detail: "No exchange rate is available for "@ + currency_code(to)
                            + ", so this amount cannot be shown in that currency. It is available in USD."@,
                    },
                },
            },
            (Some(v), Some(r)) => match decimal_product(v, r.rate@) {
                Some(p) => MeasuredView {
                    value: Some(p),
                    accuracy: after_conversion(amount.accuracy, r, now),
                },
                None => MeasuredView {
                    value: None,
                    accuracy: AccuracyView::Unavailable {
                        reason: UnavailableReasonView::NoTelemetry {
                            detail: "This amount is too large to be shown in "@ + currency_code(to)
                                + ". It is available in USD."@,
                        },
                    },
                },
            },
        }
    }
}

/// An optional borrowed rate.
pub open spec fn opt_rate(r: Option<&ExchangeRate>) -> Option<ExchangeRate> {
    match r {
        Some(r) => Some(*r),
        None => None,
    }
}

/// Convert an amount from USD.
pub fn convert(
    amount: Measured<Money>,
    to: Currency,
    rate: Option<&ExchangeRate>,
    now: Timestamp,
) -> (m: Measured<Money>)
    ensures
        measured_amount(m) == converted(measured_amount(amount), to, opt_rate(rate), now@),
        to == Currency::Usd || amount.value.is_none() ==> m == amount,
        amount.wf() ==> m.wf(),
{
    match to {
        Currency::Usd => {
            return amount;
        },
        _ => {},
    }
    let value = match amount.value {
        Some(v) => v,
        None => {
            return amount;
        },
    };
    let rate = match rate {
        Some(r) => r,
        None => {
            let mut detail = "No exchange rate is available for ".to_owned();
            detail.append(to.code());
            detail.append(
                ", so this amount cannot be shown in that currency. It is available in USD.",
            );
            return Measured::unavailable(UnavailableReason::NoTelemetry { detail });
        },
    };
    let product = match value.amount().checked_mul(rate.rate) {
        Some(p) => Money::new(p),
        None => {
            let mut detail = "This amount is too large to be shown in ".to_owned();
            detail.append(to.code());
            detail.append(". It is available in USD.");
            return Measured::unavailable(UnavailableReason::NoTelemetry { detail });
        },
    };
    let is_stale = rate.is_stale(now);
    match amount.accuracy {
        Accuracy::Exact { .. } | Accuracy::Calculated { .. } => {
            if is_stale {
                Measured::estimated(product)
            } else {
                Measured::calculated(product, MeasurementSource::ApplicationTelemetry)
            }
        },
        Accuracy::Estimated { source } => {
            if is_stale {
                Measured::estimated(product)
            } else {
                Measured { value: Some(product), accuracy: Accuracy::Estimated { source } }
            }
        },
        Accuracy::Partial { measured, total, reason } => {
            let mut why = reason;
            if is_stale {
                why.append("; ");
                why.append(describe(Some(rate), now).as_str());
            }
            Measured {
                value: Some(product),
                accuracy: Accuracy::Partial { measured, total, reason: why },
            }
        },
        accuracy => Measured { value: Some(product), accuracy },
    }
}

/// How a rate is described.
pub open spec fn described(rate: Option<ExchangeRate>, now: (i64, u32)) -> Text {
    match rate {
        None => "No exchange rate available."@,
        Some(r) => if stale(r.as_of@, now) {
            "FX rate "@ + dec(days_between(r.as_of@, now) as nat) + " days old, from "@
                + date_text(r.as_of@) + " ("@ + r.source@ + "). Amounts shown in "@
                + currency_code(r.quote) + " are approximate."@
        } else {
            "FX rate updated "@ + date_text(r.as_of@) + " ("@ + r.source@ + ")."@
        },
    }
}

/// How a rate should be described to its reader.
pub fn describe(rate: Option<&ExchangeRate>, now: Timestamp) -> (s: String)
    ensures
        s@ == described(opt_rate(rate), now@),
{
    match rate {
        None => "No exchange rate available.".to_owned(),
        Some(r) => {
            if r.is_stale(now) {
                let age: i64 = r.age_days(now);
                let mut s = "FX rate ".to_owned();
                s.append(dec_u64(age as u64).as_str());
                s.append(" days old, from ");
                s.append(r.as_of.date().as_str());
                s.append(" (");
                s.append(r.source.as_str());
                s.append("). Amounts shown in ");
                s.append(r.quote.code());
                s.append(" are approximate.");
                s
            } else {
                let mut s = "FX rate updated ".to_owned();
                s.append(r.as_of.date().as_str());
                s.append(" (");
                s.append(r.source.as_str());
                s.append(").");
                s
            }
        },
    }
}

/// An amount shown in another currency is at best calculated, whatever it was
/// in USD, and at best an estimate where the rate is stale.
pub proof fn law_conversion_is_never_exact(
    amount: MeasuredView<(i128, u32)>,
    to: Currency,
    rate: Option<ExchangeRate>,
    now: (i64, u32),
)
    requires
        to != Currency::Usd,
        amount.wf(),
    ensures
        !(converted(amount, to, rate, now).accuracy is Exact),
        amount.value.is_some() && rate.is_some() && stale(rate.unwrap().as_of@, now)
            ==> !(converted(amount, to, rate, now).accuracy is Calculated),
        amount.value.is_some() && rate.is_none() ==> converted(amount, to, rate, now).value.is_none(),
        amount.value.is_none() ==> converted(amount, to, rate, now) == amount,
{
}

/// An amount shown in another currency is never more certain than it was: a
/// floor keeps how much of it is measured, and an estimate stays one. With a
/// fresh rate neither changes at all; with a stale one a floor says, behind what
/// is missing from it, how old the rate is.
pub proof fn law_conversion_is_never_more_certain(
    amount: MeasuredView<(i128, u32)>,
    to: Currency,
    rate: Option<ExchangeRate>,
    now: (i64, u32),
)
    ensures
        kind_strength(converted(amount, to, rate, now).accuracy.kind()) <= kind_strength(
            amount.accuracy.kind(),
        ),
        rate.is_some() && !stale(rate.unwrap().as_of@, now) && (amount.accuracy is Partial
            || amount.accuracy is Estimated) && converted(amount, to, rate, now).value.is_some()
            ==> converted(amount, to, rate, now).accuracy == amount.accuracy,
        to != Currency::Usd && rate.is_some() && stale(rate.unwrap().as_of@, now)
            && amount.accuracy is Partial && converted(amount, to, rate, now).value.is_some()
            ==> converted(amount, to, rate, now).accuracy == (AccuracyView::Partial {
            measured: amount.accuracy->measured,
            total: amount.accuracy->total,
            reason: amount.accuracy->Partial_reason + "; "@ + described(rate, now),
        }),
        amount.accuracy is Estimated && converted(amount, to, rate, now).value.is_some()
            ==> converted(amount, to, rate, now).accuracy is Estimated,
{
}

/// An amount is converted by multiplying it with the rate, and its certainty does
/// not change the number; in USD, or where it is not known, it stays as it is.
pub proof fn law_conversion_multiplies_by_the_rate(
    amount: MeasuredView<(i128, u32)>,
    to: Currency,
    rate: ExchangeRate,
    now: (i64, u32),
)
    ensures
        converted(amount, Currency::Usd, Some(rate), now) == amount,
        to != Currency::Usd && amount.value.is_some() ==> converted(
            amount,
            to,
            Some(rate),
            now,
        ).value == decimal_product(amount.value.unwrap(), rate.rate@),
        to != Currency::Usd && amount.value.is_some() && decimal_product(
            amount.value.unwrap(),
            rate.rate@,
        ).is_none() ==> converted(amount, to, Some(rate), now).accuracy is Unavailable,
        to != Currency::Usd && amount.value.is_some() && decimal_product(
            amount.value.unwrap(),
            rate.rate@,
        ).is_some() && (amount.accuracy is Exact || amount.accuracy is Calculated) ==> (
        days_between(rate.as_of@, now) < 7 ==> converted(
            amount,
            to,
            Some(rate),
            now,
        ).accuracy is Calculated) && (days_between(rate.as_of@, now) >= 7 ==> converted(
            amount,
            to,
            Some(rate),
            now,
        ).accuracy is Estimated),
{
}

/// A description of a rate says its date and its source, and of a stale one its
/// age and that amounts are approximate.
pub proof fn law_a_description_dates_the_rate(rate: ExchangeRate, now: (i64, u32))
    ensures
        days_between(rate.as_of@, now) < 7 ==> described(Some(rate), now) == "FX rate updated "@
            + date_text(rate.as_of@) + " ("@ + rate.source@ + ")."@,
        days_between(rate.as_of@, now) >= 7 ==> described(Some(rate), now) == "FX rate "@ + dec(
            days_between(rate.as_of@, now) as nat,
        ) + " days old, from "@ + date_text(rate.as_of@) + " ("@ + rate.source@
            + "). Amounts shown in "@ + currency_code(rate.quote) + " are approximate."@,
{
}

/// A borrowed rate is the rate, and no rate is none.
pub proof fn law_a_borrowed_rate_is_the_rate(r: Option<&ExchangeRate>)
    ensures
        r.is_some() ==> opt_rate(r) == Some(*r.unwrap()),
        r.is_none() ==> opt_rate(r).is_none(),
{
}

} // verus!
