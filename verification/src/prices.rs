//! Loading and recording prices.
//!
//! What was typed in is stored as integers and merged with the shipped table; a
//! user's entry wins a tie.
use vstd::prelude::*;
use vstd::slice::slice_subrange;
use vstd::string::StringExecFns;

use crate::decimal::{decimal_text, pow10, pow10_adds, pow10_positive, same_number, Decimal};
use crate::fx::{convert, converted, opt_rate, ExchangeRate};
use crate::measurement::{Measured, MeasuredView};
use crate::money::{
    currency_code, currency_named, law_currency_codes_round_trip, parse_currency, Currency, Money,
};
use crate::nano::{from_decimal, stored_nano, to_decimal};
use crate::pricing::{
    cost_of_all, cost_of_many, item_cost, item_views, law_every_bucket_costs_its_own_rate,
    law_reasoning_and_unclassified_add_nothing, measured_amount, sums_exactly, total_costs_exactly,
    totals_fit, try_cost_of_many,
};
use crate::repo::{law_first_sightings_are_stored_as_they_are, row_of};
use crate::table::{in_force, ModelPricing, PriceTable, Rates};
use crate::text::{copy_opt, opt_text, str_eq, Text};
use crate::time::{rfc3339_instant, sql_time_text, to_sql_time, Timestamp};
use crate::token_usage::TokenUsage;
use crate::tokens::{no_tokens, TokenBands};
use crate::usage::{Slice, Totals};

verus! {

/// One stored version of one model's price, in nano-USD per million tokens.
#[derive(Debug, Clone, PartialEq, Eq)]
pub struct PriceVersionRow {
    pub id: String,
    pub model_id: String,
    pub input_per_mtok: i64,
    pub output_per_mtok: i64,
    pub cache_read_per_mtok: Option<i64>,
    pub cache_write_5m_per_mtok: Option<i64>,
    pub cache_write_1h_per_mtok: Option<i64>,
    pub effective_from: String,
    /// `seed`, `user` or `updater`.
    pub source: String,
    pub note: Option<String>,
}

/// One stored exchange rate, in nano-units of the quote currency per 1 USD.
#[derive(Debug, Clone, PartialEq, Eq)]
pub struct FxRateRow {
    pub id: String,
    pub quote_currency: String,
    pub rate_nano: i64,
    pub as_of: String,
    pub source: String,
}

/// Why a price could not be recorded.
#[derive(Debug, Clone, PartialEq, Eq)]
pub enum PriceError {
    /// The storage failed.
    Db { message: String },
    /// A figure that cannot be represented at nano precision.
    Unstorable { field: &'static str, value: String },
}

impl PriceError {
    /// The error in words.
    pub fn message(&self) -> (s: String)
        ensures
            s@ == match *self {
                PriceError::Db { message } => message@,
                PriceError::Unstorable { field, value } => field@ + " is not a storable rate: "@
                    + value@,
            },
    {
        match self {
            PriceError::Db { message } => message.clone(),
            PriceError::Unstorable { field, value } => {
                let name: &'static str = *field;
                let mut s = name.to_owned();
                s.append(" is not a storable rate: ");
                s.append(value.as_str());
                s
            },
        }
    }
}

/// A rate is a whole number of nano-units, written with at most nine digits
/// behind the point.
pub open spec fn is_nano(rate: (i128, u32), n: i64) -> bool {
    same_number(rate, (n as i128, 9u32)) && rate.1 <= 9
}

/// What is stored of a rate. One that is a whole number of nano-units is stored
/// as that number.
pub open spec fn stored_as(rate: (i128, u32), n: i64) -> bool {
    stored_nano(rate) == Some(n) && forall|k: i64| #[trigger] is_nano(rate, k) ==> n == k
}

/// A rate that is refused because it cannot be stored, which no whole number of
/// nano-units is.
pub open spec fn refused(e: PriceError, field: Text, value: (i128, u32)) -> bool {
    &&& stored_nano(value).is_none()
    &&& forall|k: i64| !(#[trigger] is_nano(value, k))
    &&& match e {
        PriceError::Unstorable { field: f, value: v } => f@ == field && v@ == decimal_text(value),
        PriceError::Db { .. } => false,
    }
}

fn to_nano(field: &'static str, value: Decimal) -> (r: Result<i64, PriceError>)
    ensures
        match r {
            Ok(n) => stored_as(value@, n),
            Err(e) => refused(e, field@, value@),
        },
{
    match from_decimal(value) {
        Some(n) => Ok(n),
        None => Err(PriceError::Unstorable { field, value: value.text() }),
    }
}

/// A stored rate, or the input rate where none is stored.
pub open spec fn rate_or(stored: Option<i64>, input: i64) -> i64 {
    match stored {
        Some(n) => n,
        None => input,
    }
}

/// Rates that stand for stored ones: a missing cache rate means that cache is
/// charged at the input rate, not that it is free.
pub open spec fn rates_of(row: PriceVersionRow, r: Rates) -> bool {
    &&& same_number(r.input_per_mtok@, (row.input_per_mtok as i128, 9u32))
    &&& same_number(r.output_per_mtok@, (row.output_per_mtok as i128, 9u32))
    &&& same_number(
        r.cache_read_per_mtok@,
        (rate_or(row.cache_read_per_mtok, row.input_per_mtok) as i128, 9u32),
    )
    &&& same_number(
        r.cache_write_5m_per_mtok@,
        (rate_or(row.cache_write_5m_per_mtok, row.input_per_mtok) as i128, 9u32),
    )
    &&& same_number(
        r.cache_write_1h_per_mtok@,
        (rate_or(row.cache_write_1h_per_mtok, row.input_per_mtok) as i128, 9u32),
    )
}

/// Rates without the zeros that storage adds, so that storing them again gives
/// what was stored.
pub open spec fn storable(r: Rates) -> bool {
    &&& r.input_per_mtok@.1 <= 9
    &&& r.output_per_mtok@.1 <= 9
    &&& r.cache_read_per_mtok@.1 <= 9
    &&& r.cache_write_5m_per_mtok@.1 <= 9
    &&& r.cache_write_1h_per_mtok@.1 <= 9
}

fn to_rates(row: &PriceVersionRow) -> (r: Rates)
    ensures
        rates_of(*row, r),
        storable(r),
{
    let input: i64 = row.input_per_mtok;
    Rates {
        input_per_mtok: to_decimal(input),
        output_per_mtok: to_decimal(row.output_per_mtok),
        cache_read_per_mtok: to_decimal(row.cache_read_per_mtok.unwrap_or(input)),
        cache_write_5m_per_mtok: to_decimal(row.cache_write_5m_per_mtok.unwrap_or(input)),
        cache_write_1h_per_mtok: to_decimal(row.cache_write_1h_per_mtok.unwrap_or(input)),
    }
}

/// A price version that stands for a stored one.
pub open spec fn version_of(row: PriceVersionRow, p: ModelPricing) -> bool {
    &&& p.version_id == row.id
    &&& p.model_id == row.model_id
    &&& p.effective_from == row.effective_from
    &&& p.source == row.source
    &&& p.note == row.note
    &&& rates_of(row, p.rates)
    &&& storable(p.rates)
}

/// A stored row as a price version.
pub fn to_pricing(row: &PriceVersionRow) -> (p: ModelPricing)
    ensures
        version_of(*row, p),
{
    ModelPricing {
        version_id: row.id.clone(),
        model_id: row.model_id.clone(),
        rates: to_rates(row),
        effective_from: row.effective_from.clone(),
        source: row.source.clone(),
        note: copy_opt(&row.note),
    }
}

/// Add every stored version to a table, behind what is there already.
pub fn load_table(seed: PriceTable, rows: &Vec<PriceVersionRow>) -> (t: PriceTable)
    ensures
        t@.len() == seed@.len() + rows@.len(),
        forall|i: int| 0 <= i < seed@.len() ==> #[trigger] t@[i] == seed@[i],
        forall|i: int|
            0 <= i < rows@.len() ==> version_of(#[trigger] rows@[i], t@[seed@.len() + i]),
        loaded_behind(seed@, rows@, t@),
{
    let ghost before = seed@;
    let mut table = seed;
    let mut i: usize = 0;
    while i < rows.len()
        invariant
            i <= rows.len(),
            table@.len() == before.len() + i,
            forall|k: int| 0 <= k < before.len() ==> #[trigger] table@[k] == before[k],
            forall|k: int|
                0 <= k < i ==> version_of(#[trigger] rows@[k], table@[before.len() + k]),
        decreases rows.len() - i,
    {
        table.push(to_pricing(&rows[i]));
        i += 1;
    }
    table
}

/// The row to store for a price that was entered, and the price as it is used
/// from then on; or which figure cannot be stored. Nothing is stored of a price
/// that is refused.
pub open spec fn recorded(
    id: Text,
    model: Text,
    rates: Rates,
    note: Option<String>,
    at: (i64, u32),
    r: Result<(PriceVersionRow, ModelPricing), PriceError>,
) -> bool {
    match r {
        Ok((row, p)) => {
            &&& stored_as(rates.input_per_mtok@, row.input_per_mtok)
            &&& stored_as(rates.output_per_mtok@, row.output_per_mtok)
            &&& row.cache_read_per_mtok.is_some() && stored_as(
                rates.cache_read_per_mtok@,
                row.cache_read_per_mtok.unwrap(),
            )
            &&& row.cache_write_5m_per_mtok.is_some() && stored_as(
                rates.cache_write_5m_per_mtok@,
                row.cache_write_5m_per_mtok.unwrap(),
            )
            &&& row.cache_write_1h_per_mtok.is_some() && stored_as(
                rates.cache_write_1h_per_mtok@,
                row.cache_write_1h_per_mtok.unwrap(),
            )
            &&& row.id@ == id
            &&& row.model_id@ == model
            &&& row.effective_from@ == sql_time_text(at)
            &&& row.source@ == "user"@
            &&& row.note == note
            &&& p.version_id == row.id
            &&& p.model_id == row.model_id
            &&& p.effective_from == row.effective_from
            &&& p.source == row.source
            &&& p.note == row.note
            &&& p.rates == rates
        },
        Err(e) => if stored_nano(rates.input_per_mtok@).is_none() {
            refused(e, "input"@, rates.input_per_mtok@)
        } else if stored_nano(rates.output_per_mtok@).is_none() {
            refused(e, "output"@, rates.output_per_mtok@)
        } else if stored_nano(rates.cache_read_per_mtok@).is_none() {
            refused(e, "cache read"@, rates.cache_read_per_mtok@)
        } else if stored_nano(rates.cache_write_5m_per_mtok@).is_none() {
            refused(e, "5-minute cache write"@, rates.cache_write_5m_per_mtok@)
        } else {
            refused(e, "1-hour cache write"@, rates.cache_write_1h_per_mtok@)
        },
    }
}

/// A price that a user enters: what to store of it, and the price as it is used
/// from `at` on. A figure that cannot be stored is refused rather than stored
/// wrong.
pub fn save_price(
    id: String,
    model_id: &str,
    rates: Rates,
    note: Option<String>,
    at: Timestamp,
) -> (r: Result<(PriceVersionRow, ModelPricing), PriceError>)
    ensures
        recorded(id@, model_id@, rates, note, at@, r),
{
    let input: i64 = match to_nano("input", rates.input_per_mtok) {
        Ok(n) => n,
        Err(e) => {
            return Err(e);
        },
    };
    let output: i64 = match to_nano("output", rates.output_per_mtok) {
        Ok(n) => n,
        Err(e) => {
            return Err(e);
        },
    };
    let read: i64 = match to_nano("cache read", rates.cache_read_per_mtok) {
        Ok(n) => n,
        Err(e) => {
            return Err(e);
        },
    };
    let five: i64 = match to_nano("5-minute cache write", rates.cache_write_5m_per_mtok) {
        Ok(n) => n,
        Err(e) => {
            return Err(e);
        },
    };
    let hour: i64 = match to_nano("1-hour cache write", rates.cache_write_1h_per_mtok) {
        Ok(n) => n,
        Err(e) => {
            return Err(e);
        },
    };
    let row = PriceVersionRow {
        id,
        model_id: model_id.to_owned(),
        input_per_mtok: input,
        output_per_mtok: output,
        cache_read_per_mtok: Some(read),
        cache_write_5m_per_mtok: Some(five),
        cache_write_1h_per_mtok: Some(hour),
        effective_from: to_sql_time(at),
        source: "user".to_owned(),
        note,
    };
    let pricing = ModelPricing {
        version_id: row.id.clone(),
        model_id: row.model_id.clone(),
        rates,
        effective_from: row.effective_from.clone(),
        source: row.source.clone(),
        note: copy_opt(&row.note),
    };
    Ok((row, pricing))
}

/// An exchange rate that stands for a stored one.
pub open spec fn fx_of(row: FxRateRow, r: ExchangeRate) -> bool {
    &&& currency_named(row.quote_currency@) == Some(r.quote)
    &&& rfc3339_instant(row.as_of@) == Some(r.as_of@)
    &&& same_number(r.rate@, (row.rate_nano as i128, 9u32))
    &&& r.rate@.1 <= 9
    &&& r.source == row.source
}

/// A stored row that names a known currency and an instant.
pub open spec fn fx_readable(row: FxRateRow) -> bool {
    currency_named(row.quote_currency@).is_some() && rfc3339_instant(row.as_of@).is_some()
}

fn row_to_rate(row: &FxRateRow) -> (r: Option<ExchangeRate>)
    ensures
        r.is_some() == fx_readable(*row),
        r.is_some() ==> fx_of(*row, r.unwrap()),
{
    let quote = match parse_currency(row.quote_currency.as_str()) {
        Some(c) => c,
        None => {
            return None;
        },
    };
    let as_of = match Timestamp::parse_from_rfc3339(row.as_of.as_str()) {
        Some(t) => t,
        None => {
            return None;
        },
    };
    Some(
        ExchangeRate { quote, rate: to_decimal(row.rate_nano), as_of, source: row.source.clone() },
    )
}

/// The rows that can be read, in order.
pub open spec fn readable(rows: Seq<FxRateRow>) -> Seq<FxRateRow>
    decreases rows.len(),
{
    if rows.len() == 0 {
        Seq::empty()
    } else if fx_readable(rows.last()) {
        readable(rows.drop_last()).push(rows.last())
    } else {
        readable(rows.drop_last())
    }
}

/// The exchange rates that stored rows stand for; rows that name no known
/// currency or no instant are left out.
pub fn load_fx(rows: &Vec<FxRateRow>) -> (r: Vec<ExchangeRate>)
    ensures
        r@.len() == readable(rows@).len(),
        forall|i: int| 0 <= i < r@.len() ==> fx_of(readable(rows@)[i], #[trigger] r@[i]),
{
    let mut out: Vec<ExchangeRate> = Vec::new();
    let mut i: usize = 0;
    while i < rows.len()
        invariant
            i <= rows.len(),
            out@.len() == readable(rows@.take(i as int)).len(),
            forall|k: int|
                0 <= k < out@.len() ==> fx_of(
                    readable(rows@.take(i as int))[k],
                    #[trigger] out@[k],
                ),
        decreases rows.len() - i,
    {
        proof {
            assert(rows@.take(i + 1).drop_last() =~= rows@.take(i as int));
            assert(rows@.take(i + 1).last() == rows@[i as int]);
        }
        if let Some(rate) = row_to_rate(&rows[i]) {
            out.push(rate);
        }
        i += 1;
    }
    proof {
        assert(rows@.take(i as int) =~= rows@);
    }
    out
}

/// An exchange rate that a user enters: what to store of it, and the rate as it
/// is used from then on. A rate that cannot be stored is refused.
pub fn save_fx(id: String, quote: Currency, rate: Decimal, as_of: Timestamp) -> (r: Result<
    (FxRateRow, ExchangeRate),
    PriceError,
>)
    ensures
        match r {
            Ok((row, x)) => {
                &&& stored_as(rate@, row.rate_nano)
                &&& row.id == id
                &&& row.quote_currency@ == currency_code(quote)
                &&& row.as_of@ == sql_time_text(as_of@)
                &&& row.source@ == "manual"@
                &&& x.quote == quote
                &&& x.rate == rate
                &&& x.as_of == as_of
                &&& x.source == row.source
            },
            Err(e) => refused(e, "rate"@, rate@),
        },
        fx_recorded(id, quote, rate, as_of, r),
{
    let rate_nano: i64 = match to_nano("rate", rate) {
        Ok(n) => n,
        Err(e) => {
            return Err(e);
        },
    };
    let row = FxRateRow {
        id,
        quote_currency: quote.code().to_owned(),
        rate_nano,
        as_of: to_sql_time(as_of),
        source: "manual".to_owned(),
    };
    let source = row.source.clone();
    Ok((row, ExchangeRate { quote, rate, as_of, source }))
}

/// Everything needed to turn tokens into an amount that can be shown.
#[derive(Debug, Clone, Copy)]
pub struct CostContext<'a> {
    pub table: &'a PriceTable,
    pub fx: &'a [ExchangeRate],
    pub currency: Currency,
}

/// The first rate for a currency.
pub open spec fn rate_for(fx: Seq<ExchangeRate>, currency: Currency) -> Option<ExchangeRate>
    decreases fx.len(),
{
    if fx.len() == 0 {
        None
    } else if fx[0].quote == currency {
        Some(fx[0])
    } else {
        rate_for(fx.drop_first(), currency)
    }
}

impl<'a> CostContext<'a> {
    /// A context that does no conversion.
    pub fn usd(table: &'a PriceTable) -> (c: Self)
        ensures
            c.table == table,
            c.fx@.len() == 0,
            c.currency == Currency::Usd,
    {
        CostContext { table, fx: &[], currency: Currency::Usd }
    }

    pub fn rate(&self) -> (r: Option<&ExchangeRate>)
        ensures
            opt_rate(r) == rate_for(self.fx@, self.currency),
    {
        let mut i: usize = 0;
        proof {
            assert(self.fx@.skip(0) =~= self.fx@);
        }
        while i < self.fx.len()
            invariant
                i <= self.fx.len(),
                rate_for(self.fx@, self.currency) == rate_for(
                    self.fx@.skip(i as int),
                    self.currency,
                ),
            decreases self.fx.len() - i,
        {
            proof {
                assert(self.fx@.skip(i as int)[0] == self.fx@[i as int]);
                assert(self.fx@.skip(i as int).drop_first() =~= self.fx@.skip(i + 1));
            }
            if self.fx[i].quote == self.currency {
                return Some(&self.fx[i]);
            }
            i += 1;
        }
        None
    }

    /// Convert a USD amount into the display currency, as of an instant.
    pub fn present_at(&self, amount: Measured<Money>, now: Timestamp) -> (m: Measured<Money>)
        ensures
            measured_amount(m) == converted(
                measured_amount(amount),
                self.currency,
                rate_for(self.fx@, self.currency),
                now@,
            ),
            self.currency == Currency::Usd || amount.value.is_none() ==> m == amount,
            amount.wf() ==> m.wf(),
    {
        convert(amount, self.currency, self.rate(), now)
    }

    /// Convert a USD amount into the display currency. Whether the rate is
    /// stale depends on the present.
    pub fn present(&self, amount: Measured<Money>) -> (m: Measured<Money>)
        ensures
            exists|now: (i64, u32)|
                measured_amount(m) == #[trigger] converted(
                    measured_amount(amount),
                    self.currency,
                    rate_for(self.fx@, self.currency),
                    now,
                ),
            self.currency == Currency::Usd || amount.value.is_none() ==> m == amount,
            amount.wf() ==> m.wf(),
    {
        self.present_at(amount, Timestamp::now())
    }
}

/// Everything known about what things cost.
#[derive(Debug, Clone)]
pub struct MoneyState {
    pub table: PriceTable,
    /// The newest rate per currency.
    pub fx: Vec<ExchangeRate>,
}

impl MoneyState {
    pub fn cost_context(&self, currency: Currency) -> (c: CostContext<'_>)
        ensures
            *c.table == self.table,
            c.fx@ == self.fx@,
            c.currency == currency,
    {
        CostContext { table: &self.table, fx: self.fx.as_slice(), currency }
    }
}

/// A stored count; one that is negative counts as nothing.
pub open spec fn count_of(n: i64) -> u64 {
    if n >= 0 {
        n as u64
    } else {
        0
    }
}

/// A stored count; one that is negative counts as nothing.
pub fn as_u64(n: i64) -> (r: u64)
    ensures
        r == count_of(n),
{
    if n >= 0 {
        n as u64
    } else {
        0
    }
}

/// The buckets that stored totals hold.
pub open spec fn bands_of(t: Totals) -> TokenBands {
    TokenBands {
        input_fresh: count_of(t.input_fresh),
        cache_read: count_of(t.cache_read),
        cache_write_5m: count_of(t.cache_write_5m),
        cache_write_1h: count_of(t.cache_write_1h),
        cache_write_unspecified: count_of(t.cache_write_unspecified),
        output_total: count_of(t.output_total),
        reasoning: match t.reasoning {
            Some(r) => Some(count_of(r)),
            None => None,
        },
        unclassified: count_of(t.unclassified),
    }
}

/// Usage from stored totals: their buckets are disjoint already.
pub fn to_usage(t: &Totals) -> (u: TokenUsage)
    ensures
        u@ == bands_of(*t),
{
    TokenUsage::from_bands(
        TokenBands {
            input_fresh: as_u64(t.input_fresh),
            cache_read: as_u64(t.cache_read),
            cache_write_5m: as_u64(t.cache_write_5m),
            cache_write_1h: as_u64(t.cache_write_1h),
            cache_write_unspecified: as_u64(t.cache_write_unspecified),
            output_total: as_u64(t.output_total),
            reasoning: match t.reasoning {
                Some(r) => Some(as_u64(r)),
                None => None,
            },
            unclassified: as_u64(t.unclassified),
        },
    )
}

/// Slices as measurements: their buckets and their models.
pub open spec fn slice_items(slices: Seq<Slice>) -> Seq<(TokenBands, Option<Text>)> {
    slices.map_values(|s: Slice| (bands_of(s.totals), opt_text(s.model_id)))
}

fn to_items(slices: &[Slice]) -> (items: Vec<(TokenUsage, Option<String>)>)
    ensures
        item_views(items@) == slice_items(slices@),
{
    let mut items: Vec<(TokenUsage, Option<String>)> = Vec::new();
    let mut i: usize = 0;
    while i < slices.len()
        invariant
            i <= slices.len(),
            item_views(items@) == slice_items(slices@.take(i as int)),
        decreases slices.len() - i,
    {
        let ghost before = items@;
        items.push((to_usage(&slices[i].totals), copy_opt(&slices[i].model_id)));
        proof {
            let now = (bands_of(slices@[i as int].totals), opt_text(slices@[i as int].model_id));
            assert(item_views(items@) =~= item_views(before).push(now));
            assert(slice_items(slices@.take(i + 1)) =~= slice_items(
                slices@.take(i as int),
            ).push(now));
            assert(item_views(items@) =~= slice_items(slices@.take(i + 1)));
        }
        i += 1;
    }
    proof {
        assert(slices@.take(i as int) =~= slices@);
    }
    items
}

/// Cost a set of per-model slices, whose amounts add up within what a decimal
/// holds: per model, then summed. A slice whose model has no price makes the
/// sum a floor; with nothing priced or nothing measured it is unavailable.
pub fn cost_of_slices(slices: &[Slice], table: &PriceTable) -> (m: Measured<Money>)
    requires
        totals_fit(slice_items(slices@), table@),
    ensures
        measured_amount(m) == cost_of_all(slice_items(slices@), table@),
        m.wf(),
        sums_exactly(m, slice_items(slices@), table@),
{
    let items = to_items(slices);
    cost_of_many(items.as_slice(), table)
}

/// Cost a set of per-model slices. `None` where the amounts do not add up
/// within what a decimal holds.
pub fn try_cost_of_slices(slices: &[Slice], table: &PriceTable) -> (r: Option<Measured<Money>>)
    ensures
        match r {
            Some(m) => totals_fit(slice_items(slices@), table@) && measured_amount(m)
                == cost_of_all(slice_items(slices@), table@) && m.wf() && sums_exactly(
                m,
                slice_items(slices@),
                table@,
            ),
            None => !totals_fit(slice_items(slices@), table@) && forall|scale: nat|
                !(#[trigger] total_costs_exactly(slice_items(slices@), table@, scale)),
        },
{
    let items = to_items(slices);
    if try_cost_of_many(items.as_slice(), table).is_some() {
        Some(cost_of_slices(slices, table))
    } else {
        None
    }
}

/// Runs of slices with the same label, in order.
pub open spec fn grouped(slices: Seq<Slice>) -> Seq<(Text, Seq<Slice>)>
    decreases slices.len(),
{
    if slices.len() == 0 {
        Seq::empty()
    } else {
        let before = grouped(slices.drop_last());
        let s = slices.last();
        if before.len() > 0 && before.last().0 == s.at@ {
            before.drop_last().push((s.at@, before.last().1.push(s)))
        } else {
            before.push((s.at@, seq![s]))
        }
    }
}

/// Every bucket's amounts add up within what a decimal holds.
pub open spec fn buckets_fit(slices: Seq<Slice>, entries: Seq<ModelPricing>) -> bool {
    forall|i: int|
        0 <= i < grouped(slices).len() ==> totals_fit(
            slice_items((#[trigger] grouped(slices)[i]).1),
            entries,
        )
}

/// Each bucket's label and cost.
pub open spec fn bucket_costs(slices: Seq<Slice>, entries: Seq<ModelPricing>) -> Seq<
    (Text, MeasuredView<(i128, u32)>),
> {
    grouped(slices).map_values(
        |g: (Text, Seq<Slice>)| (g.0, cost_of_all(slice_items(g.1), entries)),
    )
}

/// The rows of a list, as the contracts see them.
pub open spec fn cost_rows(v: Seq<(String, Measured<Money>)>) -> Seq<
    (Text, MeasuredView<(i128, u32)>),
> {
    v.map_values(|r: (String, Measured<Money>)| (r.0@, measured_amount(r.1)))
}

/// Where each run of slices with the same label ends.
fn run_end(slices: &[Slice], from: usize) -> (to: usize)
    requires
        from < slices@.len(),
    ensures
        from < to <= slices@.len(),
        forall|i: int| from <= i < to ==> (#[trigger] slices@[i]).at@ == slices@[from as int].at@,
        to < slices@.len() ==> slices@[to as int].at@ != slices@[from as int].at@,
{
    let n: usize = slices.len();
    let mut to: usize = from + 1;
    while to < n && str_eq(slices[to].at.as_str(), slices[from].at.as_str())
        invariant
            n == slices@.len(),
            from < to <= n,
            forall|i: int|
                from <= i < to ==> (#[trigger] slices@[i]).at@ == slices@[from as int].at@,
        decreases n - to,
    {
        to += 1;
    }
    to
}

proof fn group_of_run(before: Seq<Slice>, group: Seq<Slice>, label: Text)
    requires
        group.len() > 0,
        forall|i: int| 0 <= i < group.len() ==> (#[trigger] group[i]).at@ == label,
        before.len() == 0 || before.last().at@ != label,
    ensures
        grouped(before + group) == grouped(before).push((label, group)),
    decreases group.len(),
{
    label_of_last(before);
    let d = group.drop_last();
    assert((before + group).drop_last() =~= before + d);
    assert((before + group).last() == group[group.len() - 1]);
    if d.len() == 0 {
        assert(before + d =~= before);
        assert(group =~= seq![group.last()]);
    } else {
        assert forall|i: int| 0 <= i < d.len() implies (#[trigger] d[i]).at@ == label by {
            assert(d[i] == group[i]);
        }
        group_of_run(before, d, label);
        assert(d.push(group.last()) =~= group);
        assert(grouped(before).push((label, d)).drop_last() =~= grouped(before));
    }
}

proof fn label_of_last(slices: Seq<Slice>)
    ensures
        slices.len() > 0 ==> grouped(slices).len() > 0 && grouped(slices).last().0
            == slices.last().at@,
        slices.len() == 0 ==> grouped(slices).len() == 0,
{
}

proof fn groups_of_prefix(before: Seq<Slice>, rest: Seq<Slice>)
    requires
        rest.len() > 0,
        before.len() == 0 || before.last().at@ != rest[0].at@,
    ensures
        grouped(before + rest).len() >= grouped(before).len(),
        grouped(before + rest).take(grouped(before).len() as int) == grouped(before),
    decreases rest.len(),
{
    let d = rest.drop_last();
    assert((before + rest).drop_last() =~= before + d);
    label_of_last(before);
    label_of_last(before + d);
    let n = grouped(before).len() as int;
    if d.len() == 0 {
        assert(before + d =~= before);
        assert(grouped(before + rest).take(n) =~= grouped(before));
    } else {
        assert(d[0] == rest[0]);
        groups_of_prefix(before, d);
        grows_behind(before, d);
        assert(grouped(before + rest).take(n) =~= grouped(before + d).take(n));
    }
}

proof fn grows_behind(before: Seq<Slice>, rest: Seq<Slice>)
    requires
        rest.len() > 0,
        before.len() == 0 || before.last().at@ != rest[0].at@,
    ensures
        grouped(before + rest).len() > grouped(before).len(),
    decreases rest.len(),
{
    let d = rest.drop_last();
    assert((before + rest).drop_last() =~= before + d);
    label_of_last(before);
    if d.len() == 0 {
        assert(before + d =~= before);
    } else {
        assert(d[0] == rest[0]);
        grows_behind(before, d);
    }
}

/// Cost each bucket of a series, keeping the labels, where every bucket's
/// amounts add up within what a decimal holds.
pub fn cost_by_bucket(slices: &[Slice], table: &PriceTable) -> (r: Vec<(String, Measured<Money>)>)
    requires
        buckets_fit(slices@, table@),
    ensures
        cost_rows(r@) == bucket_costs(slices@, table@),
{
    let mut out: Vec<(String, Measured<Money>)> = Vec::new();
    let mut at: usize = 0;
    proof {
        assert(slices@.take(0) =~= Seq::empty());
        assert(cost_rows(out@) =~= bucket_costs(slices@.take(0), table@));
    }
    while at < slices.len()
        invariant
            at <= slices.len(),
            buckets_fit(slices@, table@),
            0 < at < slices.len() ==> slices@[at - 1].at@ != slices@[at as int].at@,
            cost_rows(out@) == bucket_costs(slices@.take(at as int), table@),
        decreases slices.len() - at,
    {
        let end: usize = run_end(slices, at);
        let group = slice_subrange(slices, at, end);
        proof {
            let before = slices@.take(at as int);
            let label = slices@[at as int].at@;
            assert forall|i: int| 0 <= i < group@.len() implies (#[trigger] group@[i]).at@
                == label by {
                assert(group@[i] == slices@[at + i]);
            }
            if at > 0 {
                assert(before.last() == slices@[at - 1]);
            }
            group_of_run(before, group@, label);
            assert(before + group@ =~= slices@.take(end as int));
            let n = grouped(before).len() as int;
            assert(grouped(slices@.take(end as int))[n] == (label, group@));
            if end < slices@.len() {
                let rest = slices@.skip(end as int);
                assert(slices@.take(end as int) + rest =~= slices@);
                assert(slices@.take(end as int).last() == slices@[end - 1]);
                groups_of_prefix(slices@.take(end as int), rest);
                let m = grouped(slices@.take(end as int)).len() as int;
                assert(grouped(slices@)[n] == grouped(slices@).take(m)[n]);
            } else {
                assert(slices@.take(end as int) =~= slices@);
            }
            assert(totals_fit(slice_items(grouped(slices@)[n].1), table@));
        }
        let cost = cost_of_slices(group, table);
        let ghost rows = out@;
        out.push((slices[at].at.clone(), cost));
        proof {
            let now = (slices@[at as int].at@, cost_of_all(slice_items(group@), table@));
            assert(cost_rows(out@) =~= cost_rows(rows).push(now));
            assert(bucket_costs(slices@.take(end as int), table@) =~= bucket_costs(
                slices@.take(at as int),
                table@,
            ).push(now));
            assert(cost_rows(out@) =~= bucket_costs(slices@.take(end as int), table@));
            if end < slices@.len() {
                assert(slices@[end - 1].at@ == slices@[at as int].at@);
            }
        }
        at = end;
    }
    proof {
        assert(slices@.take(at as int) =~= slices@);
    }
    out
}

/// Cost each bucket of a series. `None` where some bucket's amounts do not add
/// up within what a decimal holds.
pub fn try_cost_by_bucket(slices: &[Slice], table: &PriceTable) -> (r: Option<
    Vec<(String, Measured<Money>)>,
>)
    ensures
        match r {
            Some(v) => buckets_fit(slices@, table@) && cost_rows(v@) == bucket_costs(
                slices@,
                table@,
            ),
            None => !buckets_fit(slices@, table@),
        },
{
    let mut at: usize = 0;
    proof {
        assert(slices@.take(0) =~= Seq::empty());
    }
    while at < slices.len()
        invariant
            at <= slices.len(),
            0 < at < slices.len() ==> slices@[at - 1].at@ != slices@[at as int].at@,
            buckets_fit(slices@.take(at as int), table@),
        decreases slices.len() - at,
    {
        let end: usize = run_end(slices, at);
        let group = slice_subrange(slices, at, end);
        let fits = try_cost_of_slices(group, table).is_some();
        proof {
            let before = slices@.take(at as int);
            let label = slices@[at as int].at@;
            assert forall|i: int| 0 <= i < group@.len() implies (#[trigger] group@[i]).at@
                == label by {
                assert(group@[i] == slices@[at + i]);
            }
            if at > 0 {
                assert(before.last() == slices@[at - 1]);
            }
            group_of_run(before, group@, label);
            assert(before + group@ =~= slices@.take(end as int));
            let n = grouped(before).len() as int;
            let now = grouped(slices@.take(end as int));
            assert(now[n] == (label, group@));
            if fits {
                assert forall|i: int| 0 <= i < now.len() implies totals_fit(
                    slice_items((#[trigger] now[i]).1),
                    table@,
                ) by {
                    if i < n {
                        assert(now[i] == grouped(before)[i]);
                    }
                }
            } else {
                if end < slices@.len() {
                    let rest = slices@.skip(end as int);
                    assert(slices@.take(end as int) + rest =~= slices@);
                    assert(slices@.take(end as int).last() == slices@[end - 1]);
                    groups_of_prefix(slices@.take(end as int), rest);
                    let m = now.len() as int;
                    assert(grouped(slices@)[n] == grouped(slices@).take(m)[n]);
                } else {
                    assert(slices@.take(end as int) =~= slices@);
                }
                assert(!totals_fit(slice_items(grouped(slices@)[n].1), table@));
            }
            if end < slices@.len() {
                assert(slices@[end - 1].at@ == slices@[at as int].at@);
            }
        }
        if !fits {
            return None;
        }
        at = end;
    }
    proof {
        assert(slices@.take(at as int) =~= slices@);
    }
    Some(cost_by_bucket(slices, table))
}

/// A stored price without cache rates charges its input rate for cache, not
/// nothing.
pub proof fn law_missing_cache_rate_is_the_input_rate(row: PriceVersionRow, r: Rates)
    requires
        rates_of(row, r),
        row.cache_read_per_mtok.is_none(),
        row.cache_write_5m_per_mtok.is_none(),
        row.cache_write_1h_per_mtok.is_none(),
    ensures
        same_number(r.cache_read_per_mtok@, (row.input_per_mtok as i128, 9u32)),
        same_number(r.cache_write_5m_per_mtok@, (row.input_per_mtok as i128, 9u32)),
        same_number(r.cache_write_1h_per_mtok@, (row.input_per_mtok as i128, 9u32)),
{
}

/// Two numbers that are the same as a third are the same.
proof fn same_as_a_third(a: (i128, u32), b: (i128, u32), c: (i128, u32))
    requires
        same_number(a, c),
        same_number(b, c),
    ensures
        same_number(a, b),
{
    let (x, y, z) = (a.0 as int, b.0 as int, c.0 as int);
    let pa = pow10(a.1 as nat) as int;
    let pb = pow10(b.1 as nat) as int;
    let pc = pow10(c.1 as nat) as int;
    pow10_positive(c.1 as nat);
    assert(x * pb == y * pa) by (nonlinear_arith)
        requires
            x * pc == z * pa,
            y * pc == z * pb,
            pc >= 1,
    {
        assert((x * pb) * pc == (x * pc) * pb);
        assert((z * pa) * pb == (z * pb) * pa);
        assert((y * pc) * pa == (y * pa) * pc);
        assert((x * pb) * pc == (y * pa) * pc);
    }
}

/// A rate with at most nine digits behind the point that fits into storage.
pub open spec fn fits_storage(rate: (i128, u32)) -> bool {
    rate.1 <= 9 && i64::MIN <= rate.0 * pow10((9 - rate.1) as nat) <= i64::MAX
}

proof fn fitting_rate_reads_back(rate: (i128, u32), n: i64, back: (i128, u32))
    requires
        fits_storage(rate),
        stored_as(rate, n),
        same_number(back, (n as i128, 9u32)),
    ensures
        same_number(back, rate),
{
    let k = (rate.0 * pow10((9 - rate.1) as nat)) as i64;
    pow10_adds((9 - rate.1) as nat, rate.1 as nat);
    let m = rate.0 as int;
    let p = pow10((9 - rate.1) as nat) as int;
    let q = pow10(rate.1 as nat) as int;
    assert(m * (p * q) == (m * p) * q) by (nonlinear_arith);
    assert(is_nano(rate, k));
    same_as_a_third(back, rate, (n as i128, 9u32));
}

/// A price is read back as it was entered: every rate with at most nine digits
/// behind the point that fits into storage comes back as the same number.
pub proof fn law_a_stored_price_reads_back(
    id: Text,
    model: Text,
    rates: Rates,
    note: Option<String>,
    at: (i64, u32),
    row: PriceVersionRow,
    entered: ModelPricing,
    loaded: ModelPricing,
)
    requires
        recorded(
            id,
            model,
            rates,
            note,
            at,
            Ok::<(PriceVersionRow, ModelPricing), PriceError>((row, entered)),
        ),
        version_of(row, loaded),
    ensures
        loaded.version_id == entered.version_id,
        loaded.model_id == entered.model_id,
        loaded.effective_from == entered.effective_from,
        loaded.source == entered.source,
        loaded.note == entered.note,
        fits_storage(rates.input_per_mtok@) ==> same_number(
            loaded.rates.input_per_mtok@,
            rates.input_per_mtok@,
        ),
        fits_storage(rates.output_per_mtok@) ==> same_number(
            loaded.rates.output_per_mtok@,
            rates.output_per_mtok@,
        ),
        fits_storage(rates.cache_read_per_mtok@) ==> same_number(
            loaded.rates.cache_read_per_mtok@,
            rates.cache_read_per_mtok@,
        ),
        fits_storage(rates.cache_write_5m_per_mtok@) ==> same_number(
            loaded.rates.cache_write_5m_per_mtok@,
            rates.cache_write_5m_per_mtok@,
        ),
        fits_storage(rates.cache_write_1h_per_mtok@) ==> same_number(
            loaded.rates.cache_write_1h_per_mtok@,
            rates.cache_write_1h_per_mtok@,
        ),
{
    let r = loaded.rates;
    if fits_storage(rates.input_per_mtok@) {
        fitting_rate_reads_back(rates.input_per_mtok@, row.input_per_mtok, r.input_per_mtok@);
    }
    if fits_storage(rates.output_per_mtok@) {
        fitting_rate_reads_back(rates.output_per_mtok@, row.output_per_mtok, r.output_per_mtok@);
    }
    if fits_storage(rates.cache_read_per_mtok@) {
        fitting_rate_reads_back(
            rates.cache_read_per_mtok@,
            row.cache_read_per_mtok.unwrap(),
            r.cache_read_per_mtok@,
        );
    }
    if fits_storage(rates.cache_write_5m_per_mtok@) {
        fitting_rate_reads_back(
            rates.cache_write_5m_per_mtok@,
            row.cache_write_5m_per_mtok.unwrap(),
            r.cache_write_5m_per_mtok@,
        );
    }
    if fits_storage(rates.cache_write_1h_per_mtok@) {
        fitting_rate_reads_back(
            rates.cache_write_1h_per_mtok@,
            row.cache_write_1h_per_mtok.unwrap(),
            r.cache_write_1h_per_mtok@,
        );
    }
}

/// An exchange rate is read back as it was entered, where it has at most nine
/// digits behind the point and fits into storage.
pub proof fn law_a_stored_exchange_rate_reads_back(
    rate: (i128, u32),
    row: FxRateRow,
    loaded: ExchangeRate,
)
    requires
        fits_storage(rate),
        stored_as(rate, row.rate_nano),
        fx_of(row, loaded),
    ensures
        same_number(loaded.rate@, rate),
{
    fitting_rate_reads_back(rate, row.rate_nano, loaded.rate@);
}

/// Stored counts go into the buckets of the same names: none is charged as
/// another, and one that is negative counts as nothing.
pub proof fn law_stored_columns_keep_their_buckets(t: Totals)
    ensures
        t.input_fresh >= 0 ==> bands_of(t).input_fresh == t.input_fresh,
        t.input_fresh < 0 ==> bands_of(t).input_fresh == 0,
        t.cache_read >= 0 ==> bands_of(t).cache_read == t.cache_read,
        t.cache_read < 0 ==> bands_of(t).cache_read == 0,
        t.cache_write_5m >= 0 ==> bands_of(t).cache_write_5m == t.cache_write_5m,
        t.cache_write_5m < 0 ==> bands_of(t).cache_write_5m == 0,
        t.cache_write_1h >= 0 ==> bands_of(t).cache_write_1h == t.cache_write_1h,
        t.cache_write_1h < 0 ==> bands_of(t).cache_write_1h == 0,
        t.cache_write_unspecified >= 0 ==> bands_of(t).cache_write_unspecified == t.cache_write_unspecified,
        t.cache_write_unspecified < 0 ==> bands_of(t).cache_write_unspecified == 0,
        t.output_total >= 0 ==> bands_of(t).output_total == t.output_total,
        t.output_total < 0 ==> bands_of(t).output_total == 0,
        t.unclassified >= 0 ==> bands_of(t).unclassified == t.unclassified,
        t.unclassified < 0 ==> bands_of(t).unclassified == 0,
        t.reasoning.is_some() == bands_of(t).reasoning.is_some(),
        t.reasoning.is_some() && t.reasoning.unwrap() >= 0 ==> bands_of(t).reasoning.unwrap()
            == t.reasoning.unwrap(),
        t.reasoning.is_some() && t.reasoning.unwrap() < 0 ==> bands_of(t).reasoning.unwrap() == 0,
{
}

/// A rate is found exactly where there is one, at whatever place of the list,
/// and it is the first one that quotes the currency.
pub proof fn law_a_rate_is_found_where_there_is_one(fx: Seq<ExchangeRate>, currency: Currency)
    ensures
        rate_for(fx, currency).is_none() <==> forall|i: int|
            0 <= i < fx.len() ==> (#[trigger] fx[i]).quote != currency,
        rate_for(fx, currency).is_some() ==> exists|i: int|
            0 <= i < fx.len() && #[trigger] fx[i] == rate_for(fx, currency).unwrap()
                && fx[i].quote == currency && forall|j: int|
                0 <= j < i ==> (#[trigger] fx[j]).quote != currency,
    decreases fx.len(),
{
    if fx.len() > 0 {
        let rest = fx.drop_first();
        law_a_rate_is_found_where_there_is_one(rest, currency);
        if fx[0].quote != currency {
            if rate_for(rest, currency).is_some() {
                let k = choose|k: int|
                    0 <= k < rest.len() && #[trigger] rest[k] == rate_for(rest, currency).unwrap()
                        && rest[k].quote == currency && forall|j: int|
                        0 <= j < k ==> (#[trigger] rest[j]).quote != currency;
                assert(fx[k + 1] == rest[k]);
                assert forall|j: int| 0 <= j < k + 1 implies (#[trigger] fx[j]).quote
                    != currency by {
                    if j > 0 {
                        assert(fx[j] == rest[j - 1]);
                    }
                }
            } else {
                assert forall|i: int| 0 <= i < fx.len() implies (#[trigger] fx[i]).quote
                    != currency by {
                    if i > 0 {
                        assert(fx[i] == rest[i - 1]);
                    }
                }
            }
        }
    }
}

/// Usage that is stored and read back is the same usage, bucket by bucket.
pub proof fn law_stored_usage_reads_back(u: TokenBands, t: Totals)
    requires
        u.input_fresh <= i64::MAX,
        u.cache_read <= i64::MAX,
        u.cache_write_5m <= i64::MAX,
        u.cache_write_1h <= i64::MAX,
        u.cache_write_unspecified <= i64::MAX,
        u.output_total <= i64::MAX,
        u.unclassified <= i64::MAX,
        u.reasoning.is_some() ==> u.reasoning.unwrap() <= i64::MAX,
        t.input_fresh == row_of(u).input_fresh,
        t.cache_read == row_of(u).cache_read,
        t.cache_write_5m == row_of(u).cache_write_5m,
        t.cache_write_1h == row_of(u).cache_write_1h,
        t.cache_write_unspecified == row_of(u).cache_write_unspecified,
        t.output_total == row_of(u).output_total,
        t.unclassified == row_of(u).unclassified,
        t.reasoning == row_of(u).reasoning,
    ensures
        bands_of(t) == u,
{
    law_first_sightings_are_stored_as_they_are(u);
    law_stored_columns_keep_their_buckets(t);
}

/// A stored price is loaded column by column: each rate is its own column's, and
/// the cache rates that are not stored are the input rate.
pub proof fn law_stored_rates_keep_their_columns(row: PriceVersionRow, p: ModelPricing)
    requires
        version_of(row, p),
    ensures
        p.version_id == row.id,
        p.model_id == row.model_id,
        p.effective_from == row.effective_from,
        p.source == row.source,
        p.note == row.note,
        p.rates.input_per_mtok@.0 * pow10(9) == row.input_per_mtok * pow10(
            p.rates.input_per_mtok@.1 as nat,
        ),
        p.rates.output_per_mtok@.0 * pow10(9) == row.output_per_mtok * pow10(
            p.rates.output_per_mtok@.1 as nat,
        ),
        row.cache_read_per_mtok.is_some() ==> p.rates.cache_read_per_mtok@.0 * pow10(9)
            == row.cache_read_per_mtok.unwrap() * pow10(p.rates.cache_read_per_mtok@.1 as nat),
        row.cache_read_per_mtok.is_none() ==> p.rates.cache_read_per_mtok@.0 * pow10(9)
            == row.input_per_mtok * pow10(p.rates.cache_read_per_mtok@.1 as nat),
        row.cache_write_5m_per_mtok.is_some() ==> p.rates.cache_write_5m_per_mtok@.0 * pow10(9)
            == row.cache_write_5m_per_mtok.unwrap() * pow10(p.rates.cache_write_5m_per_mtok@.1 as nat),
        row.cache_write_5m_per_mtok.is_none() ==> p.rates.cache_write_5m_per_mtok@.0 * pow10(9)
            == row.input_per_mtok * pow10(p.rates.cache_write_5m_per_mtok@.1 as nat),
        row.cache_write_1h_per_mtok.is_some() ==> p.rates.cache_write_1h_per_mtok@.0 * pow10(9)
            == row.cache_write_1h_per_mtok.unwrap() * pow10(p.rates.cache_write_1h_per_mtok@.1 as nat),
        row.cache_write_1h_per_mtok.is_none() ==> p.rates.cache_write_1h_per_mtok@.0 * pow10(9)
            == row.input_per_mtok * pow10(p.rates.cache_write_1h_per_mtok@.1 as nat),
{
}

/// A price that is entered is stored column by column, under its own model and
/// from its own instant, as the user's: a rate written with nine digits behind
/// the point is stored as its digits.
pub proof fn law_entered_rates_keep_their_columns(
    id: Text,
    model: Text,
    rates: Rates,
    note: Option<String>,
    at: (i64, u32),
    row: PriceVersionRow,
    entered: ModelPricing,
)
    requires
        recorded(
            id,
            model,
            rates,
            note,
            at,
            Ok::<(PriceVersionRow, ModelPricing), PriceError>((row, entered)),
        ),
    ensures
        row.id@ == id,
        row.model_id@ == model,
        row.effective_from@ == sql_time_text(at),
        row.source@ == "user"@,
        row.note == note,
        entered.rates == rates,
        entered.version_id@ == id,
        entered.model_id@ == model,
        entered.effective_from@ == sql_time_text(at),
        entered.source@ == "user"@,
        forall|k: i64|
            #![trigger nine_digits(k)]
            rates.input_per_mtok@ == nine_digits(k) ==> row.input_per_mtok == k,
        forall|k: i64|
            #![trigger nine_digits(k)]
            rates.output_per_mtok@ == nine_digits(k) ==> row.output_per_mtok == k,
        forall|k: i64|
            #![trigger nine_digits(k)]
            rates.cache_read_per_mtok@ == nine_digits(k) ==> row.cache_read_per_mtok == Some(k),
        forall|k: i64|
            #![trigger nine_digits(k)]
            rates.cache_write_5m_per_mtok@ == nine_digits(k) ==> row.cache_write_5m_per_mtok == Some(k),
        forall|k: i64|
            #![trigger nine_digits(k)]
            rates.cache_write_1h_per_mtok@ == nine_digits(k) ==> row.cache_write_1h_per_mtok == Some(k),
{
    assert forall|k: i64| is_nano(#[trigger] nine_digits(k), k) by {
        assert(same_number(nine_digits(k), (k as i128, 9u32)));
    }
}

/// So many nano-units, written with nine digits behind the point.
pub open spec fn nine_digits(k: i64) -> (i128, u32) {
    (k as i128, 9u32)
}

/// No stored exchange rate that can be read is left out, and none is loaded that
/// is not stored.
pub proof fn law_readable_rates_are_loaded(rows: Seq<FxRateRow>, row: FxRateRow)
    ensures
        readable(Seq::empty()) == Seq::<FxRateRow>::empty(),
        currency_named(row.quote_currency@).is_some() && rfc3339_instant(row.as_of@).is_some()
            ==> readable(rows.push(row)) == readable(rows).push(row),
        currency_named(row.quote_currency@).is_none() || rfc3339_instant(row.as_of@).is_none()
            ==> readable(rows.push(row)) == readable(rows),
{
    assert(rows.push(row).drop_last() =~= rows);
}

/// A stored exchange rate is loaded with its own currency, instant, number and
/// source.
pub proof fn law_a_loaded_rate_is_the_stored_one(row: FxRateRow, r: ExchangeRate)
    requires
        fx_of(row, r),
    ensures
        Some(r.quote) == currency_named(row.quote_currency@),
        Some(r.as_of@) == rfc3339_instant(row.as_of@),
        r.rate@.0 * pow10(9) == row.rate_nano * pow10(r.rate@.1 as nat),
        r.source == row.source,
{
}

/// Each slice is priced as its own model's usage.
pub proof fn law_slices_are_priced_per_model(slices: Seq<Slice>, i: int)
    requires
        0 <= i < slices.len(),
    ensures
        slice_items(slices).len() == slices.len(),
        slice_items(slices)[i].0 == bands_of(slices[i].totals),
        slice_items(slices)[i].1 == opt_text(slices[i].model_id),
{
}

/// One label's slices are one group of that label, which holds all of them.
pub proof fn law_one_label_is_one_group(slices: Seq<Slice>, label: Text)
    requires
        slices.len() > 0,
        forall|i: int| 0 <= i < slices.len() ==> (#[trigger] slices[i]).at@ == label,
    ensures
        grouped(slices) == seq![(label, slices)],
    decreases slices.len(),
{
    let d = slices.drop_last();
    assert(slices[slices.len() - 1].at@ == label);
    if d.len() > 0 {
        assert forall|i: int| 0 <= i < d.len() implies (#[trigger] d[i]).at@ == label by {
            assert(d[i] == slices[i]);
        }
        law_one_label_is_one_group(d, label);
        let before = grouped(d);
        assert(before.last() == (label, d));
        assert(d.push(slices.last()) =~= slices);
        assert(grouped(slices) == before.drop_last().push((label, slices)));
        assert(before.drop_last() =~= Seq::<(Text, Seq<Slice>)>::empty());
        assert(before.drop_last().push((label, slices)) =~= seq![(label, slices)]);
    } else {
        let before = grouped(d);
        assert(d =~= Seq::<Slice>::empty());
        assert(before =~= Seq::<(Text, Seq<Slice>)>::empty());
        assert(seq![slices.last()] =~= slices);
        assert(grouped(slices) == before.push((label, seq![slices.last()])));
        assert(before.push((label, slices)) =~= seq![(label, slices)]);
    }
}

/// A change of label starts a new group: what comes before it is grouped, and
/// costed, as if nothing came after.
pub proof fn law_labels_part_the_groups(a: Seq<Slice>, b: Seq<Slice>)
    requires
        a.len() > 0,
        b.len() > 0,
        a.last().at@ != b[0].at@,
    ensures
        grouped(a + b) == grouped(a) + grouped(b),
    decreases b.len(),
{
    let d = b.drop_last();
    assert((a + b).drop_last() =~= a + d);
    assert((a + b).last() == b.last());
    label_of_last(a);
    if d.len() == 0 {
        assert(a + d =~= a);
        assert(b[0] == b.last());
        assert(grouped(d) =~= Seq::<(Text, Seq<Slice>)>::empty());
        assert(grouped(a + b) =~= grouped(a) + grouped(b));
    } else {
        assert(d[0] == b[0]);
        law_labels_part_the_groups(a, d);
        label_of_last(d);
        assert((grouped(a) + grouped(d)).last() == grouped(d).last());
        assert(grouped(a + b) =~= grouped(a) + grouped(b));
    }
}

/// Each bucket's cost stands under its own label.
pub proof fn law_bucket_costs_keep_their_labels(
    slices: Seq<Slice>,
    entries: Seq<ModelPricing>,
    i: int,
)
    requires
        0 <= i < grouped(slices).len(),
    ensures
        bucket_costs(slices, entries).len() == grouped(slices).len(),
        bucket_costs(slices, entries)[i].0 == grouped(slices)[i].0,
        bucket_costs(slices, entries)[i].1 == cost_of_all(
            slice_items(grouped(slices)[i].1),
            entries,
        ),
{
}

/// A table with stored versions behind what was there.
pub open spec fn loaded_behind(
    seed: Seq<ModelPricing>,
    rows: Seq<PriceVersionRow>,
    table: Seq<ModelPricing>,
) -> bool {
    &&& table.len() == seed.len() + rows.len()
    &&& forall|i: int| 0 <= i < seed.len() ==> #[trigger] table[i] == seed[i]
    &&& forall|i: int|
        0 <= i < rows.len() ==> version_of(#[trigger] rows[i], table[seed.len() + i])
}

/// Loading prices keeps every shipped one and adds every stored one, each under
/// its own model and from its own instant.
pub proof fn law_loading_keeps_every_price(
    seed: Seq<ModelPricing>,
    rows: Seq<PriceVersionRow>,
    table: Seq<ModelPricing>,
    i: int,
    k: int,
)
    requires
        loaded_behind(seed, rows, table),
        0 <= i < seed.len(),
        0 <= k < rows.len(),
    ensures
        table.contains(seed[i]),
        table[seed.len() + k].model_id == rows[k].model_id,
        table[seed.len() + k].effective_from == rows[k].effective_from,
        table[seed.len() + k].source == rows[k].source,
        table[seed.len() + k].rates.output_per_mtok@.0 * pow10(9) == rows[k].output_per_mtok
            * pow10(table[seed.len() + k].rates.output_per_mtok@.1 as nat),
        table.len() == seed.len() + rows.len(),
{
    assert(table[i] == seed[i]);
    law_stored_rates_keep_their_columns(rows[k], table[seed.len() + k]);
}

/// What is stored of an exchange rate that was entered, and the rate as it is
/// used; or that it cannot be stored.
pub open spec fn fx_recorded(
    id: String,
    quote: Currency,
    rate: Decimal,
    as_of: Timestamp,
    r: Result<(FxRateRow, ExchangeRate), PriceError>,
) -> bool {
    match r {
        Ok((row, x)) => {
            &&& stored_as(rate@, row.rate_nano)
            &&& row.id == id
            &&& row.quote_currency@ == currency_code(quote)
            &&& row.as_of@ == sql_time_text(as_of@)
            &&& row.source@ == "manual"@
            &&& x.quote == quote
            &&& x.rate == rate
            &&& x.as_of == as_of
            &&& x.source == row.source
        },
        Err(e) => refused(e, "rate"@, rate@),
    }
}

/// An exchange rate that was entered is used as it was entered, and stored under
/// a code that names its currency, with its instant and its digits.
pub proof fn law_an_entered_rate_is_kept(
    id: String,
    quote: Currency,
    rate: Decimal,
    as_of: Timestamp,
    row: FxRateRow,
    x: ExchangeRate,
    k: i64,
)
    requires
        fx_recorded(
            id,
            quote,
            rate,
            as_of,
            Ok::<(FxRateRow, ExchangeRate), PriceError>((row, x)),
        ),
    ensures
        x.quote == quote,
        x.rate == rate,
        x.as_of == as_of,
        x.source@ == "manual"@,
        row.id == id,
        currency_named(row.quote_currency@) == Some(quote),
        row.as_of@ == sql_time_text(as_of@),
        rate@ == nine_digits(k) ==> row.rate_nano == k,
{
    law_currency_codes_round_trip(quote);
    if rate@ == nine_digits(k) {
        assert(same_number(nine_digits(k), (k as i128, 9u32)));
        assert(is_nano(nine_digits(k), k));
    }
}

/// The costs of buckets are seen by the contracts as they are, each with its
/// label.
pub proof fn law_bucket_rows_are_seen_as_they_are(v: Seq<(String, Measured<Money>)>, i: int)
    requires
        0 <= i < v.len(),
    ensures
        cost_rows(v).len() == v.len(),
        cost_rows(v)[i].0 == v[i].0@,
        cost_rows(v)[i].1 == measured_amount(v[i].1),
{
}

/// Stored usage costs each of its columns at that column's rate: with the rates
/// written with `scale` digits behind the point, the cost of a model's totals is
/// exactly their sum, in units of `10^-(scale + 6)`. One-hour cache writes cost
/// the one-hour rate, and no column is charged at another's.
pub proof fn law_stored_columns_cost_their_own_rates(
    t: Totals,
    model: Text,
    entries: Seq<ModelPricing>,
    scale: u32,
)
    requires
        t.input_fresh >= 0 && t.output_total >= 0 && t.cache_read >= 0,
        t.cache_write_5m >= 0 && t.cache_write_1h >= 0 && t.cache_write_unspecified >= 0,
        model != "<synthetic>"@,
        in_force(entries, model, None).is_some(),
        ({
            let r = entries[in_force(entries, model, None).unwrap()].rates;
            &&& r.input_per_mtok@.1 == scale
            &&& r.output_per_mtok@.1 == scale
            &&& r.cache_read_per_mtok@.1 == scale
            &&& r.cache_write_5m_per_mtok@.1 == scale
            &&& r.cache_write_1h_per_mtok@.1 == scale
        }),
    ensures
        ({
            let r = entries[in_force(entries, model, None).unwrap()].rates;
            item_cost((bands_of(t), Some(model)), entries, scale as nat) == t.input_fresh
                * r.input_per_mtok@.0 + t.output_total * r.output_per_mtok@.0 + t.cache_read
                * r.cache_read_per_mtok@.0 + t.cache_write_5m * r.cache_write_5m_per_mtok@.0
                + t.cache_write_1h * r.cache_write_1h_per_mtok@.0 + t.cache_write_unspecified
                * r.cache_write_5m_per_mtok@.0
        }),
{
    let r = entries[in_force(entries, model, None).unwrap()].rates;
    let s = scale as nat;
    let b = bands_of(t);
    let b1 = TokenBands { input_fresh: b.input_fresh, ..no_tokens() };
    let b2 = TokenBands { output_total: b.output_total, ..b1 };
    let b3 = TokenBands { cache_read: b.cache_read, ..b2 };
    let b4 = TokenBands { cache_write_5m: b.cache_write_5m, ..b3 };
    let b5 = TokenBands { cache_write_1h: b.cache_write_1h, ..b4 };
    let b6 = TokenBands { cache_write_unspecified: b.cache_write_unspecified, ..b5 };
    law_stored_columns_keep_their_buckets(t);
    law_every_bucket_costs_its_own_rate(no_tokens(), r, scale, b.input_fresh);
    law_every_bucket_costs_its_own_rate(b1, r, scale, b.output_total);
    law_every_bucket_costs_its_own_rate(b2, r, scale, b.cache_read);
    law_every_bucket_costs_its_own_rate(b3, r, scale, b.cache_write_5m);
    law_every_bucket_costs_its_own_rate(b4, r, scale, b.cache_write_1h);
    law_every_bucket_costs_its_own_rate(b5, r, scale, b.cache_write_unspecified);
    law_reasoning_and_unclassified_add_nothing(b6, b.reasoning, b.unclassified, r, s);
    assert(b == (TokenBands { reasoning: b.reasoning, unclassified: b.unclassified, ..b6 }));
}

} // verus!
