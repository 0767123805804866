//! What usage would have cost.
//!
//! No floating point; each request's cost is computed and added as a decimal and
//! rounded only for display; and a price is never substituted: a model without
//! one is unavailable, not free.
use vstd::prelude::*;
use vstd::string::StringExecFns;

use crate::decimal::{
    decimal_product, decimal_quotient, decimal_sum, exactly_at_larger_scale, is_exactly,
    law_powers_of_ten, opt_parts, pow10, pow10_positive, Decimal, MAX_MANTISSA,
};
use crate::measurement::{
    clamp_u32, clamp_u64, AccuracyView, Measured, MeasuredView, MeasurementSource,
    UnavailableReason, UnavailableReasonView,
};
use crate::money::{opt_amount, Money};
use crate::table::{in_force, ModelPricing, PriceTable, Rates};
use crate::text::{dec, dec_u64, join, joined, opt_text, str_eq, texts, Text};
use crate::token_usage::TokenUsage;
use crate::tokens::{no_tokens, TokenBands};

verus! {

/// The result of trying to price one measurement.
#[derive(Debug, Clone, PartialEq, Eq)]
pub enum CostOutcome {
    /// A cost, and the price version it was computed from.
    Priced {
        amount: Decimal,
        pricing_version: String,
        /// Tokens that could not be priced because the provider did not say
        /// what they were. The amount is a floor when there are any.
        unpriceable_tokens: u64,
    },
    Unavailable(UnavailableReason),
}

/// A [`CostOutcome`] with its texts as characters.
pub enum CostOutcomeView {
    Priced { amount: (i128, u32), pricing_version: Text, unpriceable_tokens: u64 },
    Unavailable(UnavailableReasonView),
}

impl View for CostOutcome {
    type V = CostOutcomeView;

    open spec fn view(&self) -> CostOutcomeView {
        match *self {
            CostOutcome::Priced { amount, pricing_version, unpriceable_tokens } => {
                CostOutcomeView::Priced {
                    amount: amount@,
                    pricing_version: pricing_version@,
                    unpriceable_tokens,
                }
            },
            CostOutcome::Unavailable(reason) => CostOutcomeView::Unavailable(reason@),
        }
    }
}

/// A measured amount with the amount as its parts.
pub open spec fn measured_amount(m: Measured<Money>) -> MeasuredView<(i128, u32)> {
    MeasuredView { value: opt_amount(m.value), accuracy: m.accuracy@ }
}

/// What tokens cost at a rate per million; `None` where that does not fit.
pub open spec fn per_million_of(tokens: u64, rate: (i128, u32)) -> Option<(i128, u32)> {
    match decimal_product((tokens as i128, 0u32), rate) {
        Some(p) => decimal_quotient(p, (1_000_000i128, 0u32)),
        None => None,
    }
}

/// A sum of two amounts, either of which may have failed to fit.
pub open spec fn and_then(sum: Option<(i128, u32)>, more: Option<(i128, u32)>) -> Option<
    (i128, u32),
> {
    match (sum, more) {
        (Some(s), Some(m)) => decimal_sum(s, m),
        _ => None,
    }
}

/// What usage costs at a model's rates: every bucket at its own rate, a cache
/// write without a time to live at the cheaper one; `None` where an amount does
/// not fit. Reasoning is a part of output and adds nothing, and tokens that
/// belong to neither side are not priced.
pub open spec fn usage_cost(u: TokenBands, r: Rates) -> Option<(i128, u32)> {
    let sum = per_million_of(u.input_fresh, r.input_per_mtok@);
    let sum = and_then(sum, per_million_of(u.output_total, r.output_per_mtok@));
    let sum = and_then(sum, per_million_of(u.cache_read, r.cache_read_per_mtok@));
    let sum = and_then(sum, per_million_of(u.cache_write_5m, r.cache_write_5m_per_mtok@));
    let sum = and_then(sum, per_million_of(u.cache_write_1h, r.cache_write_1h_per_mtok@));
    and_then(sum, per_million_of(u.cache_write_unspecified, r.cache_write_5m_per_mtok@))
}

/// That a cost does not fit: it is unavailable, and not zero.
pub open spec fn too_large() -> UnavailableReasonView {
    UnavailableReasonView::NoTelemetry { detail: "This cost is too large to be computed."@ }
}

/// What a measurement costs.
pub open spec fn priced(
    u: TokenBands,
    model: Option<Text>,
    entries: Seq<ModelPricing>,
) -> CostOutcomeView {
    match model {
        None => CostOutcomeView::Unavailable(
            UnavailableReasonView::ModelUnknown {
                detail: "No model has been observed for this request, so it cannot be priced."@,
            },
        ),
        Some(m) => if m == "<synthetic>"@ {
            CostOutcomeView::Priced {
                amount: (0i128, 0u32),
                pricing_version: "local"@,
                unpriceable_tokens: 0,
            }
        } else {
            match in_force(entries, m, None) {
                None => CostOutcomeView::Unavailable(
                    UnavailableReasonView::NoPricingForModel { model_id: m },
                ),
                Some(i) => match usage_cost(u, entries[i].rates) {
                    Some(amount) => CostOutcomeView::Priced {
                        amount,
                        pricing_version: entries[i].version_id@,
                        unpriceable_tokens: u.unclassified,
                    },
                    None => CostOutcomeView::Unavailable(too_large()),
                },
            }
        },
    }
}

/// A rate's mantissa, brought to a scale.
pub open spec fn rate_at(rate: (i128, u32), scale: nat) -> int {
    rate.0 * pow10((scale - rate.1) as nat)
}

/// A rate that is not negative and has at most so many digits behind the point.
pub open spec fn rate_within(rate: (i128, u32), scale: nat) -> bool {
    rate.0 >= 0 && rate.1 <= scale
}

/// The largest number of digits behind a rate's point with which a cost, which
/// has six more, still fits.
pub const MAX_RATE_SCALE: u32 = 22;

/// All of a model's rates are not negative and have at most so many digits
/// behind the point.
pub open spec fn rates_within(r: Rates, scale: nat) -> bool {
    &&& scale <= MAX_RATE_SCALE
    &&& rate_within(r.input_per_mtok@, scale)
    &&& rate_within(r.output_per_mtok@, scale)
    &&& rate_within(r.cache_read_per_mtok@, scale)
    &&& rate_within(r.cache_write_5m_per_mtok@, scale)
    &&& rate_within(r.cache_write_1h_per_mtok@, scale)
}

/// The exact cost of usage, as a number of units of `10^-(scale + 6)`: each
/// token at its rate, which is for a million of them.
pub open spec fn exact_cost(u: TokenBands, r: Rates, scale: nat) -> int {
    u.input_fresh * rate_at(r.input_per_mtok@, scale) + u.output_total * rate_at(
        r.output_per_mtok@,
        scale,
    ) + u.cache_read * rate_at(r.cache_read_per_mtok@, scale) + u.cache_write_5m * rate_at(
        r.cache_write_5m_per_mtok@,
        scale,
    ) + u.cache_write_1h * rate_at(r.cache_write_1h_per_mtok@, scale) + u.cache_write_unspecified
        * rate_at(r.cache_write_5m_per_mtok@, scale)
}

/// Usage whose exact cost fits in a decimal.
pub open spec fn costs_exactly(u: TokenBands, r: Rates, scale: nat) -> bool {
    rates_within(r, scale) && exact_cost(u, r, scale) <= MAX_MANTISSA
}

proof fn term_not_negative(tokens: u64, rate: (i128, u32), scale: nat)
    requires
        rate_within(rate, scale),
    ensures
        tokens * rate_at(rate, scale) >= 0,
{
    pow10_positive((scale - rate.1) as nat);
    let p = pow10((scale - rate.1) as nat) as int;
    assert(rate.0 * p >= 0) by (nonlinear_arith)
        requires
            rate.0 >= 0,
            p >= 1,
    ;
    let m = rate_at(rate, scale);
    assert(tokens * m >= 0) by (nonlinear_arith)
        requires
            tokens >= 0,
            m >= 0,
    ;
}

proof fn product_within(tokens: u64, rate: (i128, u32), scale: nat)
    requires
        rate_within(rate, scale),
        tokens * rate_at(rate, scale) <= MAX_MANTISSA,
    ensures
        0 <= tokens * rate.0 <= MAX_MANTISSA,
        (tokens * rate.0) * pow10((scale - rate.1) as nat) == tokens * rate_at(rate, scale),
{
    let t = tokens as int;
    let m = rate.0 as int;
    let p = pow10((scale - rate.1) as nat) as int;
    pow10_positive((scale - rate.1) as nat);
    assert((t * m) * p == t * (m * p)) by (nonlinear_arith);
    assert(0 <= t * m) by (nonlinear_arith)
        requires
            t >= 0,
            m >= 0,
    ;
    let tm = t * m;
    assert(tm <= tm * p) by (nonlinear_arith)
        requires
            0 <= tm,
            p >= 1,
    ;
}

/// Tokens at a rate per million; `None` where that does not fit. A rate with at
/// most [`MAX_RATE_SCALE`] digits behind the point whose product fits is applied
/// exactly.
pub fn per_million(tokens: u64, rate_per_mtok: Decimal) -> (d: Option<Decimal>)
    ensures
        opt_parts(d) == per_million_of(tokens, rate_per_mtok@),
        forall|scale: nat|
            #![trigger rate_at(rate_per_mtok@, scale)]
            scale <= MAX_RATE_SCALE && rate_within(rate_per_mtok@, scale) && tokens * rate_at(
                rate_per_mtok@,
                scale,
            ) <= MAX_MANTISSA ==> d.is_some() && d.unwrap()@.0 >= 0 && is_exactly(
                d.unwrap()@,
                tokens * rate_at(rate_per_mtok@, scale),
                scale + 6,
            ),
{
    let product = Decimal::from_u64(tokens).checked_mul(rate_per_mtok);
    let d = match product {
        Some(p) => p.checked_div(Decimal::from_u64(1_000_000)),
        None => None,
    };
    proof {
        let rate = rate_per_mtok@;
        assert forall|scale: nat|
            #![trigger rate_at(rate, scale)]
            scale <= MAX_RATE_SCALE && rate_within(rate, scale) && tokens * rate_at(rate, scale)
                <= MAX_MANTISSA implies d.is_some() && d.unwrap()@.0 >= 0 && is_exactly(
            d.unwrap()@,
            tokens * rate_at(rate, scale),
            scale + 6,
        ) by {
            product_within(tokens, rate, scale);
            let n = tokens * rate.0;
            let p = product.unwrap()@;
            let q = d.unwrap()@;
            let up = (scale - rate.1) as nat;
            if n == 0 {
                assert(p == (0i128, 0u32));
                assert(is_exactly(q, 0, 6));
                exactly_at_larger_scale(q, 0, 6, scale);
                assert(n * pow10(up) == 0) by (nonlinear_arith)
                    requires
                        n == 0,
                ;
                assert(0 * pow10(scale) == 0) by (nonlinear_arith);
            } else {
                assert(p == (n as i128, rate.1));
                exactly_at_larger_scale(q, n, (rate.1 + 6) as nat, up);
                assert((rate.1 + 6) as nat + up == scale + 6);
            }
            let w = pow10((scale + 6 - q.1) as nat) as int;
            pow10_positive((scale + 6 - q.1) as nat);
            assert(q.0 >= 0) by (nonlinear_arith)
                requires
                    q.0 * w == tokens * rate_at(rate, scale),
                    tokens * rate_at(rate, scale) >= 0,
                    w >= 1,
            ;
        }
    }
    d
}

fn sum_at_rates(usage: &TokenUsage, r: &Rates) -> (s: Option<Decimal>)
    ensures
        opt_parts(s) == usage_cost(usage@, *r),
        forall|scale: nat| #[trigger]
            costs_exactly(usage@, *r, scale) ==> s.is_some() && s.unwrap()@.0 >= 0 && is_exactly(
                s.unwrap()@,
                exact_cost(usage@, *r, scale),
                scale + 6,
            ),
{
    let a = per_million(usage.input_fresh(), r.input_per_mtok);
    let b = per_million(usage.output_total(), r.output_per_mtok);
    let c = per_million(usage.cache_read(), r.cache_read_per_mtok);
    let d = per_million(usage.cache_write_5m(), r.cache_write_5m_per_mtok);
    let e = per_million(usage.cache_write_1h(), r.cache_write_1h_per_mtok);
    let f = per_million(usage.cache_write_unspecified(), r.cache_write_5m_per_mtok);
    let ab = add_opt(a, b);
    let abc = add_opt(ab, c);
    let abcd = add_opt(abc, d);
    let abcde = add_opt(abcd, e);
    let s = add_opt(abcde, f);
    proof {
        let u = usage@;
        assert forall|scale: nat| #[trigger] costs_exactly(u, *r, scale) implies s.is_some()
            && s.unwrap()@.0 >= 0 && is_exactly(
            s.unwrap()@,
            exact_cost(u, *r, scale),
            scale + 6,
        ) by {
            let x1 = u.input_fresh * rate_at(r.input_per_mtok@, scale);
            let x2 = u.output_total * rate_at(r.output_per_mtok@, scale);
            let x3 = u.cache_read * rate_at(r.cache_read_per_mtok@, scale);
            let x4 = u.cache_write_5m * rate_at(r.cache_write_5m_per_mtok@, scale);
            let x5 = u.cache_write_1h * rate_at(r.cache_write_1h_per_mtok@, scale);
            let x6 = u.cache_write_unspecified * rate_at(r.cache_write_5m_per_mtok@, scale);
            term_not_negative(u.input_fresh, r.input_per_mtok@, scale);
            term_not_negative(u.output_total, r.output_per_mtok@, scale);
            term_not_negative(u.cache_read, r.cache_read_per_mtok@, scale);
            term_not_negative(u.cache_write_5m, r.cache_write_5m_per_mtok@, scale);
            term_not_negative(u.cache_write_1h, r.cache_write_1h_per_mtok@, scale);
            term_not_negative(u.cache_write_unspecified, r.cache_write_5m_per_mtok@, scale);
            assert(x1 + x2 + x3 + x4 + x5 + x6 == exact_cost(u, *r, scale));
            assert(amount_is(a, x1, scale + 6));
            assert(amount_is(b, x2, scale + 6));
            assert(amount_is(c, x3, scale + 6));
            assert(amount_is(d, x4, scale + 6));
            assert(amount_is(e, x5, scale + 6));
            assert(amount_is(f, x6, scale + 6));
            assert(amount_is(ab, x1 + x2, scale + 6));
            assert(amount_is(abc, x1 + x2 + x3, scale + 6));
            assert(amount_is(abcd, x1 + x2 + x3 + x4, scale + 6));
            assert(amount_is(abcde, x1 + x2 + x3 + x4 + x5, scale + 6));
            assert(amount_is(s, x1 + x2 + x3 + x4 + x5 + x6, scale + 6));
        }
    }
    s
}

/// An amount that fits, is not negative and is exact.
pub open spec fn amount_is(d: Option<Decimal>, n: int, scale: nat) -> bool {
    d.is_some() && d.unwrap()@.0 >= 0 && is_exactly(d.unwrap()@, n, scale)
}

fn add_opt(a: Option<Decimal>, b: Option<Decimal>) -> (s: Option<Decimal>)
    ensures
        opt_parts(s) == and_then(opt_parts(a), opt_parts(b)),
        forall|x: int, y: int, scale: nat| #[trigger]
            amount_is(a, x, scale) && #[trigger] amount_is(b, y, scale) && x + y <= MAX_MANTISSA
                ==> amount_is(s, x + y, scale),
{
    match (a, b) {
        (Some(x), Some(y)) => x.add_amounts(y),
        _ => None,
    }
}

/// Which price version a measurement is priced with, if any.
pub open spec fn version_for(model: Option<Text>, entries: Seq<ModelPricing>) -> Option<int> {
    match model {
        Some(m) => if m == "<synthetic>"@ {
            None
        } else {
            in_force(entries, m, None)
        },
        None => None,
    }
}

/// The exact cost of a measurement, as a number of units of `10^-(scale + 6)`;
/// nothing where no price is known for it.
pub open spec fn item_cost(
    item: (TokenBands, Option<Text>),
    entries: Seq<ModelPricing>,
    scale: nat,
) -> int {
    match version_for(item.1, entries) {
        Some(i) => exact_cost(item.0, entries[i].rates, scale),
        None => 0,
    }
}

/// A measurement whose exact cost fits in a decimal.
pub open spec fn item_costs_exactly(
    item: (TokenBands, Option<Text>),
    entries: Seq<ModelPricing>,
    scale: nat,
) -> bool {
    match version_for(item.1, entries) {
        Some(i) => costs_exactly(item.0, entries[i].rates, scale),
        None => scale <= MAX_RATE_SCALE,
    }
}

/// The characters of an optional borrowed text.
pub open spec fn opt_str(o: Option<&str>) -> Option<Text> {
    match o {
        Some(s) => Some(s@),
        None => None,
    }
}

/// Cost one request's worth of usage, at its model's current rates. A cost whose
/// exact figure fits in a decimal is that figure; one that does not fit is
/// unavailable, and not zero.
///
/// Usage is the only way in, and its buckets are disjoint, so charging cached
/// input twice or billing reasoning on top of output cannot be expressed.
pub fn cost_of(usage: &TokenUsage, model_id: Option<&str>, table: &PriceTable) -> (o: CostOutcome)
    ensures
        o@ == priced(usage@, opt_str(model_id), table@),
        forall|scale: nat| #[trigger]
            item_costs_exactly((usage@, opt_str(model_id)), table@, scale) ==> (match o {
                CostOutcome::Priced { amount, .. } => amount_is(
                    Some(amount),
                    item_cost((usage@, opt_str(model_id)), table@, scale),
                    scale + 6,
                ),
                CostOutcome::Unavailable(_) => item_cost(
                    (usage@, opt_str(model_id)),
                    table@,
                    scale,
                ) == 0,
            }),
{
    let model_id = match model_id {
        Some(m) => m,
        None => {
            return CostOutcome::Unavailable(
                UnavailableReason::ModelUnknown {
                    detail: "No model has been observed for this request, so it cannot be priced.".to_owned(),
                },
            );
        },
    };
    if str_eq(model_id, "<synthetic>") {
        proof {
            assert forall|scale: nat| is_exactly((0i128, 0u32), 0, #[trigger] (scale + 6)) by {
                assert(0 * pow10(scale + 6) == 0) by (nonlinear_arith);
            }
        }
        return CostOutcome::Priced {
            amount: Decimal::zero(),
            pricing_version: "local".to_owned(),
            unpriceable_tokens: 0,
        };
    }
    let pricing = match table.lookup(model_id) {
        Some(p) => p,
        None => {
            return CostOutcome::Unavailable(
                UnavailableReason::NoPricingForModel { model_id: model_id.to_owned() },
            );
        },
    };
    match sum_at_rates(usage, &pricing.rates) {
        Some(amount) => CostOutcome::Priced {
            amount,
            pricing_version: pricing.version_id.clone(),
            unpriceable_tokens: usage.unclassified(),
        },
        None => CostOutcome::Unavailable(
            UnavailableReason::NoTelemetry {
                detail: "This cost is too large to be computed.".to_owned(),
            },
        ),
    }
}

/// Measurements as the contracts see them: their buckets and their models.
pub open spec fn item_views(items: Seq<(TokenUsage, Option<String>)>) -> Seq<
    (TokenBands, Option<Text>),
> {
    items.map_values(|i: (TokenUsage, Option<String>)| (i.0@, opt_text(i.1)))
}

/// What a run of measurements comes to.
pub struct Tally {
    /// The sum of the costs; `None` where it does not fit.
    pub total: Option<(i128, u32)>,
    pub priced: nat,
    pub unpriceable: nat,
    /// Why the first measurement without a price has none.
    pub first_missing: Option<UnavailableReasonView>,
}

/// What a run of measurements comes to.
pub open spec fn tally(items: Seq<(TokenBands, Option<Text>)>, entries: Seq<ModelPricing>) -> Tally
    decreases items.len(),
{
    if items.len() == 0 {
        Tally { total: Some((0i128, 0u32)), priced: 0, unpriceable: 0, first_missing: None }
    } else {
        let before = tally(items.drop_last(), entries);
        match priced(items.last().0, items.last().1, entries) {
            CostOutcomeView::Unavailable(reason) => Tally {
                first_missing: match before.first_missing {
                    Some(r) => Some(r),
                    None => Some(reason),
                },
                ..before
            },
            CostOutcomeView::Priced { amount, unpriceable_tokens, .. } => Tally {
                total: and_then(before.total, Some(amount)),
                priced: before.priced + 1,
                unpriceable: before.unpriceable + unpriceable_tokens as nat,
                ..before
            },
        }
    }
}

/// The costs add up within what a decimal holds.
pub open spec fn totals_fit(
    items: Seq<(TokenBands, Option<Text>)>,
    entries: Seq<ModelPricing>,
) -> bool {
    tally(items, entries).total.is_some()
}

/// The exact cost of a run of measurements, as a number of units of
/// `10^-(scale + 6)`.
pub open spec fn total_cost(
    items: Seq<(TokenBands, Option<Text>)>,
    entries: Seq<ModelPricing>,
    scale: nat,
) -> int
    decreases items.len(),
{
    if items.len() == 0 {
        0
    } else {
        total_cost(items.drop_last(), entries, scale) + item_cost(items.last(), entries, scale)
    }
}

/// A run of measurements whose exact cost fits in a decimal.
pub open spec fn total_costs_exactly(
    items: Seq<(TokenBands, Option<Text>)>,
    entries: Seq<ModelPricing>,
    scale: nat,
) -> bool {
    &&& scale <= MAX_RATE_SCALE
    &&& forall|i: int|
        0 <= i < items.len() ==> item_costs_exactly(#[trigger] items[i], entries, scale)
    &&& total_cost(items, entries, scale) <= MAX_MANTISSA
}

proof fn exact_cost_not_negative(u: TokenBands, r: Rates, scale: nat)
    requires
        rates_within(r, scale),
    ensures
        exact_cost(u, r, scale) >= 0,
{
    term_not_negative(u.input_fresh, r.input_per_mtok@, scale);
    term_not_negative(u.output_total, r.output_per_mtok@, scale);
    term_not_negative(u.cache_read, r.cache_read_per_mtok@, scale);
    term_not_negative(u.cache_write_5m, r.cache_write_5m_per_mtok@, scale);
    term_not_negative(u.cache_write_1h, r.cache_write_1h_per_mtok@, scale);
    term_not_negative(u.cache_write_unspecified, r.cache_write_5m_per_mtok@, scale);
}

proof fn part_costs_exactly(
    items: Seq<(TokenBands, Option<Text>)>,
    entries: Seq<ModelPricing>,
    scale: nat,
    n: int,
)
    requires
        0 <= n <= items.len(),
        total_costs_exactly(items, entries, scale),
    ensures
        total_costs_exactly(items.take(n), entries, scale),
    decreases items.len() - n,
{
    if n < items.len() {
        part_costs_exactly(items, entries, scale, n + 1);
        let more = items.take(n + 1);
        assert(more.drop_last() =~= items.take(n));
        let last = more.last();
        assert(last == items[n]);
        assert(item_costs_exactly(last, entries, scale));
        if let Some(i) = version_for(last.1, entries) {
            exact_cost_not_negative(last.0, entries[i].rates, scale);
        }
        assert forall|i: int| 0 <= i < n implies item_costs_exactly(
            #[trigger] items.take(n)[i],
            entries,
            scale,
        ) by {
            assert(items.take(n)[i] == items[i]);
        }
    } else {
        assert(items.take(n) =~= items);
    }
}

/// What the amount is a floor for.
pub open spec fn shortfall(priced: u32, count: u32, unpriceable: u64) -> Seq<Text> {
    (if priced < count {
        seq![
            dec((count - priced) as nat) + " of "@ + dec(count as nat)
                + " requests have no price for their model"@,
        ]
    } else {
        Seq::empty()
    }) + if unpriceable > 0 {
        seq![
            dec(unpriceable as nat)
                + " tokens were counted by the provider without an input/output split and cannot be priced"@,
        ]
    } else {
        Seq::empty()
    }
}

/// What a run of measurements costs, and how certain that is.
pub open spec fn cost_of_all(
    items: Seq<(TokenBands, Option<Text>)>,
    entries: Seq<ModelPricing>,
) -> MeasuredView<(i128, u32)> {
    let t = tally(items, entries);
    let count = clamp_u32(items.len());
    let priced = clamp_u32(t.priced);
    let unpriceable = clamp_u64(t.unpriceable);
    if items.len() == 0 {
        MeasuredView {
            value: None,
            accuracy: AccuracyView::Unavailable {
                reason: UnavailableReasonView::NoTelemetry {
                    detail: "Nothing has been measured yet."@,
                },
            },
        }
    } else if priced == 0 {
        MeasuredView {
            value: None,
            accuracy: AccuracyView::Unavailable {
                reason: match t.first_missing {
                    Some(r) => r,
                    None => UnavailableReasonView::NoTelemetry {
                        detail: "None of these requests could be priced."@,
                    },
                },
            },
        }
    } else if priced == count && unpriceable == 0 {
        MeasuredView {
            value: t.total,
            accuracy: AccuracyView::Calculated { source: MeasurementSource::ApplicationTelemetry },
        }
    } else {
        MeasuredView {
            value: t.total,
            accuracy: AccuracyView::Partial {
                measured: priced,
                total: count,
                reason: joined(shortfall(priced, count, unpriceable), "; "@),
            },
        }
    }
}

/// A cost is the exact sum of the exact costs of the measurements that have a
/// price, wherever that fits in a decimal: nothing is rounded on the way.
pub open spec fn sums_exactly(
    m: Measured<Money>,
    items: Seq<(TokenBands, Option<Text>)>,
    entries: Seq<ModelPricing>,
) -> bool {
    forall|scale: nat| #[trigger]
        total_costs_exactly(items, entries, scale) ==> match m.value {
            Some(amount) => is_exactly(amount@, total_cost(items, entries, scale), scale + 6),
            None => true,
        }
}

/// What a loop over measurements has come to.
struct Running {
    total: Decimal,
    priced: u32,
    unpriceable: u64,
    first_missing: Option<UnavailableReason>,
}

impl Running {
    spec fn is_of(self, t: Tally) -> bool {
        &&& t.total == Some(self.total@)
        &&& self.priced == clamp_u32(t.priced)
        &&& self.unpriceable == clamp_u64(t.unpriceable)
        &&& match (self.first_missing, t.first_missing) {
            (Some(a), Some(b)) => a@ == b,
            (None, None) => true,
            _ => false,
        }
    }
}

proof fn misfit_stays(
    items: Seq<(TokenBands, Option<Text>)>,
    entries: Seq<ModelPricing>,
    i: int,
)
    requires
        0 <= i <= items.len(),
        tally(items.take(i), entries).total.is_none(),
    ensures
        tally(items, entries).total.is_none(),
    decreases items.len() - i,
{
    if i < items.len() {
        assert(items.take(i + 1).drop_last() =~= items.take(i));
        misfit_stays(items, entries, i + 1);
    } else {
        assert(items.take(i) =~= items);
    }
}

fn run(items: &[(TokenUsage, Option<String>)], table: &PriceTable) -> (r: Option<Running>)
    ensures
        match r {
            Some(t) => t.is_of(tally(item_views(items@), table@)),
            None => !totals_fit(item_views(items@), table@),
        },
        forall|scale: nat| #[trigger]
            total_costs_exactly(item_views(items@), table@, scale) ==> (match r {
                Some(t) => amount_is(
                    Some(t.total),
                    total_cost(item_views(items@), table@, scale),
                    scale + 6,
                ),
                None => false,
            }),
{
    let mut total = Decimal::zero();
    let mut priced: u32 = 0;
    let mut unpriceable: u64 = 0;
    let mut first_missing: Option<UnavailableReason> = None;
    let ghost views = item_views(items@);
    let mut i: usize = 0;
    proof {
        assert forall|scale: nat| #[trigger]
            total_costs_exactly(views.take(0), table@, scale) implies amount_is(
            Some(total),
            total_cost(views.take(0), table@, scale),
            scale + 6,
        ) by {
            assert(0 * pow10(scale + 6) == 0) by (nonlinear_arith);
        }
    }
    while i < items.len()
        invariant
            i <= items.len(),
            (Running { total, priced, unpriceable, first_missing }).is_of(
                tally(views.take(i as int), table@),
            ),
            views == item_views(items@),
            forall|scale: nat| #[trigger]
                total_costs_exactly(views.take(i as int), table@, scale) ==> amount_is(
                    Some(total),
                    total_cost(views.take(i as int), table@, scale),
                    scale + 6,
                ),
        decreases items.len() - i,
    {
        let item = &items[i];
        let ghost before = total;
        let ghost view = (item.0@, opt_text(item.1));
        proof {
            assert(views.take(i + 1).drop_last() =~= views.take(i as int));
            assert(views.take(i + 1).last() == view);
        }
        let model: Option<&str> = match &item.1 {
            Some(m) => Some(m.as_str()),
            None => None,
        };
        assert(opt_str(model) == opt_text(item.1));
        match cost_of(&item.0, model, table) {
            CostOutcome::Priced { amount, unpriceable_tokens, .. } => {
                let sum = total.add_amounts(amount);
                proof {
                    assert forall|scale: nat| #[trigger]
                        total_costs_exactly(views.take(i + 1), table@, scale) implies amount_is(
                        sum,
                        total_cost(views.take(i + 1), table@, scale),
                        scale + 6,
                    ) by {
                        part_costs_exactly(views.take(i + 1), table@, scale, i as int);
                        assert(views.take(i + 1).take(i as int) =~= views.take(i as int));
                        assert(views.take(i + 1)[i as int] == view);
                        assert(item_costs_exactly(view, table@, scale));
                        assert(amount_is(Some(before), total_cost(views.take(i as int), table@, scale), scale + 6));
                        assert(amount_is(Some(amount), item_cost(view, table@, scale), scale + 6));
                        assert(is_exactly(before@, total_cost(views.take(i as int), table@, scale), scale + 6));
                        assert(is_exactly(amount@, item_cost(view, table@, scale), scale + 6));
                    }
                }
                match sum {
                    Some(t) => {
                        total = t;
                    },
                    None => {
                        proof {
                            misfit_stays(views, table@, i + 1);
                            assert forall|scale: nat| #[trigger]
                                total_costs_exactly(views, table@, scale) implies false by {
                                part_costs_exactly(views, table@, scale, i + 1);
                            }
                        }
                        return None;
                    },
                }
                priced = priced.saturating_add(1);
                unpriceable = unpriceable.saturating_add(unpriceable_tokens);
            },
            CostOutcome::Unavailable(reason) => {
                proof {
                    assert forall|scale: nat| #[trigger]
                        total_costs_exactly(views.take(i + 1), table@, scale) implies amount_is(
                        Some(total),
                        total_cost(views.take(i + 1), table@, scale),
                        scale + 6,
                    ) by {
                        part_costs_exactly(views.take(i + 1), table@, scale, i as int);
                        assert(views.take(i + 1).take(i as int) =~= views.take(i as int));
                        assert(views.take(i + 1)[i as int] == view);
                        assert(item_costs_exactly(view, table@, scale));
                    }
                }
                if first_missing.is_none() {
                    first_missing = Some(reason);
                }
            },
        }
        i += 1;
    }
    proof {
        assert(views.take(i as int) =~= views);
    }
    Some(Running { total, priced, unpriceable, first_missing })
}

fn explain(priced: u32, count: u32, unpriceable: u64) -> (s: String)
    ensures
        s@ == joined(shortfall(priced, count, unpriceable), "; "@),
{
    let mut why: Vec<String> = Vec::new();
    if priced < count {
        let mut s = dec_u64((count - priced) as u64);
        s.append(" of ");
        s.append(dec_u64(count as u64).as_str());
        s.append(" requests have no price for their model");
        why.push(s);
    }
    if unpriceable > 0 {
        let mut s = dec_u64(unpriceable);
        s.append(
            " tokens were counted by the provider without an input/output split and cannot be priced",
        );
        why.push(s);
    }
    proof {
        assert(texts(why@) =~= shortfall(priced, count, unpriceable));
    }
    join(&why, "; ")
}

/// Cost a whole task, where the amounts add up within what a decimal holds.
///
/// The result keeps the difference between "this cost nothing" and "this could
/// not be priced".
pub fn cost_of_many(items: &[(TokenUsage, Option<String>)], table: &PriceTable) -> (m: Measured<
    Money,
>)
    requires
        totals_fit(item_views(items@), table@),
    ensures
        measured_amount(m) == cost_of_all(item_views(items@), table@),
        m.wf(),
        sums_exactly(m, item_views(items@), table@),
{
    if items.len() == 0 {
        return Measured::unavailable(
            UnavailableReason::NoTelemetry { detail: "Nothing has been measured yet.".to_owned() },
        );
    }
    let t = run(items, table).unwrap();
    let count: u32 = if items.len() <= u32::MAX as usize {
        items.len() as u32
    } else {
        u32::MAX
    };
    if t.priced == 0 {
        return Measured::unavailable(
            match t.first_missing {
                Some(r) => r,
                None => UnavailableReason::NoTelemetry {
                    detail: "None of these requests could be priced.".to_owned(),
                },
            },
        );
    }
    if t.priced == count && t.unpriceable == 0 {
        return Measured::calculated(
            Money::new(t.total),
            MeasurementSource::ApplicationTelemetry,
        );
    }
    Measured::partial(
        Money::new(t.total),
        t.priced,
        count,
        explain(t.priced, count, t.unpriceable),
    )
}

/// Cost a whole task. `None` where the amounts do not add up within what a
/// decimal holds.
pub fn try_cost_of_many(
    items: &[(TokenUsage, Option<String>)],
    table: &PriceTable,
) -> (r: Option<Measured<Money>>)
    ensures
        match r {
            Some(m) => totals_fit(item_views(items@), table@) && measured_amount(m) == cost_of_all(
                item_views(items@),
                table@,
            ),
            None => !totals_fit(item_views(items@), table@),
        },
        match r {
            Some(m) => sums_exactly(m, item_views(items@), table@),
            None => forall|scale: nat|
                !(#[trigger] total_costs_exactly(item_views(items@), table@, scale)),
        },
{
    if run(items, table).is_some() {
        Some(cost_of_many(items, table))
    } else {
        None
    }
}

/// Reasoning is not billed on top of the output that it is a part of, and
/// tokens that belong to neither side are not billed at all.
pub proof fn law_reasoning_and_unclassified_cost_nothing(
    u: TokenBands,
    reasoning: Option<u64>,
    unclassified: u64,
    r: Rates,
)
    ensures
        usage_cost(TokenBands { reasoning, unclassified, ..u }, r) == usage_cost(u, r),
{
}

proof fn tally_bounds(items: Seq<(TokenBands, Option<Text>)>, entries: Seq<ModelPricing>)
    ensures
        tally(items, entries).priced <= items.len(),
    decreases items.len(),
{
    if items.len() > 0 {
        tally_bounds(items.drop_last(), entries);
    }
}

/// No price is known for a measurement.
pub open spec fn unpriced(
    item: (TokenBands, Option<Text>),
    entries: Seq<ModelPricing>,
) -> bool {
    priced(item.0, item.1, entries) is Unavailable
}

proof fn tally_with_unpriced(
    items: Seq<(TokenBands, Option<Text>)>,
    entries: Seq<ModelPricing>,
    i: int,
)
    requires
        0 <= i < items.len(),
        unpriced(items[i], entries),
    ensures
        tally(items, entries).priced < items.len(),
    decreases items.len(),
{
    tally_bounds(items.drop_last(), entries);
    if i < items.len() - 1 {
        assert(items.drop_last()[i] == items[i]);
        tally_with_unpriced(items.drop_last(), entries, i);
    }
}

proof fn tally_all_unpriced(items: Seq<(TokenBands, Option<Text>)>, entries: Seq<ModelPricing>)
    requires
        forall|i: int| 0 <= i < items.len() ==> unpriced(#[trigger] items[i], entries),
    ensures
        tally(items, entries).priced == 0,
    decreases items.len(),
{
    if items.len() > 0 {
        let d = items.drop_last();
        assert forall|i: int| 0 <= i < d.len() implies unpriced(#[trigger] d[i], entries) by {
            assert(d[i] == items[i]);
        }
        tally_all_unpriced(d, entries);
        assert(unpriced(items[items.len() - 1], entries));
    }
}

/// A total with a request that has no price is a floor or unavailable, never a
/// finished figure; and no total is ever exact.
pub proof fn law_unpriced_request_makes_a_floor(
    items: Seq<(TokenBands, Option<Text>)>,
    entries: Seq<ModelPricing>,
    i: int,
)
    requires
        0 <= i < items.len() <= u32::MAX,
        unpriced(items[i], entries),
    ensures
        cost_of_all(items, entries).accuracy is Partial || cost_of_all(
            items,
            entries,
        ).accuracy is Unavailable,
{
    tally_with_unpriced(items, entries, i);
}

/// Where nothing can be priced there is no cost, not a cost of zero.
pub proof fn law_nothing_priced_is_unavailable(
    items: Seq<(TokenBands, Option<Text>)>,
    entries: Seq<ModelPricing>,
)
    requires
        forall|i: int| 0 <= i < items.len() ==> unpriced(#[trigger] items[i], entries),
    ensures
        cost_of_all(items, entries).value.is_none(),
        cost_of_all(items, entries).accuracy is Unavailable,
{
    tally_all_unpriced(items, entries);
}

/// A cost is computed from a table of prices, so it is never exact.
pub proof fn law_cost_is_never_exact(
    items: Seq<(TokenBands, Option<Text>)>,
    entries: Seq<ModelPricing>,
)
    ensures
        !(cost_of_all(items, entries).accuracy is Exact),
{
}

/// Tokens of one bucket cost their own rate, each: with the rates written with
/// `scale` digits behind the point, `n` tokens more in a bucket cost exactly `n`
/// times that bucket's rate more, in units of `10^-(scale + 6)`. A cache write
/// without a time to live costs the five-minute rate; reasoning and unclassified
/// tokens cost nothing.
pub proof fn law_every_bucket_costs_its_own_rate(u: TokenBands, r: Rates, scale: u32, n: u64)
    requires
        r.input_per_mtok@.1 == scale,
        r.output_per_mtok@.1 == scale,
        r.cache_read_per_mtok@.1 == scale,
        r.cache_write_5m_per_mtok@.1 == scale,
        r.cache_write_1h_per_mtok@.1 == scale,
    ensures
        exact_cost(no_tokens(), r, scale as nat) == 0,
        exact_cost(TokenBands { input_fresh: n, ..u }, r, scale as nat) - exact_cost(
            u,
            r,
            scale as nat,
        ) == (n - u.input_fresh) * r.input_per_mtok@.0,
        exact_cost(TokenBands { output_total: n, ..u }, r, scale as nat) - exact_cost(
            u,
            r,
            scale as nat,
        ) == (n - u.output_total) * r.output_per_mtok@.0,
        exact_cost(TokenBands { cache_read: n, ..u }, r, scale as nat) - exact_cost(
            u,
            r,
            scale as nat,
        ) == (n - u.cache_read) * r.cache_read_per_mtok@.0,
        exact_cost(TokenBands { cache_write_5m: n, ..u }, r, scale as nat) - exact_cost(
            u,
            r,
            scale as nat,
        ) == (n - u.cache_write_5m) * r.cache_write_5m_per_mtok@.0,
        exact_cost(TokenBands { cache_write_1h: n, ..u }, r, scale as nat) - exact_cost(
            u,
            r,
            scale as nat,
        ) == (n - u.cache_write_1h) * r.cache_write_1h_per_mtok@.0,
        exact_cost(TokenBands { cache_write_unspecified: n, ..u }, r, scale as nat) - exact_cost(
            u,
            r,
            scale as nat,
        ) == (n - u.cache_write_unspecified) * r.cache_write_5m_per_mtok@.0,
        exact_cost(TokenBands { reasoning: Some(n), ..u }, r, scale as nat) == exact_cost(
            u,
            r,
            scale as nat,
        ),
        exact_cost(TokenBands { unclassified: n, ..u }, r, scale as nat) == exact_cost(
            u,
            r,
            scale as nat,
        ),
{
    assert(0 * rate_at(r.input_per_mtok@, scale as nat) == 0) by (nonlinear_arith);
    assert(0 * rate_at(r.output_per_mtok@, scale as nat) == 0) by (nonlinear_arith);
    assert(0 * rate_at(r.cache_read_per_mtok@, scale as nat) == 0) by (nonlinear_arith);
    assert(0 * rate_at(r.cache_write_5m_per_mtok@, scale as nat) == 0) by (nonlinear_arith);
    assert(0 * rate_at(r.cache_write_1h_per_mtok@, scale as nat) == 0) by (nonlinear_arith);
    rate_at_its_own_scale(r.input_per_mtok@);
    rate_at_its_own_scale(r.output_per_mtok@);
    rate_at_its_own_scale(r.cache_read_per_mtok@);
    rate_at_its_own_scale(r.cache_write_5m_per_mtok@);
    rate_at_its_own_scale(r.cache_write_1h_per_mtok@);
    assert(n * r.input_per_mtok@.0 - u.input_fresh * r.input_per_mtok@.0 == (n - u.input_fresh) * r.input_per_mtok@.0)
        by (nonlinear_arith);
    assert(n * r.output_per_mtok@.0 - u.output_total * r.output_per_mtok@.0 == (n - u.output_total) * r.output_per_mtok@.0)
        by (nonlinear_arith);
    assert(n * r.cache_read_per_mtok@.0 - u.cache_read * r.cache_read_per_mtok@.0 == (n - u.cache_read) * r.cache_read_per_mtok@.0)
        by (nonlinear_arith);
    assert(n * r.cache_write_5m_per_mtok@.0 - u.cache_write_5m * r.cache_write_5m_per_mtok@.0 == (n - u.cache_write_5m) * r.cache_write_5m_per_mtok@.0)
        by (nonlinear_arith);
    assert(n * r.cache_write_1h_per_mtok@.0 - u.cache_write_1h * r.cache_write_1h_per_mtok@.0 == (n - u.cache_write_1h) * r.cache_write_1h_per_mtok@.0)
        by (nonlinear_arith);
    assert(n * r.cache_write_5m_per_mtok@.0 - u.cache_write_unspecified * r.cache_write_5m_per_mtok@.0 == (n - u.cache_write_unspecified) * r.cache_write_5m_per_mtok@.0)
        by (nonlinear_arith);
}

proof fn rate_at_its_own_scale(rate: (i128, u32))
    ensures
        rate_at(rate, rate.1 as nat) == rate.0,
{
    law_powers_of_ten(0);
    assert((rate.1 as nat - rate.1) as nat == 0);
    assert(rate.0 * pow10(0) == rate.0) by (nonlinear_arith)
        requires
            pow10(0) == 1,
    ;
}

/// A rate means the same amount however many zeros it is written with: one digit
/// more behind the point is ten times as many units.
pub proof fn law_units_do_not_change_a_cost(u: TokenBands, r: Rates, scale: nat)
    requires
        rates_within(r, scale),
    ensures
        exact_cost(u, r, scale + 1) == 10 * exact_cost(u, r, scale),
{
    rate_one_digit_more(r.input_per_mtok@, scale, u.input_fresh);
    rate_one_digit_more(r.output_per_mtok@, scale, u.output_total);
    rate_one_digit_more(r.cache_read_per_mtok@, scale, u.cache_read);
    rate_one_digit_more(r.cache_write_5m_per_mtok@, scale, u.cache_write_5m);
    rate_one_digit_more(r.cache_write_1h_per_mtok@, scale, u.cache_write_1h);
    rate_one_digit_more(r.cache_write_5m_per_mtok@, scale, u.cache_write_unspecified);
}

proof fn rate_one_digit_more(rate: (i128, u32), scale: nat, tokens: u64)
    requires
        rate.1 <= scale,
    ensures
        tokens * rate_at(rate, scale + 1) == 10 * (tokens * rate_at(rate, scale)),
{
    let k = (scale - rate.1) as nat;
    law_powers_of_ten(k);
    assert((scale + 1 - rate.1) as nat == k + 1);
    let p = pow10(k) as int;
    assert(tokens * (rate.0 * (10 * p)) == 10 * (tokens * (rate.0 * p))) by (nonlinear_arith);
}

/// A measurement is priced with its own model's newest rates, and a local model
/// costs nothing; without a model or without a price for it there is no cost.
pub proof fn law_a_measurement_is_priced_by_its_model(
    u: TokenBands,
    model: Text,
    entries: Seq<ModelPricing>,
    scale: nat,
)
    ensures
        priced(u, None, entries) is Unavailable,
        model == "<synthetic>"@ ==> priced(u, Some(model), entries) is Priced && item_cost(
            (u, Some(model)),
            entries,
            scale,
        ) == 0,
        model != "<synthetic>"@ && in_force(entries, model, None).is_none() ==> priced(
            u,
            Some(model),
            entries,
        ) == CostOutcomeView::Unavailable(
            UnavailableReasonView::NoPricingForModel { model_id: model },
        ),
        model != "<synthetic>"@ && in_force(entries, model, None).is_some() ==> item_cost(
            (u, Some(model)),
            entries,
            scale,
        ) == exact_cost(u, entries[in_force(entries, model, None).unwrap()].rates, scale) && (
        priced(u, Some(model), entries) is Priced ==> priced(
            u,
            Some(model),
            entries,
        )->pricing_version == entries[in_force(entries, model, None).unwrap()].version_id@
            && priced(u, Some(model), entries)->unpriceable_tokens == u.unclassified),
{
}

/// One measurement more adds its own cost to the total, and nothing else.
pub proof fn law_costs_add_up(
    items: Seq<(TokenBands, Option<Text>)>,
    item: (TokenBands, Option<Text>),
    entries: Seq<ModelPricing>,
    scale: nat,
)
    ensures
        total_cost(Seq::empty(), entries, scale) == 0,
        total_cost(items.push(item), entries, scale) == total_cost(items, entries, scale)
            + item_cost(item, entries, scale),
        tally(items.push(item), entries).priced == tally(items, entries).priced + if unpriced(
            item,
            entries,
        ) {
            0int
        } else {
            1
        },
        unpriced(item, entries) ==> tally(items.push(item), entries).total == tally(
            items,
            entries,
        ).total,
{
    assert(items.push(item).drop_last() =~= items);
}

proof fn tally_all_priced(items: Seq<(TokenBands, Option<Text>)>, entries: Seq<ModelPricing>)
    requires
        forall|i: int|
            0 <= i < items.len() ==> !unpriced(#[trigger] items[i], entries)
                && items[i].0.unclassified == 0,
    ensures
        tally(items, entries).priced == items.len(),
        tally(items, entries).unpriceable == 0,
    decreases items.len(),
{
    if items.len() > 0 {
        let d = items.drop_last();
        assert forall|i: int| 0 <= i < d.len() implies !unpriced(#[trigger] d[i], entries)
            && d[i].0.unclassified == 0 by {
            assert(d[i] == items[i]);
        }
        tally_all_priced(d, entries);
        assert(!unpriced(items[items.len() - 1], entries));
    }
}

/// A total whose every part has a price and is classified is a finished figure.
pub proof fn law_everything_priced_is_a_figure(
    items: Seq<(TokenBands, Option<Text>)>,
    entries: Seq<ModelPricing>,
)
    requires
        0 < items.len() <= u32::MAX,
        totals_fit(items, entries),
        forall|i: int|
            0 <= i < items.len() ==> !unpriced(#[trigger] items[i], entries)
                && items[i].0.unclassified == 0,
    ensures
        cost_of_all(items, entries).value.is_some(),
        cost_of_all(items, entries).accuracy is Calculated,
{
    tally_all_priced(items, entries);
}

/// A floor says of how many measurements it is the cost: those that have a price,
/// of all that there are.
pub proof fn law_a_floor_counts_what_is_priced(
    items: Seq<(TokenBands, Option<Text>)>,
    entries: Seq<ModelPricing>,
)
    requires
        items.len() <= u32::MAX,
        cost_of_all(items, entries).accuracy is Partial,
    ensures
        cost_of_all(items, entries).accuracy->total == items.len(),
        cost_of_all(items, entries).accuracy->measured == tally(items, entries).priced,
        0 < cost_of_all(items, entries).accuracy->measured <= items.len(),
{
    tally_bounds(items, entries);
}

/// One priced measurement more is added to the total, with the tokens of it that
/// could not be priced; the reason given for what is missing is the first one's.
pub proof fn law_a_priced_measurement_is_added(
    items: Seq<(TokenBands, Option<Text>)>,
    item: (TokenBands, Option<Text>),
    entries: Seq<ModelPricing>,
)
    ensures
        priced(item.0, item.1, entries) is Priced && tally(items, entries).total.is_some() ==> tally(
            items.push(item),
            entries,
        ).total == decimal_sum(
            tally(items, entries).total.unwrap(),
            priced(item.0, item.1, entries)->amount,
        ),
        priced(item.0, item.1, entries) is Priced ==> tally(items.push(item), entries).unpriceable
            == tally(items, entries).unpriceable + priced(
            item.0,
            item.1,
            entries,
        )->unpriceable_tokens && tally(items.push(item), entries).first_missing == tally(
            items,
            entries,
        ).first_missing,
        priced(item.0, item.1, entries) is Unavailable && tally(
            items,
            entries,
        ).first_missing.is_none() ==> tally(items.push(item), entries).first_missing == Some(
            priced(item.0, item.1, entries)->Unavailable_0,
        ),
        tally(items, entries).first_missing.is_some() ==> tally(
            items.push(item),
            entries,
        ).first_missing == tally(items, entries).first_missing,
        tally(Seq::empty(), entries).total == Some((0i128, 0u32)),
        tally(Seq::empty(), entries).unpriceable == 0,
        tally(Seq::empty(), entries).first_missing.is_none(),
{
    assert(items.push(item).drop_last() =~= items);
}

/// The amount that is shown is the total of what has a price, and there is none
/// exactly where nothing has.
pub proof fn law_the_total_is_what_is_shown(
    items: Seq<(TokenBands, Option<Text>)>,
    entries: Seq<ModelPricing>,
)
    requires
        items.len() <= u32::MAX,
    ensures
        tally(items, entries).priced > 0 ==> cost_of_all(items, entries).value == tally(
            items,
            entries,
        ).total,
        tally(items, entries).priced == 0 ==> cost_of_all(items, entries).value.is_none()
            && cost_of_all(items, entries).accuracy is Unavailable,
        tally(items, entries).priced > 0 && tally(items, entries).priced < items.len()
            ==> cost_of_all(items, entries).accuracy is Partial,
        tally(items, entries).priced > 0 && tally(items, entries).unpriceable > 0 ==> cost_of_all(
            items,
            entries,
        ).accuracy is Partial,
{
    tally_bounds(items, entries);
}

/// A floor says what is missing: how many requests have no price, and how many
/// tokens could not be priced.
pub proof fn law_a_floor_says_what_is_missing(priced: u32, count: u32, unpriceable: u64)
    ensures
        priced < count ==> shortfall(priced, count, unpriceable).len() > 0 && shortfall(
            priced,
            count,
            unpriceable,
        )[0] == dec((count - priced) as nat) + " of "@ + dec(count as nat)
            + " requests have no price for their model"@,
        unpriceable > 0 ==> shortfall(priced, count, unpriceable).len() > 0 && shortfall(
            priced,
            count,
            unpriceable,
        ).last() == dec(unpriceable as nat)
            + " tokens were counted by the provider without an input/output split and cannot be priced"@,
        priced >= count && unpriceable == 0 ==> shortfall(priced, count, unpriceable).len() == 0,
        priced < count && unpriceable > 0 ==> shortfall(priced, count, unpriceable).len() == 2,
{
}

/// A measured amount is seen by the contracts as it is.
pub proof fn law_a_measured_amount_is_seen_as_it_is(m: Measured<Money>)
    ensures
        m.value.is_none() <==> measured_amount(m).value.is_none(),
        m.value.is_some() ==> measured_amount(m).value == Some(m.value.unwrap()@),
        measured_amount(m).accuracy == m.accuracy@,
{
}

/// A cost is seen by the contracts as it is: its amount, its price version and
/// what of it could not be priced, or why there is none.
pub proof fn law_a_cost_is_seen_as_it_is(o: CostOutcome)
    ensures
        o is Priced <==> o@ is Priced,
        o is Priced ==> o@->amount == o->amount@ && o@->pricing_version == o->pricing_version@
            && o@->unpriceable_tokens == o->unpriceable_tokens,
        o is Unavailable ==> o@ == CostOutcomeView::Unavailable(o->Unavailable_0@),
{
}

/// Measurements are priced with their own usage and their own model, in order.
pub proof fn law_measurements_keep_their_models(
    items: Seq<(TokenUsage, Option<String>)>,
    i: int,
)
    requires
        0 <= i < items.len(),
    ensures
        item_views(items).len() == items.len(),
        item_views(items)[i].0 == items[i].0@,
        item_views(items)[i].1 == opt_text(items[i].1),
{
}

/// Reasoning and unclassified tokens, whatever is said of them, leave the exact
/// cost as it is.
pub proof fn law_reasoning_and_unclassified_add_nothing(
    u: TokenBands,
    reasoning: Option<u64>,
    unclassified: u64,
    r: Rates,
    scale: nat,
)
    ensures
        exact_cost(TokenBands { reasoning, unclassified, ..u }, r, scale) == exact_cost(
            u,
            r,
            scale,
        ),
{
}

} // verus!
