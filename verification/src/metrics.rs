//! Turning stored totals into numbers that may be shown.
//!
//! Three decisions are made here and nowhere else: when a total may call itself
//! exact, what is said of a metric that cannot be measured, and how a metric
//! that only some providers report is aggregated.
use vstd::prelude::*;
use vstd::string::StringExecFns;

use crate::dto::{
    missing, CostBreakdown, LatencySummary, RequestCounts, TaskMetrics, TaskStatus,
};
use crate::ids::Uuid;
use crate::measurement::{
    clamp_u64, AccuracyView, Measured, MeasuredView, MeasurementSource, UnavailableReason,
    UnavailableReasonView,
};
use crate::money::{Currency, Money};
use crate::names::{title, title_of};
use crate::prices::{as_u64, count_of};
use crate::pricing::{
    cost_of_all, cost_of_many, item_views, measured_amount, sums_exactly, total_costs_exactly,
    totals_fit, try_cost_of_many,
};
use crate::repo::TaskTotals;
use crate::table::PriceTable;
use crate::text::{copy_opt, dec, dec_u64, join, joined, opt_text, str_eq, texts, Text};
use crate::token_usage::TokenUsage;
use crate::tokens::TokenBands;

verus! {

/// What is known about how complete an observation is.
#[derive(Debug, Clone, Copy, PartialEq, Eq, Structural)]
pub struct Completeness {
    /// Requests that are known to have happened but could not be measured.
    pub unmeasured_requests: u32,
    /// Monitoring began after the session had already started.
    pub started_mid_session: bool,
    /// Anomalies recorded against the sessions.
    pub anomalies: u32,
}

impl Default for Completeness {
    fn default() -> (c: Self)
        ensures
            c.complete(),
            c == (Completeness {
                unmeasured_requests: 0,
                started_mid_session: false,
                anomalies: 0,
            }),
    {
        Completeness { unmeasured_requests: 0, started_mid_session: false, anomalies: 0 }
    }
}

impl Completeness {
    /// Nothing about the observation is incomplete.
    pub open spec fn complete(self) -> bool {
        self.unmeasured_requests == 0 && !self.started_mid_session && self.anomalies == 0
    }

    /// What is missing, one item for each way in which something is.
    pub open spec fn gaps(self) -> Seq<Text> {
        (if self.unmeasured_requests > 0 {
            seq![
                dec(self.unmeasured_requests as nat) + " request(s) could not be measured"@,
            ]
        } else {
            Seq::empty()
        }) + (if self.started_mid_session {
            seq!["monitoring began after this session had started"@]
        } else {
            Seq::empty()
        }) + (if self.anomalies > 0 {
            seq![dec(self.anomalies as nat) + " ingest anomaly/anomalies recorded"@]
        } else {
            Seq::empty()
        })
    }

    pub fn is_complete(&self) -> (b: bool)
        ensures
            b == self.complete(),
    {
        self.unmeasured_requests == 0 && !self.started_mid_session && self.anomalies == 0
    }

    /// What is missing, in a sentence.
    pub fn reason(&self) -> (s: String)
        ensures
            s@ == joined(self.gaps(), "; "@),
    {
        let mut parts: Vec<String> = Vec::new();
        if self.unmeasured_requests > 0 {
            let mut s = dec_u64(self.unmeasured_requests as u64);
            s.append(" request(s) could not be measured");
            parts.push(s);
        }
        if self.started_mid_session {
            parts.push("monitoring began after this session had started".to_owned());
        }
        if self.anomalies > 0 {
            let mut s = dec_u64(self.anomalies as u64);
            s.append(" ingest anomaly/anomalies recorded");
            parts.push(s);
        }
        proof {
            assert(texts(parts@) =~= self.gaps());
        }
        join(&parts, "; ")
    }
}

/// Everything needed to describe a task's consumption.
#[derive(Debug)]
pub struct MetricsInput<'a> {
    pub task_id: Uuid,
    pub status: TaskStatus,
    pub totals: &'a TaskTotals,
    pub completeness: &'a Completeness,
    pub model_id: Option<String>,
    pub elapsed_ms: u64,
    pub failed_requests: u32,
    /// `None` where the agent does not expose retries at all.
    pub retries: Option<u32>,
    pub adapter_id: &'a str,
    pub currency: Currency,
    /// The cost figure, where there is one.
    pub api_equivalent: Measured<Money>,
    /// The subscription plan, when usage is not billed per token.
    pub subscription_plan: Option<String>,
}

/// The buckets that stored totals hold.
pub open spec fn task_bands(t: TaskTotals) -> TokenBands {
    TokenBands {
        input_fresh: count_of(t.input_fresh),
        cache_read: count_of(t.cache_read),
        cache_write_5m: count_of(t.cache_write_5m),
        cache_write_1h: count_of(t.cache_write_1h),
        cache_write_unspecified: count_of(t.cache_write_unspecified),
        output_total: count_of(t.output_total),
        reasoning: match t.reasoning {
            Some(r) => Some(count_of(r)),
            None => None,
        },
        unclassified: count_of(t.unclassified),
    }
}

/// A stored number of requests; one that does not fit counts as the largest.
pub open spec fn requests_of(n: i64) -> u32 {
    if 0 <= n <= u32::MAX {
        n as u32
    } else {
        u32::MAX
    }
}

/// A stored number of requests.
pub fn as_u32(n: i64) -> (r: u32)
    ensures
        r == requests_of(n),
{
    if 0 <= n && n <= u32::MAX as i64 {
        n as u32
    } else {
        u32::MAX
    }
}

fn bands(t: &TaskTotals) -> (b: TokenBands)
    ensures
        b == task_bands(*t),
{
    TokenBands {
        input_fresh: as_u64(t.input_fresh),
        cache_read: as_u64(t.cache_read),
        cache_write_5m: as_u64(t.cache_write_5m),
        cache_write_1h: as_u64(t.cache_write_1h),
        cache_write_unspecified: as_u64(t.cache_write_unspecified),
        output_total: as_u64(t.output_total),
        reasoning: match t.reasoning {
            Some(r) => Some(as_u64(r)),
            None => None,
        },
        unclassified: as_u64(t.unclassified),
    }
}

/// What usage is measured of, as sentences about missing measurements call it.
pub const MEASURED_THING: &'static str = "task";

/// The headline number: exact only where nothing is missing.
pub open spec fn headline(b: TokenBands, measured: u32, c: Completeness) -> MeasuredView<u64> {
    if measured == 0 {
        missing(
            UnavailableReasonView::NoTelemetry {
                detail: "No requests have been measured for this "@ + MEASURED_THING@ + " yet."@,
            },
        )
    } else if c.complete() {
        MeasuredView {
            value: Some(clamp_u64(b.total())),
            accuracy: AccuracyView::Exact { source: MeasurementSource::ProviderReported },
        }
    } else {
        MeasuredView {
            value: Some(clamp_u64(b.total())),
            accuracy: AccuracyView::Partial {
                measured,
                total: if measured + c.unmeasured_requests > u32::MAX {
                    u32::MAX
                } else {
                    (measured + c.unmeasured_requests) as u32
                },
                reason: joined(c.gaps(), "; "@),
            },
        }
    }
}

fn total_tokens(b: &TokenBands, measured: u32, completeness: &Completeness) -> (m: Measured<u64>)
    ensures
        m@ == headline(*b, measured, *completeness),
        m.wf(),
{
    let total: u64 = b.grand_total();
    if measured == 0 {
        let mut detail = "No requests have been measured for this ".to_owned();
        detail.append(MEASURED_THING);
        detail.append(" yet.");
        return Measured::unavailable(UnavailableReason::NoTelemetry { detail });
    }
    if completeness.is_complete() {
        return Measured::exact(total, MeasurementSource::ProviderReported);
    }
    let observed: u32 = measured.saturating_add(completeness.unmeasured_requests);
    Measured::partial(total, measured, observed, completeness.reason())
}

/// Why reasoning is not known.
pub open spec fn no_reasoning() -> MeasuredView<u64> {
    missing(
        UnavailableReasonView::NotReportedByProvider {
            field: "reasoning_tokens"@,
            detail: "This agent does not report a reasoning-token count."@,
        },
    )
}

/// Reasoning tokens: exact where every request reports them, and else a floor
/// over those that do.
pub open spec fn reasoning_of(t: TaskTotals, measured: u32) -> MeasuredView<u64> {
    let reported_by = requests_of(t.reasoning_reported_by);
    match t.reasoning {
        None => no_reasoning(),
        Some(value) => if reported_by >= measured && measured > 0 {
            MeasuredView {
                value: Some(count_of(value)),
                accuracy: AccuracyView::Exact { source: MeasurementSource::ProviderReported },
            }
        } else {
            MeasuredView {
                value: Some(count_of(value)),
                accuracy: AccuracyView::Partial {
                    measured: reported_by,
                    total: measured,
                    reason: dec(reported_by as nat) + " of "@ + dec(measured as nat)
                        + " requests report reasoning tokens; the rest come from an agent that does not expose them, so this is a lower bound"@,
                },
            }
        },
    }
}

pub(crate) fn unreported_reasoning() -> (m: Measured<u64>)
    ensures
        m@ == no_reasoning(),
        m.wf(),
{
    Measured::unavailable(
        UnavailableReason::NotReportedByProvider {
            field: "reasoning_tokens".to_owned(),
            detail: "This agent does not report a reasoning-token count.".to_owned(),
        },
    )
}

fn reasoning_tokens(t: &TaskTotals, measured: u32) -> (m: Measured<u64>)
    ensures
        m@ == reasoning_of(*t, measured),
        m.wf(),
{
    let reported_by: u32 = as_u32(t.reasoning_reported_by);
    match t.reasoning {
        None => unreported_reasoning(),
        Some(value) => {
            if reported_by >= measured && measured > 0 {
                Measured::exact(as_u64(value), MeasurementSource::ProviderReported)
            } else {
                let mut reason = dec_u64(reported_by as u64);
                reason.append(" of ");
                reason.append(dec_u64(measured as u64).as_str());
                reason.append(
                    " requests report reasoning tokens; the rest come from an agent that does not expose them, so this is a lower bound",
                );
                Measured::partial(as_u64(value), reported_by, measured, reason)
            }
        },
    }
}

/// Why there is no charge to report.
pub open spec fn unbilled(plan: Option<Text>) -> MeasuredView<(i128, u32)> {
    missing(
        match plan {
            Some(p) => UnavailableReasonView::SubscriptionBilled { plan: p },
            None => UnavailableReasonView::NoTelemetry {
                detail: "No billing information is available for this agent."@,
            },
        },
    )
}

/// Why the provider's own cost is not known.
pub open spec fn no_provider_cost() -> MeasuredView<(i128, u32)> {
    missing(
        UnavailableReasonView::RequiresCaptureLevel {
            level: "OpenTelemetry export"@,
            detail: "This agent does not write a cost figure to its transcripts."@,
        },
    )
}

/// An exact copy of a measured amount.
pub(crate) fn copy_amount(m: &Measured<Money>) -> (r: Measured<Money>)
    ensures
        r == *m,
{
    Measured { value: m.value, accuracy: m.accuracy.copy() }
}

fn cost(input: &MetricsInput<'_>) -> (c: CostBreakdown)
    ensures
        c.currency == input.currency,
        c.api_equivalent == input.api_equivalent,
        measured_amount(c.provider_reported) == no_provider_cost(),
        measured_amount(c.actual_billed) == unbilled(opt_text(input.subscription_plan)),
{
    let actual_billed = match &input.subscription_plan {
        Some(plan) => Measured::unavailable(
            UnavailableReason::SubscriptionBilled { plan: plan.clone() },
        ),
        None => Measured::unavailable(
            UnavailableReason::NoTelemetry {
                detail: "No billing information is available for this agent.".to_owned(),
            },
        ),
    };
    CostBreakdown {
        currency: input.currency,
        api_equivalent: copy_amount(&input.api_equivalent),
        provider_reported: Measured::unavailable(
            UnavailableReason::RequiresCaptureLevel {
                level: "OpenTelemetry export".to_owned(),
                detail: "This agent does not write a cost figure to its transcripts.".to_owned(),
            },
        ),
        actual_billed,
    }
}

/// Why an agent's latency is not known.
pub open spec fn latency_detail(adapter: Text) -> Text {
    if adapter == "claude_code"@ {
        title(adapter) + " transcripts contain no latency or time-to-first-token field."@
    } else if adapter == "codex"@ {
        "Codex rollouts contain no per-request latency field."@
    } else {
        "This capture method does not observe request timing."@
    }
}

fn latency(adapter_id: &str) -> (l: LatencySummary)
    ensures
        l.all_unmeasured(
            latency_detail(adapter_id@),
            "the local proxy or OpenTelemetry export"@,
        ),
{
    let detail = if str_eq(adapter_id, "claude_code") {
        let mut s = title_of(adapter_id);
        s.append(" transcripts contain no latency or time-to-first-token field.");
        s
    } else if str_eq(adapter_id, "codex") {
        "Codex rollouts contain no per-request latency field.".to_owned()
    } else {
        "This capture method does not observe request timing.".to_owned()
    };
    LatencySummary::unavailable(detail.as_str(), "the local proxy or OpenTelemetry export")
}

/// The metrics that describe a task's consumption.
pub open spec fn describes(input: MetricsInput<'_>, m: TaskMetrics) -> bool {
    let t = *input.totals;
    let measured = requests_of(t.requests);
    &&& m.task_id == input.task_id
    &&& m.status == input.status
    &&& m.bands == task_bands(t)
    &&& m.total_tokens@ == headline(task_bands(t), measured, *input.completeness)
    &&& m.reasoning_tokens@ == reasoning_of(t, measured)
    &&& m.requests == RequestCounts {
        succeeded: measured,
        failed: input.failed_requests,
        retries: input.retries,
        is_lower_bound: !input.completeness.complete(),
    }
    &&& m.elapsed_ms == input.elapsed_ms
    &&& m.model_id == input.model_id
    &&& m.cost.currency == input.currency
    &&& m.cost.api_equivalent == input.api_equivalent
    &&& measured_amount(m.cost.provider_reported) == no_provider_cost()
    &&& measured_amount(m.cost.actual_billed) == unbilled(opt_text(input.subscription_plan))
    &&& m.latency.all_unmeasured(
        latency_detail(input.adapter_id@),
        "the local proxy or OpenTelemetry export"@,
    )
}

/// Build the snapshot that is shown of a task.
pub fn build(input: &MetricsInput<'_>) -> (m: TaskMetrics)
    ensures
        describes(*input, m),
{
    let t = input.totals;
    let b = bands(t);
    let measured: u32 = as_u32(t.requests);
    TaskMetrics {
        task_id: input.task_id,
        status: input.status,
        bands: b,
        total_tokens: total_tokens(&b, measured, input.completeness),
        reasoning_tokens: reasoning_tokens(t, measured),
        requests: RequestCounts {
            succeeded: measured,
            failed: input.failed_requests,
            retries: input.retries,
            is_lower_bound: !input.completeness.is_complete(),
        },
        elapsed_ms: input.elapsed_ms,
        model_id: copy_opt(&input.model_id),
        cost: cost(input),
        latency: latency(input.adapter_id),
    }
}

/// A task's totals per model, as measurements.
pub open spec fn model_items(per_model: Seq<(Option<String>, TaskTotals)>) -> Seq<
    (TokenBands, Option<Text>),
> {
    per_model.map_values(|p: (Option<String>, TaskTotals)| (task_bands(p.1), opt_text(p.0)))
}

fn to_items(per_model: &[(Option<String>, TaskTotals)]) -> (items: Vec<
    (TokenUsage, Option<String>),
>)
    ensures
        item_views(items@) == model_items(per_model@),
{
    let mut items: Vec<(TokenUsage, Option<String>)> = Vec::new();
    let mut i: usize = 0;
    while i < per_model.len()
        invariant
            i <= per_model.len(),
            item_views(items@) == model_items(per_model@.take(i as int)),
        decreases per_model.len() - i,
    {
        let p = &per_model[i];
        let ghost before = items@;
        items.push((TokenUsage::from_bands(bands(&p.1)), copy_opt(&p.0)));
        proof {
            let now = (task_bands(p.1), opt_text(p.0));
            assert(item_views(items@) =~= item_views(before).push(now));
            assert(model_items(per_model@.take(i + 1)) =~= model_items(
                per_model@.take(i as int),
            ).push(now));
        }
        i += 1;
    }
    proof {
        assert(per_model@.take(i as int) =~= per_model@);
    }
    items
}

/// Cost a task from its per-model totals, whose amounts add up within what a
/// decimal holds. Per model and then summed: a grand total over models cannot
/// be priced at all.
pub fn cost_task(per_model: &[(Option<String>, TaskTotals)], table: &PriceTable) -> (m: Measured<
    Money,
>)
    requires
        totals_fit(model_items(per_model@), table@),
    ensures
        measured_amount(m) == cost_of_all(model_items(per_model@), table@),
        m.wf(),
        sums_exactly(m, model_items(per_model@), table@),
{
    let items = to_items(per_model);
    cost_of_many(items.as_slice(), table)
}

/// Cost a task from its per-model totals. `None` where the amounts do not add
/// up within what a decimal holds.
pub fn try_cost_task(
    per_model: &[(Option<String>, TaskTotals)],
    table: &PriceTable,
) -> (r: Option<Measured<Money>>)
    ensures
        match r {
            Some(m) => totals_fit(model_items(per_model@), table@) && measured_amount(m)
                == cost_of_all(model_items(per_model@), table@) && m.wf() && sums_exactly(
                m,
                model_items(per_model@),
                table@,
            ),
            None => !totals_fit(model_items(per_model@), table@) && forall|scale: nat|
                !(#[trigger] total_costs_exactly(model_items(per_model@), table@, scale)),
        },
{
    let items = to_items(per_model);
    if try_cost_of_many(items.as_slice(), table).is_some() {
        Some(cost_task(per_model, table))
    } else {
        None
    }
}

/// A total calls itself exact only where something was measured and nothing is
/// missing, and it is a floor with a reason wherever something is.
pub proof fn law_exact_only_when_complete(b: TokenBands, measured: u32, c: Completeness)
    ensures
        headline(b, measured, c).accuracy is Exact <==> measured > 0 && c.complete(),
        measured > 0 && !c.complete() ==> headline(b, measured, c).accuracy is Partial
            && c.gaps().len() > 0,
        measured == 0 ==> headline(b, measured, c).value.is_none(),
{
}

/// Reasoning that no request reports is unavailable, never zero, and reasoning
/// that only some report is a floor.
pub proof fn law_reasoning_is_never_invented(t: TaskTotals, measured: u32)
    ensures
        t.reasoning.is_none() <==> reasoning_of(t, measured).value.is_none(),
        reasoning_of(t, measured).accuracy is Exact ==> requests_of(t.reasoning_reported_by)
            >= measured,
{
}

/// A task's stored counts go into the buckets of the same names.
pub proof fn law_task_columns_keep_their_buckets(t: TaskTotals)
    ensures
        t.input_fresh >= 0 ==> task_bands(t).input_fresh == t.input_fresh,
        t.input_fresh < 0 ==> task_bands(t).input_fresh == 0,
        t.cache_read >= 0 ==> task_bands(t).cache_read == t.cache_read,
        t.cache_read < 0 ==> task_bands(t).cache_read == 0,
        t.cache_write_5m >= 0 ==> task_bands(t).cache_write_5m == t.cache_write_5m,
        t.cache_write_5m < 0 ==> task_bands(t).cache_write_5m == 0,
        t.cache_write_1h >= 0 ==> task_bands(t).cache_write_1h == t.cache_write_1h,
        t.cache_write_1h < 0 ==> task_bands(t).cache_write_1h == 0,
        t.cache_write_unspecified >= 0 ==> task_bands(t).cache_write_unspecified == t.cache_write_unspecified,
        t.cache_write_unspecified < 0 ==> task_bands(t).cache_write_unspecified == 0,
        t.output_total >= 0 ==> task_bands(t).output_total == t.output_total,
        t.output_total < 0 ==> task_bands(t).output_total == 0,
        t.unclassified >= 0 ==> task_bands(t).unclassified == t.unclassified,
        t.unclassified < 0 ==> task_bands(t).unclassified == 0,
        t.reasoning.is_some() == task_bands(t).reasoning.is_some(),
        t.reasoning.is_some() && t.reasoning.unwrap() >= 0 ==> task_bands(t).reasoning.unwrap()
            == t.reasoning.unwrap(),
{
}

/// Nothing is missing exactly where every request was measured, from the start of
/// the session on, without an anomaly; each thing that is missing is named.
pub proof fn law_completeness_is_what_is_missing(c: Completeness)
    ensures
        c.complete() <==> c.unmeasured_requests == 0 && !c.started_mid_session && c.anomalies == 0,
        c.gaps().len() == (if c.unmeasured_requests > 0 {
            1int
        } else {
            0
        }) + (if c.started_mid_session {
            1int
        } else {
            0
        }) + (if c.anomalies > 0 {
            1int
        } else {
            0
        }),
        c.unmeasured_requests > 0 ==> c.gaps()[0] == dec(c.unmeasured_requests as nat)
            + " request(s) could not be measured"@,
        c.started_mid_session ==> c.gaps().contains(
            "monitoring began after this session had started"@,
        ),
        c.anomalies > 0 ==> c.gaps().last() == dec(c.anomalies as nat)
            + " ingest anomaly/anomalies recorded"@,
{
    if c.started_mid_session {
        let i: int = if c.unmeasured_requests > 0 {
            1
        } else {
            0
        };
        assert(c.gaps()[i] == "monitoring began after this session had started"@);
    }
}

/// The headline is all tokens of all buckets, and a floor says how many requests
/// were measured of how many that are known of.
pub proof fn law_the_headline_is_every_token(b: TokenBands, measured: u32, c: Completeness)
    requires
        measured > 0,
        b.input_fresh + b.cache_read + b.cache_write_5m + b.cache_write_1h
                + b.cache_write_unspecified + b.output_total + b.unclassified <= u64::MAX,
    ensures
        headline(b, measured, c).value.is_some(),
        headline(b, measured, c).value.unwrap() == b.input_fresh + b.cache_read + b.cache_write_5m + b.cache_write_1h
                + b.cache_write_unspecified + b.output_total + b.unclassified,
        headline(b, measured, c).accuracy is Partial ==> headline(b, measured, c).accuracy->measured
            == measured && (measured + c.unmeasured_requests <= u32::MAX ==> headline(
            b,
            measured,
            c,
        ).accuracy->total == measured + c.unmeasured_requests),
{
}

/// A task's metrics are its own: its identity, its status, its model, its time,
/// its counts of requests, its currency and its cost are those that were handed
/// over, and its subscription is never a charge.
pub proof fn law_metrics_are_the_tasks_own(input: MetricsInput<'_>, m: TaskMetrics)
    requires
        describes(input, m),
        0 <= input.totals.requests <= u32::MAX,
    ensures
        m.task_id == input.task_id,
        m.status == input.status,
        m.model_id == input.model_id,
        m.elapsed_ms == input.elapsed_ms,
        m.requests.succeeded == input.totals.requests,
        m.requests.failed == input.failed_requests,
        m.requests.retries == input.retries,
        m.requests.is_lower_bound <==> input.completeness.unmeasured_requests > 0
            || input.completeness.started_mid_session || input.completeness.anomalies > 0,
        m.cost.currency == input.currency,
        m.cost.api_equivalent == input.api_equivalent,
        m.cost.actual_billed.value.is_none(),
        m.cost.provider_reported.value.is_none(),
        input.totals.cache_read >= 0 ==> m.bands.cache_read == input.totals.cache_read,
        input.totals.cache_write_1h >= 0 ==> m.bands.cache_write_1h
            == input.totals.cache_write_1h,
        input.totals.output_total >= 0 ==> m.bands.output_total == input.totals.output_total,
        input.subscription_plan.is_some() ==> measured_amount(m.cost.actual_billed).accuracy
            == (AccuracyView::Unavailable {
            reason: UnavailableReasonView::SubscriptionBilled {
                plan: input.subscription_plan.unwrap()@,
            },
        }),
{
    assert(measured_amount(m.cost.actual_billed).value.is_none());
    assert(measured_amount(m.cost.provider_reported).value.is_none());
}

/// Reasoning is the number that was reported; it is exact where every measured
/// request reports it, and else a floor that says how many of how many do.
pub proof fn law_reasoning_says_who_reports_it(t: TaskTotals, measured: u32, value: i64)
    requires
        t.reasoning == Some(value),
        value >= 0,
        0 <= t.reasoning_reported_by <= u32::MAX,
        measured > 0,
    ensures
        reasoning_of(t, measured).value.is_some() && reasoning_of(t, measured).value.unwrap()
            == value,
        t.reasoning_reported_by >= measured ==> reasoning_of(t, measured).accuracy is Exact,
        t.reasoning_reported_by < measured ==> reasoning_of(t, measured).accuracy is Partial
            && reasoning_of(t, measured).accuracy->measured == t.reasoning_reported_by
            && reasoning_of(t, measured).accuracy->total == measured,
{
}

/// Each model's totals are priced as that model's.
pub proof fn law_totals_are_priced_per_model(
    per_model: Seq<(Option<String>, TaskTotals)>,
    i: int,
)
    requires
        0 <= i < per_model.len(),
    ensures
        model_items(per_model).len() == per_model.len(),
        model_items(per_model)[i].1 == opt_text(per_model[i].0),
        model_items(per_model)[i].0 == task_bands(per_model[i].1),
{
}

/// A stored number of requests is itself, as far as it can be shown.
pub proof fn law_a_number_of_requests_is_itself(n: i64)
    ensures
        0 <= n <= u32::MAX ==> requests_of(n) == n,
        n > u32::MAX ==> requests_of(n) == u32::MAX,
{
}

/// A subscription is named and is no charge; without one nothing is known of what
/// was billed.
pub proof fn law_a_subscription_is_never_a_charge(plan: Option<Text>)
    ensures
        unbilled(plan).value.is_none(),
        plan.is_some() ==> unbilled(plan).accuracy == (AccuracyView::Unavailable {
            reason: UnavailableReasonView::SubscriptionBilled { plan: plan.unwrap() },
        }),
        plan.is_none() ==> unbilled(plan).accuracy is Unavailable,
        no_provider_cost().value.is_none(),
        no_reasoning().value.is_none(),
{
}

/// Latency is never invented: no figure of it has a value.
pub proof fn law_latency_is_never_invented(input: MetricsInput<'_>, m: TaskMetrics)
    requires
        describes(input, m),
    ensures
        m.latency.average_ms.value.is_none(),
        m.latency.median_ms.value.is_none(),
        m.latency.p95_ms.value.is_none(),
        m.latency.time_to_first_token_ms.value.is_none(),
        m.latency.output_tokens_per_sec.value.is_none(),
{
    assert(m.latency.average_ms@.value.is_none());
    assert(m.latency.median_ms@.value.is_none());
    assert(m.latency.p95_ms@.value.is_none());
    assert(m.latency.time_to_first_token_ms@.value.is_none());
    assert(m.latency.output_tokens_per_sec@.value.is_none());
}

} // verus!
