//! What is shown to a reader.
use vstd::prelude::*;

use crate::ids::Uuid;
use crate::measurement::{
    AccuracyView, Measured, MeasuredView, UnavailableReason, UnavailableReasonView,
};
use crate::money::{Currency, Money};
use crate::pricing::measured_amount;
use crate::text::Text;
use crate::time::Timestamp;
use crate::tokens::TokenBands;

verus! {

#[derive(Debug, Clone, PartialEq, Eq)]
pub struct HealthResponse {
    pub status: String,
    pub uptime_ms: u64,
}

#[derive(Debug, Clone, PartialEq, Eq)]
pub struct MetaResponse {
    pub contract_version: String,
    pub impl_name: String,
    pub impl_version: String,
    /// Changes on every restart; a client must refetch when it does.
    pub stream_epoch: Uuid,
    pub capabilities: Vec<String>,
}

#[derive(Debug, Clone, Copy, PartialEq, Eq, Structural)]
pub enum TaskStatus {
    Pending,
    Running,
    Completed,
    Failed,
    Stopped,
}

/// How a task is tied to the usage it owns. Every way is an identity; there is
/// no correlation by directory or time.
#[derive(Debug, Clone, PartialEq, Eq)]
pub enum TaskBinding {
    LaunchedPinned { session_id: String },
    LaunchedStdout { pid: u32 },
    AttachedPidSessionFile { pid: u32, session_id: String },
    SessionIdExact { session_id: String },
    Unbound,
}

#[derive(Debug, Clone, PartialEq)]
pub struct TaskSummary {
    pub id: Uuid,
    pub benchmark_id: Option<Uuid>,
    pub name: String,
    pub adapter_id: String,
    pub status: TaskStatus,
    pub binding: TaskBinding,
    pub working_dir: Option<String>,
    pub model_id: Option<String>,
    pub started_at: Option<Timestamp>,
    pub ended_at: Option<Timestamp>,
}

/// A task's consumption, with absolute totals.
#[derive(Debug, Clone, PartialEq)]
pub struct TaskMetrics {
    pub task_id: Uuid,
    pub status: TaskStatus,
    pub bands: TokenBands,
    pub total_tokens: Measured<u64>,
    pub reasoning_tokens: Measured<u64>,
    pub requests: RequestCounts,
    pub elapsed_ms: u64,
    pub model_id: Option<String>,
    pub cost: CostBreakdown,
    pub latency: LatencySummary,
}

#[derive(Debug, Clone, Copy, Default, PartialEq, Eq, Structural)]
pub struct RequestCounts {
    pub succeeded: u32,
    pub failed: u32,
    /// `None` where the agent does not expose retries.
    pub retries: Option<u32>,
    /// The counts are a floor.
    pub is_lower_bound: bool,
}

/// Three different answers to what a task cost.
#[derive(Debug, Clone, PartialEq)]
pub struct CostBreakdown {
    pub currency: Currency,
    /// What it would have cost at published rates.
    pub api_equivalent: Measured<Money>,
    /// What the provider said it cost.
    pub provider_reported: Measured<Money>,
    /// What was charged.
    pub actual_billed: Measured<Money>,
}

/// No number, and why.
pub open spec fn missing<T>(reason: UnavailableReasonView) -> MeasuredView<T> {
    MeasuredView { value: None, accuracy: AccuracyView::Unavailable { reason } }
}

impl CostBreakdown {
    /// A task billed under a subscription, for which no charge exists.
    pub fn subscription(currency: Currency, api_equivalent: Measured<Money>, plan: &str) -> (c: Self)
        ensures
            c.currency == currency,
            c.api_equivalent == api_equivalent,
            measured_amount(c.provider_reported) == missing::<(i128, u32)>(
                UnavailableReasonView::NotReportedByProvider {
                    field: "cost"@,
                    detail: "This agent does not report a cost figure."@,
                },
            ),
            measured_amount(c.actual_billed) == missing::<(i128, u32)>(
                UnavailableReasonView::SubscriptionBilled { plan: plan@ },
            ),
    {
        CostBreakdown {
            currency,
            api_equivalent,
            provider_reported: Measured::unavailable(
                UnavailableReason::NotReportedByProvider {
                    field: "cost".to_owned(),
                    detail: "This agent does not report a cost figure.".to_owned(),
                },
            ),
            actual_billed: Measured::unavailable(
                UnavailableReason::SubscriptionBilled { plan: plan.to_owned() },
            ),
        }
    }
}

#[derive(Debug, Clone, PartialEq)]
pub struct LatencySummary {
    pub average_ms: Measured<u64>,
    pub median_ms: Measured<u64>,
    pub p95_ms: Measured<u64>,
    pub time_to_first_token_ms: Measured<u64>,
    pub output_tokens_per_sec: Measured<u64>,
}

/// Why a latency is not known, and what would make it known.
pub open spec fn unmeasured_latency(detail: Text, level: Text) -> MeasuredView<u64> {
    missing(UnavailableReasonView::RequiresCaptureLevel { level, detail })
}

impl LatencySummary {
    /// No figure is unavailable for a reason of its own: each is, with the same
    /// remedy.
    pub open spec fn all_unmeasured(self, detail: Text, level: Text) -> bool {
        &&& self.average_ms@ == unmeasured_latency(detail, level)
        &&& self.median_ms@ == unmeasured_latency(detail, level)
        &&& self.p95_ms@ == unmeasured_latency(detail, level)
        &&& self.time_to_first_token_ms@ == unmeasured_latency(detail, level)
        &&& self.output_tokens_per_sec@ == unmeasured_latency(detail, level)
    }

    /// Nothing is known of latency, and `level` is what would measure it.
    pub fn unavailable(detail: &str, level: &str) -> (l: Self)
        ensures
            l.all_unmeasured(detail@, level@),
    {
        LatencySummary {
            average_ms: unavailable_latency(detail, level),
            median_ms: unavailable_latency(detail, level),
            p95_ms: unavailable_latency(detail, level),
            time_to_first_token_ms: unavailable_latency(detail, level),
            output_tokens_per_sec: unavailable_latency(detail, level),
        }
    }
}

fn unavailable_latency(detail: &str, level: &str) -> (m: Measured<u64>)
    ensures
        m@ == unmeasured_latency(detail@, level@),
{
    Measured::unavailable(
        UnavailableReason::RequiresCaptureLevel {
            level: level.to_owned(),
            detail: detail.to_owned(),
        },
    )
}

#[derive(Debug, Clone, Copy, PartialEq, Eq, Structural)]
pub enum AdapterState {
    Ready,
    Detected,
    NotInstalled,
    Error,
}

/// What an application can tell, with the evidence for it.
#[derive(Debug, Clone, PartialEq, Eq)]
pub enum CapabilityState {
    Supported { evidence: String },
    Degraded { evidence: String, caveat: String },
    Unsupported { reason: String },
    /// Not checked, or nothing seen: never a yes.
    Unknown { reason: String },
}

/// A [`CapabilityState`] with its texts as characters.
pub enum CapabilityView {
    Supported { evidence: Text },
    Degraded { evidence: Text, caveat: Text },
    Unsupported { reason: Text },
    Unknown { reason: Text },
}

impl View for CapabilityState {
    type V = CapabilityView;

    open spec fn view(&self) -> CapabilityView {
        match *self {
            CapabilityState::Supported { evidence } => CapabilityView::Supported {
                evidence: evidence@,
            },
            CapabilityState::Degraded { evidence, caveat } => CapabilityView::Degraded {
                evidence: evidence@,
                caveat: caveat@,
            },
            CapabilityState::Unsupported { reason } => CapabilityView::Unsupported {
                reason: reason@,
            },
            CapabilityState::Unknown { reason } => CapabilityView::Unknown { reason: reason@ },
        }
    }
}

/// An application, and what it can tell.
#[derive(Debug, Clone, PartialEq)]
pub struct AdapterDescriptor {
    pub id: String,
    pub display_name: String,
    pub state: AdapterState,
    pub app_version: Option<String>,
    pub adapter_version: String,
    pub executable_path: Option<String>,
    pub capabilities: Vec<(String, CapabilityState)>,
    pub notes: Vec<String>,
}

#[derive(Debug, Clone, Copy, Default, PartialEq, Eq, Structural)]
pub struct IngestProgress {
    pub files_done: u32,
    pub files_total: u32,
    pub bytes_done: u64,
    pub bytes_total: u64,
    pub lag_ms: u64,
    pub anomalies: u32,
}

/// One recorded session, with its certainty attached.
#[derive(Debug, Clone, PartialEq)]
pub struct SessionSummary {
    pub session_id: String,
    pub adapter_id: String,
    pub model_id: Option<String>,
    pub requests: u32,
    pub bands: TokenBands,
    pub total_tokens: Measured<u64>,
    pub reasoning_tokens: Measured<u64>,
    pub first_at: Option<String>,
    pub last_at: Option<String>,
    pub unattributed: bool,
}

#[derive(Debug, Clone, Copy, Default, PartialEq, Eq, Structural)]
pub struct IngestStatus {
    pub passes: u64,
    pub files_scanned: u32,
    pub files_skipped: u32,
    pub requests_recorded: u64,
    pub anomalies: u32,
    pub backfilling: bool,
}

#[derive(Debug, Clone, PartialEq, Eq)]
pub struct SeriesPoint {
    pub at: String,
    pub requests: u32,
    pub input_fresh: u64,
    pub cache_read: u64,
    pub cache_write: u64,
    pub output_total: u64,
    pub unclassified: u64,
}

#[derive(Debug, Clone, PartialEq, Eq)]
pub struct ObservedModel {
    pub model_id: String,
    pub adapter_id: String,
    pub requests: u32,
    pub total_tokens: u64,
    pub priced: bool,
}

#[derive(Debug, Clone, PartialEq)]
pub struct PriceRow {
    pub version_id: String,
    pub model_id: String,
    pub input_per_mtok: Money,
    pub output_per_mtok: Money,
    pub cache_read_per_mtok: Money,
    pub cache_write_5m_per_mtok: Money,
    pub cache_write_1h_per_mtok: Money,
    pub effective_from: String,
    pub source: String,
    pub is_current: bool,
}

#[derive(Debug, Clone, PartialEq)]
pub struct FxRow {
    pub quote_currency: String,
    pub rate: Money,
    pub as_of: String,
    pub source: String,
    pub age_days: i64,
    pub is_stale: bool,
    pub description: String,
}

#[derive(Debug, Clone, PartialEq)]
pub struct PricingView {
    pub models: Vec<ObservedModel>,
    pub prices: Vec<PriceRow>,
    pub fx: Vec<FxRow>,
    pub supported_currencies: Vec<String>,
}

#[derive(Debug, Clone, PartialEq)]
pub struct NewPrice {
    pub model_id: String,
    pub input_per_mtok: Money,
    pub output_per_mtok: Money,
    pub cache_read_per_mtok: Option<Money>,
    pub cache_write_5m_per_mtok: Option<Money>,
    pub cache_write_1h_per_mtok: Option<Money>,
    pub note: Option<String>,
}

#[derive(Debug, Clone, PartialEq)]
pub struct NewFxRate {
    pub quote_currency: String,
    pub rate: Money,
}

/// A task's figures divided by the output it produced.
#[derive(Debug, Clone, PartialEq)]
pub struct Normalized {
    pub basis: String,
    pub denominator: u64,
    pub total_tokens: Measured<u64>,
    pub input_tokens: Measured<u64>,
    pub cost: Measured<Money>,
}

#[derive(Debug, Clone, PartialEq)]
pub struct ComparisonRow {
    pub task_id: Uuid,
    pub name: String,
    pub metrics: Box<TaskMetrics>,
    pub normalized: Option<Normalized>,
}

/// Tasks side by side, and what makes them less comparable than a table
/// implies.
#[derive(Debug, Clone, PartialEq)]
pub struct Comparison {
    pub rows: Vec<ComparisonRow>,
    pub caveats: Vec<String>,
}

} // verus!
