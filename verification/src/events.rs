//! The live event stream.
//!
//! The stream is a hint and the database is the truth: snapshots carry absolute
//! totals, never deltas, so a dropped connection cannot corrupt a running total.
use vstd::prelude::*;
use vstd::string::StringExecFns;

use crate::dto::{AdapterState, IngestProgress, TaskMetrics, TaskSummary};
use crate::ids::Uuid;
use crate::measurement::MeasurementSource;
use crate::text::{dec_i64, int_text, Text};
use crate::time::Timestamp;
use crate::tokens::TokenBands;

verus! {

/// One frame of the stream.
#[derive(Debug, Clone, PartialEq)]
pub struct EventEnvelope {
    /// Monotonic within a `stream_epoch`.
    pub seq: i64,
    /// Changes whenever the process restarts.
    pub stream_epoch: Uuid,
    pub ts: Timestamp,
    pub task_id: Option<Uuid>,
    pub payload: AgentEvent,
}

/// Everything that can be pushed.
#[derive(Debug, Clone, PartialEq)]
pub enum AgentEvent {
    Heartbeat { lag_ms: u64 },
    TaskCreated { task: Box<TaskSummary> },
    TaskUpdated { task: Box<TaskSummary> },
    TaskStopped { exit_code: Option<i32>, reason: String },
    /// Authoritative totals for one task.
    MetricsSnapshot { metrics: Box<TaskMetrics> },
    /// One newly recorded request. Totals never come from adding these up.
    UsageDelta {
        request_id: Uuid,
        model_id: String,
        bands: TokenBands,
        measurement_source: MeasurementSource,
    },
    AdapterStateChanged { adapter_id: String, state: AdapterState },
    IngestProgressed { progress: IngestProgress },
    /// Usage that no task claims.
    AttributionUnresolved { session_id: String, adapter_id: String, reason: String },
    IngestAnomaly { kind: String, detail: String },
    PricingUpdated { model_id: String },
    /// The client fell behind and must refetch.
    Resync { reason: String },
}

/// An event's name on the stream.
pub open spec fn event_name(e: AgentEvent) -> Text {
    match e {
        AgentEvent::Heartbeat { .. } => "heartbeat"@,
        AgentEvent::TaskCreated { .. } => "task_created"@,
        AgentEvent::TaskUpdated { .. } => "task_updated"@,
        AgentEvent::TaskStopped { .. } => "task_stopped"@,
        AgentEvent::MetricsSnapshot { .. } => "metrics_snapshot"@,
        AgentEvent::UsageDelta { .. } => "usage_delta"@,
        AgentEvent::AdapterStateChanged { .. } => "adapter_state_changed"@,
        AgentEvent::IngestProgressed { .. } => "ingest_progressed"@,
        AgentEvent::AttributionUnresolved { .. } => "attribution_unresolved"@,
        AgentEvent::IngestAnomaly { .. } => "ingest_anomaly"@,
        AgentEvent::PricingUpdated { .. } => "pricing_updated"@,
        AgentEvent::Resync { .. } => "resync"@,
    }
}

impl AgentEvent {
    /// The event's name on the stream.
    pub fn name(&self) -> (s: &'static str)
        ensures
            s@ == event_name(*self),
    {
        match self {
            AgentEvent::Heartbeat { .. } => "heartbeat",
            AgentEvent::TaskCreated { .. } => "task_created",
            AgentEvent::TaskUpdated { .. } => "task_updated",
            AgentEvent::TaskStopped { .. } => "task_stopped",
            AgentEvent::MetricsSnapshot { .. } => "metrics_snapshot",
            AgentEvent::UsageDelta { .. } => "usage_delta",
            AgentEvent::AdapterStateChanged { .. } => "adapter_state_changed",
            AgentEvent::IngestProgressed { .. } => "ingest_progressed",
            AgentEvent::AttributionUnresolved { .. } => "attribution_unresolved",
            AgentEvent::IngestAnomaly { .. } => "ingest_anomaly",
            AgentEvent::PricingUpdated { .. } => "pricing_updated",
            AgentEvent::Resync { .. } => "resync",
        }
    }
}

/// The data of a frame: the encoded envelope, or a report that it could not be
/// encoded.
pub open spec fn frame_data(encoded: Result<String, String>) -> Text {
    match encoded {
        Ok(json) => json@,
        Err(e) => "{\"type\":\"ingest_anomaly\",\"kind\":\"serialize\",\"detail\":\""@ + e@
            + "\"}"@,
    }
}

impl EventEnvelope {
    /// Render as a frame, the trailing blank line included; `encoded` is the
    /// envelope as JSON, or why it could not be encoded.
    pub fn to_sse_frame(&self, encoded: &Result<String, String>) -> (s: String)
        ensures
            s@ == "id: "@ + int_text(self.seq as int) + "\nevent: "@ + event_name(self.payload)
                + "\ndata: "@ + frame_data(*encoded) + "\n\n"@,
            s@ == frame_text(self.seq, self.payload, *encoded),
    {
        let data = match encoded {
            Ok(json) => json.clone(),
            Err(e) => {
                let mut d =
                    "{\"type\":\"ingest_anomaly\",\"kind\":\"serialize\",\"detail\":\"".to_owned();
                d.append(e.as_str());
                d.append("\"}");
                d
            },
        };
        let mut s = "id: ".to_owned();
        s.append(dec_i64(self.seq).as_str());
        s.append("\nevent: ");
        s.append(self.payload.name());
        s.append("\ndata: ");
        s.append(data.as_str());
        s.append("\n\n");
        s
    }
}

/// Each event goes by its own name on the stream.
pub proof fn law_events_go_by_their_names(e: AgentEvent)
    ensures
        e is Heartbeat ==> event_name(e) == "heartbeat"@,
        e is TaskCreated ==> event_name(e) == "task_created"@,
        e is TaskUpdated ==> event_name(e) == "task_updated"@,
        e is TaskStopped ==> event_name(e) == "task_stopped"@,
        e is MetricsSnapshot ==> event_name(e) == "metrics_snapshot"@,
        e is UsageDelta ==> event_name(e) == "usage_delta"@,
        e is AdapterStateChanged ==> event_name(e) == "adapter_state_changed"@,
        e is IngestProgressed ==> event_name(e) == "ingest_progressed"@,
        e is AttributionUnresolved ==> event_name(e) == "attribution_unresolved"@,
        e is IngestAnomaly ==> event_name(e) == "ingest_anomaly"@,
        e is PricingUpdated ==> event_name(e) == "pricing_updated"@,
        e is Resync ==> event_name(e) == "resync"@,
{
}

/// A frame's data is the envelope as it was encoded, or says why it could not be.
pub proof fn law_a_frame_carries_its_envelope(encoded: Result<String, String>)
    ensures
        encoded is Ok ==> frame_data(encoded) == encoded->Ok_0@,
        encoded is Err ==> exists|before: Text, after: Text|
            frame_data(encoded) == #[trigger] (before + encoded->Err_0@ + after),
{
    if encoded is Err {
        let before = "{\"type\":\"ingest_anomaly\",\"kind\":\"serialize\",\"detail\":\""@;
        let after = "\"}"@;
        assert(frame_data(encoded) == before + encoded->Err_0@ + after);
    }
}

/// A frame of the stream.
pub open spec fn frame_text(
    seq: i64,
    payload: AgentEvent,
    encoded: Result<String, String>,
) -> Text {
    "id: "@ + int_text(seq as int) + "\nevent: "@ + event_name(payload) + "\ndata: "@ + frame_data(
        encoded,
    ) + "\n\n"@
}

/// A frame carries its number, its event's name and its data, each on a line of
/// its own, and ends with a blank line.
pub proof fn law_a_frame_has_number_name_and_data(
    seq: i64,
    payload: AgentEvent,
    encoded: Result<String, String>,
)
    ensures
        frame_text(seq, payload, encoded) == "id: "@ + int_text(seq as int) + "\nevent: "@
            + event_name(payload) + "\ndata: "@ + frame_data(encoded) + "\n\n"@,
        encoded is Ok ==> frame_text(seq, payload, encoded) == "id: "@ + int_text(seq as int)
            + "\nevent: "@ + event_name(payload) + "\ndata: "@ + encoded->Ok_0@ + "\n\n"@,
{
}

} // verus!
