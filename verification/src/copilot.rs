//! GitHub Copilot.
//!
//! Copilot writes nothing measurable unless its OpenTelemetry file exporter is
//! on. One exported line is one envelope of spans. Spans named `invoke_agent`
//! repeat a session's totals under the same attribute names as the `chat` spans
//! that they summarise, so only `chat` spans are counted.
use vstd::prelude::*;
use vstd::string::StringExecFns;

use crate::adapters::{
    emit, holds_marker, outcome_of, same_lines, same_requests, same_requests_join, signal_views,
    undecodable, usages, usages_of_both, usages_of_one, LineCtx, LineCtxView, ParseOutcome,
    ParseOutcomeView, Signal, SignalView, UsageAdapter, UsageSignal, UsageSignalView,
};
use crate::bytes::contains;
use crate::codex::next_ordinal;
use crate::json::json_quoted;
use crate::native::{
    count_to_json, end_of_object, holds_field, json_count, json_text, or_zero, text_to_json,
    written, written_and_one, written_field,
};
use crate::text::{
    copy_opt, dec, dec_u64, number_of, opt_is, opt_text, parse_u64, str_eq, Text,
};
use crate::time::{instant, opt_instant, Timestamp};
use crate::token_usage::TokenUsage;
use crate::tokens::TokenBands;

verus! {

pub const ADAPTER_ID: &'static str = "copilot";

/// Provider-authored counts, read from the agent's own telemetry export.
pub const SOURCE_OTEL_SPAN: &'static str = "provider_otel_span";

/// What to set so that Copilot records anything at all.
pub const ENABLE_HINT: &'static str = "Copilot writes no token counts unless its OpenTelemetry file exporter is on. Set COPILOT_OTEL_ENABLED=true, COPILOT_OTEL_EXPORTER_TYPE=file and COPILOT_OTEL_FILE_EXPORTER_PATH=~/.copilot/otel/copilot.jsonl before starting a session. Earlier sessions recorded nothing and cannot be recovered.";

/// One exported line, decoded.
#[derive(Debug, Clone, PartialEq)]
pub struct Envelope {
    pub resource_spans: Vec<ResourceSpans>,
    /// The line itself as a span, for exporters that write no envelope.
    pub bare: Span,
}

#[derive(Debug, Clone, PartialEq)]
pub struct ResourceSpans {
    pub scope_spans: Vec<ScopeSpans>,
}

#[derive(Debug, Clone, PartialEq)]
pub struct ScopeSpans {
    pub spans: Vec<Span>,
}

#[derive(Debug, Clone, PartialEq)]
pub struct Span {
    pub name: Option<String>,
    pub attributes: Vec<Attribute>,
    pub span_id: Option<String>,
    pub trace_id: Option<String>,
    pub end_time: Option<Scalar>,
    pub start_time: Option<Scalar>,
}

#[derive(Debug, Clone, PartialEq)]
pub struct Attribute {
    pub key: String,
    pub value: Option<AttrValue>,
}

/// A number as an exporter writes it: in a string, as the protocol's JSON
/// mapping demands, or bare. A bare number comes with its text and, where it is
/// whole and fits, its value.
#[derive(Debug, Clone, PartialEq)]
pub enum Scalar {
    Str(String),
    Num { value: Option<u64>, text: String },
}

#[derive(Debug, Clone, PartialEq)]
pub struct AttrValue {
    pub int_value: Option<Scalar>,
    pub string_value: Option<String>,
    /// A number that arrived with a fraction part of zero and is not negative.
    pub whole_double: Option<u64>,
}

#[derive(Debug, Clone, Copy, PartialEq, Eq, Structural)]
pub struct CopilotAdapter;

impl UsageAdapter for CopilotAdapter {
    open spec fn markers(&self) -> Seq<Text> {
        seq!["resourceSpans"@, "gen_ai.usage."@]
    }

    open spec fn id_text(&self) -> Text {
        "copilot"@
    }

    fn id(&self) -> (s: &'static str) {
        ADAPTER_ID
    }

    fn is_candidate_line(&self, head: &[u8]) -> (b: bool) {
        let b = contains(head, "resourceSpans") || contains(head, "gen_ai.usage.");
        proof {
            let m = self.markers();
            assert(m[0] == "resourceSpans"@);
            assert(m[1] == "gen_ai.usage."@);
            if b {
                assert(holds_marker(head@, m));
            }
        }
        b
    }
}

/// The whole number that a scalar is.
pub open spec fn scalar_value(s: Scalar) -> Option<u64> {
    match s {
        Scalar::Str(t) => number_of(t@),
        Scalar::Num { value, .. } => value,
    }
}

/// A scalar's text.
pub open spec fn scalar_text(s: Scalar) -> Text {
    match s {
        Scalar::Str(t) => t@,
        Scalar::Num { text, .. } => text@,
    }
}

/// The count that a value holds, as an integer or as a whole double.
pub open spec fn value_count(v: AttrValue) -> Option<u64> {
    match v.int_value {
        Some(s) => match scalar_value(s) {
            Some(n) => Some(n),
            None => v.whole_double,
        },
        None => v.whole_double,
    }
}

/// The text that a value holds, as a string or as an integer's digits.
pub open spec fn value_text(v: AttrValue) -> Option<Text> {
    match (v.string_value, v.int_value) {
        (Some(s), _) => Some(s@),
        (None, Some(n)) => Some(scalar_text(n)),
        (None, None) => None,
    }
}

/// The last value given for a key.
pub open spec fn attribute(attributes: Seq<Attribute>, key: Text) -> Option<AttrValue>
    decreases attributes.len(),
{
    if attributes.len() == 0 {
        None
    } else if attributes.last().key@ == key && attributes.last().value.is_some() {
        attributes.last().value
    } else {
        attribute(attributes.drop_last(), key)
    }
}

/// The count given for a key.
pub open spec fn count_at(attributes: Seq<Attribute>, key: Text) -> Option<u64> {
    match attribute(attributes, key) {
        Some(v) => value_count(v),
        None => None,
    }
}

/// The text given for a key.
pub open spec fn text_at(attributes: Seq<Attribute>, key: Text) -> Option<Text> {
    match attribute(attributes, key) {
        Some(v) => value_text(v),
        None => None,
    }
}

/// The measurements among a span's attributes.
///
/// Not the whole list: a span can carry prompts and completions, and this is
/// what reaches the audit trail.
#[derive(Debug, Clone, PartialEq)]
pub struct SpanUsage {
    pub input: Option<u64>,
    pub output: Option<u64>,
    pub cache_read: Option<u64>,
    pub cache_write: Option<u64>,
    /// `None` means that the attribute was absent, which is not a zero.
    pub reasoning: Option<u64>,
    pub session: Option<String>,
    pub model: Option<String>,
}

/// A [`SpanUsage`] with its texts as characters.
pub struct SpanUsageView {
    pub input: Option<u64>,
    pub output: Option<u64>,
    pub cache_read: Option<u64>,
    pub cache_write: Option<u64>,
    pub reasoning: Option<u64>,
    pub session: Option<Text>,
    pub model: Option<Text>,
}

impl View for SpanUsage {
    type V = SpanUsageView;

    open spec fn view(&self) -> SpanUsageView {
        SpanUsageView {
            input: self.input,
            output: self.output,
            cache_read: self.cache_read,
            cache_write: self.cache_write,
            reasoning: self.reasoning,
            session: opt_text(self.session),
            model: opt_text(self.model),
        }
    }
}

/// The measurements that attributes hold. The model is the one that answered,
/// where it is known, and else the one that was asked for.
pub open spec fn collected(attributes: Seq<Attribute>) -> SpanUsageView {
    SpanUsageView {
        input: count_at(attributes, "gen_ai.usage.input_tokens"@),
        output: count_at(attributes, "gen_ai.usage.output_tokens"@),
        cache_read: count_at(attributes, "gen_ai.usage.cache_read.input_tokens"@),
        cache_write: count_at(attributes, "gen_ai.usage.cache_creation.input_tokens"@),
        reasoning: count_at(attributes, "gen_ai.usage.reasoning.output_tokens"@),
        session: text_at(attributes, "gen_ai.conversation.id"@),
        model: match text_at(attributes, "gen_ai.response.model"@) {
            Some(m) => Some(m),
            None => text_at(attributes, "gen_ai.request.model"@),
        },
    }
}

/// The measurements as a JSON object, keys in order.
pub open spec fn audit_json(u: SpanUsageView) -> Text {
    "{\"gen_ai.response.model\":"@ + json_text(u.model) + ",\"gen_ai.usage.cache_creation.input_tokens\":"@ + json_count(u.cache_write)
        + ",\"gen_ai.usage.cache_read.input_tokens\":"@ + json_count(u.cache_read)
        + ",\"gen_ai.usage.input_tokens\":"@ + json_count(u.input)
        + ",\"gen_ai.usage.output_tokens\":"@ + json_count(u.output)
        + ",\"gen_ai.usage.reasoning.output_tokens\":"@ + json_count(u.reasoning) + "}"@
}

/// A span that is one model call and carries a measurement.
pub open spec fn is_call(span: Span) -> bool {
    opt_text(span.name) == Some("chat"@) && {
        let u = collected(span.attributes@);
        u.input.is_some() || u.output.is_some()
    }
}

/// The session a span belongs to.
pub open spec fn span_session(span: Span) -> Text {
    match (collected(span.attributes@).session, span.trace_id) {
        (Some(s), _) => s,
        (None, Some(t)) => t@,
        (None, None) => "unknown"@,
    }
}

/// When a span ended, or else when it began.
pub open spec fn span_time(span: Span) -> Option<(i64, u32)> {
    let scalar = match span.end_time {
        Some(s) => Some(s),
        None => span.start_time,
    };
    match scalar {
        Some(s) => match scalar_value(s) {
            Some(nanos) => Some(
                ((nanos / 1_000_000_000) as i64, (nanos % 1_000_000_000) as u32),
            ),
            None => None,
        },
        None => None,
    }
}

/// Why a call's numbers cannot be right, where they cannot.
pub open spec fn refusal(u: SpanUsageView) -> Option<SignalView> {
    if or_zero(u.cache_read) > or_zero(u.input) {
        Some(
            SignalView::Anomaly {
                kind: "copilot_cache_exceeds_input"@,
                detail: "a chat span reported "@ + dec(or_zero(u.cache_read) as nat)
                    + " cached of "@ + dec(or_zero(u.input) as nat)
                    + " input tokens; the span was not counted"@,
            },
        )
    } else if or_zero(u.reasoning) > or_zero(u.output) {
        Some(
            SignalView::Anomaly {
                kind: "copilot_reasoning_exceeds_output"@,
                detail: "a chat span reported "@ + dec(or_zero(u.reasoning) as nat)
                    + " reasoning of "@ + dec(or_zero(u.output) as nat)
                    + " output tokens; the span was not counted"@,
            },
        )
    } else {
        None
    }
}

/// A call's buckets: the cache read is a part of the input, and its writes have
/// no time to live.
pub open spec fn call_bands(u: SpanUsageView) -> TokenBands {
    TokenBands {
        input_fresh: (or_zero(u.input) - or_zero(u.cache_read)) as u64,
        cache_read: or_zero(u.cache_read),
        cache_write_5m: 0,
        cache_write_1h: 0,
        cache_write_unspecified: or_zero(u.cache_write),
        output_total: or_zero(u.output),
        reasoning: u.reasoning,
        unclassified: 0,
    }
}

/// The measurement that a call is, or why it cannot be one.
pub open spec fn call_signal(ctx: LineCtxView, span: Span, now: (i64, u32)) -> SignalView {
    let u = collected(span.attributes@);
    match refusal(u) {
        Some(anomaly) => anomaly,
        None => SignalView::Usage(
            UsageSignalView {
                session_id: span_session(span),
                dedup_key: match span.span_id {
                    Some(id) => id@,
                    None => "copilot"@ + ":"@ + dec(next_ordinal(ctx.event_ordinal) as nat),
                },
                model_id: u.model,
                occurred_at: match span_time(span) {
                    Some(t) => t,
                    None => now,
                },
                usage: call_bands(u),
                measurement_source: "provider_otel_span"@,
                request_kind: "assistant"@,
                is_sidechain: false,
                agent_id: None,
                agent_type: None,
                raw_json: Some(audit_json(u)),
            },
        ),
    }
}

/// The session's announcement, where the session is new.
pub open spec fn session_opened(ctx: LineCtxView, session: Text) -> Seq<SignalView> {
    if ctx.current_session == Some(session) {
        Seq::empty()
    } else {
        seq![SignalView::SessionOpened { session_id: session, cwd: None, app_version: None }]
    }
}

/// The model's declaration, where the model is new.
pub open spec fn model_declared(
    ctx: LineCtxView,
    session: Text,
    model: Option<Text>,
) -> Seq<SignalView> {
    match model {
        Some(m) => if ctx.current_model == Some(m) {
            Seq::empty()
        } else {
            seq![SignalView::ModelDeclared { session_id: session, model_id: m }]
        },
        None => Seq::empty(),
    }
}

/// What a span tells.
pub open spec fn span_signals_of(ctx: LineCtxView, span: Span, now: (i64, u32)) -> Seq<
    SignalView,
> {
    if is_call(span) {
        session_opened(ctx, span_session(span)) + model_declared(
            ctx,
            span_session(span),
            collected(span.attributes@).model,
        ) + seq![call_signal(ctx, span, now)]
    } else {
        Seq::empty()
    }
}

/// The state after a span.
pub open spec fn span_ctx(ctx: LineCtxView, span: Span) -> LineCtxView {
    let u = collected(span.attributes@);
    if is_call(span) {
        LineCtxView {
            current_session: Some(span_session(span)),
            current_model: if u.model.is_some() {
                u.model
            } else {
                ctx.current_model
            },
            event_ordinal: if refusal(u).is_none() {
                next_ordinal(ctx.event_ordinal)
            } else {
                ctx.event_ordinal
            },
            ..ctx
        }
    } else {
        ctx
    }
}

/// The state after a run of spans.
pub open spec fn spans_ctx(ctx: LineCtxView, spans: Seq<Span>) -> LineCtxView
    decreases spans.len(),
{
    if spans.len() == 0 {
        ctx
    } else {
        span_ctx(spans_ctx(ctx, spans.drop_last()), spans.last())
    }
}

/// What a run of spans tells.
pub open spec fn spans_signals(ctx: LineCtxView, spans: Seq<Span>, now: (i64, u32)) -> Seq<
    SignalView,
>
    decreases spans.len(),
{
    if spans.len() == 0 {
        Seq::empty()
    } else {
        spans_signals(ctx, spans.drop_last(), now) + span_signals_of(
            spans_ctx(ctx, spans.drop_last()),
            spans.last(),
            now,
        )
    }
}

/// The spans of a run of scopes.
pub open spec fn spans_in_scopes(scopes: Seq<ScopeSpans>) -> Seq<Span>
    decreases scopes.len(),
{
    if scopes.len() == 0 {
        Seq::empty()
    } else {
        spans_in_scopes(scopes.drop_last()) + scopes.last().spans@
    }
}

/// The spans of a run of resources.
pub open spec fn spans_in_resources(resources: Seq<ResourceSpans>) -> Seq<Span>
    decreases resources.len(),
{
    if resources.len() == 0 {
        Seq::empty()
    } else {
        spans_in_resources(resources.drop_last()) + spans_in_scopes(
            resources.last().scope_spans@,
        )
    }
}

/// The spans of a line: those of its envelope, or the line itself.
pub open spec fn spans_of(e: Envelope) -> Seq<Span> {
    if e.resource_spans@.len() == 0 {
        seq![e.bare]
    } else {
        spans_in_resources(e.resource_spans@)
    }
}

/// What a decoded line, or the failure to decode one, comes to.
pub open spec fn outcome(
    ctx: LineCtxView,
    line: Result<Envelope, String>,
    now: (i64, u32),
) -> ParseOutcomeView {
    match line {
        Err(e) => undecodable(e@),
        Ok(e) => outcome_of(spans_signals(ctx, spans_of(e), now)),
    }
}

/// The state after a decoded line; a line that could not be decoded changes
/// nothing.
pub open spec fn next_ctx(ctx: LineCtxView, line: Result<Envelope, String>) -> LineCtxView {
    match line {
        Err(_) => ctx,
        Ok(e) => spans_ctx(ctx, spans_of(e)),
    }
}

impl Scalar {
    pub fn as_u64(&self) -> (r: Option<u64>)
        ensures
            r == scalar_value(*self),
    {
        match self {
            Scalar::Str(s) => parse_u64(s.as_str()),
            Scalar::Num { value, .. } => *value,
        }
    }

    pub fn as_string(&self) -> (s: String)
        ensures
            s@ == scalar_text(*self),
    {
        match self {
            Scalar::Str(s) => s.clone(),
            Scalar::Num { text, .. } => text.clone(),
        }
    }
}

fn count(v: &AttrValue) -> (r: Option<u64>)
    ensures
        r == value_count(*v),
{
    match &v.int_value {
        Some(s) => match s.as_u64() {
            Some(n) => Some(n),
            None => v.whole_double,
        },
        None => v.whole_double,
    }
}

fn text(v: &AttrValue) -> (r: Option<String>)
    ensures
        opt_text(r) == value_text(*v),
{
    match &v.string_value {
        Some(s) => Some(s.clone()),
        None => match &v.int_value {
            Some(n) => Some(n.as_string()),
            None => None,
        },
    }
}

fn last_value<'a>(attributes: &'a Vec<Attribute>, key: &str) -> (r: Option<&'a AttrValue>)
    ensures
        match r {
            Some(v) => attribute(attributes@, key@) == Some(*v),
            None => attribute(attributes@, key@).is_none(),
        },
{
    let mut i: usize = attributes.len();
    proof {
        assert(attributes@.take(i as int) =~= attributes@);
    }
    while i > 0
        invariant
            i <= attributes.len(),
            attribute(attributes@, key@) == attribute(attributes@.take(i as int), key@),
        decreases i,
    {
        let a = &attributes[i - 1];
        proof {
            let now = attributes@.take(i as int);
            assert(now.last() == *a);
            assert(now.drop_last() =~= attributes@.take(i - 1));
        }
        if str_eq(a.key.as_str(), key) {
            if let Some(v) = &a.value {
                return Some(v);
            }
        }
        i -= 1;
    }
    None
}

fn count_of(attributes: &Vec<Attribute>, key: &str) -> (r: Option<u64>)
    ensures
        r == count_at(attributes@, key@),
{
    match last_value(attributes, key) {
        Some(v) => count(v),
        None => None,
    }
}

fn text_of(attributes: &Vec<Attribute>, key: &str) -> (r: Option<String>)
    ensures
        opt_text(r) == text_at(attributes@, key@),
{
    match last_value(attributes, key) {
        Some(v) => text(v),
        None => None,
    }
}

/// The measurements that attributes hold.
pub fn collect(attributes: &Vec<Attribute>) -> (u: SpanUsage)
    ensures
        u@ == collected(attributes@),
{
    let model = match text_of(attributes, "gen_ai.response.model") {
        Some(m) => Some(m),
        None => text_of(attributes, "gen_ai.request.model"),
    };
    SpanUsage {
        input: count_of(attributes, "gen_ai.usage.input_tokens"),
        output: count_of(attributes, "gen_ai.usage.output_tokens"),
        cache_read: count_of(attributes, "gen_ai.usage.cache_read.input_tokens"),
        cache_write: count_of(attributes, "gen_ai.usage.cache_creation.input_tokens"),
        reasoning: count_of(attributes, "gen_ai.usage.reasoning.output_tokens"),
        session: text_of(attributes, "gen_ai.conversation.id"),
        model,
    }
}

/// The instant that a count of nanoseconds since the epoch stands for.
fn nanos_to_utc(scalar: Option<&Scalar>) -> (r: Option<Timestamp>)
    ensures
        opt_instant(r) == match scalar {
            Some(s) => match scalar_value(*s) {
                Some(nanos) => Some(
                    ((nanos / 1_000_000_000) as i64, (nanos % 1_000_000_000) as u32),
                ),
                None => None,
            },
            None => None,
        },
{
    let nanos: u64 = match scalar {
        Some(s) => match s.as_u64() {
            Some(n) => n,
            None => {
                return None;
            },
        },
        None => {
            return None;
        },
    };
    let secs: i64 = (nanos / 1_000_000_000) as i64;
    let sub: u32 = (nanos % 1_000_000_000) as u32;
    proof {
        assert(instant((secs, sub)));
    }
    Timestamp::from_timestamp(secs, sub)
}

fn two_counts(a: &str, x: u64, b: &str, y: u64, c: &str) -> (s: String)
    ensures
        s@ == a@ + dec(x as nat) + b@ + dec(y as nat) + c@,
{
    let mut s = a.to_owned();
    s.append(dec_u64(x).as_str());
    s.append(b);
    s.append(dec_u64(y).as_str());
    s.append(c);
    s
}

fn raw_json(u: &SpanUsage) -> (s: String)
    ensures
        s@ == audit_json(u@),
{
    let mut s = "{\"gen_ai.response.model\":".to_owned();
    s.append(text_to_json(&u.model).as_str());
    s.append(",\"gen_ai.usage.cache_creation.input_tokens\":");
    s.append(count_to_json(u.cache_write).as_str());
    s.append(",\"gen_ai.usage.cache_read.input_tokens\":");
    s.append(count_to_json(u.cache_read).as_str());
    s.append(",\"gen_ai.usage.input_tokens\":");
    s.append(count_to_json(u.input).as_str());
    s.append(",\"gen_ai.usage.output_tokens\":");
    s.append(count_to_json(u.output).as_str());
    s.append(",\"gen_ai.usage.reasoning.output_tokens\":");
    s.append(count_to_json(u.reasoning).as_str());
    s.append("}");
    s
}

/// One span in, zero or more signals out.
fn span_signals(ctx: &mut LineCtx, span: &Span, now: Timestamp, signals: &mut Vec<Signal>)
    ensures
        final(ctx)@ == span_ctx(old(ctx)@, *span),
        signal_views(final(signals)@) == signal_views(old(signals)@) + span_signals_of(
            old(ctx)@,
            *span,
            now@,
        ),
{
    let ghost before = signal_views(signals@);
    let ghost entry = ctx@;
    if !opt_is(&span.name, "chat") {
        proof {
            assert(before + Seq::<SignalView>::empty() =~= before);
        }
        return ;
    }
    let u = collect(&span.attributes);
    if u.input.is_none() && u.output.is_none() {
        proof {
            assert(before + Seq::<SignalView>::empty() =~= before);
        }
        return ;
    }
    let session_id = match &u.session {
        Some(s) => s.clone(),
        None => match &span.trace_id {
            Some(t) => t.clone(),
            None => "unknown".to_owned(),
        },
    };
    if !opt_is(&ctx.current_session, session_id.as_str()) {
        ctx.current_session = Some(session_id.clone());
        emit(
            signals,
            Signal::SessionOpened {
                session_id: session_id.clone(),
                cwd: None,
                app_version: None,
            },
        );
    }
    proof {
        assert(signal_views(signals@) =~= before + session_opened(entry, session_id@));
    }
    if let Some(model) = &u.model {
        if !opt_is(&ctx.current_model, model.as_str()) {
            ctx.current_model = Some(model.clone());
            emit(
                signals,
                Signal::ModelDeclared {
                    session_id: session_id.clone(),
                    model_id: model.clone(),
                },
            );
        }
    }
    let ghost announced = session_opened(entry, session_id@) + model_declared(
        entry,
        session_id@,
        u@.model,
    );
    proof {
        assert(signal_views(signals@) =~= before + announced);
    }
    let input: u64 = u.input.unwrap_or(0);
    let cache_read: u64 = u.cache_read.unwrap_or(0);
    let input_fresh: u64 = match input.checked_sub(cache_read) {
        Some(n) => n,
        None => {
            emit(
                signals,
                Signal::Anomaly {
                    kind: "copilot_cache_exceeds_input".to_owned(),
                    detail: two_counts(
                        "a chat span reported ",
                        cache_read,
                        " cached of ",
                        input,
                        " input tokens; the span was not counted",
                    ),
                },
            );
            proof {
                assert(signal_views(signals@) =~= before + span_signals_of(entry, *span, now@));
            }
            return ;
        },
    };
    let output: u64 = u.output.unwrap_or(0);
    let reasoning: u64 = u.reasoning.unwrap_or(0);
    if reasoning > output {
        emit(
            signals,
            Signal::Anomaly {
                kind: "copilot_reasoning_exceeds_output".to_owned(),
                detail: two_counts(
                    "a chat span reported ",
                    reasoning,
                    " reasoning of ",
                    output,
                    " output tokens; the span was not counted",
                ),
            },
        );
        proof {
            assert(signal_views(signals@) =~= before + span_signals_of(entry, *span, now@));
        }
        return ;
    }
    ctx.event_ordinal = ctx.event_ordinal.saturating_add(1);
    let usage = TokenUsage::from_bands(
        TokenBands {
            input_fresh,
            cache_read,
            cache_write_5m: 0,
            cache_write_1h: 0,
            cache_write_unspecified: u.cache_write.unwrap_or(0),
            output_total: output,
            reasoning: u.reasoning,
            unclassified: 0,
        },
    );
    let dedup_key = match &span.span_id {
        Some(id) => id.clone(),
        None => {
            let mut k = ADAPTER_ID.to_owned();
            k.append(":");
            k.append(dec_u64(ctx.event_ordinal).as_str());
            k
        },
    };
    let scalar = match &span.end_time {
        Some(s) => Some(s),
        None => span.start_time.as_ref(),
    };
    let at = match nanos_to_utc(scalar) {
        Some(t) => t,
        None => now,
    };
    let raw = raw_json(&u);
    let s = UsageSignal {
        session_id,
        dedup_key,
        model_id: copy_opt(&u.model),
        occurred_at: at,
        usage,
        measurement_source: SOURCE_OTEL_SPAN,
        request_kind: "assistant",
        is_sidechain: false,
        agent_id: None,
        agent_type: None,
        raw_json: Some(raw),
    };
    emit(signals, Signal::Usage(Box::new(s)));
    proof {
        assert(signal_views(signals@) =~= before + span_signals_of(entry, *span, now@));
    }
}

proof fn spans_step(ctx: LineCtxView, spans: Seq<Span>, span: Span, now: (i64, u32))
    ensures
        spans_ctx(ctx, spans.push(span)) == span_ctx(spans_ctx(ctx, spans), span),
        spans_signals(ctx, spans.push(span), now) == spans_signals(ctx, spans, now)
            + span_signals_of(spans_ctx(ctx, spans), span, now),
{
    assert(spans.push(span).drop_last() =~= spans);
}

/// Parse a decoded line, taking `now` for the time of spans that have none.
pub fn parse_line_at(
    ctx: &mut LineCtx,
    line: &Result<Envelope, String>,
    now: Timestamp,
) -> (o: ParseOutcome)
    ensures
        o@ == outcome(old(ctx)@, *line, now@),
        final(ctx)@ == next_ctx(old(ctx)@, *line),
{
    let envelope = match line {
        Ok(e) => e,
        Err(e) => {
            let mut reason = "not valid JSON: ".to_owned();
            reason.append(e.as_str());
            return ParseOutcome::Malformed { reason };
        },
    };
    let mut signals: Vec<Signal> = Vec::new();
    let ghost entry = ctx@;
    let resources = &envelope.resource_spans;
    proof {
        assert(signal_views(signals@) =~= Seq::empty());
    }
    let mut i: usize = 0;
    while i < resources.len()
        invariant
            i <= resources.len(),
            ctx@ == spans_ctx(entry, spans_in_resources(resources@.take(i as int))),
            signal_views(signals@) == spans_signals(
                entry,
                spans_in_resources(resources@.take(i as int)),
                now@,
            ),
        decreases resources.len() - i,
    {
        let scopes = &resources[i].scope_spans;
        let ghost done = spans_in_resources(resources@.take(i as int));
        let mut j: usize = 0;
        proof {
            assert(done + spans_in_scopes(scopes@.take(0)) =~= done);
        }
        while j < scopes.len()
            invariant
                j <= scopes.len(),
                ctx@ == spans_ctx(entry, done + spans_in_scopes(scopes@.take(j as int))),
                signal_views(signals@) == spans_signals(
                    entry,
                    done + spans_in_scopes(scopes@.take(j as int)),
                    now@,
                ),
            decreases scopes.len() - j,
        {
            let spans = &scopes[j].spans;
            let ghost earlier = done + spans_in_scopes(scopes@.take(j as int));
            let mut k: usize = 0;
            proof {
                assert(earlier + spans@.take(0) =~= earlier);
            }
            while k < spans.len()
                invariant
                    k <= spans.len(),
                    ctx@ == spans_ctx(entry, earlier + spans@.take(k as int)),
                    signal_views(signals@) == spans_signals(
                        entry,
                        earlier + spans@.take(k as int),
                        now@,
                    ),
                decreases spans.len() - k,
            {
                span_signals(ctx, &spans[k], now, &mut signals);
                proof {
                    spans_step(entry, earlier + spans@.take(k as int), spans@[k as int], now@);
                    assert((earlier + spans@.take(k as int)).push(spans@[k as int]) =~= earlier
                        + spans@.take(k + 1));
                }
                k += 1;
            }
            proof {
                assert(spans@.take(k as int) =~= spans@);
                assert(scopes@.take(j + 1).drop_last() =~= scopes@.take(j as int));
                assert(earlier + spans@ =~= done + spans_in_scopes(scopes@.take(j + 1)));
            }
            j += 1;
        }
        proof {
            assert(scopes@.take(j as int) =~= scopes@);
            assert(resources@.take(i + 1).drop_last() =~= resources@.take(i as int));
        }
        i += 1;
    }
    proof {
        assert(resources@.take(i as int) =~= resources@);
    }
    if resources.len() == 0 {
        span_signals(ctx, &envelope.bare, now, &mut signals);
        proof {
            spans_step(entry, Seq::empty(), envelope.bare, now@);
            assert(Seq::<Span>::empty().push(envelope.bare) =~= seq![envelope.bare]);
        }
    }
    ParseOutcome::of(signals)
}

/// Parse a decoded line. A span that does not say when it ended or began counts
/// as happening now.
pub fn parse_line(ctx: &mut LineCtx, line: &Result<Envelope, String>) -> (o: ParseOutcome)
    ensures
        exists|now: (i64, u32)| o@ == #[trigger] outcome(old(ctx)@, *line, now),
        final(ctx)@ == next_ctx(old(ctx)@, *line),
{
    let now = Timestamp::now();
    parse_line_at(ctx, line, now)
}

/// A span that is not a call, such as one that repeats a session's totals,
/// tells nothing and changes nothing.
pub proof fn law_only_calls_are_counted(ctx: LineCtxView, span: Span, now: (i64, u32))
    requires
        opt_text(span.name) != Some("chat"@),
    ensures
        span_signals_of(ctx, span, now) == Seq::<SignalView>::empty(),
        span_ctx(ctx, span) == ctx,
{
}

/// A span carries one measurement, or none: none where it is no call and where
/// a part of its numbers exceeds the whole.
pub proof fn law_span_is_at_most_one_request(ctx: LineCtxView, span: Span, now: (i64, u32))
    ensures
        usages(span_signals_of(ctx, span, now)) == if is_call(span) && refusal(
            collected(span.attributes@),
        ).is_none() {
            seq![call_signal(ctx, span, now)->Usage_0]
        } else {
            Seq::empty()
        },
{
    if is_call(span) {
        let session = span_session(span);
        let a = session_opened(ctx, session);
        let b = model_declared(ctx, session, collected(span.attributes@).model);
        let c = call_signal(ctx, span, now);
        if a.len() > 0 {
            usages_of_one(a[0]);
            assert(a =~= seq![a[0]]);
        }
        if b.len() > 0 {
            usages_of_one(b[0]);
            assert(b =~= seq![b[0]]);
        }
        usages_of_one(c);
        usages_of_both(a, b);
        usages_of_both(a + b, seq![c]);
        assert(usages(a) =~= Seq::empty());
        assert(usages(b) =~= Seq::empty());
        assert(usages(span_signals_of(ctx, span, now)) =~= usages(seq![c]));
    }
}

/// A counted call is a partition of what was reported: fresh and cached input
/// add up to the input, and reported reasoning stays inside output.
pub proof fn law_call_partition(u: SpanUsageView)
    requires
        refusal(u).is_none(),
    ensures
        call_bands(u).input_fresh + call_bands(u).cache_read == or_zero(u.input),
        call_bands(u).output_total == or_zero(u.output),
        call_bands(u).reasoning == u.reasoning,
        u.reasoning.is_some() ==> u.reasoning.unwrap() <= call_bands(u).output_total,
        call_bands(u).total() == or_zero(u.input) + or_zero(u.cache_write) + or_zero(u.output),
{
}

/// Once announced, a session and its model are not announced again.
pub proof fn law_announced_once(ctx: LineCtxView, span: Span, session: Text)
    requires
        is_call(span),
    ensures
        session_opened(span_ctx(ctx, span), span_session(span)) == Seq::<SignalView>::empty(),
        model_declared(span_ctx(ctx, span), session, collected(span.attributes@).model) == Seq::<
            SignalView,
        >::empty(),
{
}

/// The state after a run of lines.
pub open spec fn ctx_after(ctx: LineCtxView, lines: Seq<(Envelope, (i64, u32))>) -> LineCtxView
    decreases lines.len(),
{
    if lines.len() == 0 {
        ctx
    } else {
        spans_ctx(ctx_after(ctx, lines.drop_last()), spans_of(lines.last().0))
    }
}

/// The usage that a run of lines tells, each with the present at which it is
/// read.
pub open spec fn usages_of_lines(ctx: LineCtxView, lines: Seq<(Envelope, (i64, u32))>) -> Seq<
    UsageSignalView,
>
    decreases lines.len(),
{
    if lines.len() == 0 {
        Seq::empty()
    } else {
        let before = lines.drop_last();
        usages_of_lines(ctx, before) + usages(
            spans_signals(ctx_after(ctx, before), spans_of(lines.last().0), lines.last().1),
        )
    }
}

/// Reading a file in two passes, the second of which goes on with the state that
/// the first one left, tells what reading it at once tells.
pub proof fn law_passes_tell_what_one_reading_tells(
    ctx: LineCtxView,
    a: Seq<(Envelope, (i64, u32))>,
    b: Seq<(Envelope, (i64, u32))>,
)
    ensures
        ctx_after(ctx, a + b) == ctx_after(ctx_after(ctx, a), b),
        usages_of_lines(ctx, a + b) == usages_of_lines(ctx, a) + usages_of_lines(
            ctx_after(ctx, a),
            b,
        ),
    decreases b.len(),
{
    if b.len() == 0 {
        assert(a + b =~= a);
        assert(usages_of_lines(ctx, a) + Seq::<UsageSignalView>::empty() =~= usages_of_lines(
            ctx,
            a,
        ));
    } else {
        let d = b.drop_last();
        law_passes_tell_what_one_reading_tells(ctx, a, d);
        assert((a + b).drop_last() =~= a + d);
        assert((a + b).last() == b.last());
        let told = usages(spans_signals(ctx_after(ctx, a + d), spans_of(b.last().0), b.last().1));
        assert(usages_of_lines(ctx, a + d) + told =~= usages_of_lines(ctx, a) + (usages_of_lines(
            ctx_after(ctx, a),
            d,
        ) + told));
    }
}

proof fn spans_at_another_time(
    ctx: LineCtxView,
    spans: Seq<Span>,
    now: (i64, u32),
    later: (i64, u32),
)
    ensures
        same_requests(
            usages(spans_signals(ctx, spans, now)),
            usages(spans_signals(ctx, spans, later)),
        ),
    decreases spans.len(),
{
    if spans.len() > 0 {
        let d = spans.drop_last();
        let mid = spans_ctx(ctx, d);
        spans_at_another_time(ctx, d, now, later);
        law_span_is_at_most_one_request(mid, spans.last(), now);
        law_span_is_at_most_one_request(mid, spans.last(), later);
        usages_of_both(spans_signals(ctx, d, now), span_signals_of(mid, spans.last(), now));
        usages_of_both(spans_signals(ctx, d, later), span_signals_of(mid, spans.last(), later));
        same_requests_join(
            usages(spans_signals(ctx, d, now)),
            usages(span_signals_of(mid, spans.last(), now)),
            usages(spans_signals(ctx, d, later)),
            usages(span_signals_of(mid, spans.last(), later)),
        );
    }
}

/// The same lines, read from the same state at whatever times, tell the same
/// requests and leave the same state.
pub proof fn law_rereading_tells_the_same_requests(
    ctx: LineCtxView,
    a: Seq<(Envelope, (i64, u32))>,
    b: Seq<(Envelope, (i64, u32))>,
)
    requires
        same_lines(a, b),
    ensures
        ctx_after(ctx, a) == ctx_after(ctx, b),
        same_requests(usages_of_lines(ctx, a), usages_of_lines(ctx, b)),
    decreases a.len(),
{
    if a.len() > 0 {
        let x = a.drop_last();
        let y = b.drop_last();
        assert(a[a.len() - 1].0 == b[b.len() - 1].0);
        assert forall|i: int| 0 <= i < x.len() implies (#[trigger] x[i]).0 == y[i].0 by {
            assert(x[i] == a[i]);
        }
        law_rereading_tells_the_same_requests(ctx, x, y);
        let mid = ctx_after(ctx, x);
        spans_at_another_time(mid, spans_of(a.last().0), a.last().1, b.last().1);
        same_requests_join(
            usages_of_lines(ctx, x),
            usages(spans_signals(mid, spans_of(a.last().0), a.last().1)),
            usages_of_lines(ctx, y),
            usages(spans_signals(mid, spans_of(b.last().0), b.last().1)),
        );
    }
}

/// A call with a span id has that id for its identity, whatever was read before
/// it and whenever it is read.
pub proof fn law_a_span_id_is_the_identity(
    ctx: LineCtxView,
    other: LineCtxView,
    span: Span,
    now: (i64, u32),
    later: (i64, u32),
)
    requires
        span.span_id.is_some(),
    ensures
        same_requests(
            usages(span_signals_of(ctx, span, now)),
            usages(span_signals_of(other, span, later)),
        ),
        forall|i: int|
            0 <= i < usages(span_signals_of(ctx, span, now)).len() ==> (#[trigger] usages(
                span_signals_of(ctx, span, now),
            )[i]).dedup_key == span.span_id.unwrap()@,
{
    law_span_is_at_most_one_request(ctx, span, now);
    law_span_is_at_most_one_request(other, span, later);
}

/// The value of an attribute is the last one that is given for its key, wherever
/// it stands; there is none exactly where none is given.
pub proof fn law_the_last_value_of_a_key_counts(attributes: Seq<Attribute>, key: Text)
    ensures
        attribute(attributes, key).is_none() <==> forall|i: int|
            0 <= i < attributes.len() ==> !((#[trigger] attributes[i]).key@ == key
                && attributes[i].value.is_some()),
        attribute(attributes, key).is_some() ==> exists|i: int|
            0 <= i < attributes.len() && (#[trigger] attributes[i]).key@ == key
                && attributes[i].value == attribute(attributes, key) && forall|j: int|
                i < j < attributes.len() ==> !((#[trigger] attributes[j]).key@ == key
                    && attributes[j].value.is_some()),
    decreases attributes.len(),
{
    if attributes.len() > 0 {
        let d = attributes.drop_last();
        let n = attributes.len() - 1;
        law_the_last_value_of_a_key_counts(d, key);
        assert(attributes[n] == attributes.last());
        if !(attributes.last().key@ == key && attributes.last().value.is_some()) {
            if attribute(d, key).is_some() {
                let i = choose|i: int|
                    0 <= i < d.len() && (#[trigger] d[i]).key@ == key && d[i].value == attribute(
                        d,
                        key,
                    ) && forall|j: int|
                        i < j < d.len() ==> !((#[trigger] d[j]).key@ == key
                            && d[j].value.is_some());
                assert(attributes[i] == d[i]);
                assert forall|j: int| i < j < attributes.len() implies !((
                #[trigger] attributes[j]).key@ == key && attributes[j].value.is_some()) by {
                    if j < n {
                        assert(attributes[j] == d[j]);
                    }
                }
            } else {
                assert forall|i: int| 0 <= i < attributes.len() implies !((
                #[trigger] attributes[i]).key@ == key && attributes[i].value.is_some()) by {
                    if i < n {
                        assert(attributes[i] == d[i]);
                    }
                }
            }
        }
    }
}

/// A count is read from an integer, in a string or bare, or else from a whole
/// double; a text is read from a string, or else from an integer's own text.
pub proof fn law_values_are_read_as_they_are_written(v: AttrValue)
    ensures
        v.int_value.is_none() ==> value_count(v) == v.whole_double,
        v.int_value.is_some() && v.int_value.unwrap() is Num && v.int_value.unwrap()->value.is_some()
            ==> value_count(v) == v.int_value.unwrap()->value,
        v.int_value.is_some() && v.int_value.unwrap() is Str && number_of(
            v.int_value.unwrap()->Str_0@,
        ).is_some() ==> value_count(v) == number_of(v.int_value.unwrap()->Str_0@),
        v.string_value.is_some() ==> value_text(v) == Some(v.string_value.unwrap()@),
        v.string_value.is_none() && v.int_value.is_none() ==> value_text(v).is_none(),
        v.string_value.is_none() && v.int_value.is_some() && v.int_value.unwrap() is Str
            ==> value_text(v) == Some(v.int_value.unwrap()->Str_0@),
        v.string_value.is_none() && v.int_value.is_some() && v.int_value.unwrap() is Num
            ==> value_text(v) == Some(v.int_value.unwrap()->text@),
{
}

/// Each measurement is read from the attribute of its own name, and the model
/// that answered comes before the one that was asked for.
pub proof fn law_measurements_come_from_their_own_attributes(attributes: Seq<Attribute>)
    ensures
        ({
            let u = collected(attributes);
            let count = |key: Text|
                match attribute(attributes, key) {
                    Some(v) => value_count(v),
                    None => None,
                };
            let text = |key: Text|
                match attribute(attributes, key) {
                    Some(v) => value_text(v),
                    None => None,
                };
            &&& u.input == count("gen_ai.usage.input_tokens"@)
            &&& u.output == count("gen_ai.usage.output_tokens"@)
            &&& u.cache_read == count("gen_ai.usage.cache_read.input_tokens"@)
            &&& u.cache_write == count("gen_ai.usage.cache_creation.input_tokens"@)
            &&& u.reasoning == count("gen_ai.usage.reasoning.output_tokens"@)
            &&& u.session == text("gen_ai.conversation.id"@)
            &&& text("gen_ai.response.model"@).is_some() ==> u.model == text(
                "gen_ai.response.model"@,
            )
            &&& text("gen_ai.response.model"@).is_none() ==> u.model == text(
                "gen_ai.request.model"@,
            )
        }),
{
}

/// A call is one request: its cached input is part of its input, its reasoning
/// part of its output, and it belongs to its conversation, or else to its trace.
/// A call whose parts exceed the whole is reported and not counted.
pub proof fn law_a_call_is_a_request(ctx: LineCtxView, span: Span, now: (i64, u32))
    requires
        opt_text(span.name) == Some("chat"@),
        collected(span.attributes@).input.is_some() || collected(span.attributes@).output.is_some(),
    ensures
        ({
            let u = collected(span.attributes@);
            let all = span_signals_of(ctx, span, now);
            let told = usages(all);
            let right = or_zero(u.cache_read) <= or_zero(u.input) && or_zero(u.reasoning)
                <= or_zero(u.output);
            &&& !right ==> told.len() == 0 && all.len() > 0 && all.last() is Anomaly
            &&& right ==> told.len() == 1 && {
                let t = told[0];
                &&& t.usage.cache_read == or_zero(u.cache_read)
                &&& t.usage.input_fresh + t.usage.cache_read == or_zero(u.input)
                &&& t.usage.output_total == or_zero(u.output)
                &&& t.usage.cache_write_unspecified == or_zero(u.cache_write)
                &&& t.usage.cache_write_5m == 0 && t.usage.cache_write_1h == 0
                &&& t.usage.unclassified == 0
                &&& t.usage.reasoning == u.reasoning
                &&& t.model_id == u.model
                &&& u.session.is_some() ==> t.session_id == u.session.unwrap()
                &&& u.session.is_none() && span.trace_id.is_some() ==> t.session_id
                    == span.trace_id.unwrap()@
                &&& t.raw_json == Some(audit_json(u))
                &&& t.measurement_source == "provider_otel_span"@
                &&& t.request_kind == "assistant"@
                &&& span.end_time.is_none() && span.start_time.is_none() ==> t.occurred_at == now
            }
        }),
{
    law_span_is_at_most_one_request(ctx, span, now);
}

/// A call happened when its span ended, or began where the end is not told, in
/// nanoseconds since the epoch.
pub proof fn law_a_call_is_dated_by_its_span(span: Span, nanos: u64)
    ensures
        span.end_time.is_some() && scalar_value(span.end_time.unwrap()) == Some(nanos)
            ==> span_time(span).is_some() && span_time(span).unwrap().0 * 1_000_000_000
            + span_time(span).unwrap().1 == nanos && span_time(span).unwrap().1 < 1_000_000_000,
        span.end_time.is_none() && span.start_time.is_some() && scalar_value(
            span.start_time.unwrap(),
        ) == Some(nanos) ==> span_time(span).is_some() && span_time(span).unwrap().0
            * 1_000_000_000 + span_time(span).unwrap().1 == nanos && span_time(span).unwrap().1
            < 1_000_000_000,
        span.end_time.is_none() && span.start_time.is_none() ==> span_time(span).is_none(),
{
}

/// No span of an export is passed over: the spans of resources and scopes come
/// one after another, and a line that is no export is a span itself.
pub proof fn law_every_span_is_read(e: Envelope, r: int, s: int, k: int)
    requires
        0 <= r < e.resource_spans@.len(),
        0 <= s < e.resource_spans@[r].scope_spans@.len(),
        0 <= k < e.resource_spans@[r].scope_spans@[s].spans@.len(),
    ensures
        spans_of(e).contains(e.resource_spans@[r].scope_spans@[s].spans@[k]),
{
    let span = e.resource_spans@[r].scope_spans@[s].spans@[k];
    scope_is_read(e.resource_spans@[r].scope_spans@, s, k);
    resource_is_read(e.resource_spans@, r, span);
}

proof fn scope_is_read(scopes: Seq<ScopeSpans>, s: int, k: int)
    requires
        0 <= s < scopes.len(),
        0 <= k < scopes[s].spans@.len(),
    ensures
        spans_in_scopes(scopes).contains(scopes[s].spans@[k]),
    decreases scopes.len(),
{
    let d = scopes.drop_last();
    let all = spans_in_scopes(scopes);
    if s == scopes.len() - 1 {
        assert(all[spans_in_scopes(d).len() + k] == scopes[s].spans@[k]);
    } else {
        assert(d[s] == scopes[s]);
        scope_is_read(d, s, k);
        let i = choose|i: int|
            0 <= i < spans_in_scopes(d).len() && spans_in_scopes(d)[i] == scopes[s].spans@[k];
        assert(all[i] == scopes[s].spans@[k]);
    }
}

proof fn resource_is_read(resources: Seq<ResourceSpans>, r: int, span: Span)
    requires
        0 <= r < resources.len(),
        spans_in_scopes(resources[r].scope_spans@).contains(span),
    ensures
        spans_in_resources(resources).contains(span),
    decreases resources.len(),
{
    let d = resources.drop_last();
    let all = spans_in_resources(resources);
    if r == resources.len() - 1 {
        let own = spans_in_scopes(resources[r].scope_spans@);
        let i = choose|i: int| 0 <= i < own.len() && own[i] == span;
        assert(all[spans_in_resources(d).len() + i] == span);
    } else {
        assert(d[r] == resources[r]);
        resource_is_read(d, r, span);
        let i = choose|i: int|
            0 <= i < spans_in_resources(d).len() && spans_in_resources(d)[i] == span;
        assert(all[i] == span);
    }
}

/// A line that is no export is read as one span, and one span only.
pub proof fn law_a_bare_line_is_one_span(e: Envelope)
    requires
        e.resource_spans@.len() == 0,
    ensures
        spans_of(e) == seq![e.bare],
{
}

/// A call's session and model are the current ones from then on, and are told
/// where they are new; each counted call is counted once, and one without an id
/// goes by its number.
pub proof fn law_a_call_names_session_and_model(ctx: LineCtxView, span: Span, now: (i64, u32))
    requires
        is_call(span),
        ctx.event_ordinal < u64::MAX,
    ensures
        ({
            let u = collected(span.attributes@);
            let all = span_signals_of(ctx, span, now);
            let told = usages(all);
            &&& span_ctx(ctx, span).event_ordinal == ctx.event_ordinal + told.len()
            &&& u.model.is_some() ==> span_ctx(ctx, span).current_model == u.model
            &&& u.model.is_none() ==> span_ctx(ctx, span).current_model == ctx.current_model
            &&& u.session.is_some() ==> span_ctx(ctx, span).current_session == u.session
            &&& u.session.is_some() && ctx.current_session != u.session ==> all[0]
                == (SignalView::SessionOpened {
                session_id: u.session.unwrap(),
                cwd: None,
                app_version: None,
            })
            &&& u.session.is_some() && u.model.is_some() && ctx.current_model != u.model
                ==> all.contains(
                SignalView::ModelDeclared {
                    session_id: u.session.unwrap(),
                    model_id: u.model.unwrap(),
                },
            )
            &&& told.len() == 1 && span.span_id.is_some() ==> told[0].dedup_key
                == span.span_id.unwrap()@
            &&& told.len() == 1 && span.span_id.is_none() ==> told[0].dedup_key == "copilot"@
                + ":"@ + dec((ctx.event_ordinal + 1) as nat)
        }),
{
    law_span_is_at_most_one_request(ctx, span, now);
    let u = collected(span.attributes@);
    let all = span_signals_of(ctx, span, now);
    if u.session.is_some() && u.model.is_some() && ctx.current_model != u.model {
        let a = session_opened(ctx, span_session(span));
        assert(all[a.len() as int] == (SignalView::ModelDeclared {
            session_id: u.session.unwrap(),
            model_id: u.model.unwrap(),
        }));
    }
}

/// Spans are read one after another, each in the state that the one before left.
pub proof fn law_spans_are_read_in_turn(
    ctx: LineCtxView,
    spans: Seq<Span>,
    span: Span,
    now: (i64, u32),
)
    ensures
        spans_signals(ctx, Seq::empty(), now) == Seq::<SignalView>::empty(),
        spans_ctx(ctx, Seq::empty()) == ctx,
        spans_signals(ctx, spans.push(span), now) == spans_signals(ctx, spans, now)
            + span_signals_of(spans_ctx(ctx, spans), span, now),
        spans_ctx(ctx, spans.push(span)) == span_ctx(spans_ctx(ctx, spans), span),
{
    assert(spans.push(span).drop_last() =~= spans);
}

proof fn lead_gen_ai_response_model()
    ensures
        "{\"gen_ai.response.model\":"@ == seq!['{'] + "\"gen_ai.response.model\":"@,
{
    reveal_strlit("{\"gen_ai.response.model\":");
    reveal_strlit("\"gen_ai.response.model\":");
    assert("{\"gen_ai.response.model\":"@ =~= seq!['{'] + "\"gen_ai.response.model\":"@);
}

proof fn lead_gen_ai_usage_cache_creation_input_tokens()
    ensures
        ",\"gen_ai.usage.cache_creation.input_tokens\":"@ == seq![','] + "\"gen_ai.usage.cache_creation.input_tokens\":"@,
{
    reveal_strlit(",\"gen_ai.usage.cache_creation.input_tokens\":");
    reveal_strlit("\"gen_ai.usage.cache_creation.input_tokens\":");
    assert(",\"gen_ai.usage.cache_creation.input_tokens\":"@ =~= seq![','] + "\"gen_ai.usage.cache_creation.input_tokens\":"@);
}

proof fn lead_gen_ai_usage_cache_read_input_tokens()
    ensures
        ",\"gen_ai.usage.cache_read.input_tokens\":"@ == seq![','] + "\"gen_ai.usage.cache_read.input_tokens\":"@,
{
    reveal_strlit(",\"gen_ai.usage.cache_read.input_tokens\":");
    reveal_strlit("\"gen_ai.usage.cache_read.input_tokens\":");
    assert(",\"gen_ai.usage.cache_read.input_tokens\":"@ =~= seq![','] + "\"gen_ai.usage.cache_read.input_tokens\":"@);
}

proof fn lead_gen_ai_usage_input_tokens()
    ensures
        ",\"gen_ai.usage.input_tokens\":"@ == seq![','] + "\"gen_ai.usage.input_tokens\":"@,
{
    reveal_strlit(",\"gen_ai.usage.input_tokens\":");
    reveal_strlit("\"gen_ai.usage.input_tokens\":");
    assert(",\"gen_ai.usage.input_tokens\":"@ =~= seq![','] + "\"gen_ai.usage.input_tokens\":"@);
}

proof fn lead_gen_ai_usage_output_tokens()
    ensures
        ",\"gen_ai.usage.output_tokens\":"@ == seq![','] + "\"gen_ai.usage.output_tokens\":"@,
{
    reveal_strlit(",\"gen_ai.usage.output_tokens\":");
    reveal_strlit("\"gen_ai.usage.output_tokens\":");
    assert(",\"gen_ai.usage.output_tokens\":"@ =~= seq![','] + "\"gen_ai.usage.output_tokens\":"@);
}

proof fn lead_gen_ai_usage_reasoning_output_tokens()
    ensures
        ",\"gen_ai.usage.reasoning.output_tokens\":"@ == seq![','] + "\"gen_ai.usage.reasoning.output_tokens\":"@,
{
    reveal_strlit(",\"gen_ai.usage.reasoning.output_tokens\":");
    reveal_strlit("\"gen_ai.usage.reasoning.output_tokens\":");
    assert(",\"gen_ai.usage.reasoning.output_tokens\":"@ =~= seq![','] + "\"gen_ai.usage.reasoning.output_tokens\":"@);
}

/// Each measurement of a call is kept in the audit trail under its own name, and
/// one that was absent as `null`.
pub proof fn law_the_audit_trail_names_every_measurement(u: SpanUsageView)
    ensures
        u.model.is_some() ==> holds_field(
            audit_json(u),
            "\"gen_ai.response.model\":"@,
            json_quoted(u.model.unwrap()),
        ),
        u.model.is_none() ==> holds_field(
            audit_json(u),
            "\"gen_ai.response.model\":"@,
            "null"@,
        ),
        u.cache_write.is_some() ==> holds_field(
            audit_json(u),
            "\"gen_ai.usage.cache_creation.input_tokens\":"@,
            dec(u.cache_write.unwrap() as nat),
        ),
        u.cache_write.is_none() ==> holds_field(audit_json(u), "\"gen_ai.usage.cache_creation.input_tokens\":"@, "null"@),
        u.cache_read.is_some() ==> holds_field(
            audit_json(u),
            "\"gen_ai.usage.cache_read.input_tokens\":"@,
            dec(u.cache_read.unwrap() as nat),
        ),
        u.cache_read.is_none() ==> holds_field(audit_json(u), "\"gen_ai.usage.cache_read.input_tokens\":"@, "null"@),
        u.input.is_some() ==> holds_field(
            audit_json(u),
            "\"gen_ai.usage.input_tokens\":"@,
            dec(u.input.unwrap() as nat),
        ),
        u.input.is_none() ==> holds_field(audit_json(u), "\"gen_ai.usage.input_tokens\":"@, "null"@),
        u.output.is_some() ==> holds_field(
            audit_json(u),
            "\"gen_ai.usage.output_tokens\":"@,
            dec(u.output.unwrap() as nat),
        ),
        u.output.is_none() ==> holds_field(audit_json(u), "\"gen_ai.usage.output_tokens\":"@, "null"@),
        u.reasoning.is_some() ==> holds_field(
            audit_json(u),
            "\"gen_ai.usage.reasoning.output_tokens\":"@,
            dec(u.reasoning.unwrap() as nat),
        ),
        u.reasoning.is_none() ==> holds_field(audit_json(u), "\"gen_ai.usage.reasoning.output_tokens\":"@, "null"@),
{
    let json = audit_json(u);
    end_of_object();
    lead_gen_ai_response_model();
    lead_gen_ai_usage_cache_creation_input_tokens();
    lead_gen_ai_usage_cache_read_input_tokens();
    lead_gen_ai_usage_input_tokens();
    lead_gen_ai_usage_output_tokens();
    lead_gen_ai_usage_reasoning_output_tokens();
    let f0 = Seq::<(Text, Text)>::empty();
    let f1 = f0.push(("{\"gen_ai.response.model\":"@, json_text(u.model)));
    written_and_one(f0, "{\"gen_ai.response.model\":"@, json_text(u.model));
    let f2 = f1.push((",\"gen_ai.usage.cache_creation.input_tokens\":"@, json_count(u.cache_write)));
    written_and_one(f1, ",\"gen_ai.usage.cache_creation.input_tokens\":"@, json_count(u.cache_write));
    let f3 = f2.push((",\"gen_ai.usage.cache_read.input_tokens\":"@, json_count(u.cache_read)));
    written_and_one(f2, ",\"gen_ai.usage.cache_read.input_tokens\":"@, json_count(u.cache_read));
    let f4 = f3.push((",\"gen_ai.usage.input_tokens\":"@, json_count(u.input)));
    written_and_one(f3, ",\"gen_ai.usage.input_tokens\":"@, json_count(u.input));
    let f5 = f4.push((",\"gen_ai.usage.output_tokens\":"@, json_count(u.output)));
    written_and_one(f4, ",\"gen_ai.usage.output_tokens\":"@, json_count(u.output));
    let f6 = f5.push((",\"gen_ai.usage.reasoning.output_tokens\":"@, json_count(u.reasoning)));
    written_and_one(f5, ",\"gen_ai.usage.reasoning.output_tokens\":"@, json_count(u.reasoning));
    assert(written(f0) + "{\"gen_ai.response.model\":"@ =~= "{\"gen_ai.response.model\":"@);
    assert(json == written(f6) + "}"@);
    written_field(f6, 0, '{', "\"gen_ai.response.model\":"@, "}"@);
    written_field(f6, 1, ',', "\"gen_ai.usage.cache_creation.input_tokens\":"@, "}"@);
    written_field(f6, 2, ',', "\"gen_ai.usage.cache_read.input_tokens\":"@, "}"@);
    written_field(f6, 3, ',', "\"gen_ai.usage.input_tokens\":"@, "}"@);
    written_field(f6, 4, ',', "\"gen_ai.usage.output_tokens\":"@, "}"@);
    written_field(f6, 5, ',', "\"gen_ai.usage.reasoning.output_tokens\":"@, "}"@);
}

/// The measurements of a span are seen by the contracts as they are.
pub proof fn law_span_usage_is_seen_as_it_is(u: SpanUsage)
    ensures
        u@.input == u.input,
        u@.output == u.output,
        u@.cache_read == u.cache_read,
        u@.cache_write == u.cache_write,
        u@.reasoning == u.reasoning,
        u@.session == opt_text(u.session),
        u@.model == opt_text(u.model),
{
}

} // verus!
