//! The `claude_code` adapter.
//!
//! Transcripts are appended to in real time, one line per message. Three things
//! make reading them less than obvious: one response is written as many lines,
//! each repeating the whole usage object; sub-agent lines carry the parent's
//! session id; and some lines are not requests at all.
use vstd::prelude::*;
use vstd::string::StringExecFns;

use crate::adapters::{
    emit, holds_marker, outcome_of, same_lines, same_requests, same_requests_join, signal_views,
    undecodable, usages, usages_of_both, usages_of_one, LineCtx, LineCtxView, ParseOutcome,
    ParseOutcomeView, Signal, SignalView, UsageAdapter, UsageSignal, UsageSignalView,
};
use crate::bytes::contains;
use crate::native::{anthropic_json, or_zero, AnthropicUsage};
use crate::text::{copy_opt, opt_is, opt_text, Text};
use crate::time::{rfc3339_instant, Timestamp};
use crate::token_usage::{
    anthropic_bands, anthropic_discrepancy, law_a_wrong_split_is_told,
    law_anthropic_buckets_are_the_providers_counts, normalize_message, TokenUsage,
};

verus! {

pub const ADAPTER_ID: &'static str = "claude_code";

/// Measurement source for a usage object that a transcript relays: the numbers
/// are the provider's own.
pub const SOURCE_TRANSCRIPT: &'static str = "provider_exact";

/// The model named on a locally generated failure marker.
pub const SYNTHETIC_MODEL: &'static str = "<synthetic>";

/// One transcript line, decoded. Every field is optional: this is an
/// undocumented format.
#[derive(Debug, Clone, Default, PartialEq)]
pub struct Line {
    pub kind: Option<String>,
    pub session_id: Option<String>,
    pub timestamp: Option<String>,
    pub request_id: Option<String>,
    pub uuid: Option<String>,
    pub cwd: Option<String>,
    pub version: Option<String>,
    pub is_sidechain: Option<bool>,
    pub agent_id: Option<String>,
    pub attribution_agent: Option<String>,
    pub is_api_error_message: Option<bool>,
    pub retry_attempt: Option<u32>,
    pub max_retries: Option<u32>,
    /// On `system` lines: what happened.
    pub subtype: Option<String>,
    pub pre_tokens: Option<u64>,
    pub post_tokens: Option<u64>,
    pub message: Option<Message>,
}

#[derive(Debug, Clone, Default, PartialEq)]
pub struct Message {
    pub id: Option<String>,
    pub model: Option<String>,
    pub usage: Option<AnthropicUsage>,
}

#[derive(Debug, Clone, Copy, PartialEq, Eq, Structural)]
pub struct ClaudeCodeAdapter;

impl UsageAdapter for ClaudeCodeAdapter {
    open spec fn markers(&self) -> Seq<Text> {
        seq!["\"usage\""@, "\"type\":\"assistant\""@, "\"type\":\"system\""@, "\"isApiErrorMessage\""@]
    }

    open spec fn id_text(&self) -> Text {
        "claude_code"@
    }

    fn id(&self) -> (s: &'static str) {
        ADAPTER_ID
    }

    fn is_candidate_line(&self, head: &[u8]) -> (b: bool) {
        let b = contains(head, "\"usage\"") || contains(head, "\"type\":\"assistant\"")
            || contains(head, "\"type\":\"system\"") || contains(head, "\"isApiErrorMessage\"");
        proof {
            let m = self.markers();
            assert(m[0] == "\"usage\""@);
            assert(m[1] == "\"type\":\"assistant\""@);
            assert(m[2] == "\"type\":\"system\""@);
            assert(m[3] == "\"isApiErrorMessage\""@);
            if b {
                assert(holds_marker(head@, m));
            }
        }
        b
    }
}

/// The identity of a request: its request id and message id, as far as the
/// line has them.
pub open spec fn usage_key_of(request_id: Option<Text>, message_id: Option<Text>) -> Option<Text> {
    match (request_id, message_id) {
        (Some(req), Some(msg)) => Some(req + ":"@ + msg),
        (Some(req), None) => Some(req),
        (None, Some(msg)) => Some(msg),
        (None, None) => None,
    }
}

/// The identity of a failure, which has no message.
pub open spec fn failure_key_of(request_id: Option<Text>, uuid: Option<Text>) -> Text {
    match (request_id, uuid) {
        (Some(req), _) => req,
        (None, Some(u)) => u,
        (None, None) => "unknown-failure"@,
    }
}

/// When a line was written; `now` where it does not say.
pub open spec fn occurred(timestamp: Option<Text>, now: (i64, u32)) -> (i64, u32) {
    match timestamp {
        Some(t) => match rfc3339_instant(t) {
            Some(at) => at,
            None => now,
        },
        None => now,
    }
}

/// A line that marks a failed call rather than a request.
pub open spec fn is_failure(line: Line, message: Message) -> bool {
    opt_text(message.model) == Some("<synthetic>"@) || line.is_api_error_message == Some(true)
}

/// The state after an assistant line.
pub open spec fn assistant_ctx(ctx: LineCtxView, line: Line) -> LineCtxView {
    match line.message {
        None => ctx,
        Some(m) => if is_failure(line, m) || m.usage.is_none() {
            ctx
        } else {
            LineCtxView {
                current_model: if m.model.is_some() {
                    opt_text(m.model)
                } else {
                    ctx.current_model
                },
                event_ordinal: if usage_key_of(opt_text(line.request_id), opt_text(m.id)).is_some()
                    && ctx.event_ordinal < u64::MAX {
                    (ctx.event_ordinal + 1) as u64
                } else {
                    ctx.event_ordinal
                },
                ..ctx
            }
        },
    }
}

/// The model's declaration, where the model is new.
pub open spec fn declared(ctx: LineCtxView, model: Option<Text>, session: Text) -> Seq<SignalView> {
    match model {
        Some(m) => if ctx.current_model == Some(m) {
            Seq::empty()
        } else {
            seq![SignalView::ModelDeclared { session_id: session, model_id: m }]
        },
        None => Seq::empty(),
    }
}

/// The provider's contradiction with itself, where there is one.
pub open spec fn contradiction(u: AnthropicUsage) -> Seq<SignalView> {
    match anthropic_discrepancy(u) {
        Some(e) => seq![
            SignalView::Anomaly {
                kind: "provider_self_inconsistent"@,
                detail: normalize_message(e),
            },
        ],
        None => Seq::empty(),
    }
}

/// The measurement that a message with usage is, or why it cannot be one.
pub open spec fn measurement(
    line: Line,
    message: Message,
    usage: AnthropicUsage,
    session: Text,
    at: (i64, u32),
) -> SignalView {
    match usage_key_of(opt_text(line.request_id), opt_text(message.id)) {
        None => SignalView::Anomaly {
            kind: "no_dedup_key"@,
            detail: "an assistant line carried usage but neither a requestId nor a message id, so repeated observations of it could not be recognised as the same request"@,
        },
        Some(dedup_key) => SignalView::Usage(
            UsageSignalView {
                session_id: session,
                dedup_key,
                model_id: opt_text(message.model),
                occurred_at: at,
                usage: anthropic_bands(usage),
                measurement_source: "provider_exact"@,
                request_kind: "turn"@,
                is_sidechain: line.is_sidechain == Some(true),
                agent_id: opt_text(line.agent_id),
                agent_type: opt_text(line.attribution_agent),
                raw_json: Some(anthropic_json(usage)),
            },
        ),
    }
}

/// What an assistant line tells.
pub open spec fn assistant_signals(
    ctx: LineCtxView,
    line: Line,
    session: Text,
    at: (i64, u32),
) -> Seq<SignalView> {
    match line.message {
        None => Seq::empty(),
        Some(m) => if is_failure(line, m) {
            seq![
                SignalView::RequestFailed {
                    session_id: session,
                    dedup_key: failure_key_of(opt_text(line.request_id), opt_text(line.uuid)),
                    occurred_at: at,
                    detail: "the API call failed and produced no usable response"@,
                },
            ]
        } else {
            match m.usage {
                None => Seq::empty(),
                Some(u) => declared(ctx, opt_text(m.model), session) + contradiction(u) + seq![
                    measurement(line, m, u, session, at),
                ],
            }
        },
    }
}

/// What a system line tells.
pub open spec fn system_signals(line: Line, session: Text, at: (i64, u32)) -> Seq<SignalView> {
    if opt_text(line.subtype) == Some("api_error"@) {
        seq![
            SignalView::RetryAttempt {
                session_id: session,
                attempt: match line.retry_attempt {
                    Some(n) => n,
                    None => 1,
                },
                max_attempts: line.max_retries,
                occurred_at: at,
            },
        ]
    } else if opt_text(line.subtype) == Some("compact_boundary"@) {
        seq![
            SignalView::ContextCompacted {
                session_id: session,
                pre_tokens: line.pre_tokens,
                post_tokens: line.post_tokens,
            },
        ]
    } else {
        Seq::empty()
    }
}

/// The session's announcement, where the session is new.
pub open spec fn opened(ctx: LineCtxView, line: Line, session: Text) -> Seq<SignalView> {
    if ctx.current_session == Some(session) {
        Seq::empty()
    } else {
        seq![
            SignalView::SessionOpened {
                session_id: session,
                cwd: opt_text(line.cwd),
                app_version: opt_text(line.version),
            },
        ]
    }
}

/// What a line tells, given the state and the present.
pub open spec fn line_signals(ctx: LineCtxView, line: Line, now: (i64, u32)) -> Seq<SignalView> {
    match line.session_id {
        None => Seq::empty(),
        Some(s) => {
            let at = occurred(opt_text(line.timestamp), now);
            opened(ctx, line, s@) + if opt_text(line.kind) == Some("assistant"@) {
                assistant_signals(ctx, line, s@, at)
            } else if opt_text(line.kind) == Some("system"@) {
                system_signals(line, s@, at)
            } else {
                Seq::empty()
            }
        },
    }
}

/// The state after a line.
pub open spec fn line_ctx(ctx: LineCtxView, line: Line) -> LineCtxView {
    match line.session_id {
        None => ctx,
        Some(s) => {
            let seen = LineCtxView { current_session: Some(s@), ..ctx };
            if opt_text(line.kind) == Some("assistant"@) {
                assistant_ctx(seen, line)
            } else {
                seen
            }
        },
    }
}

/// What a decoded line, or the failure to decode one, comes to.
pub open spec fn outcome(
    ctx: LineCtxView,
    line: Result<Line, String>,
    now: (i64, u32),
) -> ParseOutcomeView {
    match line {
        Err(e) => undecodable(e@),
        Ok(l) => outcome_of(line_signals(ctx, l, now)),
    }
}

/// The state after a decoded line; a line that could not be decoded changes
/// nothing.
pub open spec fn next_ctx(ctx: LineCtxView, line: Result<Line, String>) -> LineCtxView {
    match line {
        Err(_) => ctx,
        Ok(l) => line_ctx(ctx, l),
    }
}

fn usage_key(line: &Line, message: &Message) -> (k: Option<String>)
    ensures
        opt_text(k) == usage_key_of(opt_text(line.request_id), opt_text(message.id)),
{
    match (&line.request_id, &message.id) {
        (Some(req), Some(msg)) => {
            let mut k = req.clone();
            k.append(":");
            k.append(msg.as_str());
            Some(k)
        },
        (Some(req), None) => Some(req.clone()),
        (None, Some(msg)) => Some(msg.clone()),
        (None, None) => None,
    }
}

fn failure_key(line: &Line) -> (k: String)
    ensures
        k@ == failure_key_of(opt_text(line.request_id), opt_text(line.uuid)),
{
    match &line.request_id {
        Some(req) => req.clone(),
        None => match &line.uuid {
            Some(u) => u.clone(),
            None => "unknown-failure".to_owned(),
        },
    }
}

/// When a line was written; `now` where it does not say.
pub(crate) fn occurred_at(timestamp: &Option<String>, now: Timestamp) -> (t: Timestamp)
    ensures
        t@ == occurred(opt_text(*timestamp), now@),
{
    match timestamp {
        Some(t) => match Timestamp::parse_from_rfc3339(t.as_str()) {
            Some(at) => at,
            None => now,
        },
        None => now,
    }
}

fn parse_assistant(
    ctx: &mut LineCtx,
    line: &Line,
    session_id: &String,
    at: Timestamp,
    signals: &mut Vec<Signal>,
)
    ensures
        final(ctx)@ == assistant_ctx(old(ctx)@, *line),
        signal_views(final(signals)@) == signal_views(old(signals)@) + assistant_signals(
            old(ctx)@,
            *line,
            session_id@,
            at@,
        ),
{
    let ghost before = signal_views(signals@);
    let message = match &line.message {
        Some(m) => m,
        None => {
            proof {
                assert(before + Seq::<SignalView>::empty() =~= before);
            }
            return ;
        },
    };
    let failed = match line.is_api_error_message {
        Some(b) => b,
        None => false,
    };
    if opt_is(&message.model, SYNTHETIC_MODEL) || failed {
        emit(
            signals,
            Signal::RequestFailed {
                session_id: session_id.clone(),
                dedup_key: failure_key(line),
                occurred_at: at,
                detail: "the API call failed and produced no usable response".to_owned(),
            },
        );
        proof {
            assert(signal_views(signals@) =~= before + assistant_signals(
                ctx@,
                *line,
                session_id@,
                at@,
            ));
        }
        return ;
    }
    let usage = match &message.usage {
        Some(u) => u,
        None => {
            proof {
                assert(before + Seq::<SignalView>::empty() =~= before);
            }
            return ;
        },
    };
    let ghost entry = ctx@;
    if let Some(m) = &message.model {
        if !opt_is(&ctx.current_model, m.as_str()) {
            ctx.current_model = Some(m.clone());
            emit(
                signals,
                Signal::ModelDeclared { session_id: session_id.clone(), model_id: m.clone() },
            );
        }
    }
    proof {
        assert(signal_views(signals@) =~= before + declared(
            entry,
            opt_text(message.model),
            session_id@,
        ));
    }
    let normalized = TokenUsage::read_anthropic(usage);
    if let Some(e) = &normalized.discrepancy {
        emit(
            signals,
            Signal::Anomaly {
                kind: "provider_self_inconsistent".to_owned(),
                detail: e.message(),
            },
        );
    }
    proof {
        assert(signal_views(signals@) =~= before + (declared(
            entry,
            opt_text(message.model),
            session_id@,
        ) + contradiction(*usage)));
    }
    let dedup_key = match usage_key(line, message) {
        Some(k) => k,
        None => {
            emit(
                signals,
                Signal::Anomaly {
                    kind: "no_dedup_key".to_owned(),
                    detail: "an assistant line carried usage but neither a requestId nor a message id, so repeated observations of it could not be recognised as the same request".to_owned(),
                },
            );
            proof {
                assert(signal_views(signals@) =~= before + assistant_signals(
                    entry,
                    *line,
                    session_id@,
                    at@,
                ));
            }
            return ;
        },
    };
    ctx.event_ordinal = ctx.event_ordinal.saturating_add(1);
    let u = UsageSignal {
        session_id: session_id.clone(),
        dedup_key,
        model_id: copy_opt(&message.model),
        occurred_at: at,
        usage: normalized.usage,
        measurement_source: SOURCE_TRANSCRIPT,
        request_kind: "turn",
        is_sidechain: match line.is_sidechain {
            Some(b) => b,
            None => false,
        },
        agent_id: copy_opt(&line.agent_id),
        agent_type: copy_opt(&line.attribution_agent),
        raw_json: Some(usage.to_json()),
    };
    emit(signals, Signal::Usage(Box::new(u)));
    proof {
        assert(signal_views(signals@) =~= before + assistant_signals(
            entry,
            *line,
            session_id@,
            at@,
        ));
    }
}

fn parse_system(line: &Line, session_id: &String, at: Timestamp, signals: &mut Vec<Signal>)
    ensures
        signal_views(final(signals)@) == signal_views(old(signals)@) + system_signals(
            *line,
            session_id@,
            at@,
        ),
{
    let ghost before = signal_views(signals@);
    if opt_is(&line.subtype, "api_error") {
        emit(
            signals,
            Signal::RetryAttempt {
                session_id: session_id.clone(),
                attempt: line.retry_attempt.unwrap_or(1),
                max_attempts: line.max_retries,
                occurred_at: at,
            },
        );
    } else if opt_is(&line.subtype, "compact_boundary") {
        emit(
            signals,
            Signal::ContextCompacted {
                session_id: session_id.clone(),
                pre_tokens: line.pre_tokens,
                post_tokens: line.post_tokens,
            },
        );
    }
    proof {
        assert(signal_views(signals@) =~= before + system_signals(*line, session_id@, at@));
    }
}

/// Parse a decoded line, taking `now` for the time of one that has none.
pub fn parse_line_at(
    ctx: &mut LineCtx,
    line: &Result<Line, String>,
    now: Timestamp,
) -> (o: ParseOutcome)
    ensures
        o@ == outcome(old(ctx)@, *line, now@),
        final(ctx)@ == next_ctx(old(ctx)@, *line),
{
    let line = match line {
        Ok(l) => l,
        Err(e) => {
            let mut reason = "not valid JSON: ".to_owned();
            reason.append(e.as_str());
            return ParseOutcome::Malformed { reason };
        },
    };
    let session_id = match &line.session_id {
        Some(s) => s,
        None => {
            return ParseOutcome::Ignored;
        },
    };
    let at = occurred_at(&line.timestamp, now);
    let mut signals: Vec<Signal> = Vec::new();
    let ghost entry = ctx@;
    if !opt_is(&ctx.current_session, session_id.as_str()) {
        ctx.current_session = Some(session_id.clone());
        emit(
            &mut signals,
            Signal::SessionOpened {
                session_id: session_id.clone(),
                cwd: copy_opt(&line.cwd),
                app_version: copy_opt(&line.version),
            },
        );
    }
    proof {
        assert(signal_views(signals@) =~= opened(entry, *line, session_id@));
        assert(ctx@ == LineCtxView { current_session: Some(session_id@), ..entry });
    }
    if opt_is(&line.kind, "assistant") {
        parse_assistant(ctx, line, session_id, at, &mut signals);
    } else if opt_is(&line.kind, "system") {
        parse_system(line, session_id, at, &mut signals);
    }
    proof {
        assert(signal_views(signals@) =~= line_signals(entry, *line, now@));
    }
    ParseOutcome::of(signals)
}

/// Parse a decoded line. A line that does not say when it was written counts as
/// written now.
pub fn parse_line(ctx: &mut LineCtx, line: &Result<Line, String>) -> (o: ParseOutcome)
    ensures
        exists|now: (i64, u32)| o@ == #[trigger] outcome(old(ctx)@, *line, now),
        final(ctx)@ == next_ctx(old(ctx)@, *line),
{
    let now = Timestamp::now();
    parse_line_at(ctx, line, now)
}

/// The usage that a line carries, if it carries any. An assistant line is a
/// request where it carries usage and has an identity; a failure marker, a retry
/// and a compaction never are.
pub open spec fn line_usage(line: Line, now: (i64, u32)) -> Option<UsageSignalView> {
    match (line.session_id, line.message) {
        (Some(s), Some(m)) => if opt_text(line.kind) == Some("assistant"@) && !is_failure(line, m)
            && m.usage.is_some() && usage_key_of(
            opt_text(line.request_id),
            opt_text(m.id),
        ).is_some() {
            Some(
                measurement(
                    line,
                    m,
                    m.usage.unwrap(),
                    s@,
                    occurred(opt_text(line.timestamp), now),
                )->Usage_0,
            )
        } else {
            None
        },
        _ => None,
    }
}

/// A line tells one measurement or none, whatever was read before it.
pub proof fn law_line_is_at_most_one_request(ctx: LineCtxView, line: Line, now: (i64, u32))
    ensures
        usages(line_signals(ctx, line, now)) == match line_usage(line, now) {
            Some(u) => seq![u],
            None => Seq::empty(),
        },
{
    match line.session_id {
        None => {},
        Some(s) => {
            let at = occurred(opt_text(line.timestamp), now);
            let first = opened(ctx, line, s@);
            usages_of_one(
                SignalView::SessionOpened {
                    session_id: s@,
                    cwd: opt_text(line.cwd),
                    app_version: opt_text(line.version),
                },
            );
            assert(usages(first) =~= Seq::empty());
            if opt_text(line.kind) == Some("assistant"@) {
                usages_of_both(first, assistant_signals(ctx, line, s@, at));
                assistant_usage(ctx, line, s@, at);
                assert(usages(first) + usages(assistant_signals(ctx, line, s@, at)) =~= usages(
                    assistant_signals(ctx, line, s@, at),
                ));
            } else if opt_text(line.kind) == Some("system"@) {
                usages_of_both(first, system_signals(line, s@, at));
                let rest = system_signals(line, s@, at);
                if rest.len() > 0 {
                    usages_of_one(rest[0]);
                    assert(rest =~= seq![rest[0]]);
                }
                assert(usages(rest) =~= Seq::empty());
            } else {
                assert(first + Seq::<SignalView>::empty() =~= first);
            }
        },
    }
}

proof fn assistant_usage(ctx: LineCtxView, line: Line, session: Text, at: (i64, u32))
    ensures
        usages(assistant_signals(ctx, line, session, at)) == match line.message {
            Some(m) => if !is_failure(line, m) && m.usage.is_some() && usage_key_of(
                opt_text(line.request_id),
                opt_text(m.id),
            ).is_some() {
                seq![measurement(line, m, m.usage.unwrap(), session, at)->Usage_0]
            } else {
                Seq::empty()
            },
            None => Seq::empty(),
        },
{
    let all = assistant_signals(ctx, line, session, at);
    match line.message {
        None => {},
        Some(m) => {
            if is_failure(line, m) {
                usages_of_one(all[0]);
            } else if let Some(u) = m.usage {
                let a = declared(ctx, opt_text(m.model), session);
                let b = contradiction(u);
                let c = measurement(line, m, u, session, at);
                if a.len() > 0 {
                    usages_of_one(a[0]);
                    assert(a =~= seq![a[0]]);
                }
                if b.len() > 0 {
                    usages_of_one(b[0]);
                    assert(b =~= seq![b[0]]);
                }
                usages_of_one(c);
                usages_of_both(a, b);
                usages_of_both(a + b, seq![c]);
                assert(usages(a) =~= Seq::empty());
                assert(usages(b) =~= Seq::empty());
                assert(usages(all) =~= usages(seq![c]));
            }
        },
    }
}

/// All the lines of one response share one identity: it depends on nothing but
/// the request id and the message id.
pub proof fn law_lines_of_one_response_share_a_key(
    a: Line,
    b: Line,
    session_a: Text,
    session_b: Text,
    at_a: (i64, u32),
    at_b: (i64, u32),
)
    requires
        a.message.is_some(),
        b.message.is_some(),
        opt_text(a.request_id) == opt_text(b.request_id),
        opt_text(a.message.unwrap().id) == opt_text(b.message.unwrap().id),
        usage_key_of(opt_text(a.request_id), opt_text(a.message.unwrap().id)).is_some(),
    ensures
        forall|ua: AnthropicUsage, ub: AnthropicUsage|
            (#[trigger] measurement(a, a.message.unwrap(), ua, session_a, at_a))->Usage_0.dedup_key
                == (#[trigger] measurement(
                b,
                b.message.unwrap(),
                ub,
                session_b,
                at_b,
            ))->Usage_0.dedup_key,
{
}

/// Two responses that have both ids have the same identity only where both ids
/// are the same, as long as the request ids hold no colon.
pub proof fn law_distinct_responses_have_distinct_keys(
    req_a: Text,
    msg_a: Text,
    req_b: Text,
    msg_b: Text,
)
    requires
        !req_a.contains(':'),
        !req_b.contains(':'),
        usage_key_of(Some(req_a), Some(msg_a)) == usage_key_of(Some(req_b), Some(msg_b)),
    ensures
        req_a == req_b,
        msg_a == msg_b,
{
    reveal_strlit(":");
    let k = req_a + ":"@ + msg_a;
    assert(k == req_b + ":"@ + msg_b);
    assert(k[req_a.len() as int] == ':');
    assert(k[req_b.len() as int] == ':');
    if req_a.len() < req_b.len() {
        assert(k[req_a.len() as int] == req_b[req_a.len() as int]);
        assert(req_b.contains(':'));
    }
    if req_b.len() < req_a.len() {
        assert(k[req_b.len() as int] == req_a[req_b.len() as int]);
        assert(req_a.contains(':'));
    }
    assert(req_a =~= k.take(req_a.len() as int));
    assert(req_b =~= k.take(req_b.len() as int));
    assert(msg_a =~= k.skip(req_a.len() as int + 1));
    assert(msg_b =~= k.skip(req_b.len() as int + 1));
}

/// The breakdown into iterations is not added to the message it breaks down.
pub proof fn law_iterations_are_never_added(u: AnthropicUsage, other: AnthropicUsage)
    requires
        other == (AnthropicUsage { iterations: other.iterations, ..u }),
    ensures
        anthropic_bands(other) == anthropic_bands(u),
{
}

/// The state after a run of lines.
pub open spec fn ctx_after(ctx: LineCtxView, lines: Seq<(Line, (i64, u32))>) -> LineCtxView
    decreases lines.len(),
{
    if lines.len() == 0 {
        ctx
    } else {
        line_ctx(ctx_after(ctx, lines.drop_last()), lines.last().0)
    }
}

/// The usage that a run of lines tells, each with the present at which it is
/// read.
pub open spec fn usages_of_lines(ctx: LineCtxView, lines: Seq<(Line, (i64, u32))>) -> Seq<
    UsageSignalView,
>
    decreases lines.len(),
{
    if lines.len() == 0 {
        Seq::empty()
    } else {
        let before = lines.drop_last();
        usages_of_lines(ctx, before) + usages(
            line_signals(ctx_after(ctx, before), lines.last().0, lines.last().1),
        )
    }
}

/// Reading a file in two passes tells what reading it at once tells.
pub proof fn law_passes_tell_what_one_reading_tells(
    ctx: LineCtxView,
    a: Seq<(Line, (i64, u32))>,
    b: Seq<(Line, (i64, u32))>,
)
    ensures
        ctx_after(ctx, a + b) == ctx_after(ctx_after(ctx, a), b),
        usages_of_lines(ctx, a + b) == usages_of_lines(ctx, a) + usages_of_lines(
            ctx_after(ctx, a),
            b,
        ),
    decreases b.len(),
{
    if b.len() == 0 {
        assert(a + b =~= a);
        assert(usages_of_lines(ctx, a) + Seq::<UsageSignalView>::empty() =~= usages_of_lines(
            ctx,
            a,
        ));
    } else {
        let d = b.drop_last();
        law_passes_tell_what_one_reading_tells(ctx, a, d);
        assert((a + b).drop_last() =~= a + d);
        assert((a + b).last() == b.last());
        let told = usages(line_signals(ctx_after(ctx, a + d), b.last().0, b.last().1));
        assert(usages_of_lines(ctx, a + d) + told =~= usages_of_lines(ctx, a) + (usages_of_lines(
            ctx_after(ctx, a),
            d,
        ) + told));
    }
}

/// The same lines, read from whatever states and at whatever times, tell the
/// same requests: a request's identity is written in its line.
pub proof fn law_rereading_tells_the_same_requests(
    ctx: LineCtxView,
    other: LineCtxView,
    a: Seq<(Line, (i64, u32))>,
    b: Seq<(Line, (i64, u32))>,
)
    requires
        same_lines(a, b),
    ensures
        same_requests(usages_of_lines(ctx, a), usages_of_lines(other, b)),
    decreases a.len(),
{
    if a.len() > 0 {
        let x = a.drop_last();
        let y = b.drop_last();
        assert(a[a.len() - 1].0 == b[b.len() - 1].0);
        assert forall|i: int| 0 <= i < x.len() implies (#[trigger] x[i]).0 == y[i].0 by {
            assert(x[i] == a[i]);
        }
        law_rereading_tells_the_same_requests(ctx, other, x, y);
        law_line_is_at_most_one_request(ctx_after(ctx, x), a.last().0, a.last().1);
        law_line_is_at_most_one_request(ctx_after(other, y), b.last().0, b.last().1);
        same_requests_join(
            usages_of_lines(ctx, x),
            usages(line_signals(ctx_after(ctx, x), a.last().0, a.last().1)),
            usages_of_lines(other, y),
            usages(line_signals(ctx_after(other, y), b.last().0, b.last().1)),
        );
    }
}

/// A usage line is one request of its own session, with its own model, time and
/// agent, and with the provider's counts in the buckets of the same names.
pub proof fn law_a_usage_line_is_a_request(
    ctx: LineCtxView,
    line: Line,
    m: Message,
    u: AnthropicUsage,
    now: (i64, u32),
)
    requires
        line.session_id.is_some(),
        opt_text(line.kind) == Some("assistant"@),
        line.message == Some(m),
        m.usage == Some(u),
        opt_text(m.model) != Some("<synthetic>"@),
        line.is_api_error_message != Some(true),
        line.request_id.is_some() || m.id.is_some(),
    ensures
        ({
            let told = usages(line_signals(ctx, line, now));
            &&& told.len() == 1
            &&& told[0].session_id == line.session_id.unwrap()@
            &&& told[0].model_id == opt_text(m.model)
            &&& told[0].is_sidechain == (line.is_sidechain == Some(true))
            &&& told[0].agent_id == opt_text(line.agent_id)
            &&& told[0].agent_type == opt_text(line.attribution_agent)
            &&& told[0].measurement_source == "provider_exact"@
            &&& told[0].request_kind == "turn"@
            &&& told[0].raw_json == Some(anthropic_json(u))
            &&& told[0].usage.input_fresh == or_zero(u.input_tokens)
            &&& told[0].usage.cache_read == or_zero(u.cache_read_input_tokens)
            &&& told[0].usage.output_total == or_zero(u.output_tokens)
            &&& told[0].usage.reasoning.is_none()
            &&& u.cache_creation.is_some() ==> told[0].usage.cache_write_5m == or_zero(
                u.cache_creation.unwrap().ephemeral_5m_input_tokens,
            ) && told[0].usage.cache_write_1h == or_zero(
                u.cache_creation.unwrap().ephemeral_1h_input_tokens,
            )
            &&& u.cache_creation.is_none() ==> told[0].usage.cache_write_unspecified == or_zero(
                u.cache_creation_input_tokens,
            )
            &&& line.request_id.is_some() && m.id.is_some() ==> told[0].dedup_key
                == line.request_id.unwrap()@ + ":"@ + m.id.unwrap()@
            &&& line.request_id.is_some() && m.id.is_none() ==> told[0].dedup_key
                == line.request_id.unwrap()@
            &&& line.request_id.is_none() && m.id.is_some() ==> told[0].dedup_key
                == m.id.unwrap()@
            &&& line.timestamp.is_none() ==> told[0].occurred_at == now
            &&& line.timestamp.is_some() && rfc3339_instant(line.timestamp.unwrap()@).is_some()
                ==> Some(told[0].occurred_at) == rfc3339_instant(line.timestamp.unwrap()@)
        }),
{
    law_line_is_at_most_one_request(ctx, line, now);
    law_anthropic_buckets_are_the_providers_counts(u);
}

/// A line that marks a failed call is told as a failure of its session, by its
/// own identity, and is never a request, whatever usage it carries.
pub proof fn law_a_failure_is_no_request(
    ctx: LineCtxView,
    line: Line,
    m: Message,
    now: (i64, u32),
)
    requires
        line.session_id.is_some(),
        opt_text(line.kind) == Some("assistant"@),
        line.message == Some(m),
        opt_text(m.model) == Some("<synthetic>"@) || line.is_api_error_message == Some(true),
    ensures
        ({
            let all = line_signals(ctx, line, now);
            &&& usages(all).len() == 0
            &&& all.len() > 0 && all.last() is RequestFailed
            &&& all.last()->RequestFailed_session_id == line.session_id.unwrap()@
            &&& line.request_id.is_some() ==> all.last()->RequestFailed_dedup_key
                == line.request_id.unwrap()@
            &&& line.request_id.is_none() && line.uuid.is_some()
                ==> all.last()->RequestFailed_dedup_key == line.uuid.unwrap()@
            &&& line_ctx(ctx, line).current_model == ctx.current_model
        }),
{
    law_line_is_at_most_one_request(ctx, line, now);
}

/// A retry is told with its number and the limit, and a compaction with the
/// sizes before and after it; neither is a request.
pub proof fn law_system_lines_are_no_requests(ctx: LineCtxView, line: Line, now: (i64, u32))
    requires
        line.session_id.is_some(),
        opt_text(line.kind) == Some("system"@),
    ensures
        ({
            let all = line_signals(ctx, line, now);
            &&& usages(all).len() == 0
            &&& opt_text(line.subtype) == Some("api_error"@) ==> all.len() > 0
                && all.last() is RetryAttempt && all.last()->RetryAttempt_session_id
                == line.session_id.unwrap()@ && all.last()->max_attempts == line.max_retries
                && (line.retry_attempt.is_some() ==> all.last()->attempt
                == line.retry_attempt.unwrap())
            &&& opt_text(line.subtype) == Some("compact_boundary"@) ==> all.len() > 0
                && all.last() is ContextCompacted && all.last()->ContextCompacted_session_id
                == line.session_id.unwrap()@ && all.last()->pre_tokens == line.pre_tokens
                && all.last()->post_tokens == line.post_tokens
        }),
{
    reveal_strlit("assistant");
    reveal_strlit("system");
    reveal_strlit("api_error");
    reveal_strlit("compact_boundary");
    assert("assistant"@.len() != "system"@.len());
    assert("api_error"@.len() != "compact_boundary"@.len());
    law_line_is_at_most_one_request(ctx, line, now);
}

/// A session is announced on its first line, with where and with what version it
/// runs, and not on the next; the model likewise where it is new.
pub proof fn law_sessions_and_models_are_announced_once(
    ctx: LineCtxView,
    line: Line,
    now: (i64, u32),
    next: Line,
    later: (i64, u32),
)
    requires
        line.session_id.is_some(),
        opt_text(next.session_id) == opt_text(line.session_id),
    ensures
        line_ctx(ctx, line).current_session == opt_text(line.session_id),
        ctx.current_session != opt_text(line.session_id) ==> line_signals(ctx, line, now).len() > 0
            && line_signals(ctx, line, now)[0] == (SignalView::SessionOpened {
            session_id: line.session_id.unwrap()@,
            cwd: opt_text(line.cwd),
            app_version: opt_text(line.version),
        }),
        forall|i: int|
            0 <= i < line_signals(line_ctx(ctx, line), next, later).len() ==> !(
            #[trigger] line_signals(line_ctx(ctx, line), next, later)[i] is SessionOpened),
{
}

/// A provider that contradicts itself in a cache write is reported, and its
/// tokens are counted all the same.
pub proof fn law_a_contradiction_is_reported_and_counted(
    ctx: LineCtxView,
    line: Line,
    m: Message,
    u: AnthropicUsage,
    now: (i64, u32),
)
    requires
        line.session_id.is_some(),
        opt_text(line.kind) == Some("assistant"@),
        line.message == Some(m),
        m.usage == Some(u),
        opt_text(m.model) != Some("<synthetic>"@),
        line.is_api_error_message != Some(true),
        line.request_id.is_some() || m.id.is_some(),
        u.cache_creation.is_some(),
        or_zero(u.cache_creation.unwrap().ephemeral_5m_input_tokens) + or_zero(
            u.cache_creation.unwrap().ephemeral_1h_input_tokens,
        ) <= u64::MAX,
        or_zero(u.cache_creation.unwrap().ephemeral_5m_input_tokens) + or_zero(
            u.cache_creation.unwrap().ephemeral_1h_input_tokens,
        ) != or_zero(u.cache_creation_input_tokens),
    ensures
        usages(line_signals(ctx, line, now)).len() == 1,
        line_signals(ctx, line, now).len() >= 2,
        line_signals(ctx, line, now)[line_signals(ctx, line, now).len() - 2] is Anomaly,
        line_signals(ctx, line, now)[line_signals(ctx, line, now).len() - 2]->Anomaly_kind
            == "provider_self_inconsistent"@,
{
    law_a_usage_line_is_a_request(ctx, line, m, u, now);
    law_a_wrong_split_is_told(u);
}

/// The model that a request names is the model from then on, and it is declared
/// where it is another than before; a request that names none leaves it.
pub proof fn law_a_new_model_is_declared(
    ctx: LineCtxView,
    line: Line,
    m: Message,
    now: (i64, u32),
)
    requires
        line.session_id.is_some(),
        opt_text(line.kind) == Some("assistant"@),
        line.message == Some(m),
        m.usage.is_some(),
        opt_text(m.model) != Some("<synthetic>"@),
        line.is_api_error_message != Some(true),
    ensures
        m.model.is_some() ==> line_ctx(ctx, line).current_model == opt_text(m.model),
        m.model.is_none() ==> line_ctx(ctx, line).current_model == ctx.current_model,
        m.model.is_some() && ctx.current_model != opt_text(m.model) ==> line_signals(
            ctx,
            line,
            now,
        ).contains(
            SignalView::ModelDeclared {
                session_id: line.session_id.unwrap()@,
                model_id: m.model.unwrap()@,
            },
        ),
        line_ctx(ctx, line).previous_cumulative == ctx.previous_cumulative,
        line_ctx(ctx, line).previous_last == ctx.previous_last,
{
    let s = line.session_id.unwrap()@;
    let a = opened(ctx, line, s);
    let all = line_signals(ctx, line, now);
    if m.model.is_some() && ctx.current_model != opt_text(m.model) {
        assert(all[a.len() as int] == (SignalView::ModelDeclared {
            session_id: s,
            model_id: m.model.unwrap()@,
        }));
    }
}

/// A line that does not say when it was written, or not in a way that can be
/// read, was written now.
pub proof fn law_an_undated_line_is_of_now(timestamp: Text, now: (i64, u32))
    ensures
        occurred(None, now) == now,
        rfc3339_instant(timestamp).is_none() ==> occurred(Some(timestamp), now) == now,
        rfc3339_instant(timestamp).is_some() ==> Some(occurred(Some(timestamp), now))
            == rfc3339_instant(timestamp),
{
}

/// Usage without an identity is reported, for it could not be told from a copy.
pub proof fn law_usage_without_an_identity_is_reported(
    ctx: LineCtxView,
    line: Line,
    m: Message,
    now: (i64, u32),
)
    requires
        line.session_id.is_some(),
        opt_text(line.kind) == Some("assistant"@),
        line.message == Some(m),
        m.usage.is_some(),
        opt_text(m.model) != Some("<synthetic>"@),
        line.is_api_error_message != Some(true),
        line.request_id.is_none() && m.id.is_none(),
    ensures
        usages(line_signals(ctx, line, now)).len() == 0,
        line_signals(ctx, line, now).last() is Anomaly,
        line_signals(ctx, line, now).last()->Anomaly_kind == "no_dedup_key"@,
{
    law_line_is_at_most_one_request(ctx, line, now);
}

/// A retry that does not say which one it is is the first, and a failure that has
/// neither a request nor a line of its own is still told.
pub proof fn law_unnumbered_retries_and_nameless_failures_are_told(
    line: Line,
    session: Text,
    at: (i64, u32),
)
    ensures
        opt_text(line.subtype) == Some("api_error"@) && line.retry_attempt.is_none()
            ==> system_signals(line, session, at) == seq![
            SignalView::RetryAttempt {
                session_id: session,
                attempt: 1u32,
                max_attempts: line.max_retries,
                occurred_at: at,
            },
        ],
        failure_key_of(None, None) == "unknown-failure"@,
{
}

} // verus!
