//! Codex.
//!
//! Usage is cumulative: a request is the advance of a running counter, see
//! [`crate::reconcile`]. The model is not on the usage event but is declared
//! earlier and carried forward; a reader that starts in the middle of a file
//! does not know it and does not guess.
use vstd::prelude::*;
use vstd::string::StringExecFns;

use crate::adapters::{
    emit, holds_marker, outcome_of, same_lines, same_requests, same_requests_join, signal_views,
    undecodable, usages, usages_of_both, usages_of_one, LineCtx, LineCtxView, ParseOutcome,
    ParseOutcomeView, Signal, SignalView, UsageAdapter, UsageSignal, UsageSignalView,
};
use crate::bytes::contains;
use crate::claude_code::{occurred, occurred_at};
use crate::native::{law_delta_undoes_the_earlier_reading, openai_json, or_zero, OpenAiUsage};
use crate::reconcile::{
    advanced, contribution, law_replay_contributes_nothing, law_the_running_total_decides, meaning,
    Reconciled, Watermark,
};
use crate::text::{copy_opt, dec, dec_injective, dec_u64, opt_is, opt_text, Text};
use crate::time::Timestamp;
use crate::token_usage::{
    law_a_wrong_total_is_told, normalize_message, openai_bands, openai_total_discrepancy,
    NormalizeError, TokenUsage,
};
use crate::tokens::{no_tokens, TokenBands};

verus! {

pub const ADAPTER_ID: &'static str = "codex";

/// An ordinary turn, derived from the advance of the provider's own counter.
pub const SOURCE_CUMULATIVE_DELTA: &'static str = "provider_cumulative_delta";

/// A call the provider billed but excluded from its running total.
pub const SOURCE_OFF_LEDGER: &'static str = "provider_off_ledger";

/// One rollout line, decoded.
#[derive(Debug, Clone, Default, PartialEq)]
pub struct Line {
    pub timestamp: Option<String>,
    pub kind: Option<String>,
    pub payload: Option<Payload>,
}

#[derive(Debug, Clone, Default, PartialEq)]
pub struct Payload {
    pub kind: Option<String>,
    pub id: Option<String>,
    pub cwd: Option<String>,
    pub cli_version: Option<String>,
    pub model: Option<String>,
    /// Absent on events that carry rate limits only.
    pub info: Option<TokenInfo>,
}

#[derive(Debug, Clone, Copy, Default, PartialEq, Structural)]
pub struct TokenInfo {
    pub total_token_usage: Option<OpenAiUsage>,
    pub last_token_usage: Option<OpenAiUsage>,
}

#[derive(Debug, Clone, Copy, PartialEq, Eq, Structural)]
pub struct CodexAdapter;

impl UsageAdapter for CodexAdapter {
    open spec fn markers(&self) -> Seq<Text> {
        seq!["\"token_count\""@, "\"turn_context\""@, "\"session_meta\""@, "\"context_compacted\""@]
    }

    open spec fn id_text(&self) -> Text {
        "codex"@
    }

    fn id(&self) -> (s: &'static str) {
        ADAPTER_ID
    }

    fn is_candidate_line(&self, head: &[u8]) -> (b: bool) {
        let b = contains(head, "\"token_count\"") || contains(head, "\"turn_context\"")
            || contains(head, "\"session_meta\"") || contains(head, "\"context_compacted\"");
        proof {
            let m = self.markers();
            assert(m[0] == "\"token_count\""@);
            assert(m[1] == "\"turn_context\""@);
            assert(m[2] == "\"session_meta\""@);
            assert(m[3] == "\"context_compacted\""@);
            if b {
                assert(holds_marker(head@, m));
            }
        }
        b
    }
}

/// The running total that an event reports.
pub open spec fn reported_total(info: Option<TokenInfo>) -> Option<OpenAiUsage> {
    match info {
        Some(i) => i.total_token_usage,
        None => None,
    }
}

/// The last call that an event reports.
pub open spec fn reported_last(info: Option<TokenInfo>) -> Option<OpenAiUsage> {
    match info {
        Some(i) => i.last_token_usage,
        None => None,
    }
}

/// The counter's state as the line context carries it.
pub open spec fn mark(ctx: LineCtxView) -> Watermark {
    Watermark {
        cumulative: ctx.previous_cumulative,
        last: ctx.previous_last,
        epoch: 0,
        emitted_total: 0,
    }
}

/// What an event means in the state that the line context carries.
pub open spec fn event_meaning(ctx: LineCtxView, info: Option<TokenInfo>) -> Reconciled {
    meaning(mark(ctx), reported_total(info), reported_last(info))
}

/// What kind of request an event is.
pub open spec fn kind_of(r: Reconciled) -> Text {
    if r is OffLedger {
        "off_ledger"@
    } else {
        "turn"@
    }
}

/// Where an event's numbers come from.
pub open spec fn source_of(r: Reconciled) -> Text {
    if r is OffLedger {
        "provider_off_ledger"@
    } else {
        "provider_cumulative_delta"@
    }
}

/// The report that the running total went backwards.
pub open spec fn rebased(r: Reconciled) -> Seq<SignalView> {
    match r {
        Reconciled::EpochReset { from_total, to_total, .. } => seq![
            SignalView::Anomaly {
                kind: "cumulative_rebased"@,
                detail: "the session's running total went backwards, "@ + dec(from_total as nat)
                    + " -> "@ + dec(to_total as nat)
                    + "; starting a new epoch rather than emitting a negative delta"@,
            },
        ],
        _ => Seq::empty(),
    }
}

/// The report that the provider's total is not its input plus its output. Off
/// the ledger that is the known shape of the data and no surprise.
pub open spec fn miscounted(r: Reconciled, native: OpenAiUsage) -> Seq<SignalView> {
    match openai_total_discrepancy(native) {
        Some(e) => if r is OffLedger {
            Seq::empty()
        } else {
            seq![
                SignalView::Anomaly {
                    kind: "provider_self_inconsistent"@,
                    detail: normalize_message(e),
                },
            ]
        },
        None => Seq::empty(),
    }
}

/// A call off the ledger with a total and neither input nor output: the tokens
/// were spent, but the provider does not say on which side.
pub open spec fn only_a_total(r: Reconciled, native: OpenAiUsage) -> bool {
    r is OffLedger && or_zero(native.input_tokens) == 0 && or_zero(native.output_tokens) == 0
        && or_zero(native.total_tokens) > 0
}

/// The buckets an event's usage goes to.
pub open spec fn row_bands(r: Reconciled, native: OpenAiUsage) -> Result<
    TokenBands,
    NormalizeError,
> {
    if only_a_total(r, native) {
        Ok(TokenBands { unclassified: or_zero(native.total_tokens), ..no_tokens() })
    } else {
        openai_bands(native)
    }
}

/// The identity of the `n`-th usage of a file.
pub open spec fn row_key(n: u64, r: Reconciled) -> Text {
    dec(n as nat) + ":"@ + kind_of(r)
}

/// One more usage event, as far as they can be counted.
pub open spec fn next_ordinal(n: u64) -> u64 {
    if n < u64::MAX {
        (n + 1) as u64
    } else {
        n
    }
}

/// The measurement that an event is, or why it cannot be one.
pub open spec fn row(
    ctx: LineCtxView,
    session: Text,
    r: Reconciled,
    native: OpenAiUsage,
    at: (i64, u32),
) -> SignalView {
    match row_bands(r, native) {
        Err(e) => SignalView::Anomaly { kind: "normalize_failed"@, detail: normalize_message(e) },
        Ok(bands) => SignalView::Usage(
            UsageSignalView {
                session_id: session,
                dedup_key: row_key(next_ordinal(ctx.event_ordinal), r),
                model_id: ctx.current_model,
                occurred_at: at,
                usage: bands,
                measurement_source: source_of(r),
                request_kind: kind_of(r),
                is_sidechain: false,
                agent_id: None,
                agent_type: None,
                raw_json: Some(openai_json(native)),
            },
        ),
    }
}

/// What a usage event tells.
pub open spec fn token_count_signals(
    ctx: LineCtxView,
    info: Option<TokenInfo>,
    at: (i64, u32),
) -> Seq<SignalView> {
    match ctx.current_session {
        None => seq![
            SignalView::Anomaly {
                kind: "usage_before_session"@,
                detail: "a token_count event arrived before any session_meta, so it cannot be attributed"@,
            },
        ],
        Some(session) => {
            let r = event_meaning(ctx, info);
            match contribution(r) {
                None => Seq::empty(),
                Some(native) => rebased(r) + miscounted(r, native) + seq![
                    row(ctx, session, r, native, at),
                ],
            }
        },
    }
}

/// The state after a usage event.
pub open spec fn token_count_ctx(ctx: LineCtxView, info: Option<TokenInfo>) -> LineCtxView {
    match ctx.current_session {
        None => ctx,
        Some(_) => {
            let r = event_meaning(ctx, info);
            let w = advanced(mark(ctx), reported_total(info), reported_last(info));
            LineCtxView {
                previous_cumulative: w.cumulative,
                previous_last: w.last,
                event_ordinal: match contribution(r) {
                    Some(native) => if row_bands(r, native) is Ok {
                        next_ordinal(ctx.event_ordinal)
                    } else {
                        ctx.event_ordinal
                    },
                    None => ctx.event_ordinal,
                },
                ..ctx
            }
        },
    }
}

/// What a line tells, given the state and the present.
pub open spec fn line_signals(ctx: LineCtxView, line: Line, now: (i64, u32)) -> Seq<SignalView> {
    match line.payload {
        None => Seq::empty(),
        Some(p) => {
            let at = occurred(opt_text(line.timestamp), now);
            if opt_text(line.kind) == Some("session_meta"@) {
                match p.id {
                    Some(id) => seq![
                        SignalView::SessionOpened {
                            session_id: id@,
                            cwd: opt_text(p.cwd),
                            app_version: opt_text(p.cli_version),
                        },
                    ],
                    None => Seq::empty(),
                }
            } else if opt_text(line.kind) == Some("turn_context"@) {
                match (p.model, ctx.current_session) {
                    (Some(m), Some(session)) => if ctx.current_model == Some(m@) {
                        Seq::empty()
                    } else {
                        seq![SignalView::ModelDeclared { session_id: session, model_id: m@ }]
                    },
                    _ => Seq::empty(),
                }
            } else if opt_text(line.kind) == Some("event_msg"@) {
                if opt_text(p.kind) == Some("token_count"@) {
                    token_count_signals(ctx, p.info, at)
                } else if opt_text(p.kind) == Some("context_compacted"@) {
                    match ctx.current_session {
                        Some(session) => seq![
                            SignalView::ContextCompacted {
                                session_id: session,
                                pre_tokens: None,
                                post_tokens: None,
                            },
                        ],
                        None => Seq::empty(),
                    }
                } else {
                    Seq::empty()
                }
            } else {
                Seq::empty()
            }
        },
    }
}

/// The state after a line.
pub open spec fn line_ctx(ctx: LineCtxView, line: Line) -> LineCtxView {
    match line.payload {
        None => ctx,
        Some(p) => if opt_text(line.kind) == Some("session_meta"@) {
            match p.id {
                Some(id) => LineCtxView { current_session: Some(id@), ..ctx },
                None => ctx,
            }
        } else if opt_text(line.kind) == Some("turn_context"@) {
            match p.model {
                Some(m) => LineCtxView { current_model: Some(m@), ..ctx },
                None => ctx,
            }
        } else if opt_text(line.kind) == Some("event_msg"@) && opt_text(p.kind) == Some(
            "token_count"@,
        ) {
            token_count_ctx(ctx, p.info)
        } else {
            ctx
        },
    }
}

/// What a decoded line, or the failure to decode one, comes to.
pub open spec fn outcome(
    ctx: LineCtxView,
    line: Result<Line, String>,
    now: (i64, u32),
) -> ParseOutcomeView {
    match line {
        Err(e) => undecodable(e@),
        Ok(l) => outcome_of(line_signals(ctx, l, now)),
    }
}

/// The state after a decoded line; a line that could not be decoded changes
/// nothing.
pub open spec fn next_ctx(ctx: LineCtxView, line: Result<Line, String>) -> LineCtxView {
    match line {
        Err(_) => ctx,
        Ok(l) => line_ctx(ctx, l),
    }
}

fn rebased_detail(from_total: u64, to_total: u64) -> (s: String)
    ensures
        s@ == "the session's running total went backwards, "@ + dec(from_total as nat) + " -> "@
            + dec(to_total as nat)
            + "; starting a new epoch rather than emitting a negative delta"@,
{
    let mut s = "the session's running total went backwards, ".to_owned();
    s.append(dec_u64(from_total).as_str());
    s.append(" -> ");
    s.append(dec_u64(to_total).as_str());
    s.append("; starting a new epoch rather than emitting a negative delta");
    s
}

fn normalize(off_ledger: bool, native: &OpenAiUsage) -> (r: Result<TokenUsage, NormalizeError>)
    ensures
        forall|m: Reconciled| m is OffLedger == off_ledger ==> match r {
            Ok(t) => #[trigger] row_bands(m, *native) == Ok::<TokenBands, NormalizeError>(t@),
            Err(e) => row_bands(m, *native) == Err::<TokenBands, NormalizeError>(e),
        },
{
    let total: u64 = native.total_tokens.unwrap_or(0);
    let classified: u64 = native.input_tokens.unwrap_or(0).saturating_add(
        native.output_tokens.unwrap_or(0),
    );
    if off_ledger && classified == 0 && total > 0 {
        Ok(TokenUsage::unclassified_only(total))
    } else {
        TokenUsage::from_openai(native)
    }
}

fn parse_token_count(
    ctx: &mut LineCtx,
    info: &Option<TokenInfo>,
    at: Timestamp,
    signals: &mut Vec<Signal>,
)
    ensures
        final(ctx)@ == token_count_ctx(old(ctx)@, *info),
        signal_views(final(signals)@) == signal_views(old(signals)@) + token_count_signals(
            old(ctx)@,
            *info,
            at@,
        ),
{
    let ghost before = signal_views(signals@);
    let ghost entry = ctx@;
    let session_id = match &ctx.current_session {
        Some(s) => s.clone(),
        None => {
            emit(
                signals,
                Signal::Anomaly {
                    kind: "usage_before_session".to_owned(),
                    detail: "a token_count event arrived before any session_meta, so it cannot be attributed".to_owned(),
                },
            );
            proof {
                assert(signal_views(signals@) =~= before + token_count_signals(
                    entry,
                    *info,
                    at@,
                ));
            }
            return ;
        },
    };
    let (cumulative, last) = match info {
        Some(i) => (i.total_token_usage, i.last_token_usage),
        None => (None, None),
    };
    let mut watermark = Watermark {
        cumulative: ctx.previous_cumulative,
        last: ctx.previous_last,
        epoch: 0,
        emitted_total: 0,
    };
    let reconciled = watermark.observe(cumulative, last);
    ctx.previous_cumulative = watermark.cumulative;
    ctx.previous_last = watermark.last;
    let ghost r = event_meaning(entry, *info);
    let (native, source, kind, off_ledger) = match reconciled {
        Reconciled::Replay | Reconciled::NoTokenData => {
            proof {
                assert(before + Seq::<SignalView>::empty() =~= before);
            }
            return ;
        },
        Reconciled::Turn { usage } => (usage, SOURCE_CUMULATIVE_DELTA, "turn", false),
        Reconciled::OffLedger { usage } => (usage, SOURCE_OFF_LEDGER, "off_ledger", true),
        Reconciled::EpochReset { usage, from_total, to_total } => {
            emit(
                signals,
                Signal::Anomaly {
                    kind: "cumulative_rebased".to_owned(),
                    detail: rebased_detail(from_total, to_total),
                },
            );
            (usage, SOURCE_CUMULATIVE_DELTA, "turn", false)
        },
    };
    proof {
        assert(signal_views(signals@) =~= before + rebased(r));
    }
    if !off_ledger {
        if let Some(e) = TokenUsage::check_openai_total(&native) {
            emit(
                signals,
                Signal::Anomaly {
                    kind: "provider_self_inconsistent".to_owned(),
                    detail: e.message(),
                },
            );
        }
    }
    proof {
        assert(signal_views(signals@) =~= before + (rebased(r) + miscounted(r, native)));
    }
    let usage = match normalize(off_ledger, &native) {
        Ok(u) => u,
        Err(e) => {
            emit(
                signals,
                Signal::Anomaly { kind: "normalize_failed".to_owned(), detail: e.message() },
            );
            proof {
                assert(row_bands(r, native) is Err);
                assert(signal_views(signals@) =~= before + token_count_signals(
                    entry,
                    *info,
                    at@,
                ));
            }
            return ;
        },
    };
    ctx.event_ordinal = ctx.event_ordinal.saturating_add(1);
    let mut dedup_key = dec_u64(ctx.event_ordinal);
    dedup_key.append(":");
    dedup_key.append(kind);
    let u = UsageSignal {
        session_id,
        dedup_key,
        model_id: copy_opt(&ctx.current_model),
        occurred_at: at,
        usage,
        measurement_source: source,
        request_kind: kind,
        is_sidechain: false,
        agent_id: None,
        agent_type: None,
        raw_json: Some(native.to_json()),
    };
    emit(signals, Signal::Usage(Box::new(u)));
    proof {
        assert(row_bands(r, native) == Ok::<TokenBands, NormalizeError>(usage@));
        assert(signal_views(signals@) =~= before + token_count_signals(entry, *info, at@));
    }
}

/// Parse a decoded line, taking `now` for the time of one that has none.
pub fn parse_line_at(
    ctx: &mut LineCtx,
    line: &Result<Line, String>,
    now: Timestamp,
) -> (o: ParseOutcome)
    ensures
        o@ == outcome(old(ctx)@, *line, now@),
        final(ctx)@ == next_ctx(old(ctx)@, *line),
{
    let line = match line {
        Ok(l) => l,
        Err(e) => {
            let mut reason = "not valid JSON: ".to_owned();
            reason.append(e.as_str());
            return ParseOutcome::Malformed { reason };
        },
    };
    let payload = match &line.payload {
        Some(p) => p,
        None => {
            return ParseOutcome::Ignored;
        },
    };
    let at = occurred_at(&line.timestamp, now);
    let mut signals: Vec<Signal> = Vec::new();
    let ghost entry = ctx@;
    if opt_is(&line.kind, "session_meta") {
        if let Some(id) = &payload.id {
            ctx.current_session = Some(id.clone());
            emit(
                &mut signals,
                Signal::SessionOpened {
                    session_id: id.clone(),
                    cwd: copy_opt(&payload.cwd),
                    app_version: copy_opt(&payload.cli_version),
                },
            );
        }
    } else if opt_is(&line.kind, "turn_context") {
        if let Some(model) = &payload.model {
            if !opt_is(&ctx.current_model, model.as_str()) {
                ctx.current_model = Some(model.clone());
                if let Some(session_id) = &ctx.current_session {
                    emit(
                        &mut signals,
                        Signal::ModelDeclared {
                            session_id: session_id.clone(),
                            model_id: model.clone(),
                        },
                    );
                }
            }
        }
    } else if opt_is(&line.kind, "event_msg") {
        if opt_is(&payload.kind, "token_count") {
            parse_token_count(ctx, &payload.info, at, &mut signals);
        } else if opt_is(&payload.kind, "context_compacted") {
            if let Some(session_id) = &ctx.current_session {
                emit(
                    &mut signals,
                    Signal::ContextCompacted {
                        session_id: session_id.clone(),
                        pre_tokens: None,
                        post_tokens: None,
                    },
                );
            }
        }
    }
    proof {
        assert(signal_views(signals@) =~= line_signals(entry, *line, now@));
    }
    ParseOutcome::of(signals)
}

/// Parse a decoded line. A line that does not say when it was written counts as
/// written now.
pub fn parse_line(ctx: &mut LineCtx, line: &Result<Line, String>) -> (o: ParseOutcome)
    ensures
        exists|now: (i64, u32)| o@ == #[trigger] outcome(old(ctx)@, *line, now),
        final(ctx)@ == next_ctx(old(ctx)@, *line),
{
    let now = Timestamp::now();
    parse_line_at(ctx, line, now)
}

/// A usage event carries one measurement, or none: none before a session is
/// known, for a repeated event, without token data, and where the numbers
/// contradict each other.
pub proof fn law_event_is_at_most_one_request(
    ctx: LineCtxView,
    info: Option<TokenInfo>,
    at: (i64, u32),
)
    ensures
        usages(token_count_signals(ctx, info, at)) == match (
            ctx.current_session,
            contribution(event_meaning(ctx, info)),
        ) {
            (Some(session), Some(native)) => if row_bands(
                event_meaning(ctx, info),
                native,
            ) is Ok {
                seq![row(ctx, session, event_meaning(ctx, info), native, at)->Usage_0]
            } else {
                Seq::empty()
            },
            _ => Seq::empty(),
        },
{
    let r = event_meaning(ctx, info);
    let all = token_count_signals(ctx, info, at);
    match (ctx.current_session, contribution(r)) {
        (Some(session), Some(native)) => {
            let a = rebased(r);
            let b = miscounted(r, native);
            let c = row(ctx, session, r, native, at);
            if a.len() > 0 {
                usages_of_one(a[0]);
                assert(a =~= seq![a[0]]);
            }
            if b.len() > 0 {
                usages_of_one(b[0]);
                assert(b =~= seq![b[0]]);
            }
            usages_of_one(c);
            usages_of_both(a, b);
            usages_of_both(a + b, seq![c]);
            assert(usages(a) =~= Seq::empty());
            assert(usages(b) =~= Seq::empty());
            assert(usages(all) =~= usages(seq![c]));
        },
        (None, _) => {
            usages_of_one(all[0]);
        },
        _ => {},
    }
}

/// The identical event right after itself tells nothing and changes nothing.
pub proof fn law_repeated_event_tells_nothing(
    ctx: LineCtxView,
    info: Option<TokenInfo>,
    at: (i64, u32),
)
    requires
        ctx.current_session.is_some(),
    ensures
        token_count_signals(token_count_ctx(ctx, info), info, at) == Seq::<SignalView>::empty(),
        token_count_ctx(token_count_ctx(ctx, info), info) == token_count_ctx(ctx, info),
{
    law_replay_contributes_nothing(mark(ctx), reported_total(info), reported_last(info));
    let w = advanced(mark(ctx), reported_total(info), reported_last(info));
    let after = token_count_ctx(ctx, info);
    assert(mark(after).cumulative == w.cumulative && mark(after).last == w.last);
}

proof fn digits_hold_no_colon(n: nat)
    ensures
        !dec(n).contains(':'),
    decreases n,
{
    if n >= 10 {
        digits_hold_no_colon(n / 10);
        assert forall|i: int| 0 <= i < dec(n).len() implies dec(n)[i] != ':' by {
            if i < dec(n / 10).len() {
                assert(dec(n)[i] == dec(n / 10)[i]);
                assert(dec(n / 10).contains(dec(n / 10)[i]));
            }
        }
    }
}

/// Two usages of one file have the same identity only where they are the same
/// event: the key tells both its position and its kind.
pub proof fn law_keys_are_distinct(a: u64, ra: Reconciled, b: u64, rb: Reconciled)
    requires
        row_key(a, ra) == row_key(b, rb),
    ensures
        a == b,
        kind_of(ra) == kind_of(rb),
{
    reveal_strlit(":");
    digits_hold_no_colon(a as nat);
    digits_hold_no_colon(b as nat);
    let x = dec(a as nat);
    let y = dec(b as nat);
    let k = row_key(a, ra);
    assert(k[x.len() as int] == ':');
    assert(k[y.len() as int] == ':');
    if x.len() < y.len() {
        assert(k[x.len() as int] == y[x.len() as int]);
        assert(y.contains(':'));
    }
    if y.len() < x.len() {
        assert(k[y.len() as int] == x[y.len() as int]);
        assert(x.contains(':'));
    }
    assert(x =~= k.take(x.len() as int));
    assert(y =~= k.take(y.len() as int));
    dec_injective(a as nat, b as nat);
    assert(kind_of(ra) =~= k.skip(x.len() as int + 1));
    assert(kind_of(rb) =~= k.skip(y.len() as int + 1));
}

/// A compaction call that reports nothing but a total keeps its tokens, on
/// neither side.
pub proof fn law_unclassified_tokens_survive(r: Reconciled, native: OpenAiUsage)
    requires
        only_a_total(r, native),
    ensures
        row_bands(r, native) is Ok,
        row_bands(r, native)->Ok_0.total() == or_zero(native.total_tokens),
        row_bands(r, native)->Ok_0.input_side() == 0,
        row_bands(r, native)->Ok_0.output_total == 0,
{
}

/// The state after a run of lines.
pub open spec fn ctx_after(ctx: LineCtxView, lines: Seq<(Line, (i64, u32))>) -> LineCtxView
    decreases lines.len(),
{
    if lines.len() == 0 {
        ctx
    } else {
        line_ctx(ctx_after(ctx, lines.drop_last()), lines.last().0)
    }
}

/// The usage that a run of lines tells, each with the present at which it is
/// read.
pub open spec fn usages_of_lines(ctx: LineCtxView, lines: Seq<(Line, (i64, u32))>) -> Seq<
    UsageSignalView,
>
    decreases lines.len(),
{
    if lines.len() == 0 {
        Seq::empty()
    } else {
        let before = lines.drop_last();
        usages_of_lines(ctx, before) + usages(
            line_signals(ctx_after(ctx, before), lines.last().0, lines.last().1),
        )
    }
}

/// A key tells a position after one and up to another.
pub open spec fn key_within(key: Text, after: u64, upto: u64) -> bool {
    exists|n: u64, r: Reconciled| after < n <= upto && key == #[trigger] row_key(n, r)
}

proof fn keys_apart(a: Text, b: Text, low: u64, mid: u64, high: u64)
    requires
        key_within(a, low, mid),
        key_within(b, mid, high),
    ensures
        a != b,
{
    let (n, r) = choose|n: u64, r: Reconciled| low < n <= mid && a == #[trigger] row_key(n, r);
    let (m, q) = choose|m: u64, q: Reconciled| mid < m <= high && b == #[trigger] row_key(m, q);
    if a == b {
        law_keys_are_distinct(n, r, m, q);
    }
}

proof fn line_takes_the_next_key(ctx: LineCtxView, line: Line, now: (i64, u32))
    requires
        ctx.event_ordinal < u64::MAX,
    ensures
        ({
            let told = usages(line_signals(ctx, line, now));
            let after = line_ctx(ctx, line).event_ordinal;
            &&& ctx.event_ordinal <= after <= ctx.event_ordinal + 1
            &&& told.len() <= 1
            &&& told.len() == 1 ==> key_within(told[0].dedup_key, ctx.event_ordinal, after)
        }),
{
    let all = line_signals(ctx, line, now);
    match line.payload {
        None => {},
        Some(p) => {
            let at = occurred(opt_text(line.timestamp), now);
            if opt_text(line.kind) == Some("event_msg"@) && opt_text(p.kind) == Some(
                "token_count"@,
            ) && opt_text(line.kind) != Some("session_meta"@) && opt_text(line.kind) != Some(
                "turn_context"@,
            ) {
                law_event_is_at_most_one_request(ctx, p.info, at);
                let r = event_meaning(ctx, p.info);
                assert(row_key(next_ordinal(ctx.event_ordinal), r) == row_key(
                    (ctx.event_ordinal + 1) as u64,
                    r,
                ));
            } else if all.len() > 0 {
                usages_of_one(all[0]);
                assert(all =~= seq![all[0]]);
            }
        },
    }
}

proof fn keys_stay_within(ctx: LineCtxView, lines: Seq<(Line, (i64, u32))>)
    requires
        ctx.event_ordinal + lines.len() <= u64::MAX,
    ensures
        ctx.event_ordinal <= ctx_after(ctx, lines).event_ordinal <= ctx.event_ordinal + lines.len(),
        forall|k: int|
            0 <= k < usages_of_lines(ctx, lines).len() ==> key_within(
                (#[trigger] usages_of_lines(ctx, lines)[k]).dedup_key,
                ctx.event_ordinal,
                ctx_after(ctx, lines).event_ordinal,
            ),
    decreases lines.len(),
{
    if lines.len() > 0 {
        let before = lines.drop_last();
        keys_stay_within(ctx, before);
        let mid = ctx_after(ctx, before);
        line_takes_the_next_key(mid, lines.last().0, lines.last().1);
        let told = usages_of_lines(ctx, before);
        let all = usages_of_lines(ctx, lines);
        let end = ctx_after(ctx, lines).event_ordinal;
        assert forall|k: int| 0 <= k < all.len() implies key_within(
            (#[trigger] all[k]).dedup_key,
            ctx.event_ordinal,
            end,
        ) by {
            let key = all[k].dedup_key;
            if k < told.len() {
                assert(all[k] == told[k]);
                assert(key_within(told[k].dedup_key, ctx.event_ordinal, mid.event_ordinal));
                let (n, r) = choose|n: u64, r: Reconciled|
                    ctx.event_ordinal < n <= mid.event_ordinal && key == #[trigger] row_key(n, r);
                assert(key == row_key(n, r));
            } else {
                let (n, r) = choose|n: u64, r: Reconciled|
                    mid.event_ordinal < n <= end && key == #[trigger] row_key(n, r);
                assert(key == row_key(n, r));
            }
        }
    }
}

/// Every usage of a file has an identity of its own, as long as its events can
/// be counted.
pub proof fn law_every_usage_has_its_own_key(
    ctx: LineCtxView,
    lines: Seq<(Line, (i64, u32))>,
    i: int,
    j: int,
)
    requires
        ctx.event_ordinal + lines.len() <= u64::MAX,
        0 <= i < j < usages_of_lines(ctx, lines).len(),
    ensures
        usages_of_lines(ctx, lines)[i].dedup_key != usages_of_lines(ctx, lines)[j].dedup_key,
    decreases lines.len(),
{
    let before = lines.drop_last();
    let told = usages_of_lines(ctx, before);
    keys_stay_within(ctx, before);
    let mid = ctx_after(ctx, before);
    line_takes_the_next_key(mid, lines.last().0, lines.last().1);
    if j < told.len() {
        law_every_usage_has_its_own_key(ctx, before, i, j);
    } else {
        assert(key_within(told[i].dedup_key, ctx.event_ordinal, mid.event_ordinal));
        keys_apart(
            told[i].dedup_key,
            usages_of_lines(ctx, lines)[j].dedup_key,
            ctx.event_ordinal,
            mid.event_ordinal,
            ctx_after(ctx, lines).event_ordinal,
        );
    }
}

/// Reading a file in two passes, the second of which goes on with the state that
/// the first one left, tells what reading it at once tells.
pub proof fn law_passes_tell_what_one_reading_tells(
    ctx: LineCtxView,
    a: Seq<(Line, (i64, u32))>,
    b: Seq<(Line, (i64, u32))>,
)
    ensures
        ctx_after(ctx, a + b) == ctx_after(ctx_after(ctx, a), b),
        usages_of_lines(ctx, a + b) == usages_of_lines(ctx, a) + usages_of_lines(
            ctx_after(ctx, a),
            b,
        ),
    decreases b.len(),
{
    if b.len() == 0 {
        assert(a + b =~= a);
        assert(usages_of_lines(ctx, a) + Seq::<UsageSignalView>::empty() =~= usages_of_lines(
            ctx,
            a,
        ));
    } else {
        let d = b.drop_last();
        law_passes_tell_what_one_reading_tells(ctx, a, d);
        assert((a + b).drop_last() =~= a + d);
        assert((a + b).last() == b.last());
        let told = usages(line_signals(ctx_after(ctx, a + d), b.last().0, b.last().1));
        assert(usages_of_lines(ctx, a + d) + told =~= usages_of_lines(ctx, a) + (usages_of_lines(
            ctx_after(ctx, a),
            d,
        ) + told));
    }
}

proof fn line_at_another_time(ctx: LineCtxView, line: Line, now: (i64, u32), later: (i64, u32))
    ensures
        same_requests(usages(line_signals(ctx, line, now)), usages(line_signals(ctx, line, later))),
{
    let all = line_signals(ctx, line, now);
    let again = line_signals(ctx, line, later);
    match line.payload {
        None => {},
        Some(p) => {
            if opt_text(line.kind) == Some("event_msg"@) && opt_text(p.kind) == Some(
                "token_count"@,
            ) && opt_text(line.kind) != Some("session_meta"@) && opt_text(line.kind) != Some(
                "turn_context"@,
            ) {
                law_event_is_at_most_one_request(
                    ctx,
                    p.info,
                    occurred(opt_text(line.timestamp), now),
                );
                law_event_is_at_most_one_request(
                    ctx,
                    p.info,
                    occurred(opt_text(line.timestamp), later),
                );
            } else if all.len() > 0 {
                usages_of_one(all[0]);
                assert(all =~= seq![all[0]]);
                usages_of_one(again[0]);
                assert(again =~= seq![again[0]]);
            }
        },
    }
}

/// The same lines, read from the same state at whatever times, tell the same
/// requests and leave the same state: a request's identity is its place in the
/// file.
pub proof fn law_rereading_tells_the_same_requests(
    ctx: LineCtxView,
    a: Seq<(Line, (i64, u32))>,
    b: Seq<(Line, (i64, u32))>,
)
    requires
        same_lines(a, b),
    ensures
        ctx_after(ctx, a) == ctx_after(ctx, b),
        same_requests(usages_of_lines(ctx, a), usages_of_lines(ctx, b)),
    decreases a.len(),
{
    if a.len() > 0 {
        let x = a.drop_last();
        let y = b.drop_last();
        assert(a[a.len() - 1].0 == b[b.len() - 1].0);
        assert forall|i: int| 0 <= i < x.len() implies (#[trigger] x[i]).0 == y[i].0 by {
            assert(x[i] == a[i]);
        }
        law_rereading_tells_the_same_requests(ctx, x, y);
        let mid = ctx_after(ctx, x);
        line_at_another_time(mid, a.last().0, a.last().1, b.last().1);
        same_requests_join(
            usages_of_lines(ctx, x),
            usages(line_signals(mid, a.last().0, a.last().1)),
            usages_of_lines(ctx, y),
            usages(line_signals(mid, b.last().0, b.last().1)),
        );
    }
}

/// A usage event belongs to the session and the model that the file named last
/// before it, keeps its own time and the provider's own numbers, and says which
/// of the two ledgers it comes from.
pub proof fn law_an_event_is_a_request_of_its_session(
    ctx: LineCtxView,
    info: Option<TokenInfo>,
    at: (i64, u32),
    i: int,
)
    requires
        0 <= i < usages(token_count_signals(ctx, info, at)).len(),
    ensures
        ({
            let u = usages(token_count_signals(ctx, info, at))[i];
            let r = event_meaning(ctx, info);
            &&& ctx.current_session == Some(u.session_id)
            &&& u.model_id == ctx.current_model
            &&& u.occurred_at == at
            &&& !u.is_sidechain && u.agent_id.is_none() && u.agent_type.is_none()
            &&& r is OffLedger ==> u.request_kind == "off_ledger"@ && u.measurement_source
                == "provider_off_ledger"@
            &&& !(r is OffLedger) ==> u.request_kind == "turn"@ && u.measurement_source
                == "provider_cumulative_delta"@
            &&& contribution(r).is_some() && u.raw_json == Some(
                openai_json(contribution(r).unwrap()),
            )
            &&& ctx.event_ordinal < u64::MAX ==> u.dedup_key == dec(
                (ctx.event_ordinal + 1) as nat,
            ) + ":"@ + u.request_kind
        }),
{
    law_event_is_at_most_one_request(ctx, info, at);
}

/// An ordinary turn is what was added to the provider's counters since the event
/// before it: fresh input is the input that was added less the cached part of
/// it, and cached input, output and reasoning are what was added to each.
pub proof fn law_a_turn_is_what_was_added(
    ctx: LineCtxView,
    before: OpenAiUsage,
    now: OpenAiUsage,
    last: Option<OpenAiUsage>,
    at: (i64, u32),
)
    requires
        ctx.current_session.is_some(),
        ctx.previous_cumulative == Some(before),
        before.total_tokens.is_some() && now.total_tokens.is_some(),
        before.total_tokens.unwrap() < now.total_tokens.unwrap(),
        before.input_tokens.is_some() && now.input_tokens.is_some(),
        before.cached_input_tokens.is_some() && now.cached_input_tokens.is_some(),
        before.output_tokens.is_some() && now.output_tokens.is_some(),
        before.reasoning_output_tokens.is_some() && now.reasoning_output_tokens.is_some(),
        before.cached_input_tokens.unwrap() <= now.cached_input_tokens.unwrap(),
        before.output_tokens.unwrap() <= now.output_tokens.unwrap(),
        before.reasoning_output_tokens.unwrap() <= now.reasoning_output_tokens.unwrap(),
        now.cached_input_tokens.unwrap() - before.cached_input_tokens.unwrap()
            <= now.input_tokens.unwrap() - before.input_tokens.unwrap(),
        now.reasoning_output_tokens.unwrap() - before.reasoning_output_tokens.unwrap()
            <= now.output_tokens.unwrap() - before.output_tokens.unwrap(),
    ensures
        ({
            let info = TokenInfo { total_token_usage: Some(now), last_token_usage: last };
            let told = usages(token_count_signals(ctx, Some(info), at));
            &&& told.len() == 1
            &&& told[0].usage.cache_read == now.cached_input_tokens.unwrap()
                - before.cached_input_tokens.unwrap()
            &&& told[0].usage.input_fresh + told[0].usage.cache_read == now.input_tokens.unwrap()
                - before.input_tokens.unwrap()
            &&& told[0].usage.output_total == now.output_tokens.unwrap()
                - before.output_tokens.unwrap()
            &&& told[0].usage.reasoning.is_some() && told[0].usage.reasoning.unwrap()
                == now.reasoning_output_tokens.unwrap() - before.reasoning_output_tokens.unwrap()
            &&& token_count_ctx(ctx, Some(info)).previous_cumulative == Some(now)
            &&& token_count_ctx(ctx, Some(info)).previous_last == last
        }),
{
    let info = TokenInfo { total_token_usage: Some(now), last_token_usage: last };
    law_event_is_at_most_one_request(ctx, Some(info), at);
    law_the_running_total_decides(mark(ctx), before, now, last);
    law_delta_undoes_the_earlier_reading(now, before);
}

/// The first event of a file is all that it reports.
pub proof fn law_the_first_event_counts_in_full(
    ctx: LineCtxView,
    now: OpenAiUsage,
    last: Option<OpenAiUsage>,
    at: (i64, u32),
)
    requires
        ctx.current_session.is_some(),
        ctx.previous_cumulative.is_none(),
        or_zero(now.cached_input_tokens) <= or_zero(now.input_tokens),
        or_zero(now.reasoning_output_tokens) <= or_zero(now.output_tokens),
    ensures
        ({
            let info = TokenInfo { total_token_usage: Some(now), last_token_usage: last };
            let told = usages(token_count_signals(ctx, Some(info), at));
            &&& told.len() == 1
            &&& told[0].usage.cache_read == or_zero(now.cached_input_tokens)
            &&& told[0].usage.input_fresh + told[0].usage.cache_read == or_zero(now.input_tokens)
            &&& told[0].usage.output_total == or_zero(now.output_tokens)
            &&& told[0].usage.reasoning == now.reasoning_output_tokens
            &&& token_count_ctx(ctx, Some(info)).previous_cumulative == Some(now)
        }),
{
    let info = TokenInfo { total_token_usage: Some(now), last_token_usage: last };
    law_event_is_at_most_one_request(ctx, Some(info), at);
}

/// A call that the running total leaves out is kept with its own numbers: where
/// the total stands still and the last call is another than before, that call is
/// the request, and a bare total of it counts on neither side.
pub proof fn law_calls_off_the_ledger_are_kept(
    ctx: LineCtxView,
    before: OpenAiUsage,
    now: OpenAiUsage,
    last: OpenAiUsage,
    at: (i64, u32),
)
    requires
        ctx.current_session.is_some(),
        ctx.previous_cumulative == Some(before),
        before.total_tokens.is_some(),
        now.total_tokens == before.total_tokens,
        ctx.previous_last != Some(last),
        or_zero(last.cached_input_tokens) <= or_zero(last.input_tokens),
        or_zero(last.reasoning_output_tokens) <= or_zero(last.output_tokens),
    ensures
        ({
            let info = TokenInfo { total_token_usage: Some(now), last_token_usage: Some(last) };
            let told = usages(token_count_signals(ctx, Some(info), at));
            &&& told.len() == 1
            &&& told[0].request_kind == "off_ledger"@
            &&& or_zero(last.input_tokens) > 0 || or_zero(last.output_tokens) > 0
                ==> told[0].usage.input_fresh + told[0].usage.cache_read == or_zero(
                last.input_tokens,
            ) && told[0].usage.cache_read == or_zero(last.cached_input_tokens)
                && told[0].usage.output_total == or_zero(last.output_tokens)
                && told[0].usage.unclassified == 0
            &&& or_zero(last.input_tokens) == 0 && or_zero(last.output_tokens) == 0
                ==> told[0].usage.unclassified == or_zero(last.total_tokens)
                && told[0].usage.input_fresh == 0 && told[0].usage.cache_read == 0
                && told[0].usage.output_total == 0
            &&& token_count_ctx(ctx, Some(info)).previous_cumulative == Some(before)
            &&& token_count_ctx(ctx, Some(info)).previous_last == Some(last)
        }),
{
    let info = TokenInfo { total_token_usage: Some(now), last_token_usage: Some(last) };
    law_event_is_at_most_one_request(ctx, Some(info), at);
    law_the_running_total_decides(mark(ctx), before, now, Some(last));
}

/// A running total that went back is reported, with both totals, and the last
/// call is the request.
pub proof fn law_a_rebased_counter_is_reported(
    ctx: LineCtxView,
    before: OpenAiUsage,
    now: OpenAiUsage,
    last: OpenAiUsage,
    at: (i64, u32),
)
    requires
        ctx.current_session.is_some(),
        ctx.previous_cumulative == Some(before),
        before.total_tokens.is_some() && now.total_tokens.is_some(),
        now.total_tokens.unwrap() < before.total_tokens.unwrap(),
        or_zero(last.cached_input_tokens) <= or_zero(last.input_tokens),
        or_zero(last.reasoning_output_tokens) <= or_zero(last.output_tokens),
    ensures
        ({
            let info = TokenInfo { total_token_usage: Some(now), last_token_usage: Some(last) };
            let all = token_count_signals(ctx, Some(info), at);
            let told = usages(all);
            &&& all.len() > 0 && all[0] is Anomaly && all[0]->Anomaly_kind == "cumulative_rebased"@
            &&& told.len() == 1
            &&& told[0].usage.input_fresh + told[0].usage.cache_read == or_zero(last.input_tokens)
            &&& told[0].usage.output_total == or_zero(last.output_tokens)
            &&& token_count_ctx(ctx, Some(info)).previous_cumulative == Some(now)
        }),
{
    let info = TokenInfo { total_token_usage: Some(now), last_token_usage: Some(last) };
    law_event_is_at_most_one_request(ctx, Some(info), at);
    law_the_running_total_decides(mark(ctx), before, now, Some(last));
}

/// Usage that no session has announced itself for is reported, and neither
/// counted nor remembered.
pub proof fn law_usage_before_a_session_is_reported(
    ctx: LineCtxView,
    info: Option<TokenInfo>,
    at: (i64, u32),
)
    requires
        ctx.current_session.is_none(),
    ensures
        usages(token_count_signals(ctx, info, at)).len() == 0,
        token_count_signals(ctx, info, at).len() == 1,
        token_count_signals(ctx, info, at)[0] is Anomaly,
        token_count_ctx(ctx, info) == ctx,
{
    law_event_is_at_most_one_request(ctx, info, at);
}

/// What a line says of the session and the model holds from then on, and a line
/// of another kind changes neither; only usage moves the counter.
pub proof fn law_lines_name_session_and_model(ctx: LineCtxView, line: Line, p: Payload)
    requires
        line.payload == Some(p),
    ensures
        opt_text(line.kind) == Some("session_meta"@) && p.id.is_some() ==> line_ctx(
            ctx,
            line,
        ).current_session == Some(p.id.unwrap()@),
        opt_text(line.kind) == Some("turn_context"@) && p.model.is_some() ==> line_ctx(
            ctx,
            line,
        ).current_model == Some(p.model.unwrap()@),
        opt_text(line.kind) != Some("session_meta"@) || p.id.is_none() ==> line_ctx(
            ctx,
            line,
        ).current_session == ctx.current_session,
        opt_text(line.kind) != Some("turn_context"@) || p.model.is_none() ==> line_ctx(
            ctx,
            line,
        ).current_model == ctx.current_model,
        opt_text(line.kind) != Some("event_msg"@) || opt_text(p.kind) != Some("token_count"@)
            ==> line_ctx(ctx, line).previous_cumulative == ctx.previous_cumulative && line_ctx(
            ctx,
            line,
        ).previous_last == ctx.previous_last && line_ctx(ctx, line).event_ordinal
            == ctx.event_ordinal,
        opt_text(line.kind) == Some("event_msg"@) && opt_text(p.kind) == Some("token_count"@)
            ==> line_ctx(ctx, line) == token_count_ctx(ctx, p.info),
{
    reveal_strlit("session_meta");
    reveal_strlit("turn_context");
    reveal_strlit("event_msg");
    assert("session_meta"@[0] != "turn_context"@[0]);
    assert("event_msg"@.len() != "session_meta"@.len());
    assert("event_msg"@.len() != "turn_context"@.len());
}

/// A session, a change of model and a compaction are told where a line says so;
/// a model that was already known is not told again.
pub proof fn law_lines_tell_what_they_say(
    ctx: LineCtxView,
    line: Line,
    p: Payload,
    now: (i64, u32),
)
    requires
        line.payload == Some(p),
    ensures
        opt_text(line.kind) == Some("session_meta"@) && p.id.is_some() ==> line_signals(
            ctx,
            line,
            now,
        ) == seq![
            SignalView::SessionOpened {
                session_id: p.id.unwrap()@,
                cwd: opt_text(p.cwd),
                app_version: opt_text(p.cli_version),
            },
        ],
        opt_text(line.kind) == Some("turn_context"@) && p.model.is_some()
            && ctx.current_session.is_some() && ctx.current_model != Some(p.model.unwrap()@)
            ==> line_signals(ctx, line, now) == seq![
            SignalView::ModelDeclared {
                session_id: ctx.current_session.unwrap(),
                model_id: p.model.unwrap()@,
            },
        ],
        opt_text(line.kind) == Some("turn_context"@) && p.model.is_some() && ctx.current_model
            == Some(p.model.unwrap()@) ==> line_signals(ctx, line, now).len() == 0,
        opt_text(line.kind) == Some("event_msg"@) && opt_text(p.kind) == Some(
            "context_compacted"@,
        ) && ctx.current_session.is_some() ==> line_signals(ctx, line, now) == seq![
            SignalView::ContextCompacted {
                session_id: ctx.current_session.unwrap(),
                pre_tokens: None,
                post_tokens: None,
            },
        ],
        opt_text(line.kind) == Some("event_msg"@) && opt_text(p.kind) == Some("token_count"@)
            ==> line_signals(ctx, line, now) == token_count_signals(
            ctx,
            p.info,
            occurred(opt_text(line.timestamp), now),
        ),
{
    reveal_strlit("session_meta");
    reveal_strlit("turn_context");
    reveal_strlit("event_msg");
    reveal_strlit("token_count");
    reveal_strlit("context_compacted");
    assert("session_meta"@[0] != "turn_context"@[0]);
    assert("event_msg"@.len() != "session_meta"@.len());
    assert("event_msg"@.len() != "turn_context"@.len());
    assert("token_count"@.len() != "context_compacted"@.len());
}

/// Numbers that cannot be right are reported and not counted, and the event takes
/// no identity; the counter goes on from there all the same.
pub proof fn law_impossible_numbers_are_reported(
    ctx: LineCtxView,
    now: OpenAiUsage,
    last: Option<OpenAiUsage>,
    at: (i64, u32),
)
    requires
        ctx.current_session.is_some(),
        ctx.previous_cumulative.is_none(),
        or_zero(now.cached_input_tokens) > or_zero(now.input_tokens) || or_zero(
            now.reasoning_output_tokens,
        ) > or_zero(now.output_tokens),
    ensures
        ({
            let info = TokenInfo { total_token_usage: Some(now), last_token_usage: last };
            let all = token_count_signals(ctx, Some(info), at);
            &&& usages(all).len() == 0
            &&& all.len() > 0 && all.last() is Anomaly && all.last()->Anomaly_kind
                == "normalize_failed"@
            &&& token_count_ctx(ctx, Some(info)).event_ordinal == ctx.event_ordinal
            &&& token_count_ctx(ctx, Some(info)).previous_cumulative == Some(now)
        }),
{
    let info = TokenInfo { total_token_usage: Some(now), last_token_usage: last };
    law_event_is_at_most_one_request(ctx, Some(info), at);
}

/// A total that is not input plus output is reported beside the request.
pub proof fn law_a_wrong_total_is_reported(
    ctx: LineCtxView,
    now: OpenAiUsage,
    last: Option<OpenAiUsage>,
    at: (i64, u32),
)
    requires
        ctx.current_session.is_some(),
        ctx.previous_cumulative.is_none(),
        now.total_tokens.is_some(),
        or_zero(now.input_tokens) + or_zero(now.output_tokens) <= u64::MAX,
        or_zero(now.input_tokens) + or_zero(now.output_tokens) != now.total_tokens.unwrap(),
    ensures
        ({
            let info = TokenInfo { total_token_usage: Some(now), last_token_usage: last };
            let all = token_count_signals(ctx, Some(info), at);
            &&& all.len() == 2
            &&& all[0] is Anomaly && all[0]->Anomaly_kind == "provider_self_inconsistent"@
        }),
{
    law_a_wrong_total_is_told(now, now.total_tokens.unwrap());
}

/// Usage events are counted as they become requests: one more for each request,
/// and none for an event that is none.
pub proof fn law_the_ordinal_counts_requests(
    ctx: LineCtxView,
    info: Option<TokenInfo>,
    at: (i64, u32),
)
    requires
        ctx.event_ordinal < u64::MAX,
    ensures
        token_count_ctx(ctx, info).event_ordinal == ctx.event_ordinal + usages(
            token_count_signals(ctx, info, at),
        ).len(),
        token_count_ctx(ctx, info).current_session == ctx.current_session,
        token_count_ctx(ctx, info).current_model == ctx.current_model,
{
    law_event_is_at_most_one_request(ctx, info, at);
}

} // verus!
