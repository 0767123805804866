//! What each agent's own record says it spent.
//!
//! One module per monitored application, so a change to one format touches one
//! parser. Parsing is a pure function of the line and of the state carried from
//! line to line.
use vstd::prelude::*;

use crate::bytes::occurs;
use crate::native::OpenAiUsage;
use crate::text::{opt_text, Text};
use crate::time::Timestamp;
use crate::token_usage::TokenUsage;
use crate::tokens::TokenBands;

verus! {

/// What a parsed line tells.
///
/// More than just usage: a request that failed is as important to record as one
/// that succeeded.
#[derive(Debug, Clone, PartialEq)]
pub enum Signal {
    /// A session was observed, with whatever metadata came with it.
    SessionOpened { session_id: String, cwd: Option<String>, app_version: Option<String> },
    /// The model in use changed, or was declared for the first time.
    ModelDeclared { session_id: String, model_id: String },
    /// The only carrier of token counts.
    Usage(Box<UsageSignal>),
    /// A request that terminally produced no usable response. It carries no
    /// tokens, not even zero.
    RequestFailed {
        session_id: String,
        dedup_key: String,
        occurred_at: Timestamp,
        detail: String,
    },
    /// One attempt in a retry chain.
    RetryAttempt {
        session_id: String,
        attempt: u32,
        max_attempts: Option<u32>,
        occurred_at: Timestamp,
    },
    /// The conversation was compacted. Context-window sizes, not billing.
    ContextCompacted { session_id: String, pre_tokens: Option<u64>, post_tokens: Option<u64> },
    /// Something did not add up. Recorded and surfaced, never silently fixed.
    Anomaly { kind: String, detail: String },
}

/// A token measurement, already normalized and already identified.
#[derive(Debug, Clone, PartialEq)]
pub struct UsageSignal {
    pub session_id: String,
    /// The identity that makes reading again idempotent.
    pub dedup_key: String,
    pub model_id: Option<String>,
    pub occurred_at: Timestamp,
    pub usage: TokenUsage,
    pub measurement_source: &'static str,
    pub request_kind: &'static str,
    /// Sub-agent work, which carries the parent session's id.
    pub is_sidechain: bool,
    pub agent_id: Option<String>,
    pub agent_type: Option<String>,
    /// The provider's own counts, as the audit trail.
    pub raw_json: Option<String>,
}

/// The result of looking at one line.
#[derive(Debug, Clone, PartialEq)]
pub enum ParseOutcome {
    /// Not a line this adapter cares about.
    Ignored,
    Signals(Vec<Signal>),
    /// Structurally broken. Recorded, never silently dropped.
    Malformed { reason: String },
}

/// Per-file state carried across lines.
#[derive(Debug, Clone, PartialEq)]
pub struct LineCtx {
    pub current_model: Option<String>,
    pub current_session: Option<String>,
    /// How many usage-bearing events the file has shown so far.
    pub event_ordinal: u64,
    /// Codex's previously seen cumulative counters.
    pub previous_cumulative: Option<OpenAiUsage>,
    pub previous_last: Option<OpenAiUsage>,
}

/// A [`Signal`] with its texts as characters.
pub enum SignalView {
    SessionOpened { session_id: Text, cwd: Option<Text>, app_version: Option<Text> },
    ModelDeclared { session_id: Text, model_id: Text },
    Usage(UsageSignalView),
    RequestFailed { session_id: Text, dedup_key: Text, occurred_at: (i64, u32), detail: Text },
    RetryAttempt {
        session_id: Text,
        attempt: u32,
        max_attempts: Option<u32>,
        occurred_at: (i64, u32),
    },
    ContextCompacted { session_id: Text, pre_tokens: Option<u64>, post_tokens: Option<u64> },
    Anomaly { kind: Text, detail: Text },
}

/// A [`UsageSignal`] with its texts as characters.
pub struct UsageSignalView {
    pub session_id: Text,
    pub dedup_key: Text,
    pub model_id: Option<Text>,
    pub occurred_at: (i64, u32),
    pub usage: TokenBands,
    pub measurement_source: Text,
    pub request_kind: Text,
    pub is_sidechain: bool,
    pub agent_id: Option<Text>,
    pub agent_type: Option<Text>,
    pub raw_json: Option<Text>,
}

/// A [`ParseOutcome`] with its texts as characters.
pub enum ParseOutcomeView {
    Ignored,
    Signals(Seq<SignalView>),
    Malformed { reason: Text },
}

/// A [`LineCtx`] with its texts as characters.
pub struct LineCtxView {
    pub current_model: Option<Text>,
    pub current_session: Option<Text>,
    pub event_ordinal: u64,
    pub previous_cumulative: Option<OpenAiUsage>,
    pub previous_last: Option<OpenAiUsage>,
}

impl View for UsageSignal {
    type V = UsageSignalView;

    open spec fn view(&self) -> UsageSignalView {
        UsageSignalView {
            session_id: self.session_id@,
            dedup_key: self.dedup_key@,
            model_id: opt_text(self.model_id),
            occurred_at: self.occurred_at@,
            usage: self.usage@,
            measurement_source: self.measurement_source@,
            request_kind: self.request_kind@,
            is_sidechain: self.is_sidechain,
            agent_id: opt_text(self.agent_id),
            agent_type: opt_text(self.agent_type),
            raw_json: opt_text(self.raw_json),
        }
    }
}

impl View for Signal {
    type V = SignalView;

    open spec fn view(&self) -> SignalView {
        match *self {
            Signal::SessionOpened { session_id, cwd, app_version } => SignalView::SessionOpened {
                session_id: session_id@,
                cwd: opt_text(cwd),
                app_version: opt_text(app_version),
            },
            Signal::ModelDeclared { session_id, model_id } => SignalView::ModelDeclared {
                session_id: session_id@,
                model_id: model_id@,
            },
            Signal::Usage(u) => SignalView::Usage((*u)@),
            Signal::RequestFailed { session_id, dedup_key, occurred_at, detail } => {
                SignalView::RequestFailed {
                    session_id: session_id@,
                    dedup_key: dedup_key@,
                    occurred_at: occurred_at@,
                    detail: detail@,
                }
            },
            Signal::RetryAttempt { session_id, attempt, max_attempts, occurred_at } => {
                SignalView::RetryAttempt {
                    session_id: session_id@,
                    attempt,
                    max_attempts,
                    occurred_at: occurred_at@,
                }
            },
            Signal::ContextCompacted { session_id, pre_tokens, post_tokens } => {
                SignalView::ContextCompacted { session_id: session_id@, pre_tokens, post_tokens }
            },
            Signal::Anomaly { kind, detail } => SignalView::Anomaly {
                kind: kind@,
                detail: detail@,
            },
        }
    }
}

/// The signals of a list, as the contracts see them.
pub open spec fn signal_views(s: Seq<Signal>) -> Seq<SignalView> {
    s.map_values(|x: Signal| x@)
}

impl View for ParseOutcome {
    type V = ParseOutcomeView;

    open spec fn view(&self) -> ParseOutcomeView {
        match *self {
            ParseOutcome::Ignored => ParseOutcomeView::Ignored,
            ParseOutcome::Signals(s) => ParseOutcomeView::Signals(signal_views(s@)),
            ParseOutcome::Malformed { reason } => ParseOutcomeView::Malformed { reason: reason@ },
        }
    }
}

impl View for LineCtx {
    type V = LineCtxView;

    open spec fn view(&self) -> LineCtxView {
        LineCtxView {
            current_model: opt_text(self.current_model),
            current_session: opt_text(self.current_session),
            event_ordinal: self.event_ordinal,
            previous_cumulative: self.previous_cumulative,
            previous_last: self.previous_last,
        }
    }
}

/// The state at the start of a file.
pub open spec fn fresh_ctx() -> LineCtxView {
    LineCtxView {
        current_model: None,
        current_session: None,
        event_ordinal: 0,
        previous_cumulative: None,
        previous_last: None,
    }
}

impl Default for LineCtx {
    fn default() -> (c: Self)
        ensures
            c@ == fresh_ctx(),
    {
        LineCtx {
            current_model: None,
            current_session: None,
            event_ordinal: 0,
            previous_cumulative: None,
            previous_last: None,
        }
    }
}

impl Default for ParseOutcome {
    fn default() -> (o: Self)
        ensures
            o == ParseOutcome::Ignored,
    {
        ParseOutcome::Ignored
    }
}

/// Signals as an outcome: none at all means that the line says nothing.
pub open spec fn outcome_of(signals: Seq<SignalView>) -> ParseOutcomeView {
    if signals.len() == 0 {
        ParseOutcomeView::Ignored
    } else {
        ParseOutcomeView::Signals(signals)
    }
}

/// How a line that could not be decoded is reported.
pub open spec fn undecodable(error: Text) -> ParseOutcomeView {
    ParseOutcomeView::Malformed { reason: "not valid JSON: "@ + error }
}

/// The usage a signal carries.
pub open spec fn carried(s: SignalView) -> Option<UsageSignalView> {
    match s {
        SignalView::Usage(u) => Some(u),
        _ => None,
    }
}

/// The usage that a run of signals carries, in order.
pub open spec fn usages(signals: Seq<SignalView>) -> Seq<UsageSignalView>
    decreases signals.len(),
{
    if signals.len() == 0 {
        Seq::empty()
    } else {
        let before = usages(signals.drop_last());
        match carried(signals.last()) {
            Some(u) => before.push(u),
            None => before,
        }
    }
}

/// Two runs of usage are of the same requests with the same counts, in the same
/// order; the times may differ.
pub open spec fn same_requests(us: Seq<UsageSignalView>, vs: Seq<UsageSignalView>) -> bool {
    us.len() == vs.len() && forall|i: int|
        0 <= i < us.len() ==> same_request(#[trigger] us[i], vs[i])
}

/// Two usages have the same identity and the same counts.
pub open spec fn same_request(u: UsageSignalView, v: UsageSignalView) -> bool {
    u.session_id == v.session_id && u.dedup_key == v.dedup_key && u.usage == v.usage
}

/// Runs that are the same one by one are the same one after another.
pub proof fn same_requests_join(
    a: Seq<UsageSignalView>,
    b: Seq<UsageSignalView>,
    c: Seq<UsageSignalView>,
    d: Seq<UsageSignalView>,
)
    requires
        same_requests(a, c),
        same_requests(b, d),
    ensures
        same_requests(a + b, c + d),
{
    assert forall|i: int| 0 <= i < (a + b).len() implies same_request(
        #[trigger] (a + b)[i],
        (c + d)[i],
    ) by {
        if i < a.len() {
            assert(same_request(a[i], c[i]));
        } else {
            assert(same_request(b[i - a.len()], d[i - a.len()]));
        }
    }
}

/// Two readings are of the same lines, at whatever times.
pub open spec fn same_lines<L>(a: Seq<(L, (i64, u32))>, b: Seq<(L, (i64, u32))>) -> bool {
    a.len() == b.len() && forall|i: int| 0 <= i < a.len() ==> (#[trigger] a[i]).0 == b[i].0
}

impl ParseOutcome {
    pub fn one(signal: Signal) -> (o: Self)
        ensures
            o@ == ParseOutcomeView::Signals(seq![signal@]),
    {
        let mut v: Vec<Signal> = Vec::new();
        v.push(signal);
        proof {
            assert(signal_views(v@) =~= seq![signal@]);
        }
        ParseOutcome::Signals(v)
    }

    /// Signals as an outcome.
    pub(crate) fn of(signals: Vec<Signal>) -> (o: Self)
        ensures
            o@ == outcome_of(signal_views(signals@)),
    {
        if signals.len() == 0 {
            ParseOutcome::Ignored
        } else {
            ParseOutcome::Signals(signals)
        }
    }
}

/// Add a signal to a list.
pub(crate) fn emit(signals: &mut Vec<Signal>, s: Signal)
    ensures
        signal_views(final(signals)@) == signal_views(old(signals)@).push(s@),
{
    let ghost before = signals@;
    signals.push(s);
    proof {
        assert(signal_views(signals@) =~= signal_views(before).push(s@));
    }
}

/// The application that wrote a file, and which of its lines are worth parsing.
pub trait UsageAdapter {
    /// The texts of which a line worth parsing holds at least one.
    spec fn markers(&self) -> Seq<Text>;

    /// The adapter's id.
    spec fn id_text(&self) -> Text;

    fn id(&self) -> (s: &'static str)
        ensures
            s@ == self.id_text(),
    ;

    /// Cheap test on the first bytes of a line, before any decoding. It admits
    /// every line that holds one of the markers.
    fn is_candidate_line(&self, head: &[u8]) -> (b: bool)
        ensures
            b == holds_marker(head@, self.markers()),
    ;
}

/// One of the texts stands somewhere in the bytes.
pub open spec fn holds_marker(head: Seq<u8>, markers: Seq<Text>) -> bool {
    exists|i: int|
        0 <= i < markers.len() && #[trigger] occurs(head, vstd::utf8::encode_utf8(markers[i]))
}

/// What holds a marker still holds it within a longer line: cutting a line off
/// behind the marker never hides it.
pub proof fn law_marker_survives_in_a_longer_line(
    head: Seq<u8>,
    rest: Seq<u8>,
    markers: Seq<Text>,
)
    requires
        holds_marker(head, markers),
    ensures
        holds_marker(head + rest, markers),
{
    let i = choose|i: int|
        0 <= i < markers.len() && #[trigger] occurs(head, vstd::utf8::encode_utf8(markers[i]));
    let n = vstd::utf8::encode_utf8(markers[i]);
    let at = choose|at: int| crate::bytes::occurs_at(head, n, at);
    assert((head + rest).subrange(at, at + n.len()) =~= head.subrange(at, at + n.len()));
    assert(crate::bytes::occurs_at(head + rest, n, at));
    assert(occurs(head + rest, n));
}

/// The usage that two runs of signals carry one after the other.
pub proof fn usages_of_both(a: Seq<SignalView>, b: Seq<SignalView>)
    ensures
        usages(a + b) == usages(a) + usages(b),
    decreases b.len(),
{
    if b.len() == 0 {
        assert(a + b =~= a);
        assert(usages(a) + usages(b) =~= usages(a));
    } else {
        usages_of_both(a, b.drop_last());
        assert((a + b).drop_last() =~= a + b.drop_last());
        assert(usages(a + b) =~= usages(a) + usages(b));
    }
}

/// The usage that one signal carries.
pub proof fn usages_of_one(s: SignalView)
    ensures
        usages(seq![s]) == match carried(s) {
            Some(u) => seq![u],
            None => Seq::<UsageSignalView>::empty(),
        },
{
    assert(seq![s].drop_last() =~= Seq::empty());
    assert(usages(Seq::<SignalView>::empty()) =~= Seq::empty());
    match carried(s) {
        Some(u) => {
            assert(usages(seq![s]) =~= seq![u]);
        },
        None => {},
    }
}

/// The usage of signals is that of the usage signals among them, in their order.
pub proof fn law_usage_signals_carry_usage(signals: Seq<SignalView>, s: SignalView)
    ensures
        usages(Seq::empty()) == Seq::<UsageSignalView>::empty(),
        s is Usage ==> usages(signals.push(s)) == usages(signals).push(s->Usage_0),
        !(s is Usage) ==> usages(signals.push(s)) == usages(signals),
{
    assert(signals.push(s).drop_last() =~= signals);
}

/// A line that tells something is what it tells; one that tells nothing is
/// ignored; one that cannot be decoded says why.
pub proof fn law_a_line_is_what_it_tells(signals: Seq<SignalView>, error: Text)
    ensures
        signals.len() > 0 ==> outcome_of(signals) == ParseOutcomeView::Signals(signals),
        signals.len() == 0 ==> outcome_of(signals) is Ignored,
        undecodable(error) == (ParseOutcomeView::Malformed { reason: "not valid JSON: "@ + error }),
{
}

/// Usage is seen by the contracts as it is, field by field.
pub proof fn law_usage_is_seen_as_it_is(u: UsageSignal)
    ensures
        u@.session_id == u.session_id@,
        u@.dedup_key == u.dedup_key@,
        u@.model_id == opt_text(u.model_id),
        u@.occurred_at == u.occurred_at@,
        u@.usage == u.usage@,
        u@.measurement_source == u.measurement_source@,
        u@.request_kind == u.request_kind@,
        u@.is_sidechain == u.is_sidechain,
        u@.agent_id == opt_text(u.agent_id),
        u@.agent_type == opt_text(u.agent_type),
        u@.raw_json == opt_text(u.raw_json),
{
}

/// The state of a reading is seen by the contracts as it is, field by field.
pub proof fn law_a_state_is_seen_as_it_is(ctx: LineCtx)
    ensures
        ctx@.current_model == opt_text(ctx.current_model),
        ctx@.current_session == opt_text(ctx.current_session),
        ctx@.event_ordinal == ctx.event_ordinal,
        ctx@.previous_cumulative == ctx.previous_cumulative,
        ctx@.previous_last == ctx.previous_last,
{
}

/// A signal is seen by the contracts as what it is, with what it says.
pub proof fn law_a_signal_is_seen_as_it_is(s: Signal)
    ensures
        s is SessionOpened ==> s@ == (SignalView::SessionOpened {
            session_id: s->SessionOpened_session_id@,
            cwd: opt_text(s->cwd),
            app_version: opt_text(s->app_version),
        }),
        s is ModelDeclared ==> s@ == (SignalView::ModelDeclared {
            session_id: s->ModelDeclared_session_id@,
            model_id: s->model_id@,
        }),
        s is Usage ==> s@ == SignalView::Usage((*s->Usage_0)@),
        s is RequestFailed ==> s@ == (SignalView::RequestFailed {
            session_id: s->RequestFailed_session_id@,
            dedup_key: s->dedup_key@,
            occurred_at: s->RequestFailed_occurred_at@,
            detail: s->RequestFailed_detail@,
        }),
        s is RetryAttempt ==> s@ == (SignalView::RetryAttempt {
            session_id: s->RetryAttempt_session_id@,
            attempt: s->attempt,
            max_attempts: s->max_attempts,
            occurred_at: s->RetryAttempt_occurred_at@,
        }),
        s is ContextCompacted ==> s@ == (SignalView::ContextCompacted {
            session_id: s->ContextCompacted_session_id@,
            pre_tokens: s->pre_tokens,
            post_tokens: s->post_tokens,
        }),
        s is Anomaly ==> s@ == (SignalView::Anomaly {
            kind: s->kind@,
            detail: s->Anomaly_detail@,
        }),
{
}

/// Signals are seen by the contracts one by one, in their order.
pub proof fn law_signals_are_seen_in_order(s: Seq<Signal>, i: int)
    requires
        0 <= i < s.len(),
    ensures
        signal_views(s).len() == s.len(),
        signal_views(s)[i] == s[i]@,
{
}

} // verus!
