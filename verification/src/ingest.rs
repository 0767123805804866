//! The ingest pass: which files matter, how reading resumes, and what each
//! signal becomes.
//!
//! Everything here is safe to repeat: cursors mean that a pass reads only what
//! is new, and identities mean that reading a file again converges rather than
//! doubles.
use vstd::prelude::*;
use vstd::string::StringExecFns;

use crate::adapters::{
    emit, fresh_ctx, same_lines, same_request, same_requests, same_requests_join, signal_views,
    LineCtx, LineCtxView, ParseOutcome, ParseOutcomeView, Signal, SignalView, UsageSignalView,
};
use crate::claude_code;
use crate::codex;
use crate::copilot;
use crate::measurement::{clamp_u32, clamp_u64};
use crate::metrics::MEASURED_THING;
use crate::names::{first_word, first_word_of};
use crate::native::OpenAiUsage;
use crate::paths::{
    begins_with, extension_of, file_name, file_name_of, has_extension, join_path, joined_path,
    starts_with,
};
use crate::prices::{as_u64, count_of};
use crate::repo::{row_after, row_max, row_of, stored, to_stored, UpsertOutcome, UsageRecord, UsageRow};
use crate::tailer::{file_start, Cursor, ReadStats};
use crate::text::{copy_opt, dec, dec_u64, opt_text, Text};
use crate::time::Timestamp;

verus! {

/// What one pass over one application's files did.
#[derive(Debug, Clone, Copy, PartialEq, Eq, Structural)]
pub struct PassStats {
    pub files_scanned: u32,
    /// Files examined and found unchanged, so not read at all.
    pub files_skipped: u32,
    pub lines_read: u64,
    pub usage_recorded: u64,
    /// Observations of a request already known.
    pub duplicates: u64,
    pub failures: u64,
    pub retry_attempts: u64,
    pub anomalies: u64,
    /// Lines too long to be held that looked as if they carried usage.
    pub oversize_relevant: u64,
}

/// Nothing done.
pub open spec fn no_work() -> PassStats {
    PassStats {
        files_scanned: 0,
        files_skipped: 0,
        lines_read: 0,
        usage_recorded: 0,
        duplicates: 0,
        failures: 0,
        retry_attempts: 0,
        anomalies: 0,
        oversize_relevant: 0,
    }
}

/// Two passes together.
pub open spec fn both_passes(a: PassStats, b: PassStats) -> PassStats {
    PassStats {
        files_scanned: clamp_u32((a.files_scanned + b.files_scanned) as nat),
        files_skipped: clamp_u32((a.files_skipped + b.files_skipped) as nat),
        lines_read: clamp_u64((a.lines_read + b.lines_read) as nat),
        usage_recorded: clamp_u64((a.usage_recorded + b.usage_recorded) as nat),
        duplicates: clamp_u64((a.duplicates + b.duplicates) as nat),
        failures: clamp_u64((a.failures + b.failures) as nat),
        retry_attempts: clamp_u64((a.retry_attempts + b.retry_attempts) as nat),
        anomalies: clamp_u64((a.anomalies + b.anomalies) as nat),
        oversize_relevant: clamp_u64((a.oversize_relevant + b.oversize_relevant) as nat),
    }
}

impl Default for PassStats {
    fn default() -> (s: Self)
        ensures
            s == no_work(),
    {
        PassStats {
            files_scanned: 0,
            files_skipped: 0,
            lines_read: 0,
            usage_recorded: 0,
            duplicates: 0,
            failures: 0,
            retry_attempts: 0,
            anomalies: 0,
            oversize_relevant: 0,
        }
    }
}

impl PassStats {
    /// Accumulate another pass's numbers.
    pub fn merge(&mut self, other: Self)
        ensures
            *final(self) == both_passes(*old(self), other),
    {
        self.files_scanned = self.files_scanned.saturating_add(other.files_scanned);
        self.files_skipped = self.files_skipped.saturating_add(other.files_skipped);
        self.lines_read = self.lines_read.saturating_add(other.lines_read);
        self.usage_recorded = self.usage_recorded.saturating_add(other.usage_recorded);
        self.duplicates = self.duplicates.saturating_add(other.duplicates);
        self.failures = self.failures.saturating_add(other.failures);
        self.retry_attempts = self.retry_attempts.saturating_add(other.retry_attempts);
        self.anomalies = self.anomalies.saturating_add(other.anomalies);
        self.oversize_relevant = self.oversize_relevant.saturating_add(other.oversize_relevant);
    }

    /// Count files that were found unchanged and so not read.
    pub fn skip(&mut self, files: u32)
        ensures
            *final(self) == (PassStats {
                files_skipped: clamp_u32((old(self).files_skipped + files) as nat),
                ..*old(self)
            }),
    {
        self.files_skipped = self.files_skipped.saturating_add(files);
    }

    /// The numbers of one file that has been read: every line that was dropped
    /// although it looked relevant is an anomaly.
    pub fn of_file(read: &ReadStats) -> (s: Self)
        ensures
            s == (PassStats {
                files_scanned: 1,
                lines_read: read.scanned,
                anomalies: read.oversize_relevant,
                oversize_relevant: read.oversize_relevant,
                ..no_work()
            }),
            s == file_stats(*read),
    {
        PassStats {
            files_scanned: 1,
            files_skipped: 0,
            lines_read: read.scanned,
            usage_recorded: 0,
            duplicates: 0,
            failures: 0,
            retry_attempts: 0,
            anomalies: read.oversize_relevant,
            oversize_relevant: read.oversize_relevant,
        }
    }
}

/// Passes add up in whatever order and grouping.
pub proof fn law_passes_add_up(a: PassStats, b: PassStats, c: PassStats)
    ensures
        both_passes(a, b) == both_passes(b, a),
        both_passes(both_passes(a, b), c) == both_passes(a, both_passes(b, c)),
        both_passes(no_work(), a) == a,
{
}

/// A snapshot of what ingest has done so far.
#[derive(Debug, Clone, Copy, PartialEq, Eq)]
pub struct IngestState {
    pub passes: u64,
    pub last: PassStats,
    pub cumulative: PassStats,
    /// True until the first pass over existing history has finished.
    pub backfilling: bool,
    /// When the last pass finished.
    pub last_pass_at: Option<Timestamp>,
}

/// How long to wait, in milliseconds, while something is being written.
pub const ACTIVE_INTERVAL_MS: u64 = 250;

/// How long to wait, in milliseconds, while nothing is.
pub const IDLE_INTERVAL_MS: u64 = 2_000;

impl IngestState {
    /// Before the first pass.
    pub fn starting() -> (s: Self)
        ensures
            s.passes == 0,
            s.last == no_work(),
            s.cumulative == no_work(),
            s.backfilling,
            s.last_pass_at.is_none(),
    {
        IngestState {
            passes: 0,
            last: PassStats::default(),
            cumulative: PassStats::default(),
            backfilling: true,
            last_pass_at: None,
        }
    }

    /// A pass has finished. The first one ends the reading of history.
    pub fn finish_pass(&mut self, stats: PassStats, at: Timestamp)
        ensures
            final(self).passes == clamp_u64(old(self).passes as nat + 1),
            final(self).last == stats,
            final(self).cumulative == both_passes(old(self).cumulative, stats),
            final(self).backfilling == (old(self).backfilling && old(self).passes != 0),
            final(self).last_pass_at == Some(at),
            pass_finished(*old(self), stats, at, *final(self)),
    {
        self.passes = self.passes.saturating_add(1);
        self.last = stats;
        self.cumulative.merge(stats);
        self.last_pass_at = Some(at);
        if self.passes == 1 {
            self.backfilling = false;
        }
    }
}

/// How long to wait before the next pass: shorter while something is being
/// written.
pub fn next_interval_ms(stats: &PassStats) -> (ms: u64)
    ensures
        ms == if stats.usage_recorded > 0 {
            ACTIVE_INTERVAL_MS
        } else {
            IDLE_INTERVAL_MS
        },
        ms == wait_ms(*stats),
{
    if stats.usage_recorded > 0 {
        ACTIVE_INTERVAL_MS
    } else {
        IDLE_INTERVAL_MS
    }
}

/// Where an application's data lives.
#[derive(Debug, Clone, PartialEq, Eq)]
pub struct WatchRoot {
    pub directory: String,
    /// Extension to match, without the dot.
    pub extension: &'static str,
    /// Beginning of the names to match, where not all files matter.
    pub file_prefix: Option<&'static str>,
}

/// A root cares about a path: its file has the root's extension, and its name
/// begins as the root says.
pub open spec fn cares_about(root: WatchRoot, path: Text) -> bool {
    extension_of(path) == Some(root.extension@) && match (root.file_prefix, file_name_of(path)) {
        (None, _) => true,
        (Some(prefix), Some(name)) => begins_with(name, prefix@),
        (Some(_), None) => false,
    }
}

impl WatchRoot {
    pub fn claude_code(home: &str) -> (r: Self)
        ensures
            r.directory@ == joined_path(
                joined_path(home@, "."@ + first_word("claude_code"@)),
                "projects"@,
            ),
            r.extension@ == "jsonl"@,
            r.file_prefix.is_none(),
    {
        let mut hidden = ".".to_owned();
        hidden.append(first_word_of("claude_code"));
        let base = join_path(home, hidden.as_str());
        WatchRoot {
            directory: join_path(base.as_str(), "projects"),
            extension: "jsonl",
            file_prefix: None,
        }
    }

    pub fn codex(home: &str) -> (r: Self)
        ensures
            r.directory@ == joined_path(joined_path(home@, ".codex"@), "sessions"@),
            r.extension@ == "jsonl"@,
            r.file_prefix.is_some(),
            r.file_prefix.unwrap()@ == "rollout-"@,
    {
        let base = join_path(home, ".codex");
        WatchRoot {
            directory: join_path(base.as_str(), "sessions"),
            extension: "jsonl",
            file_prefix: Some("rollout-"),
        }
    }

    pub fn copilot(home: &str) -> (r: Self)
        ensures
            r.directory@ == joined_path(joined_path(home@, ".copilot"@), "otel"@),
            r.extension@ == "jsonl"@,
            r.file_prefix.is_none(),
    {
        let base = join_path(home, ".copilot");
        WatchRoot {
            directory: join_path(base.as_str(), "otel"),
            extension: "jsonl",
            file_prefix: None,
        }
    }

    /// Whether this root cares about a path.
    pub fn matches(&self, path: &str) -> (b: bool)
        ensures
            b == cares_about(*self, path@),
    {
        if !has_extension(path, self.extension) {
            return false;
        }
        match self.file_prefix {
            None => true,
            Some(prefix) => match file_name(path) {
                Some(name) => starts_with(name, prefix),
                None => false,
            },
        }
    }
}

/// Every application's data, in the order of their adapters: `claude_code`,
/// `codex` and `copilot`.
pub fn watch_roots(home: &str) -> (v: Vec<WatchRoot>)
    ensures
        v@.len() == 3,
        v@[0].directory@ == joined_path(
                joined_path(home@, "."@ + first_word("claude_code"@)),
                "projects"@,
            ),
        v@[1].directory@ == joined_path(joined_path(home@, ".codex"@), "sessions"@),
        v@[2].directory@ == joined_path(joined_path(home@, ".copilot"@), "otel"@),
        forall|i: int| 0 <= i < 3 ==> (#[trigger] v@[i]).extension@ == "jsonl"@,
        v@[0].file_prefix.is_none(),
        v@[1].file_prefix.is_some() && v@[1].file_prefix.unwrap()@ == "rollout-"@,
        v@[2].file_prefix.is_none(),
{
    let mut v: Vec<WatchRoot> = Vec::new();
    v.push(WatchRoot::claude_code(home));
    v.push(WatchRoot::codex(home));
    v.push(WatchRoot::copilot(home));
    v
}

/// Where reading of a file has got to, as it is stored.
#[derive(Debug, Clone, PartialEq, Eq)]
pub struct FileCursor {
    pub file_id: String,
    pub byte_offset: i64,
    pub line_ordinal: i64,
    pub size_seen: i64,
    pub adapter_state: Option<String>,
}

impl FileCursor {
    /// The cursor that a stored one stands for; a negative number counts as
    /// nothing.
    pub fn to_cursor(&self) -> (c: Cursor)
        ensures
            c == (Cursor {
                byte_offset: count_of(self.byte_offset),
                line_ordinal: count_of(self.line_ordinal),
                size_seen: count_of(self.size_seen),
            }),
    {
        Cursor {
            byte_offset: as_u64(self.byte_offset),
            line_ordinal: as_u64(self.line_ordinal),
            size_seen: as_u64(self.size_seen),
        }
    }

    /// A cursor as it is stored.
    pub fn of_cursor(file_id: String, cursor: &Cursor, adapter_state: Option<String>) -> (f: Self)
        ensures
            f.file_id == file_id,
            f.byte_offset == stored(cursor.byte_offset),
            f.line_ordinal == stored(cursor.line_ordinal),
            f.size_seen == stored(cursor.size_seen),
            f.adapter_state == adapter_state,
    {
        FileCursor {
            file_id,
            byte_offset: to_stored(cursor.byte_offset),
            line_ordinal: to_stored(cursor.line_ordinal),
            size_seen: to_stored(cursor.size_seen),
            adapter_state,
        }
    }
}

/// A cursor that is stored and loaded again is the same, as long as its numbers
/// can be stored.
pub proof fn law_cursors_survive_storage(c: Cursor)
    requires
        c.byte_offset <= i64::MAX,
        c.line_ordinal <= i64::MAX,
        c.size_seen <= i64::MAX,
    ensures
        count_of(stored(c.byte_offset)) == c.byte_offset,
        count_of(stored(c.line_ordinal)) == c.line_ordinal,
        count_of(stored(c.size_seen)) == c.size_seen,
{
}

/// The parts of a [`LineCtx`] worth carrying between passes: all of it, the
/// count of events too, so that an event keeps its place in the file however
/// many passes it takes to read the file.
#[derive(Debug, Clone, Default, PartialEq)]
pub struct PersistedState {
    pub current_model: Option<String>,
    pub current_session: Option<String>,
    pub event_ordinal: u64,
    pub previous_cumulative: Option<OpenAiUsage>,
    pub previous_last: Option<OpenAiUsage>,
}

impl View for PersistedState {
    type V = LineCtxView;

    open spec fn view(&self) -> LineCtxView {
        LineCtxView {
            current_model: opt_text(self.current_model),
            current_session: opt_text(self.current_session),
            event_ordinal: self.event_ordinal,
            previous_cumulative: self.previous_cumulative,
            previous_last: self.previous_last,
        }
    }
}

impl PersistedState {
    pub fn of(ctx: &LineCtx) -> (p: Self)
        ensures
            p@ == ctx@,
    {
        PersistedState {
            current_model: copy_opt(&ctx.current_model),
            current_session: copy_opt(&ctx.current_session),
            event_ordinal: ctx.event_ordinal,
            previous_cumulative: ctx.previous_cumulative,
            previous_last: ctx.previous_last,
        }
    }
}

/// The state to go on with: what was carried over. Where nothing was, events are
/// counted on from the cursor's line, which is zero at the start of a file. A
/// file that has shrunk below the cursor is read from its start, and starts
/// afresh.
pub open spec fn resumed(
    state: Option<LineCtxView>,
    cursor: Cursor,
    size: u64,
) -> LineCtxView {
    if size < cursor.byte_offset {
        fresh_ctx()
    } else {
        match state {
            Some(ctx) => ctx,
            None => LineCtxView { event_ordinal: cursor.line_ordinal, ..fresh_ctx() },
        }
    }
}

/// What an optional state holds.
pub open spec fn opt_state(p: Option<PersistedState>) -> Option<LineCtxView> {
    match p {
        Some(p) => Some(p@),
        None => None,
    }
}

/// The state to go on with after a break, in a file of a size.
pub fn resume(state: Option<PersistedState>, cursor: &Cursor, size: u64) -> (ctx: LineCtx)
    ensures
        ctx@ == resumed(opt_state(state), *cursor, size),
{
    let mut ctx = LineCtx::default();
    if size < cursor.byte_offset {
        return ctx;
    }
    match state {
        Some(p) => LineCtx {
            current_model: p.current_model,
            current_session: p.current_session,
            event_ordinal: p.event_ordinal,
            previous_cumulative: p.previous_cumulative,
            previous_last: p.previous_last,
        },
        None => {
            ctx.event_ordinal = cursor.line_ordinal;
            ctx
        },
    }
}

/// The signals of a line; one that is broken is an anomaly, never dropped.
pub open spec fn signals_of(o: ParseOutcomeView) -> Seq<SignalView> {
    match o {
        ParseOutcomeView::Ignored => Seq::empty(),
        ParseOutcomeView::Signals(s) => s,
        ParseOutcomeView::Malformed { reason } => seq![
            SignalView::Anomaly { kind: "malformed_line"@, detail: reason },
        ],
    }
}

/// Gather the signals of a line.
pub fn gather(outcome: ParseOutcome, signals: &mut Vec<Signal>)
    ensures
        signal_views(final(signals)@) == signal_views(old(signals)@) + signals_of(outcome@),
{
    let ghost before = signal_views(signals@);
    match outcome {
        ParseOutcome::Ignored => {
            proof {
                assert(before + Seq::<SignalView>::empty() =~= before);
            }
        },
        ParseOutcome::Signals(s) => {
            let mut more = s;
            let ghost extra = signal_views(more@);
            signals.append(&mut more);
            proof {
                assert(signal_views(signals@) =~= before + extra);
            }
        },
        ParseOutcome::Malformed { reason } => {
            let ghost view = reason@;
            emit(
                signals,
                Signal::Anomaly { kind: "malformed_line".to_owned(), detail: reason },
            );
            proof {
                assert(signal_views(signals@) =~= before + seq![
                    SignalView::Anomaly { kind: "malformed_line"@, detail: view },
                ]);
            }
        },
    }
}

/// What to do about a signal.
#[derive(Debug, Clone, PartialEq)]
pub enum Action {
    /// Insert or merge a measurement.
    Record(UsageRecord),
    /// Remember a request that could not be measured: it is what stops a total
    /// from calling itself exact.
    Fail { session_id: String, dedup_key: String, occurred_at: Timestamp, detail: String },
    /// Count a retry.
    Retry,
    /// Report an anomaly, with the session that was being read.
    Report { session_id: Option<String>, kind: String, detail: String },
    Nothing,
}

/// An observation that stands for a measurement.
pub open spec fn records(u: UsageSignalView, adapter: Text, r: UsageRecord) -> bool {
    &&& r.adapter_id@ == adapter
    &&& r.session_id@ == u.session_id
    &&& r.dedup_key@ == u.dedup_key
    &&& opt_text(r.model_id) == u.model_id
    &&& r.occurred_at@ == u.occurred_at
    &&& r.measurement_source@ == u.measurement_source
    &&& r.request_kind@ == u.request_kind
    &&& r.usage@ == u.usage
    &&& r.is_sidechain == u.is_sidechain
    &&& opt_text(r.agent_id) == u.agent_id
    &&& opt_text(r.agent_type) == u.agent_type
    &&& opt_text(r.raw_json) == u.raw_json
}

/// An action reports an anomaly.
pub open spec fn reports(a: Action, session: Option<Text>, kind: Text, detail: Text) -> bool {
    &&& a matches Action::Report { session_id: s1, kind: k1, detail: d1 }
    &&& opt_text(s1) == session
    &&& k1@ == kind
    &&& d1@ == detail
}

/// What is to be done about a signal: a measurement is recorded, a failure
/// remembered, a retry counted, an anomaly reported. A session, a model and a
/// compaction carry no tokens.
pub open spec fn decides(
    s: SignalView,
    adapter: Text,
    session: Option<Text>,
    a: Action,
) -> bool {
    match s {
        SignalView::Usage(u) => a matches Action::Record(r) && records(u, adapter, r),
        SignalView::RequestFailed { session_id, dedup_key, occurred_at, detail } => {
            &&& a matches Action::Fail {
                session_id: s1,
                dedup_key: k1,
                occurred_at: t1,
                detail: d1,
            }
            &&& s1@ == session_id
            &&& k1@ == dedup_key
            &&& t1@ == occurred_at
            &&& d1@ == detail
        },
        SignalView::RetryAttempt { .. } => a == Action::Retry,
        SignalView::Anomaly { kind, detail } => reports(a, session, kind, detail),
        SignalView::SessionOpened { .. } | SignalView::ModelDeclared { .. }
        | SignalView::ContextCompacted { .. } => a == Action::Nothing,
    }
}

/// What is to be done about a signal; `session` is the one being read.
pub fn decide(signal: Signal, adapter_id: &str, session: &Option<String>) -> (a: Action)
    ensures
        decides(signal@, adapter_id@, opt_text(*session), a),
{
    match signal {
        Signal::Usage(u) => {
            let u = *u;
            Action::Record(
                UsageRecord {
                    adapter_id: adapter_id.to_owned(),
                    session_id: u.session_id,
                    dedup_key: u.dedup_key,
                    model_id: u.model_id,
                    occurred_at: u.occurred_at,
                    measurement_source: u.measurement_source.to_owned(),
                    request_kind: u.request_kind.to_owned(),
                    usage: u.usage,
                    is_sidechain: u.is_sidechain,
                    agent_id: u.agent_id,
                    agent_type: u.agent_type,
                    raw_json: u.raw_json,
                },
            )
        },
        Signal::RequestFailed { session_id, dedup_key, occurred_at, detail } => Action::Fail {
            session_id,
            dedup_key,
            occurred_at,
            detail,
        },
        Signal::RetryAttempt { .. } => Action::Retry,
        Signal::Anomaly { kind, detail } => Action::Report {
            session_id: copy_opt(session),
            kind,
            detail,
        },
        Signal::SessionOpened { .. } => Action::Nothing,
        Signal::ModelDeclared { .. } => Action::Nothing,
        Signal::ContextCompacted { .. } => Action::Nothing,
    }
}

/// The numbers of a pass after an action; `outcome` is how a recorded
/// measurement affected its row.
pub open spec fn counted(s: PassStats, a: Action, outcome: UpsertOutcome) -> PassStats {
    match a {
        Action::Record(_) => if outcome == UpsertOutcome::Inserted {
            PassStats { usage_recorded: (s.usage_recorded + 1) as u64, ..s }
        } else {
            PassStats { duplicates: (s.duplicates + 1) as u64, ..s }
        },
        Action::Fail { .. } => PassStats { failures: (s.failures + 1) as u64, ..s },
        Action::Retry => PassStats { retry_attempts: (s.retry_attempts + 1) as u64, ..s },
        Action::Report { .. } => PassStats { anomalies: (s.anomalies + 1) as u64, ..s },
        Action::Nothing => s,
    }
}

impl PassStats {
    /// None of the numbers that an action counts is at its limit.
    pub open spec fn can_count(self) -> bool {
        &&& self.usage_recorded < u64::MAX
        &&& self.duplicates < u64::MAX
        &&& self.failures < u64::MAX
        &&& self.retry_attempts < u64::MAX
        &&& self.anomalies < u64::MAX
    }

    /// Count an action; `outcome` is how a recorded measurement affected its
    /// row.
    pub fn count(&mut self, action: &Action, outcome: UpsertOutcome)
        requires
            old(self).can_count(),
        ensures
            *final(self) == counted(*old(self), *action, outcome),
    {
        match action {
            Action::Record(_) => {
                if outcome == UpsertOutcome::Inserted {
                    self.usage_recorded = self.usage_recorded + 1;
                } else {
                    self.duplicates = self.duplicates + 1;
                }
            },
            Action::Fail { .. } => {
                self.failures = self.failures + 1;
            },
            Action::Retry => {
                self.retry_attempts = self.retry_attempts + 1;
            },
            Action::Report { .. } => {
                self.anomalies = self.anomalies + 1;
            },
            Action::Nothing => {},
        }
    }
}

/// What is to be done about the signals of a file, in their order; `session`
/// is the one that was being read at its end.
pub fn actions(signals: Vec<Signal>, adapter_id: &str, session: &Option<String>) -> (v: Vec<Action>)
    ensures
        v@.len() == signals@.len(),
        forall|i: int|
            0 <= i < v@.len() ==> decides(
                signals@[i]@,
                adapter_id@,
                opt_text(*session),
                #[trigger] v@[i],
            ),
{
    let ghost all = signals@;
    let n: usize = signals.len();
    let mut left = signals;
    let mut v: Vec<Action> = Vec::new();
    let mut done: usize = 0;
    while done < n
        invariant
            n == all.len(),
            done <= n,
            left@ == all.skip(done as int),
            v@.len() == done,
            forall|i: int|
                0 <= i < v@.len() ==> decides(
                    all[i]@,
                    adapter_id@,
                    opt_text(*session),
                    #[trigger] v@[i],
                ),
        decreases n - done,
    {
        let signal = left.remove(0);
        proof {
            assert(left@ =~= all.skip(done + 1));
        }
        v.push(decide(signal, adapter_id, session));
        done += 1;
    }
    v
}

/// What is reported of lines that were dropped although they looked relevant.
pub open spec fn oversize_detail(lines: nat) -> Text {
    dec(lines)
        + " line(s) exceeded the size limit and were skipped despite looking like they carried usage; this "@
        + MEASURED_THING@ + "'s totals are incomplete"@
}

/// The report that lines were dropped although they looked relevant, where
/// there were any. [`PassStats::of_file`] has counted them.
pub fn oversize_report(read: &ReadStats, session: &Option<String>) -> (r: Option<Action>)
    ensures
        match r {
            Some(a) => {
                &&& read.oversize_relevant > 0
                &&& reports(
                    a,
                    opt_text(*session),
                    "oversize_relevant_line"@,
                    oversize_detail(read.oversize_relevant as nat),
                )
            },
            None => read.oversize_relevant == 0,
        },
{
    if read.oversize_relevant == 0 {
        return None;
    }
    let mut detail = dec_u64(read.oversize_relevant);
    detail.append(
        " line(s) exceeded the size limit and were skipped despite looking like they carried usage; this ",
    );
    detail.append(MEASURED_THING);
    detail.append("'s totals are incomplete");
    Some(
        Action::Report {
            session_id: copy_opt(session),
            kind: "oversize_relevant_line".to_owned(),
            detail,
        },
    )
}

/// A request's identity within one application's data.
pub open spec fn key_of(u: UsageSignalView) -> (Text, Text) {
    (u.session_id, u.dedup_key)
}

/// What is stored of a request.
pub open spec fn row_in(store: Map<(Text, Text), UsageRow>, key: (Text, Text)) -> Option<UsageRow> {
    if store.contains_key(key) {
        Some(store[key])
    } else {
        None
    }
}

/// What is stored after recording a run of measurements.
pub open spec fn store_after(
    store: Map<(Text, Text), UsageRow>,
    us: Seq<UsageSignalView>,
) -> Map<(Text, Text), UsageRow>
    decreases us.len(),
{
    if us.len() == 0 {
        store
    } else {
        let before = store_after(store, us.drop_last());
        let u = us.last();
        before.insert(key_of(u), row_after(row_in(before, key_of(u)), u.usage))
    }
}

proof fn store_after_both(
    store: Map<(Text, Text), UsageRow>,
    us: Seq<UsageSignalView>,
    vs: Seq<UsageSignalView>,
)
    ensures
        store_after(store, us + vs) == store_after(store_after(store, us), vs),
    decreases vs.len(),
{
    if vs.len() == 0 {
        assert(us + vs =~= us);
    } else {
        assert((us + vs).drop_last() =~= us + vs.drop_last());
        store_after_both(store, us, vs.drop_last());
    }
}

proof fn store_absorbs(store: Map<(Text, Text), UsageRow>, us: Seq<UsageSignalView>, i: int)
    requires
        0 <= i < us.len(),
    ensures
        store_after(store, us).contains_key(key_of(us[i])),
        row_max(store_after(store, us)[key_of(us[i])], row_of(us[i].usage)) == store_after(
            store,
            us,
        )[key_of(us[i])],
    decreases us.len(),
{
    if i < us.len() - 1 {
        let d = us.drop_last();
        assert(d[i] == us[i]);
        store_absorbs(store, d, i);
    }
}

/// A measurement's identity and counts are among some others.
pub open spec fn known_among(us: Seq<UsageSignalView>, v: UsageSignalView) -> bool {
    exists|i: int| 0 <= i < us.len() && key_of(#[trigger] us[i]) == key_of(v) && us[i].usage == v.usage
}

proof fn known_change_nothing(
    store: Map<(Text, Text), UsageRow>,
    us: Seq<UsageSignalView>,
    vs: Seq<UsageSignalView>,
)
    requires
        forall|j: int| 0 <= j < vs.len() ==> known_among(us, #[trigger] vs[j]),
    ensures
        store_after(store_after(store, us), vs) == store_after(store, us),
    decreases vs.len(),
{
    if vs.len() > 0 {
        let d = vs.drop_last();
        assert forall|j: int| 0 <= j < d.len() implies known_among(us, #[trigger] d[j]) by {
            assert(d[j] == vs[j]);
        }
        known_change_nothing(store, us, d);
        let last = vs[vs.len() - 1];
        assert(known_among(us, last));
        let i = choose|i: int|
            0 <= i < us.len() && key_of(#[trigger] us[i]) == key_of(last) && us[i].usage
                == last.usage;
        store_absorbs(store, us, i);
        let t = store_after(store, us);
        assert(store_after(t, vs) =~= t);
    }
}

/// Recording again what was recorded, all or part of it and in whatever order,
/// leaves what is stored as it is: reading again from where a reading began
/// never doubles anything.
pub proof fn law_recording_again_changes_nothing(
    store: Map<(Text, Text), UsageRow>,
    us: Seq<UsageSignalView>,
    vs: Seq<UsageSignalView>,
)
    requires
        forall|j: int| 0 <= j < vs.len() ==> us.contains(#[trigger] vs[j]),
    ensures
        store_after(store_after(store, us), vs) == store_after(store, us),
{
    assert forall|j: int| 0 <= j < vs.len() implies known_among(us, #[trigger] vs[j]) by {
        let i = choose|i: int| 0 <= i < us.len() && us[i] == vs[j];
        assert(key_of(us[i]) == key_of(vs[j]));
    }
    known_change_nothing(store, us, vs);
}

/// The lines of a run of passes, one after another.
pub open spec fn all_lines<L>(passes: Seq<Seq<L>>) -> Seq<L>
    decreases passes.len(),
{
    if passes.len() == 0 {
        Seq::empty()
    } else {
        all_lines(passes.drop_last()) + passes.last()
    }
}

/// The usage that a run of passes tells, where `read` is what one pass tells from
/// the state it starts with.
pub open spec fn told_in_passes<L>(
    read: spec_fn(LineCtxView, Seq<L>) -> Seq<UsageSignalView>,
    starts: Seq<LineCtxView>,
    passes: Seq<Seq<L>>,
) -> Seq<UsageSignalView>
    decreases passes.len(),
{
    if passes.len() == 0 {
        Seq::empty()
    } else {
        told_in_passes(read, starts, passes.drop_last()) + read(
            starts[passes.len() - 1],
            passes.last(),
        )
    }
}

/// A pass starts with what the pass before it left, carried over and resumed
/// while the file had grown or stayed as it was.
pub open spec fn goes_on(start: LineCtxView, left: LineCtxView) -> bool {
    exists|cursor: Cursor, size: u64|
        cursor.byte_offset <= size && start == #[trigger] resumed(Some(left), cursor, size)
}

/// The first pass starts at the start of the file with nothing carried over, and
/// each other one goes on where the one before it stopped; `leave` is the state that a pass leaves.
pub open spec fn one_after_another<L>(
    leave: spec_fn(LineCtxView, Seq<L>) -> LineCtxView,
    starts: Seq<LineCtxView>,
    passes: Seq<Seq<L>>,
) -> bool {
    &&& starts.len() == passes.len()
    &&& passes.len() > 0 ==> exists|size: u64|
        starts[0] == #[trigger] resumed(None, file_start(), size)
    &&& forall|i: int|
        0 < i < passes.len() ==> goes_on(
            #[trigger] starts[i],
            leave(starts[i - 1], passes[i - 1]),
        )
}

proof fn passes_are_one_reading<L>(
    read: spec_fn(LineCtxView, Seq<L>) -> Seq<UsageSignalView>,
    leave: spec_fn(LineCtxView, Seq<L>) -> LineCtxView,
    starts: Seq<LineCtxView>,
    passes: Seq<Seq<L>>,
)
    requires
        one_after_another(leave, starts, passes),
        forall|ctx: LineCtxView, a: Seq<L>, b: Seq<L>| #[trigger]
            read(ctx, a + b) == read(ctx, a) + read(leave(ctx, a), b),
        forall|ctx: LineCtxView, a: Seq<L>, b: Seq<L>| #[trigger]
            leave(ctx, a + b) == leave(leave(ctx, a), b),
        read(fresh_ctx(), Seq::empty()) == Seq::<UsageSignalView>::empty(),
        leave(fresh_ctx(), Seq::empty()) == fresh_ctx(),
    ensures
        told_in_passes(read, starts, passes) == read(fresh_ctx(), all_lines(passes)),
        passes.len() > 0 ==> leave(starts.last(), passes.last()) == leave(
            fresh_ctx(),
            all_lines(passes),
        ),
    decreases passes.len(),
{
    if passes.len() > 0 {
        let p = passes.drop_last();
        let s = starts.drop_last();
        assert forall|i: int| 0 < i < p.len() implies goes_on(
            #[trigger] s[i],
            leave(s[i - 1], p[i - 1]),
        ) by {
            assert(s[i] == starts[i]);
            assert(goes_on(starts[i], leave(starts[i - 1], passes[i - 1])));
        }
        passes_are_one_reading(read, leave, s, p);
        told_by_starts(read, starts, s, p);
        let before = all_lines(p);
        let last = passes.len() - 1;
        assert(starts[last] == leave(fresh_ctx(), before)) by {
            if last > 0 {
                assert(goes_on(starts[last], leave(starts[last - 1], passes[last - 1])));
                assert(s.last() == starts[last - 1]);
                assert(p.last() == passes[last - 1]);
            } else {
                assert(before =~= Seq::empty());
            }
        }
        assert(read(fresh_ctx(), before + passes.last()) == read(fresh_ctx(), before) + read(
            leave(fresh_ctx(), before),
            passes.last(),
        ));
        assert(leave(fresh_ctx(), before + passes.last()) == leave(
            leave(fresh_ctx(), before),
            passes.last(),
        ));
    }
}

proof fn told_by_starts<L>(
    read: spec_fn(LineCtxView, Seq<L>) -> Seq<UsageSignalView>,
    starts: Seq<LineCtxView>,
    fewer: Seq<LineCtxView>,
    passes: Seq<Seq<L>>,
)
    requires
        passes.len() <= fewer.len() <= starts.len(),
        forall|i: int| 0 <= i < fewer.len() ==> #[trigger] fewer[i] == starts[i],
    ensures
        told_in_passes(read, starts, passes) == told_in_passes(read, fewer, passes),
    decreases passes.len(),
{
    if passes.len() > 0 {
        told_by_starts(read, starts, fewer, passes.drop_last());
        assert(fewer[passes.len() - 1] == starts[passes.len() - 1]);
    }
}

proof fn same_requests_change_nothing(
    store: Map<(Text, Text), UsageRow>,
    us: Seq<UsageSignalView>,
    vs: Seq<UsageSignalView>,
)
    requires
        same_requests(us, vs),
    ensures
        store_after(store_after(store, us), vs) == store_after(store, us),
{
    assert forall|j: int| 0 <= j < vs.len() implies known_among(us, #[trigger] vs[j]) by {
        assert(same_request(us[j], vs[j]));
        assert(key_of(us[j]) == key_of(vs[j]));
    }
    known_change_nothing(store, us, vs);
}

/// What a pass over a `claude_code` transcript tells.
pub open spec fn claude_code_reading() -> spec_fn(
    LineCtxView,
    Seq<(claude_code::Line, (i64, u32))>,
) -> Seq<UsageSignalView> {
    |ctx: LineCtxView, lines: Seq<(claude_code::Line, (i64, u32))>|
        claude_code::usages_of_lines(ctx, lines)
}

proof fn claude_code_passes_tell_the_same(
    starts: Seq<LineCtxView>,
    passes: Seq<Seq<(claude_code::Line, (i64, u32))>>,
    ctx: LineCtxView,
    again: Seq<(claude_code::Line, (i64, u32))>,
)
    requires
        same_lines(all_lines(passes), again),
    ensures
        same_requests(
            told_in_passes(claude_code_reading(), starts, passes),
            claude_code::usages_of_lines(ctx, again),
        ),
    decreases passes.len(),
{
    if passes.len() > 0 {
        let p = passes.drop_last();
        let all = all_lines(passes);
        let n = all_lines(p).len() as int;
        let first = again.take(n);
        let rest = again.skip(n);
        assert(again =~= first + rest);
        assert forall|i: int| 0 <= i < n implies (#[trigger] all_lines(p)[i]).0 == first[i].0 by {
            assert(all[i] == all_lines(p)[i]);
        }
        assert forall|i: int| 0 <= i < passes.last().len() implies (#[trigger] passes.last()[i]).0
            == rest[i].0 by {
            assert(all[n + i] == passes.last()[i]);
        }
        claude_code_passes_tell_the_same(starts, p, ctx, first);
        claude_code::law_passes_tell_what_one_reading_tells(ctx, first, rest);
        claude_code::law_rereading_tells_the_same_requests(
            starts[passes.len() - 1],
            claude_code::ctx_after(ctx, first),
            passes.last(),
            rest,
        );
        same_requests_join(
            told_in_passes(claude_code_reading(), starts, p),
            claude_code::usages_of_lines(starts[passes.len() - 1], passes.last()),
            claude_code::usages_of_lines(ctx, first),
            claude_code::usages_of_lines(claude_code::ctx_after(ctx, first), rest),
        );
    }
}

/// A lost cursor never doubles anything that a `claude_code` transcript tells: a
/// transcript that was read in however many passes, and is then read again,
/// leaves what is stored as it is. It does so whatever was carried over between
/// the passes and whatever state the second reading starts with.
pub proof fn law_a_lost_cursor_never_doubles(
    store: Map<(Text, Text), UsageRow>,
    starts: Seq<LineCtxView>,
    passes: Seq<Seq<(claude_code::Line, (i64, u32))>>,
    ctx: LineCtxView,
    again: Seq<(claude_code::Line, (i64, u32))>,
)
    requires
        same_lines(all_lines(passes), again),
    ensures
        store_after(
            store_after(store, told_in_passes(claude_code_reading(), starts, passes)),
            claude_code::usages_of_lines(ctx, again),
        ) == store_after(store, told_in_passes(claude_code_reading(), starts, passes)),
{
    claude_code_passes_tell_the_same(starts, passes, ctx, again);
    same_requests_change_nothing(
        store,
        told_in_passes(claude_code_reading(), starts, passes),
        claude_code::usages_of_lines(ctx, again),
    );
}

/// A `claude_code` transcript that has grown since, read again from its start,
/// adds what is new in it and nothing else.
pub proof fn law_a_grown_transcript_adds_what_is_new(
    store: Map<(Text, Text), UsageRow>,
    starts: Seq<LineCtxView>,
    passes: Seq<Seq<(claude_code::Line, (i64, u32))>>,
    ctx: LineCtxView,
    again: Seq<(claude_code::Line, (i64, u32))>,
    new: Seq<(claude_code::Line, (i64, u32))>,
)
    requires
        same_lines(all_lines(passes), again),
    ensures
        store_after(
            store_after(store, told_in_passes(claude_code_reading(), starts, passes)),
            claude_code::usages_of_lines(ctx, again + new),
        ) == store_after(
            store_after(store, told_in_passes(claude_code_reading(), starts, passes)),
            claude_code::usages_of_lines(claude_code::ctx_after(ctx, again), new),
        ),
{
    law_a_lost_cursor_never_doubles(store, starts, passes, ctx, again);
    claude_code::law_passes_tell_what_one_reading_tells(ctx, again, new);
    store_after_both(
        store_after(store, told_in_passes(claude_code_reading(), starts, passes)),
        claude_code::usages_of_lines(ctx, again),
        claude_code::usages_of_lines(claude_code::ctx_after(ctx, again), new),
    );
}

/// What a pass over a Codex file tells.
pub open spec fn codex_reading() -> spec_fn(LineCtxView, Seq<(codex::Line, (i64, u32))>) -> Seq<
    UsageSignalView,
> {
    |ctx: LineCtxView, lines: Seq<(codex::Line, (i64, u32))>| codex::usages_of_lines(ctx, lines)
}

/// The state that a pass over a Codex file leaves.
pub open spec fn codex_state() -> spec_fn(
    LineCtxView,
    Seq<(codex::Line, (i64, u32))>,
) -> LineCtxView {
    |ctx: LineCtxView, lines: Seq<(codex::Line, (i64, u32))>| codex::ctx_after(ctx, lines)
}

/// A lost cursor never doubles anything that a Codex file tells: a file that was
/// read in however many passes, and is then read again from its start, leaves
/// what is stored as it is. The same holds of a run whose lines were read from
/// its own output too.
pub proof fn law_a_lost_codex_cursor_never_doubles(
    store: Map<(Text, Text), UsageRow>,
    starts: Seq<LineCtxView>,
    passes: Seq<Seq<(codex::Line, (i64, u32))>>,
    again: Seq<(codex::Line, (i64, u32))>,
)
    requires
        one_after_another(codex_state(), starts, passes),
        same_lines(all_lines(passes), again),
    ensures
        store_after(
            store_after(store, told_in_passes(codex_reading(), starts, passes)),
            codex::usages_of_lines(fresh_ctx(), again),
        ) == store_after(store, told_in_passes(codex_reading(), starts, passes)),
{
    let read = codex_reading();
    let leave = codex_state();
    assert forall|
        ctx: LineCtxView,
        a: Seq<(codex::Line, (i64, u32))>,
        b: Seq<(codex::Line, (i64, u32))>,
    | #[trigger] read(ctx, a + b) == read(ctx, a) + read(leave(ctx, a), b) by {
        codex::law_passes_tell_what_one_reading_tells(ctx, a, b);
    }
    assert forall|
        ctx: LineCtxView,
        a: Seq<(codex::Line, (i64, u32))>,
        b: Seq<(codex::Line, (i64, u32))>,
    | #[trigger] leave(ctx, a + b) == leave(leave(ctx, a), b) by {
        codex::law_passes_tell_what_one_reading_tells(ctx, a, b);
    }
    passes_are_one_reading(read, leave, starts, passes);
    codex::law_rereading_tells_the_same_requests(fresh_ctx(), all_lines(passes), again);
    same_requests_change_nothing(
        store,
        told_in_passes(read, starts, passes),
        codex::usages_of_lines(fresh_ctx(), again),
    );
}

/// A Codex file that has grown since, read again from its start, adds what is new
/// in it and nothing else.
pub proof fn law_a_grown_codex_file_adds_what_is_new(
    store: Map<(Text, Text), UsageRow>,
    starts: Seq<LineCtxView>,
    passes: Seq<Seq<(codex::Line, (i64, u32))>>,
    again: Seq<(codex::Line, (i64, u32))>,
    new: Seq<(codex::Line, (i64, u32))>,
)
    requires
        one_after_another(codex_state(), starts, passes),
        same_lines(all_lines(passes), again),
    ensures
        store_after(
            store_after(store, told_in_passes(codex_reading(), starts, passes)),
            codex::usages_of_lines(fresh_ctx(), again + new),
        ) == store_after(
            store_after(store, told_in_passes(codex_reading(), starts, passes)),
            codex::usages_of_lines(codex::ctx_after(fresh_ctx(), again), new),
        ),
{
    law_a_lost_codex_cursor_never_doubles(store, starts, passes, again);
    codex::law_passes_tell_what_one_reading_tells(fresh_ctx(), again, new);
    store_after_both(
        store_after(store, told_in_passes(codex_reading(), starts, passes)),
        codex::usages_of_lines(fresh_ctx(), again),
        codex::usages_of_lines(codex::ctx_after(fresh_ctx(), again), new),
    );
}

/// What a pass over a Copilot file tells.
pub open spec fn copilot_reading() -> spec_fn(
    LineCtxView,
    Seq<(copilot::Envelope, (i64, u32))>,
) -> Seq<UsageSignalView> {
    |ctx: LineCtxView, lines: Seq<(copilot::Envelope, (i64, u32))>|
        copilot::usages_of_lines(ctx, lines)
}

/// The state that a pass over a Copilot file leaves.
pub open spec fn copilot_state() -> spec_fn(
    LineCtxView,
    Seq<(copilot::Envelope, (i64, u32))>,
) -> LineCtxView {
    |ctx: LineCtxView, lines: Seq<(copilot::Envelope, (i64, u32))>| copilot::ctx_after(ctx, lines)
}

/// A lost cursor never doubles anything that a Copilot export tells, whether its
/// spans have ids or not.
pub proof fn law_a_lost_copilot_cursor_never_doubles(
    store: Map<(Text, Text), UsageRow>,
    starts: Seq<LineCtxView>,
    passes: Seq<Seq<(copilot::Envelope, (i64, u32))>>,
    again: Seq<(copilot::Envelope, (i64, u32))>,
)
    requires
        one_after_another(copilot_state(), starts, passes),
        same_lines(all_lines(passes), again),
    ensures
        store_after(
            store_after(store, told_in_passes(copilot_reading(), starts, passes)),
            copilot::usages_of_lines(fresh_ctx(), again),
        ) == store_after(store, told_in_passes(copilot_reading(), starts, passes)),
{
    let read = copilot_reading();
    let leave = copilot_state();
    assert forall|
        ctx: LineCtxView,
        a: Seq<(copilot::Envelope, (i64, u32))>,
        b: Seq<(copilot::Envelope, (i64, u32))>,
    | #[trigger] read(ctx, a + b) == read(ctx, a) + read(leave(ctx, a), b) by {
        copilot::law_passes_tell_what_one_reading_tells(ctx, a, b);
    }
    assert forall|
        ctx: LineCtxView,
        a: Seq<(copilot::Envelope, (i64, u32))>,
        b: Seq<(copilot::Envelope, (i64, u32))>,
    | #[trigger] leave(ctx, a + b) == leave(leave(ctx, a), b) by {
        copilot::law_passes_tell_what_one_reading_tells(ctx, a, b);
    }
    passes_are_one_reading(read, leave, starts, passes);
    copilot::law_rereading_tells_the_same_requests(fresh_ctx(), all_lines(passes), again);
    same_requests_change_nothing(
        store,
        told_in_passes(read, starts, passes),
        copilot::usages_of_lines(fresh_ctx(), again),
    );
}

/// A Copilot export that has grown since, read again from its start, adds what is new
/// in it and nothing else.
pub proof fn law_a_grown_copilot_file_adds_what_is_new(
    store: Map<(Text, Text), UsageRow>,
    starts: Seq<LineCtxView>,
    passes: Seq<Seq<(copilot::Envelope, (i64, u32))>>,
    again: Seq<(copilot::Envelope, (i64, u32))>,
    new: Seq<(copilot::Envelope, (i64, u32))>,
)
    requires
        one_after_another(copilot_state(), starts, passes),
        same_lines(all_lines(passes), again),
    ensures
        store_after(
            store_after(store, told_in_passes(copilot_reading(), starts, passes)),
            copilot::usages_of_lines(fresh_ctx(), again + new),
        ) == store_after(
            store_after(store, told_in_passes(copilot_reading(), starts, passes)),
            copilot::usages_of_lines(copilot::ctx_after(fresh_ctx(), again), new),
        ),
{
    law_a_lost_copilot_cursor_never_doubles(store, starts, passes, again);
    copilot::law_passes_tell_what_one_reading_tells(fresh_ctx(), again, new);
    store_after_both(
        store_after(store, told_in_passes(copilot_reading(), starts, passes)),
        copilot::usages_of_lines(fresh_ctx(), again),
        copilot::usages_of_lines(copilot::ctx_after(fresh_ctx(), again), new),
    );
}

/// What is carried over is what is gone on with; with nothing carried over,
/// events are counted on from the cursor's line; and a file that has shrunk is
/// read as a new one.
pub proof fn law_state_survives_a_break(
    ctx: LineCtxView,
    state: Option<LineCtxView>,
    cursor: Cursor,
    size: u64,
)
    ensures
        size >= cursor.byte_offset ==> resumed(Some(ctx), cursor, size) == ctx,
        size >= cursor.byte_offset ==> resumed(None, cursor, size).event_ordinal
            == cursor.line_ordinal,
        size < cursor.byte_offset ==> resumed(state, cursor, size) == fresh_ctx(),
        resumed(None, file_start(), size) == fresh_ctx(),
{
}

/// The lines of one response become one request: measurements that share an
/// identity are stored in one row.
pub proof fn law_one_identity_is_one_row(us: Seq<UsageSignalView>, key: (Text, Text))
    requires
        us.len() > 0,
        forall|i: int| 0 <= i < us.len() ==> key_of(#[trigger] us[i]) == key,
    ensures
        store_after(Map::<(Text, Text), UsageRow>::empty(), us).dom() == set![key],
    decreases us.len(),
{
    let none = Map::<(Text, Text), UsageRow>::empty();
    let d = us.drop_last();
    assert(key_of(us[us.len() - 1]) == key);
    if d.len() > 0 {
        assert forall|i: int| 0 <= i < d.len() implies key_of(#[trigger] d[i]) == key by {
            assert(d[i] == us[i]);
        }
        law_one_identity_is_one_row(d, key);
        assert(store_after(none, us).dom() =~= store_after(none, d).dom().insert(key));
        assert(set![key].insert(key) =~= set![key]);
    } else {
        assert(store_after(none, d) == none);
        assert(store_after(none, us).dom() =~= set![key]);
    }
}

/// Two passes together have done what both have done, number by number.
pub proof fn law_each_number_of_a_pass_adds_up(a: PassStats, b: PassStats)
    ensures
        a.files_scanned + b.files_scanned <= u32::MAX ==> both_passes(a, b).files_scanned == a.files_scanned + b.files_scanned,
        a.files_scanned + b.files_scanned > u32::MAX ==> both_passes(a, b).files_scanned == u32::MAX,
        a.files_skipped + b.files_skipped <= u32::MAX ==> both_passes(a, b).files_skipped == a.files_skipped + b.files_skipped,
        a.files_skipped + b.files_skipped > u32::MAX ==> both_passes(a, b).files_skipped == u32::MAX,
        a.lines_read + b.lines_read <= u64::MAX ==> both_passes(a, b).lines_read == a.lines_read + b.lines_read,
        a.lines_read + b.lines_read > u64::MAX ==> both_passes(a, b).lines_read == u64::MAX,
        a.usage_recorded + b.usage_recorded <= u64::MAX ==> both_passes(a, b).usage_recorded == a.usage_recorded + b.usage_recorded,
        a.usage_recorded + b.usage_recorded > u64::MAX ==> both_passes(a, b).usage_recorded == u64::MAX,
        a.duplicates + b.duplicates <= u64::MAX ==> both_passes(a, b).duplicates == a.duplicates + b.duplicates,
        a.duplicates + b.duplicates > u64::MAX ==> both_passes(a, b).duplicates == u64::MAX,
        a.failures + b.failures <= u64::MAX ==> both_passes(a, b).failures == a.failures + b.failures,
        a.failures + b.failures > u64::MAX ==> both_passes(a, b).failures == u64::MAX,
        a.retry_attempts + b.retry_attempts <= u64::MAX ==> both_passes(a, b).retry_attempts == a.retry_attempts + b.retry_attempts,
        a.retry_attempts + b.retry_attempts > u64::MAX ==> both_passes(a, b).retry_attempts == u64::MAX,
        a.anomalies + b.anomalies <= u64::MAX ==> both_passes(a, b).anomalies == a.anomalies + b.anomalies,
        a.anomalies + b.anomalies > u64::MAX ==> both_passes(a, b).anomalies == u64::MAX,
        a.oversize_relevant + b.oversize_relevant <= u64::MAX ==> both_passes(a, b).oversize_relevant == a.oversize_relevant + b.oversize_relevant,
        a.oversize_relevant + b.oversize_relevant > u64::MAX ==> both_passes(a, b).oversize_relevant == u64::MAX,
{
}

/// A measurement is recorded as what it is: of its own adapter, session, identity,
/// model and time, with its own counts and audit trail.
pub proof fn law_a_measurement_is_recorded_as_it_is(
    u: UsageSignalView,
    adapter: Text,
    session: Option<Text>,
    a: Action,
)
    requires
        decides(SignalView::Usage(u), adapter, session, a),
    ensures
        a is Record,
        a->Record_0.adapter_id@ == adapter,
        a->Record_0.session_id@ == u.session_id,
        a->Record_0.dedup_key@ == u.dedup_key,
        opt_text(a->Record_0.model_id) == u.model_id,
        a->Record_0.occurred_at@ == u.occurred_at,
        a->Record_0.measurement_source@ == u.measurement_source,
        a->Record_0.request_kind@ == u.request_kind,
        a->Record_0.usage@ == u.usage,
        a->Record_0.is_sidechain == u.is_sidechain,
        opt_text(a->Record_0.agent_id) == u.agent_id,
        opt_text(a->Record_0.agent_type) == u.agent_type,
        opt_text(a->Record_0.raw_json) == u.raw_json,
{
}

/// Only measurements become records, only failures become failures, only retries
/// are counted as retries, and every anomaly is reported with the session that
/// was being read; a session, a model and a compaction carry no tokens.
pub proof fn law_signals_become_their_own_actions(
    s: SignalView,
    adapter: Text,
    session: Option<Text>,
    a: Action,
)
    requires
        decides(s, adapter, session, a),
    ensures
        a is Record <==> s is Usage,
        a is Fail <==> s is RequestFailed,
        a is Retry <==> s is RetryAttempt,
        a is Report <==> s is Anomaly,
        a is Nothing <==> s is SessionOpened || s is ModelDeclared || s is ContextCompacted,
        s is RequestFailed ==> a->Fail_session_id@ == s->RequestFailed_session_id
            && a->Fail_dedup_key@ == s->RequestFailed_dedup_key && a->Fail_occurred_at@
            == s->RequestFailed_occurred_at,
        s is Anomaly ==> opt_text(a->Report_session_id) == session && a->Report_kind@
            == s->Anomaly_kind,
{
}

/// Each action is counted once, under its own name: a measurement that was not
/// known as recorded, one that was as a duplicate.
pub proof fn law_each_action_is_counted_once(s: PassStats, a: Action, outcome: UpsertOutcome)
    requires
        s.can_count(),
    ensures
        counted(s, a, outcome).usage_recorded == s.usage_recorded + if a is Record && outcome
            == UpsertOutcome::Inserted {
            1int
        } else {
            0
        },
        counted(s, a, outcome).duplicates == s.duplicates + if a is Record && outcome
            != UpsertOutcome::Inserted {
            1int
        } else {
            0
        },
        counted(s, a, outcome).failures == s.failures + if a is Fail {
            1int
        } else {
            0
        },
        counted(s, a, outcome).retry_attempts == s.retry_attempts + if a is Retry {
            1int
        } else {
            0
        },
        counted(s, a, outcome).anomalies == s.anomalies + if a is Report {
            1int
        } else {
            0
        },
        counted(s, a, outcome).files_scanned == s.files_scanned,
        counted(s, a, outcome).files_skipped == s.files_skipped,
        counted(s, a, outcome).lines_read == s.lines_read,
        counted(s, a, outcome).oversize_relevant == s.oversize_relevant,
{
}

/// A line that cannot be decoded is one anomaly, which says why; one that tells
/// something is what it tells, and any other is nothing.
pub proof fn law_broken_lines_are_reported(reason: Text, s: Seq<SignalView>)
    ensures
        signals_of(ParseOutcomeView::Malformed { reason }).len() == 1,
        signals_of(ParseOutcomeView::Malformed { reason })[0] is Anomaly,
        signals_of(ParseOutcomeView::Malformed { reason })[0]->Anomaly_detail == reason,
        signals_of(ParseOutcomeView::Signals(s)) == s,
        signals_of(ParseOutcomeView::Ignored).len() == 0,
{
}

/// A file matters to a root exactly where it has the root's extension and, where
/// the root says how names begin, a name that begins so.
pub proof fn law_a_root_matches_by_extension_and_name(root: WatchRoot, path: Text)
    ensures
        cares_about(root, path) ==> extension_of(path) == Some(root.extension@),
        root.file_prefix.is_none() ==> (cares_about(root, path) <==> extension_of(path) == Some(
            root.extension@,
        )),
        root.file_prefix.is_some() && cares_about(root, path) ==> file_name_of(path).is_some()
            && root.file_prefix.unwrap()@.len() <= file_name_of(path).unwrap().len()
            && file_name_of(path).unwrap().take(root.file_prefix.unwrap()@.len() as int)
            == root.file_prefix.unwrap()@,
        root.file_prefix.is_some() && extension_of(path) == Some(root.extension@) && file_name_of(
            path,
        ).is_some() && root.file_prefix.unwrap()@.len() <= file_name_of(path).unwrap().len()
            && file_name_of(path).unwrap().take(root.file_prefix.unwrap()@.len() as int)
            == root.file_prefix.unwrap()@ ==> cares_about(root, path),
{
}

/// What is stored is filed by session and identity, and each request's row is
/// what its observations come to: recording one more touches its own row alone.
pub proof fn law_a_record_touches_its_own_row(
    store: Map<(Text, Text), UsageRow>,
    us: Seq<UsageSignalView>,
    u: UsageSignalView,
    session: Text,
    dedup_key: Text,
)
    ensures
        store_after(store, Seq::empty()) == store,
        store_after(store, us.push(u)).contains_key((u.session_id, u.dedup_key)),
        (session, dedup_key) != (u.session_id, u.dedup_key) ==> store_after(
            store,
            us.push(u),
        ).contains_key((session, dedup_key)) == store_after(store, us).contains_key(
            (session, dedup_key),
        ) && (store_after(store, us).contains_key((session, dedup_key)) ==> store_after(
            store,
            us.push(u),
        )[(session, dedup_key)] == store_after(store, us)[(session, dedup_key)]),
        store_after(store, us).contains_key((u.session_id, u.dedup_key)) ==> store_after(
            store,
            us.push(u),
        )[(u.session_id, u.dedup_key)] == row_after(
            Some(store_after(store, us)[(u.session_id, u.dedup_key)]),
            u.usage,
        ),
        !store_after(store, us).contains_key((u.session_id, u.dedup_key)) ==> store_after(
            store,
            us.push(u),
        )[(u.session_id, u.dedup_key)] == row_after(None, u.usage),
{
    assert(us.push(u).drop_last() =~= us);
}

/// What is carried over is seen by the contracts as it is, field by field.
pub proof fn law_carried_state_is_seen_as_it_is(p: PersistedState)
    ensures
        p@.current_model == opt_text(p.current_model),
        p@.current_session == opt_text(p.current_session),
        p@.event_ordinal == p.event_ordinal,
        p@.previous_cumulative == p.previous_cumulative,
        p@.previous_last == p.previous_last,
{
}

/// What a state becomes when a pass has finished.
pub open spec fn pass_finished(
    before: IngestState,
    stats: PassStats,
    at: Timestamp,
    after: IngestState,
) -> bool {
    &&& after.passes == clamp_u64(before.passes as nat + 1)
    &&& after.last == stats
    &&& after.cumulative == both_passes(before.cumulative, stats)
    &&& after.backfilling == (before.backfilling && before.passes != 0)
    &&& after.last_pass_at == Some(at)
}

/// A pass that has finished is counted, dated and added to what was done before;
/// history has been read once the first one has.
pub proof fn law_a_finished_pass_is_counted(
    before: IngestState,
    stats: PassStats,
    at: Timestamp,
    after: IngestState,
)
    requires
        pass_finished(before, stats, at, after),
        before.passes < u64::MAX,
    ensures
        after.passes == before.passes + 1,
        after.last == stats,
        after.last_pass_at == Some(at),
        before.passes == 0 ==> !after.backfilling,
        before.cumulative.usage_recorded + stats.usage_recorded <= u64::MAX
            ==> after.cumulative.usage_recorded == before.cumulative.usage_recorded
            + stats.usage_recorded,
        before.cumulative.lines_read + stats.lines_read <= u64::MAX ==> after.cumulative.lines_read
            == before.cumulative.lines_read + stats.lines_read,
{
}

/// How long to wait before the next pass, in milliseconds.
pub open spec fn wait_ms(stats: PassStats) -> u64 {
    if stats.usage_recorded > 0 {
        ACTIVE_INTERVAL_MS
    } else {
        IDLE_INTERVAL_MS
    }
}

/// The next pass comes after a quarter of a second where usage was recorded, and
/// after two seconds where none was.
pub proof fn law_an_active_agent_is_read_sooner(stats: PassStats)
    ensures
        stats.usage_recorded > 0 ==> wait_ms(stats) == 250,
        stats.usage_recorded == 0 ==> wait_ms(stats) == 2000,
{
}

/// The numbers of one file that has been read.
pub open spec fn file_stats(read: ReadStats) -> PassStats {
    PassStats {
        files_scanned: 1,
        lines_read: read.scanned,
        anomalies: read.oversize_relevant,
        oversize_relevant: read.oversize_relevant,
        ..no_work()
    }
}

/// A file that was read counts as one, with all of its lines; every line that was
/// dropped although it looked relevant is an anomaly, and nothing is recorded yet.
pub proof fn law_a_file_counts_with_its_lines(read: ReadStats)
    ensures
        file_stats(read).files_scanned == 1,
        file_stats(read).files_skipped == 0,
        file_stats(read).lines_read == read.scanned,
        file_stats(read).anomalies == read.oversize_relevant,
        file_stats(read).oversize_relevant == read.oversize_relevant,
        file_stats(read).usage_recorded == 0,
        file_stats(read).duplicates == 0,
        file_stats(read).failures == 0,
        file_stats(read).retry_attempts == 0,
{
}

} // verus!
