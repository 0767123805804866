//! Working out what each application can actually tell.
//!
//! The capability matrix is not written down anywhere. It is derived by running
//! the parser over a sample of an application's own recent files and recording
//! which fields real data populated; each claim carries the evidence for it.
use vstd::prelude::*;
use vstd::slice::slice_subrange;
use vstd::string::StringExecFns;

use crate::adapters::{
    fresh_ctx, signal_views, LineCtx, LineCtxView, ParseOutcome, ParseOutcomeView, Signal,
    SignalView, UsageSignalView,
};
use crate::bytes::position;
use crate::dto::{AdapterDescriptor, AdapterState, CapabilityState, CapabilityView};
use crate::measurement::clamp_u64;
use crate::names::{first_word, first_word_of, title, title_of};
use crate::scan::{newest_first, paths_of, sort_newest_first, timed};
use crate::tailer::{complete, fragment, newline, Prefilter};
use crate::text::{copy_opt, dec, dec_u64, opt_text, str_eq, texts, Text};

verus! {

/// How much of each sampled file to read, from its end.
pub const SAMPLE_BYTES: u64 = 524_288;

/// How many recent files to sample per application.
pub const SAMPLE_FILES: usize = 5;

/// The version reported for every adapter.
pub const ADAPTER_VERSION: &'static str = "0.1.0";

/// The things an application might be able to tell, from the most basic one on.
pub open spec fn all_capabilities() -> Seq<Text> {
    seq![
        "exact_token_counts"@,
        "cache_read_tokens"@,
        "cache_write_tokens"@,
        "cache_ttl_breakdown"@,
        "reasoning_tokens"@,
        "model_identity"@,
        "per_request_latency"@,
        "provider_reported_cost"@,
        "actual_billed_cost"@,
        "sub_agent_attribution"@,
        "launch_with_pinned_session"@,
        "failure_visibility"@,
    ]
}

/// The things an application might be able to tell, by name: the order in which
/// they are reported.
pub open spec fn capability_names() -> Seq<Text> {
    seq![
        "actual_billed_cost"@,
        "cache_read_tokens"@,
        "cache_ttl_breakdown"@,
        "cache_write_tokens"@,
        "exact_token_counts"@,
        "failure_visibility"@,
        "launch_with_pinned_session"@,
        "model_identity"@,
        "per_request_latency"@,
        "provider_reported_cost"@,
        "reasoning_tokens"@,
        "sub_agent_attribution"@,
    ]
}

/// The things an application might be able to tell.
pub fn capabilities() -> (v: Vec<&'static str>)
    ensures
        v@.map_values(|s: &'static str| s@) == all_capabilities(),
{
    let mut v: Vec<&'static str> = Vec::new();
    v.push("exact_token_counts");
    v.push("cache_read_tokens");
    v.push("cache_write_tokens");
    v.push("cache_ttl_breakdown");
    v.push("reasoning_tokens");
    v.push("model_identity");
    v.push("per_request_latency");
    v.push("provider_reported_cost");
    v.push("actual_billed_cost");
    v.push("sub_agent_attribution");
    v.push("launch_with_pinned_session");
    v.push("failure_visibility");
    proof {
        assert(v@.map_values(|s: &'static str| s@) =~= all_capabilities());
    }
    v
}

/// The things an application might be able to tell, by name.
fn sorted_capabilities() -> (v: Vec<&'static str>)
    ensures
        v@.map_values(|s: &'static str| s@) == capability_names(),
{
    let mut v: Vec<&'static str> = Vec::new();
    v.push("actual_billed_cost");
    v.push("cache_read_tokens");
    v.push("cache_ttl_breakdown");
    v.push("cache_write_tokens");
    v.push("exact_token_counts");
    v.push("failure_visibility");
    v.push("launch_with_pinned_session");
    v.push("model_identity");
    v.push("per_request_latency");
    v.push("provider_reported_cost");
    v.push("reasoning_tokens");
    v.push("sub_agent_attribution");
    proof {
        assert(v@.map_values(|s: &'static str| s@) =~= capability_names());
    }
    v
}

/// What a sample of real data showed.
#[derive(Debug, Clone, PartialEq)]
pub struct Observed {
    pub lines: u64,
    pub usage_rows: u64,
    pub cache_read: Option<u64>,
    pub cache_write: Option<u64>,
    pub cache_write_1h: Option<u64>,
    pub reasoning: Option<u64>,
    /// Rows that reported no reasoning at all.
    pub reasoning_absent: u64,
    pub model: Option<String>,
    pub sidechain: bool,
    pub failures: u64,
    pub unclassified: Option<u64>,
}

/// [`Observed`] with its text as characters.
pub struct ObservedView {
    pub lines: u64,
    pub usage_rows: u64,
    pub cache_read: Option<u64>,
    pub cache_write: Option<u64>,
    pub cache_write_1h: Option<u64>,
    pub reasoning: Option<u64>,
    pub reasoning_absent: u64,
    pub model: Option<Text>,
    pub sidechain: bool,
    pub failures: u64,
    pub unclassified: Option<u64>,
}

impl View for Observed {
    type V = ObservedView;

    open spec fn view(&self) -> ObservedView {
        ObservedView {
            lines: self.lines,
            usage_rows: self.usage_rows,
            cache_read: self.cache_read,
            cache_write: self.cache_write,
            cache_write_1h: self.cache_write_1h,
            reasoning: self.reasoning,
            reasoning_absent: self.reasoning_absent,
            model: opt_text(self.model),
            sidechain: self.sidechain,
            failures: self.failures,
            unclassified: self.unclassified,
        }
    }
}

/// A probe's result, with how much was looked at.
#[derive(Debug, Clone, PartialEq)]
pub struct Observed2 {
    pub observed: Observed,
    pub files_sampled: usize,
}

/// Nothing seen.
pub open spec fn nothing_observed() -> ObservedView {
    ObservedView {
        lines: 0,
        usage_rows: 0,
        cache_read: None,
        cache_write: None,
        cache_write_1h: None,
        reasoning: None,
        reasoning_absent: 0,
        model: None,
        sidechain: false,
        failures: 0,
        unclassified: None,
    }
}

impl Default for Observed {
    fn default() -> (o: Self)
        ensures
            o@ == nothing_observed(),
    {
        Observed {
            lines: 0,
            usage_rows: 0,
            cache_read: None,
            cache_write: None,
            cache_write_1h: None,
            reasoning: None,
            reasoning_absent: 0,
            model: None,
            sidechain: false,
            failures: 0,
            unclassified: None,
        }
    }
}

/// The largest value seen that is not zero. Zero is not evidence: a request
/// that read nothing from cache says nothing about whether the field exists.
pub open spec fn noted(slot: Option<u64>, value: u64) -> Option<u64> {
    match slot {
        Some(current) => if value > current {
            Some(value)
        } else {
            slot
        },
        None => if value > 0 {
            Some(value)
        } else {
            None
        },
    }
}

/// One more, as far as can be counted.
pub open spec fn more(n: u64) -> u64 {
    clamp_u64(n as nat + 1)
}

/// What has been seen after one more measurement.
pub open spec fn after_usage(o: ObservedView, u: UsageSignalView) -> ObservedView {
    ObservedView {
        lines: o.lines,
        usage_rows: more(o.usage_rows),
        cache_read: noted(o.cache_read, u.usage.cache_read),
        cache_write: noted(o.cache_write, clamp_u64(u.usage.writes())),
        cache_write_1h: noted(o.cache_write_1h, u.usage.cache_write_1h),
        reasoning: match u.usage.reasoning {
            Some(r) => noted(o.reasoning, r),
            None => o.reasoning,
        },
        reasoning_absent: if u.usage.reasoning.is_none() {
            more(o.reasoning_absent)
        } else {
            o.reasoning_absent
        },
        model: if o.model.is_none() {
            u.model_id
        } else {
            o.model
        },
        sidechain: o.sidechain || u.is_sidechain,
        failures: o.failures,
        unclassified: noted(o.unclassified, u.usage.unclassified),
    }
}

/// What has been seen after one more signal.
pub open spec fn after_signal(o: ObservedView, s: SignalView) -> ObservedView {
    match s {
        SignalView::Usage(u) => after_usage(o, u),
        SignalView::ModelDeclared { model_id, .. } => if o.model.is_none() {
            ObservedView { model: Some(model_id), ..o }
        } else {
            o
        },
        SignalView::RequestFailed { .. } => ObservedView { failures: more(o.failures), ..o },
        _ => o,
    }
}

/// What has been seen after a run of signals.
pub open spec fn after_signals(o: ObservedView, signals: Seq<SignalView>) -> ObservedView
    decreases signals.len(),
{
    if signals.len() == 0 {
        o
    } else {
        after_signal(after_signals(o, signals.drop_last()), signals.last())
    }
}

/// What has been seen after one more line worth parsing.
pub open spec fn after_line(o: ObservedView, outcome: ParseOutcomeView) -> ObservedView {
    let counted = ObservedView { lines: more(o.lines), ..o };
    match outcome {
        ParseOutcomeView::Signals(s) => after_signals(counted, s),
        _ => counted,
    }
}

fn note(slot: &mut Option<u64>, value: u64)
    ensures
        *final(slot) == noted(*old(slot), value),
{
    let larger = match *slot {
        Some(current) => value > current,
        None => value > 0,
    };
    if larger {
        *slot = Some(value);
    }
}

impl Observed {
    fn see(&mut self, signal: &Signal)
        ensures
            final(self)@ == after_signal(old(self)@, signal@),
    {
        match signal {
            Signal::Usage(u) => {
                self.usage_rows = self.usage_rows.saturating_add(1);
                note(&mut self.cache_read, u.usage.cache_read());
                note(&mut self.cache_write, u.usage.cache_write_total());
                note(&mut self.cache_write_1h, u.usage.cache_write_1h());
                note(&mut self.unclassified, u.usage.unclassified());
                match u.usage.reasoning() {
                    Some(r) => note(&mut self.reasoning, r),
                    None => {
                        self.reasoning_absent = self.reasoning_absent.saturating_add(1);
                    },
                }
                if u.is_sidechain {
                    self.sidechain = true;
                }
                if self.model.is_none() {
                    self.model = copy_opt(&u.model_id);
                }
            },
            Signal::ModelDeclared { model_id, .. } => {
                if self.model.is_none() {
                    self.model = Some(model_id.clone());
                }
            },
            Signal::RequestFailed { .. } => {
                self.failures = self.failures.saturating_add(1);
            },
            _ => {},
        }
    }

    /// One more line worth parsing, and what it told.
    pub fn record(&mut self, outcome: &ParseOutcome)
        ensures
            final(self)@ == after_line(old(self)@, outcome@),
    {
        self.lines = self.lines.saturating_add(1);
        if let ParseOutcome::Signals(signals) = outcome {
            let ghost start = self@;
            let ghost views = signal_views(signals@);
            let mut i: usize = 0;
            while i < signals.len()
                invariant
                    i <= signals.len(),
                    views == signal_views(signals@),
                    self@ == after_signals(start, views.take(i as int)),
                decreases signals.len() - i,
            {
                proof {
                    assert(views.take(i + 1).drop_last() =~= views.take(i as int));
                    assert(views.take(i + 1).last() == signals@[i as int]@);
                }
                self.see(&signals[i]);
                i += 1;
            }
            proof {
                assert(views.take(i as int) =~= views);
            }
        }
    }
}

/// The files to sample: the most recent few.
pub open spec fn most_recent(files: Seq<(Text, i128)>) -> Seq<Text> {
    let paths = paths_of(newest_first(files));
    if paths.len() <= SAMPLE_FILES {
        paths
    } else {
        paths.take(SAMPLE_FILES as int)
    }
}

/// The files to sample, each of `files` with the time it was last modified.
pub fn files_to_sample(files: Vec<(String, i128)>) -> (v: Vec<String>)
    ensures
        texts(v@) == most_recent(timed(files@)),
{
    let ghost all = timed(files@);
    let sorted = sort_newest_first(files);
    let n: usize = if sorted.len() <= SAMPLE_FILES {
        sorted.len()
    } else {
        SAMPLE_FILES
    };
    let ghost paths = paths_of(newest_first(all));
    let mut v: Vec<String> = Vec::new();
    let mut i: usize = 0;
    while i < n
        invariant
            n <= sorted@.len(),
            i <= n,
            timed(sorted@) == newest_first(all),
            paths == paths_of(newest_first(all)),
            v@.len() == i,
            forall|k: int| 0 <= k < i ==> (#[trigger] v@[k])@ == paths[k],
        decreases n - i,
    {
        proof {
            assert(timed(sorted@)[i as int].0 == sorted@[i as int].0@);
        }
        v.push(sorted[i].0.clone());
        i += 1;
    }
    proof {
        assert(timed(sorted@).len() == sorted@.len());
        assert(texts(v@) =~= most_recent(all));
    }
    v
}

/// Where to begin reading a file of a size, so that its end is read.
pub fn tail_start(size: u64) -> (start: u64)
    ensures
        start == if size > SAMPLE_BYTES {
            (size - SAMPLE_BYTES) as u64
        } else {
            0
        },
        start == tail_from(size),
{
    size.saturating_sub(SAMPLE_BYTES)
}

/// The state in which a sample is parsed. The line that names the session is
/// far behind, and usage that belongs to none would be refused; what is asked
/// is which fields are filled, not whose they are.
pub fn sample_context() -> (ctx: LineCtx)
    ensures
        ctx@ == (LineCtxView { current_session: Some("probe"@), ..fresh_ctx() }),
{
    let mut ctx = LineCtx::default();
    ctx.current_session = Some("probe".to_owned());
    ctx
}

/// The pieces of a file's tail behind its first newline that are worth parsing.
/// The first piece of a tail is usually cut off, and is left out.
pub open spec fn worth_parsing<A: Prefilter>(filter: A, pieces: Seq<Seq<u8>>) -> Seq<Seq<u8>>
    decreases pieces.len(),
{
    if pieces.len() == 0 {
        Seq::empty()
    } else {
        let before = worth_parsing(filter, pieces.drop_last());
        let p = pieces.last();
        if pieces.len() > 1 && p.len() > 0 && filter.admits(p) {
            before.push(p)
        } else {
            before
        }
    }
}

/// The bytes of each line of a list.
pub open spec fn byte_views(v: Seq<Vec<u8>>) -> Seq<Seq<u8>> {
    v.map_values(|b: Vec<u8>| b@)
}

proof fn pieces_with_line(b: Seq<u8>, head: Seq<u8>)
    requires
        forall|i: int| 0 <= i < head.len() ==> head[i] != newline(),
        fragment(b) == Seq::<u8>::empty(),
    ensures
        complete((b + head).push(newline())) == complete(b).push(head),
        fragment((b + head).push(newline())) == Seq::<u8>::empty(),
    decreases head.len(),
{
    crate::tailer::ended_line(b, head);
    assert(fragment(b) + head =~= head);
}

/// The lines of a file's tail that are worth parsing.
pub fn sample_lines<A: Prefilter>(bytes: &[u8], filter: &A) -> (r: Vec<Vec<u8>>)
    ensures
        byte_views(r@) == worth_parsing(*filter, complete(bytes@).push(fragment(bytes@))),
{
    let mut out: Vec<Vec<u8>> = Vec::new();
    let mut at: usize = 0;
    let mut first = true;
    let n: usize = bytes.len();
    proof {
        assert(byte_views(out@) =~= Seq::empty());
        assert(bytes@.take(0) =~= Seq::empty());
    }
    loop
        invariant_except_break
            byte_views(out@) == worth_parsing(*filter, complete(bytes@.take(at as int))),
            first == (complete(bytes@.take(at as int)).len() == 0),
            fragment(bytes@.take(at as int)) == Seq::<u8>::empty(),
        invariant
            n == bytes@.len(),
            at <= n,
        ensures
            byte_views(out@) == worth_parsing(
                *filter,
                complete(bytes@).push(fragment(bytes@)),
            ),
        decreases n - at,
    {
        let rest = slice_subrange(bytes, at, n);
        let ghost done = bytes@.take(at as int);
        let ghost before = byte_views(out@);
        match position(10, rest) {
            Some(nl) => {
                let piece = slice_subrange(rest, 0, nl);
                proof {
                    pieces_with_line(done, piece@);
                    assert((done + piece@).push(newline()) =~= bytes@.take(at + nl + 1));
                    assert(complete(done).push(piece@).drop_last() =~= complete(done));
                }
                if !first && piece.len() > 0 && filter.is_candidate(piece) {
                    let v = vstd::slice::slice_to_vec(piece);
                    out.push(v);
                    proof {
                        assert(byte_views(out@) =~= before.push(piece@));
                    }
                }
                first = false;
                at = at + nl + 1;
            },
            None => {
                proof {
                    crate::tailer::no_newline_in(done, rest@);
                    assert(done + rest@ =~= bytes@);
                    assert(fragment(done) + rest@ =~= rest@);
                    assert(complete(bytes@).push(rest@).drop_last() =~= complete(bytes@));
                }
                if !first && rest.len() > 0 && filter.is_candidate(rest) {
                    let v = vstd::slice::slice_to_vec(rest);
                    out.push(v);
                    proof {
                        assert(byte_views(out@) =~= before.push(rest@));
                    }
                }
                break;
            },
        }
    }
    out
}

/// A claim with its evidence.
pub open spec fn yes(evidence: Text) -> CapabilityView {
    CapabilityView::Supported { evidence }
}

/// A denial with its reason.
pub open spec fn no(reason: Text) -> CapabilityView {
    CapabilityView::Unsupported { reason }
}

/// Neither, and why.
pub open spec fn perhaps(reason: Text) -> CapabilityView {
    CapabilityView::Unknown { reason }
}

/// What is said of cache reads.
pub open spec fn cache_read_state(o: ObservedView) -> CapabilityView {
    match o.cache_read {
        Some(v) => yes("observed cache_read = "@ + dec(v as nat)),
        None => perhaps("No cached read was seen in the sample."@),
    }
}

/// What is said of cache writes.
pub open spec fn cache_write_state(o: ObservedView) -> CapabilityView {
    match o.cache_write {
        Some(v) => yes("observed cache write = "@ + dec(v as nat)),
        None => perhaps("No cache write was seen in the sample."@),
    }
}

/// What is said of the split of cache writes by time to live.
pub open spec fn cache_ttl_state(o: ObservedView) -> CapabilityView {
    match (o.cache_write_1h, o.cache_write) {
        (Some(v), _) => yes(
            "observed a 1-hour cache write of "@ + dec(v as nat)
                + ", so writes can be priced by TTL"@,
        ),
        (None, Some(_)) => no(
            "Cache writes are reported without a time-to-live breakdown, so they cannot be priced by tier and are counted at the cheaper rate."@,
        ),
        (None, None) => perhaps("No cache write was seen in the sample."@),
    }
}

/// What is said of reasoning: that every row said nothing is a finding.
pub open spec fn reasoning_state(o: ObservedView) -> CapabilityView {
    match o.reasoning {
        Some(v) => yes("observed reasoning_tokens = "@ + dec(v as nat)),
        None => if o.reasoning_absent > 0 {
            no(
                dec(o.reasoning_absent as nat)
                    + " usage records were read and none carried a reasoning-token count; this application does not report one"@,
            )
        } else {
            perhaps("Nothing was observed."@)
        },
    }
}

/// What is said of the model.
pub open spec fn model_state(o: ObservedView) -> CapabilityView {
    match o.model {
        Some(m) => yes("observed model "@ + m),
        None => no(
            "No model identifier accompanies the usage this application writes."@,
        ),
    }
}

/// What is said of sub-agents.
pub open spec fn sub_agent_state(o: ObservedView) -> CapabilityView {
    if o.sidechain {
        yes("sub-agent records were seen carrying the parent session id"@)
    } else {
        perhaps("No sub-agent activity was seen in the sample."@)
    }
}

/// What is said of launching with a session that is known beforehand.
pub open spec fn launch_state(adapter: Text) -> CapabilityView {
    if adapter == "claude_code"@ {
        yes("--session-id fixes the identity before the process starts"@)
    } else if adapter == "codex"@ {
        CapabilityView::Degraded {
            evidence: "the event stream is read from the monitor's own child process"@,
            caveat: "There is no flag to pin a session id, so a launched task binds when its stream announces one. Attribution is still exact, but it happens a moment after launch rather than before."@,
        }
    } else {
        perhaps("This application cannot be launched by the monitor."@)
    }
}

/// What is said of failures.
pub open spec fn failure_state(o: ObservedView) -> CapabilityView {
    if o.failures > 0 {
        yes(dec(o.failures as nat) + " failed request(s) observed in the sample"@)
    } else {
        perhaps("No failure was seen in the sample, which is the usual case."@)
    }
}

/// The matrix of an application that has been observed: for each capability
/// what the sample shows of it.
pub open spec fn observed_matrix(o: ObservedView, files: nat, adapter: Text) -> Seq<
    CapabilityView,
> {
    seq![
        no(
            "Usage here is billed by subscription, not per token, so there is no per-task charge to report."@,
        ),
        cache_read_state(o),
        cache_ttl_state(o),
        cache_write_state(o),
        yes(
            dec(o.usage_rows as nat) + " usage records read from "@ + dec(files)
                + " recent file(s); the counts are the provider's own, relayed verbatim"@,
        ),
        failure_state(o),
        launch_state(adapter),
        model_state(o),
        no(
            "The files this application writes contain no latency or time-to-first-token field. The interval between messages is not a substitute: it contains tool execution, retry backoff and think time."@,
        ),
        no("No cost figure appears in the files this application writes."@),
        reasoning_state(o),
        sub_agent_state(o),
    ]
}

/// The same said of every capability.
pub open spec fn uniform_matrix(c: CapabilityView) -> Seq<CapabilityView> {
    seq![c, c, c, c, c, c, c, c, c, c, c, c]
}

/// The capabilities of a list, as the contracts see them.
pub open spec fn capability_views(v: Seq<(String, CapabilityState)>) -> Seq<
    (Text, CapabilityView),
> {
    v.map_values(|c: (String, CapabilityState)| (c.0@, c.1@))
}

/// Each capability's name with what is said of it.
pub open spec fn named_matrix(states: Seq<CapabilityView>) -> Seq<(Text, CapabilityView)> {
    Seq::new(states.len(), |i: int| (capability_names()[i], states[i]))
}

/// The state of an application that was looked for.
pub open spec fn file_adapter_state(o: ObservedView, installed: bool) -> AdapterState {
    if !installed {
        AdapterState::NotInstalled
    } else if o.usage_rows == 0 {
        AdapterState::Detected
    } else {
        AdapterState::Ready
    }
}

/// What is said of each capability of an application that was looked for. One
/// that is absent claims nothing, and of one that has not been used nothing is
/// known: absence of evidence is not evidence of absence.
pub open spec fn file_adapter_matrix(
    o: ObservedView,
    files: nat,
    adapter: Text,
    installed: bool,
) -> Seq<CapabilityView> {
    if !installed {
        uniform_matrix(perhaps("This application was not found on this machine."@))
    } else if o.usage_rows == 0 {
        uniform_matrix(
            perhaps("No usage has been observed yet, so this could not be checked."@),
        )
    } else {
        observed_matrix(o, files, adapter)
    }
}

/// What else is said of an application that was looked for.
pub open spec fn file_adapter_notes(o: ObservedView, name: Text, installed: bool) -> Seq<Text> {
    if !installed {
        seq![
            name
                + " was not found. Nothing can be measured until it has run at least once."@,
        ]
    } else if o.usage_rows == 0 {
        seq![
            name
                + " is installed but has produced no usage the monitor can read yet. Run it once and this will fill in."@,
        ]
    } else if o.unclassified.is_some() {
        seq![
            "Some records report a token total without saying whether it was input or output. Those tokens are counted but cannot be priced."@,
        ]
    } else {
        Seq::empty()
    }
}

fn supported(evidence: String) -> (c: CapabilityState)
    ensures
        c@ == yes(evidence@),
{
    CapabilityState::Supported { evidence }
}

fn unsupported(reason: &str) -> (c: CapabilityState)
    ensures
        c@ == no(reason@),
{
    CapabilityState::Unsupported { reason: reason.to_owned() }
}

fn unknown(reason: &str) -> (c: CapabilityState)
    ensures
        c@ == perhaps(reason@),
{
    CapabilityState::Unknown { reason: reason.to_owned() }
}

fn with_count(before: &str, n: u64, after: &str) -> (s: String)
    ensures
        s@ == before@ + dec(n as nat) + after@,
{
    let mut s = before.to_owned();
    s.append(dec_u64(n).as_str());
    s.append(after);
    s
}

/// Each capability's name with what is said of it.
fn matrix(
    actual: CapabilityState,
    read: CapabilityState,
    ttl: CapabilityState,
    write: CapabilityState,
    exact: CapabilityState,
    failure: CapabilityState,
    launch: CapabilityState,
    model: CapabilityState,
    latency: CapabilityState,
    cost: CapabilityState,
    reasoning: CapabilityState,
    sub_agent: CapabilityState,
) -> (v: Vec<(String, CapabilityState)>)
    ensures
        capability_views(v@) == named_matrix(
            seq![
                actual@,
                read@,
                ttl@,
                write@,
                exact@,
                failure@,
                launch@,
                model@,
                latency@,
                cost@,
                reasoning@,
                sub_agent@,
            ],
        ),
{
    let mut v: Vec<(String, CapabilityState)> = Vec::new();
    let ghost states = seq![
        actual@,
        read@,
        ttl@,
        write@,
        exact@,
        failure@,
        launch@,
        model@,
        latency@,
        cost@,
        reasoning@,
        sub_agent@,
    ];
    v.push(("actual_billed_cost".to_owned(), actual));
    v.push(("cache_read_tokens".to_owned(), read));
    v.push(("cache_ttl_breakdown".to_owned(), ttl));
    v.push(("cache_write_tokens".to_owned(), write));
    v.push(("exact_token_counts".to_owned(), exact));
    v.push(("failure_visibility".to_owned(), failure));
    v.push(("launch_with_pinned_session".to_owned(), launch));
    v.push(("model_identity".to_owned(), model));
    v.push(("per_request_latency".to_owned(), latency));
    v.push(("provider_reported_cost".to_owned(), cost));
    v.push(("reasoning_tokens".to_owned(), reasoning));
    v.push(("sub_agent_attribution".to_owned(), sub_agent));
    proof {
        assert(capability_views(v@) =~= named_matrix(states));
    }
    v
}

/// The same reason for every capability, as a matrix.
pub(crate) fn uniform(denied: bool, reason: &str) -> (v: Vec<(String, CapabilityState)>)
    ensures
        capability_views(v@) == named_matrix(
            uniform_matrix(
                if denied {
                    no(reason@)
                } else {
                    perhaps(reason@)
                },
            ),
        ),
{
    let names = sorted_capabilities();
    let mut v: Vec<(String, CapabilityState)> = Vec::new();
    let ghost state = if denied {
        no(reason@)
    } else {
        perhaps(reason@)
    };
    let ghost all = named_matrix(uniform_matrix(state));
    let mut i: usize = 0;
    proof {
        assert(names@.map_values(|s: &'static str| s@).len() == 12);
        assert(capability_views(v@) =~= all.take(0));
    }
    while i < names.len()
        invariant
            names@.len() == 12,
            names@.map_values(|s: &'static str| s@) == capability_names(),
            i <= 12,
            state == if denied {
                no(reason@)
            } else {
                perhaps(reason@)
            },
            all == named_matrix(uniform_matrix(state)),
            capability_views(v@) == all.take(i as int),
        decreases 12 - i,
    {
        let c = if denied {
            unsupported(reason)
        } else {
            unknown(reason)
        };
        let ghost before = capability_views(v@);
        let name: &'static str = names[i];
        v.push((name.to_owned(), c));
        proof {
            assert(names@.map_values(|s: &'static str| s@)[i as int] == name@);
            assert(all[i as int] == (name@, state));
            assert(capability_views(v@) =~= before.push((name@, state)));
            assert(all.take(i + 1) =~= all.take(i as int).push(all[i as int]));
        }
        i += 1;
    }
    proof {
        assert(all.take(12) =~= all);
    }
    v
}

/// A description of an application.
pub(crate) fn finish(
    id: &str,
    display_name: &str,
    state: AdapterState,
    executable_path: Option<String>,
    capabilities: Vec<(String, CapabilityState)>,
    notes: Vec<String>,
) -> (d: AdapterDescriptor)
    ensures
        d.id@ == id@,
        d.display_name@ == display_name@,
        d.state == state,
        d.app_version.is_none(),
        d.adapter_version@ == "0.1.0"@,
        d.executable_path == executable_path,
        d.capabilities == capabilities,
        d.notes == notes,
{
    AdapterDescriptor {
        id: id.to_owned(),
        display_name: display_name.to_owned(),
        state,
        app_version: None,
        adapter_version: ADAPTER_VERSION.to_owned(),
        executable_path,
        capabilities,
        notes,
    }
}

fn describe_observed(adapter_id: &str, o: &Observed, files: usize) -> (v: Vec<
    (String, CapabilityState),
>)
    ensures
        capability_views(v@) == named_matrix(observed_matrix(o@, files as nat, adapter_id@)),
{
    let mut relayed = dec_u64(o.usage_rows);
    relayed.append(" usage records read from ");
    relayed.append(dec_u64(files as u64).as_str());
    relayed.append(" recent file(s); the counts are the provider's own, relayed verbatim");
    let exact = supported(relayed);
    let read = match o.cache_read {
        Some(v) => {
            let mut s = "observed cache_read = ".to_owned();
            s.append(dec_u64(v).as_str());
            supported(s)
        },
        None => unknown("No cached read was seen in the sample."),
    };
    let write = match o.cache_write {
        Some(v) => {
            let mut s = "observed cache write = ".to_owned();
            s.append(dec_u64(v).as_str());
            supported(s)
        },
        None => unknown("No cache write was seen in the sample."),
    };
    let ttl = match o.cache_write_1h {
        Some(v) => supported(
            with_count(
                "observed a 1-hour cache write of ",
                v,
                ", so writes can be priced by TTL",
            ),
        ),
        None => if o.cache_write.is_some() {
            unsupported(
                "Cache writes are reported without a time-to-live breakdown, so they cannot be priced by tier and are counted at the cheaper rate.",
            )
        } else {
            unknown("No cache write was seen in the sample.")
        },
    };
    let reasoning = match o.reasoning {
        Some(v) => {
            let mut s = "observed reasoning_tokens = ".to_owned();
            s.append(dec_u64(v).as_str());
            supported(s)
        },
        None => if o.reasoning_absent > 0 {
            let mut s = dec_u64(o.reasoning_absent);
            s.append(
                " usage records were read and none carried a reasoning-token count; this application does not report one",
            );
            unsupported(s.as_str())
        } else {
            unknown("Nothing was observed.")
        },
    };
    let model = match &o.model {
        Some(m) => {
            let mut s = "observed model ".to_owned();
            s.append(m.as_str());
            supported(s)
        },
        None => unsupported(
            "No model identifier accompanies the usage this application writes.",
        ),
    };
    let sub_agent = if o.sidechain {
        supported("sub-agent records were seen carrying the parent session id".to_owned())
    } else {
        unknown("No sub-agent activity was seen in the sample.")
    };
    let launch = if str_eq(adapter_id, "claude_code") {
        supported("--session-id fixes the identity before the process starts".to_owned())
    } else if str_eq(adapter_id, "codex") {
        CapabilityState::Degraded {
            evidence: "the event stream is read from the monitor's own child process".to_owned(),
            caveat: "There is no flag to pin a session id, so a launched task binds when its stream announces one. Attribution is still exact, but it happens a moment after launch rather than before.".to_owned(),
        }
    } else {
        unknown("This application cannot be launched by the monitor.")
    };
    let failure = if o.failures > 0 {
        let mut s = dec_u64(o.failures);
        s.append(" failed request(s) observed in the sample");
        supported(s)
    } else {
        unknown("No failure was seen in the sample, which is the usual case.")
    };
    matrix(
        unsupported(
            "Usage here is billed by subscription, not per token, so there is no per-task charge to report.",
        ),
        read,
        ttl,
        write,
        exact,
        failure,
        launch,
        model,
        unsupported(
            "The files this application writes contain no latency or time-to-first-token field. The interval between messages is not a substitute: it contains tool execution, retry backoff and think time.",
        ),
        unsupported("No cost figure appears in the files this application writes."),
        reasoning,
        sub_agent,
    )
}

/// The description of an application whose files are read.
pub open spec fn describes_file_adapter(
    d: AdapterDescriptor,
    adapter: Text,
    name: Text,
    result: Observed2,
    executable: Option<String>,
    installed: bool,
) -> bool {
    &&& d.id@ == adapter
    &&& d.display_name@ == name
    &&& d.state == file_adapter_state(result.observed@, installed)
    &&& d.app_version.is_none()
    &&& d.adapter_version@ == "0.1.0"@
    &&& d.executable_path == executable
    &&& capability_views(d.capabilities@) == named_matrix(
        file_adapter_matrix(result.observed@, result.files_sampled as nat, adapter, installed),
    )
    &&& texts(d.notes@) == file_adapter_notes(result.observed@, name, installed)
}

/// Turn observations into a description of an application.
pub fn describe_file_adapter(
    adapter_id: &str,
    display_name: &str,
    result: &Observed2,
    executable: Option<String>,
    installed: bool,
) -> (d: AdapterDescriptor)
    ensures
        describes_file_adapter(d, adapter_id@, display_name@, *result, executable, installed),
{
    let o = &result.observed;
    let mut notes: Vec<String> = Vec::new();
    if !installed {
        let mut s = display_name.to_owned();
        s.append(" was not found. Nothing can be measured until it has run at least once.");
        notes.push(s);
        proof {
            assert(texts(notes@) =~= file_adapter_notes(o@, display_name@, installed));
        }
        return finish(
            adapter_id,
            display_name,
            AdapterState::NotInstalled,
            executable,
            uniform(false, "This application was not found on this machine."),
            notes,
        );
    }
    if o.usage_rows == 0 {
        let mut s = display_name.to_owned();
        s.append(
            " is installed but has produced no usage the monitor can read yet. Run it once and this will fill in.",
        );
        notes.push(s);
        proof {
            assert(texts(notes@) =~= file_adapter_notes(o@, display_name@, installed));
        }
        return finish(
            adapter_id,
            display_name,
            AdapterState::Detected,
            executable,
            uniform(false, "No usage has been observed yet, so this could not be checked."),
            notes,
        );
    }
    if o.unclassified.is_some() {
        notes.push(
            "Some records report a token total without saying whether it was input or output. Those tokens are counted but cannot be priced.".to_owned(),
        );
    }
    proof {
        assert(texts(notes@) =~= file_adapter_notes(o@, display_name@, installed));
    }
    let capabilities = describe_observed(adapter_id, o, result.files_sampled);
    finish(adapter_id, display_name, AdapterState::Ready, executable, capabilities, notes)
}

/// What the desktop application records.
pub open spec fn desktop_records() -> Text {
    title("claude_desktop"@)
        + " records only plan-limit percentages for five-hour and seven-day windows. There is no token, model or per-conversation data to read."@
}

/// What to do instead.
pub open spec fn desktop_advice() -> Text {
    "To measure a "@ + title(first_word("claude_desktop"@)) + " session's tokens, use "@ + title(
        "claude_code"@,
    ) + ", or route an API client through the local proxy."@
}

/// The description of `claude_desktop`.
pub open spec fn describes_desktop(d: AdapterDescriptor, installed: bool) -> bool {
    &&& d.id@ == "claude_desktop"@
    &&& d.display_name@ == title("claude_desktop"@)
    &&& d.state == if installed {
        AdapterState::Detected
    } else {
        AdapterState::NotInstalled
    }
    &&& d.app_version.is_none()
    &&& d.adapter_version@ == "0.1.0"@
    &&& d.executable_path.is_none()
    &&& capability_views(d.capabilities@) == named_matrix(
        uniform_matrix(
            no(desktop_records()),
        ),
    )
    &&& texts(d.notes@) == seq![
        "Detected, but no token telemetry exists to collect."@,
        "Its only usage artifact is a sampler of plan-limit percentages, which cannot be converted into a token count by any defensible means."@,
        desktop_advice(),
    ]
}

/// The desktop application, which can tell nothing: its only quantitative artefact is a
/// sampler of plan-limit percentages, and no count follows from those. Saying so
/// is more useful than leaving the application out.
pub fn describe_claude_desktop(installed: bool) -> (d: AdapterDescriptor)
    ensures
        describes_desktop(d, installed),
{
    let name = title_of("claude_desktop");
    let mut records = name.clone();
    records.append(
        " records only plan-limit percentages for five-hour and seven-day windows. There is no token, model or per-conversation data to read.",
    );
    let capabilities = uniform(true, records.as_str());
    let mut advice = "To measure a ".to_owned();
    advice.append(title_of(first_word_of("claude_desktop")).as_str());
    advice.append(" session's tokens, use ");
    advice.append(title_of("claude_code").as_str());
    advice.append(", or route an API client through the local proxy.");
    let mut notes: Vec<String> = Vec::new();
    notes.push("Detected, but no token telemetry exists to collect.".to_owned());
    notes.push(
        "Its only usage artifact is a sampler of plan-limit percentages, which cannot be converted into a token count by any defensible means.".to_owned(),
    );
    notes.push(advice);
    proof {
        assert(texts(notes@) =~= seq![
            "Detected, but no token telemetry exists to collect."@,
            "Its only usage artifact is a sampler of plan-limit percentages, which cannot be converted into a token count by any defensible means."@,
            desktop_advice(),
        ]);
    }
    finish(
        "claude_desktop",
        name.as_str(),
        if installed {
            AdapterState::Detected
        } else {
            AdapterState::NotInstalled
        },
        None,
        capabilities,
        notes,
    )
}

/// Every capability is reported for every application, each once and under its
/// name: a missing row would read as "not applicable" when it means "not
/// checked".
pub proof fn law_every_capability_is_reported(
    o: ObservedView,
    files: nat,
    adapter: Text,
    installed: bool,
    i: int,
)
    requires
        0 <= i < capability_names().len(),
    ensures
        named_matrix(file_adapter_matrix(o, files, adapter, installed)).len()
            == capability_names().len(),
        named_matrix(file_adapter_matrix(o, files, adapter, installed))[i].0
            == capability_names()[i],
{
}

/// A report names exactly the capabilities that there are.
pub proof fn law_reports_name_all_capabilities()
    ensures
        capability_names().len() == all_capabilities().len(),
        forall|name: Text|
            capability_names().contains(name) <==> #[trigger] all_capabilities().contains(name),
{
    let a = capability_names();
    let b = all_capabilities();
    assert(b[0] == a[4]);
    assert(b[1] == a[1]);
    assert(b[2] == a[3]);
    assert(b[3] == a[2]);
    assert(b[4] == a[10]);
    assert(b[5] == a[7]);
    assert(b[6] == a[8]);
    assert(b[7] == a[9]);
    assert(b[8] == a[0]);
    assert(b[9] == a[11]);
    assert(b[10] == a[6]);
    assert(b[11] == a[5]);
    assert forall|name: Text| a.contains(name) <==> #[trigger] b.contains(name) by {
        if a.contains(name) {
            let i = a.index_of(name);
            assert(b.contains(a[i]));
        }
    }
}

/// Nothing is claimed of an application that is absent or that has not been
/// used, and nothing is denied either.
pub proof fn law_no_evidence_means_unknown(
    o: ObservedView,
    files: nat,
    adapter: Text,
    installed: bool,
    i: int,
)
    requires
        !installed || o.usage_rows == 0,
        0 <= i < capability_names().len(),
    ensures
        file_adapter_matrix(o, files, adapter, installed)[i] is Unknown,
{
}

/// Zero is not evidence: a count is noted only where it is not zero, and what
/// is noted never goes down.
pub proof fn law_only_counts_are_evidence(slot: Option<u64>, value: u64)
    ensures
        slot.is_none() && value == 0 ==> noted(slot, value).is_none(),
        slot.is_some() ==> noted(slot, value).is_some() && noted(slot, value).unwrap()
            >= slot.unwrap() && noted(slot, value).unwrap() >= value,
{
}

/// What a measurement shows is noted field by field: the largest count of each
/// kind, how many measurements there were and how many of them said nothing of
/// reasoning, the first model, and whether any was a sub-agent's.
pub proof fn law_a_measurement_is_noted_field_by_field(o: ObservedView, u: UsageSignalView)
    requires
        o.usage_rows < u64::MAX,
        o.reasoning_absent < u64::MAX,
        u.usage.cache_write_5m + u.usage.cache_write_1h + u.usage.cache_write_unspecified
            <= u64::MAX,
    ensures
        ({
            let n = after_signal(o, SignalView::Usage(u));
            &&& n.lines == o.lines
            &&& n.usage_rows == o.usage_rows + 1
            &&& n.failures == o.failures
            &&& n.sidechain <==> o.sidechain || u.is_sidechain
            &&& o.model.is_some() ==> n.model == o.model
            &&& o.model.is_none() ==> n.model == u.model_id
            &&& n.reasoning_absent == o.reasoning_absent + if u.usage.reasoning.is_none() {
                1int
            } else {
                0
            }
            &&& notes_largest(o.cache_read, u.usage.cache_read as int, n.cache_read)
            &&& notes_largest(
                o.cache_write,
                u.usage.cache_write_5m + u.usage.cache_write_1h + u.usage.cache_write_unspecified,
                n.cache_write,
            )
            &&& notes_largest(o.cache_write_1h, u.usage.cache_write_1h as int, n.cache_write_1h)
            &&& notes_largest(o.unclassified, u.usage.unclassified as int, n.unclassified)
            &&& u.usage.reasoning.is_some() ==> notes_largest(
                o.reasoning,
                u.usage.reasoning.unwrap() as int,
                n.reasoning,
            )
            &&& u.usage.reasoning.is_none() ==> n.reasoning == o.reasoning
        }),
{
}

/// What is noted is the larger of what was and what is seen now, and zero is not
/// noted.
pub open spec fn notes_largest(was: Option<u64>, seen: int, is: Option<u64>) -> bool {
    &&& was.is_none() && seen == 0 ==> is.is_none()
    &&& was.is_none() && seen > 0 ==> is.is_some() && is.unwrap() == seen
    &&& was.is_some() && seen <= was.unwrap() ==> is == was
    &&& was.is_some() && seen > was.unwrap() ==> is.is_some() && is.unwrap() == seen
}

/// A line counts once, whatever it tells; a failed request counts as one, a model
/// is noted where none was, and a line that tells nothing shows nothing more.
pub proof fn law_every_line_of_a_sample_counts(
    o: ObservedView,
    outcome: ParseOutcomeView,
    session: Text,
    model: Text,
)
    requires
        o.lines < u64::MAX,
        o.failures < u64::MAX,
    ensures
        !(outcome is Signals) ==> after_line(o, outcome) == (ObservedView {
            lines: (o.lines + 1) as u64,
            ..o
        }),
        outcome is Signals && outcome->Signals_0.len() == 0 ==> after_line(o, outcome) == (
        ObservedView { lines: (o.lines + 1) as u64, ..o }),
        o.model.is_none() ==> after_signal(
            o,
            SignalView::ModelDeclared { session_id: session, model_id: model },
        ).model == Some(model),
        o.model.is_some() ==> after_signal(
            o,
            SignalView::ModelDeclared { session_id: session, model_id: model },
        ) == o,
{
}

/// The signals of a line are noted one after another.
pub proof fn law_signals_are_noted_in_turn(
    o: ObservedView,
    signals: Seq<SignalView>,
    s: SignalView,
)
    ensures
        after_signals(o, Seq::empty()) == o,
        after_signals(o, signals.push(s)) == after_signal(after_signals(o, signals), s),
        s is RequestFailed && o.failures < u64::MAX ==> after_signal(o, s) == (ObservedView {
            failures: (o.failures + 1) as u64,
            ..o
        }),
{
    assert(signals.push(s).drop_last() =~= signals);
}

/// At most five files are sampled, and they are the newest: none that is left out
/// is newer than one that is taken.
pub proof fn law_the_newest_files_are_sampled(files: Seq<(Text, i128)>)
    ensures
        most_recent(files).len() == if newest_first(files).len() <= 5 {
            newest_first(files).len() as int
        } else {
            5
        },
        forall|i: int|
            0 <= i < most_recent(files).len() ==> #[trigger] most_recent(files)[i] == newest_first(
                files,
            )[i].0,
{
}

/// Of a sample every piece but the first is parsed, where it is not empty and
/// passes the test; the first is cut off and is not.
pub proof fn law_all_but_the_first_piece_is_parsed<A: Prefilter>(
    filter: A,
    pieces: Seq<Seq<u8>>,
    piece: Seq<u8>,
)
    ensures
        worth_parsing(filter, Seq::empty()) == Seq::<Seq<u8>>::empty(),
        pieces.len() == 0 ==> worth_parsing(filter, pieces.push(piece)) == Seq::<Seq<u8>>::empty(),
        pieces.len() > 0 && piece.len() > 0 && filter.admits(piece) ==> worth_parsing(
            filter,
            pieces.push(piece),
        ) == worth_parsing(filter, pieces).push(piece),
        pieces.len() > 0 && (piece.len() == 0 || !filter.admits(piece)) ==> worth_parsing(
            filter,
            pieces.push(piece),
        ) == worth_parsing(filter, pieces),
{
    let all = pieces.push(piece);
    assert(all.drop_last() =~= pieces);
    assert(all.last() == piece);
    assert(all.len() == pieces.len() + 1);
    assert(worth_parsing(filter, all) == if all.len() > 1 && piece.len() > 0 && filter.admits(
        piece,
    ) {
        worth_parsing(filter, pieces).push(piece)
    } else {
        worth_parsing(filter, pieces)
    });
    if pieces.len() == 0 {
        assert(pieces =~= Seq::<Seq<u8>>::empty());
        assert(worth_parsing(filter, pieces) =~= Seq::<Seq<u8>>::empty());
    }
}

/// What is claimed of an application that was observed follows from what was
/// seen, capability by capability: a count that was seen is claimed, one that was
/// not is left open, and only what real records never carried is denied.
pub proof fn law_claims_follow_from_what_was_seen(o: ObservedView, files: nat, adapter: Text)
    requires
        o.usage_rows > 0,
    ensures
        ({
            let m = named_matrix(file_adapter_matrix(o, files, adapter, true));
            &&& m.len() == 12
            &&& m[0].0 == "actual_billed_cost"@ && m[0].1 is Unsupported
            &&& m[1].0 == "cache_read_tokens"@
            &&& m[1].1 is Supported <==> o.cache_read.is_some()
            &&& m[1].1 is Unknown <==> o.cache_read.is_none()
            &&& m[2].0 == "cache_ttl_breakdown"@
            &&& m[2].1 is Supported <==> o.cache_write_1h.is_some()
            &&& m[2].1 is Unsupported <==> o.cache_write_1h.is_none() && o.cache_write.is_some()
            &&& m[3].0 == "cache_write_tokens"@
            &&& m[3].1 is Supported <==> o.cache_write.is_some()
            &&& m[3].1 is Unknown <==> o.cache_write.is_none()
            &&& m[4].0 == "exact_token_counts"@ && m[4].1 is Supported
            &&& m[5].0 == "failure_visibility"@
            &&& m[5].1 is Supported <==> o.failures > 0
            &&& m[5].1 is Unknown <==> o.failures == 0
            &&& m[6].0 == "launch_with_pinned_session"@
            &&& m[6].1 is Supported <==> adapter == "claude_code"@
            &&& adapter == "codex"@ ==> m[6].1 is Degraded
            &&& m[7].0 == "model_identity"@
            &&& m[7].1 is Supported <==> o.model.is_some()
            &&& m[8].0 == "per_request_latency"@ && m[8].1 is Unsupported
            &&& m[9].0 == "provider_reported_cost"@ && m[9].1 is Unsupported
            &&& m[10].0 == "reasoning_tokens"@
            &&& m[10].1 is Supported <==> o.reasoning.is_some()
            &&& m[10].1 is Unsupported <==> o.reasoning.is_none() && o.reasoning_absent > 0
            &&& m[11].0 == "sub_agent_attribution"@
            &&& m[11].1 is Supported <==> o.sidechain
            &&& m[11].1 is Unknown <==> !o.sidechain
        }),
{
    reveal_strlit("claude_code");
    reveal_strlit("codex");
    assert("claude_code"@.len() != "codex"@.len());
}

/// An application is ready where it was found and has been measured, detected
/// where it was only found, and not installed where it was not.
pub proof fn law_an_application_is_ready_once_measured(o: ObservedView, installed: bool)
    ensures
        file_adapter_state(o, installed) == AdapterState::Ready <==> installed && o.usage_rows > 0,
        file_adapter_state(o, installed) == AdapterState::Detected <==> installed && o.usage_rows
            == 0,
        file_adapter_state(o, installed) == AdapterState::NotInstalled <==> !installed,
{
}

/// The evidence of a claim is what was seen of that very thing.
pub proof fn law_evidence_is_what_was_seen(o: ObservedView, files: nat, adapter: Text)
    requires
        o.usage_rows > 0,
    ensures
        ({
            let m = file_adapter_matrix(o, files, adapter, true);
            &&& o.cache_read.is_some() ==> m[1] == (CapabilityView::Supported {
                evidence: "observed cache_read = "@ + dec(o.cache_read.unwrap() as nat),
            })
            &&& o.cache_write.is_some() ==> m[3] == (CapabilityView::Supported {
                evidence: "observed cache write = "@ + dec(o.cache_write.unwrap() as nat),
            })
            &&& o.cache_write_1h.is_some() ==> m[2] == (CapabilityView::Supported {
                evidence: "observed a 1-hour cache write of "@ + dec(
                    o.cache_write_1h.unwrap() as nat,
                ) + ", so writes can be priced by TTL"@,
            })
            &&& m[4] == (CapabilityView::Supported {
                evidence: dec(o.usage_rows as nat) + " usage records read from "@ + dec(files)
                    + " recent file(s); the counts are the provider's own, relayed verbatim"@,
            })
            &&& o.failures > 0 ==> m[5] == (CapabilityView::Supported {
                evidence: dec(o.failures as nat) + " failed request(s) observed in the sample"@,
            })
            &&& o.model.is_some() ==> m[7] == (CapabilityView::Supported {
                evidence: "observed model "@ + o.model.unwrap(),
            })
            &&& o.reasoning.is_some() ==> m[10] == (CapabilityView::Supported {
                evidence: "observed reasoning_tokens = "@ + dec(o.reasoning.unwrap() as nat),
            })
            &&& o.reasoning.is_none() && o.reasoning_absent > 0 ==> m[10]
                == (CapabilityView::Unsupported {
                reason: dec(o.reasoning_absent as nat)
                    + " usage records were read and none carried a reasoning-token count; this application does not report one"@,
            })
        }),
{
}

/// One note is made of an application that is missing or unused, by its name, and
/// one where tokens were seen that cannot be priced; otherwise none.
pub proof fn law_notes_say_what_is_missing(o: ObservedView, name: Text, installed: bool)
    ensures
        !installed || o.usage_rows == 0 ==> file_adapter_notes(o, name, installed).len() == 1
            && file_adapter_notes(o, name, installed)[0].take(name.len() as int) == name,
        installed && o.usage_rows > 0 ==> file_adapter_notes(o, name, installed).len()
            == if o.unclassified.is_some() {
            1int
        } else {
            0
        },
{
    if !installed || o.usage_rows == 0 {
        assert(file_adapter_notes(o, name, installed)[0].take(name.len() as int) =~= name);
    }
}

/// Where to begin reading a file of a size.
pub open spec fn tail_from(size: u64) -> u64 {
    if size > SAMPLE_BYTES {
        (size - SAMPLE_BYTES) as u64
    } else {
        0
    }
}

/// Of a file its last half mebibyte is sampled, or all of it where it is smaller.
pub proof fn law_the_end_of_a_file_is_sampled(size: u64)
    ensures
        size <= 524_288 ==> tail_from(size) == 0,
        size > 524_288 ==> tail_from(size) + 524_288 == size,
{
}

/// What was observed is seen by the contracts as it is, field by field.
pub proof fn law_an_observation_is_seen_as_it_is(o: Observed)
    ensures
        o@.lines == o.lines,
        o@.usage_rows == o.usage_rows,
        o@.cache_read == o.cache_read,
        o@.cache_write == o.cache_write,
        o@.cache_write_1h == o.cache_write_1h,
        o@.reasoning == o.reasoning,
        o@.reasoning_absent == o.reasoning_absent,
        o@.sidechain == o.sidechain,
        o@.failures == o.failures,
        o@.unclassified == o.unclassified,
        o@.model == opt_text(o.model),
{
}

/// A matrix names each capability beside what is said of it.
pub proof fn law_a_matrix_is_seen_as_it_is(
    v: Seq<(String, CapabilityState)>,
    states: Seq<CapabilityView>,
    i: int,
)
    ensures
        capability_views(v).len() == v.len(),
        0 <= i < v.len() ==> capability_views(v)[i] == (v[i].0@, v[i].1@),
        0 <= i < v.len() ==> (v[i].1 is Supported <==> capability_views(v)[i].1 is Supported),
        0 <= i < v.len() ==> (v[i].1 is Unsupported <==> capability_views(v)[i].1 is Unsupported),
        0 <= i < v.len() ==> (v[i].1 is Unknown <==> capability_views(v)[i].1 is Unknown),
        0 <= i < states.len() ==> named_matrix(states)[i].1 == states[i],
{
}

} // verus!
