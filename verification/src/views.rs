//! Turning stored rows into what is shown of a session.
use vstd::prelude::*;
use vstd::string::StringExecFns;

use crate::dto::{AdapterDescriptor, SessionSummary};
pub use crate::launch::CODEX_BUNDLED_PATH;
use crate::launch::{discover, first_file, places_of};
use crate::measurement::{
    clamp_u64, AccuracyView, Measured, MeasuredView, MeasurementSource,
};
use crate::metrics::{as_u32, no_reasoning, requests_of, unreported_reasoning};
use crate::names::{title, title_of};
use crate::paths::{
    begins_with, extension_of, file_name, file_name_of, has_extension, starts_with,
};
use crate::prices::{as_u64, count_of};
use crate::probe::{
    describe_claude_desktop, describe_file_adapter, describes_desktop, describes_file_adapter,
    Observed2,
};
use crate::repo::SessionTotals;
use crate::text::{dec, dec_u64, opt_text};
use crate::tokens::TokenBands;

verus! {

/// The buckets that a session's stored totals hold.
pub open spec fn session_bands(t: SessionTotals) -> TokenBands {
    TokenBands {
        input_fresh: count_of(t.input_fresh),
        cache_read: count_of(t.cache_read),
        cache_write_5m: count_of(t.cache_write_5m),
        cache_write_1h: count_of(t.cache_write_1h),
        cache_write_unspecified: count_of(t.cache_write_unspecified),
        output_total: count_of(t.output_total),
        reasoning: match t.reasoning {
            Some(r) => Some(count_of(r)),
            None => None,
        },
        unclassified: count_of(t.unclassified),
    }
}

/// A session's reasoning tokens: exact where every request reports them, and
/// else a floor over those that do.
pub open spec fn session_reasoning(t: SessionTotals) -> MeasuredView<u64> {
    let requests = requests_of(t.requests);
    let reported_by = requests_of(t.reasoning_reported_by);
    match t.reasoning {
        None => no_reasoning(),
        Some(v) => if reported_by >= requests {
            MeasuredView {
                value: Some(count_of(v)),
                accuracy: AccuracyView::Exact { source: MeasurementSource::ProviderReported },
            }
        } else {
            MeasuredView {
                value: Some(count_of(v)),
                accuracy: AccuracyView::Partial {
                    measured: reported_by,
                    total: requests,
                    reason: dec(reported_by as nat) + " of "@ + dec(requests as nat)
                        + " requests report reasoning tokens"@,
                },
            }
        },
    }
}

/// One recorded session, with its certainty attached.
pub fn session_summary(t: SessionTotals) -> (s: SessionSummary)
    ensures
        s.session_id == t.session_id,
        s.adapter_id == t.adapter_id,
        s.model_id == t.model_id,
        s.requests == requests_of(t.requests),
        s.bands == session_bands(t),
        s.total_tokens@ == (MeasuredView {
            value: Some(clamp_u64(session_bands(t).total())),
            accuracy: AccuracyView::Exact { source: MeasurementSource::ProviderReported },
        }),
        s.reasoning_tokens@ == session_reasoning(t),
        s.reasoning_tokens.wf(),
        s.first_at == t.first_at,
        s.last_at == t.last_at,
        s.unattributed == t.unattributed,
        summarizes(t, s),
{
    let bands = TokenBands {
        input_fresh: as_u64(t.input_fresh),
        cache_read: as_u64(t.cache_read),
        cache_write_5m: as_u64(t.cache_write_5m),
        cache_write_1h: as_u64(t.cache_write_1h),
        cache_write_unspecified: as_u64(t.cache_write_unspecified),
        output_total: as_u64(t.output_total),
        reasoning: match t.reasoning {
            Some(r) => Some(as_u64(r)),
            None => None,
        },
        unclassified: as_u64(t.unclassified),
    };
    let requests: u32 = as_u32(t.requests);
    let reported_by: u32 = as_u32(t.reasoning_reported_by);
    let total_tokens = Measured::exact(bands.grand_total(), MeasurementSource::ProviderReported);
    let reasoning_tokens = match t.reasoning {
        None => unreported_reasoning(),
        Some(v) => {
            if reported_by >= requests {
                Measured::exact(as_u64(v), MeasurementSource::ProviderReported)
            } else {
                let mut reason = dec_u64(reported_by as u64);
                reason.append(" of ");
                reason.append(dec_u64(requests as u64).as_str());
                reason.append(" requests report reasoning tokens");
                Measured::partial(as_u64(v), reported_by, requests, reason)
            }
        },
    };
    SessionSummary {
        session_id: t.session_id,
        adapter_id: t.adapter_id,
        model_id: t.model_id,
        requests,
        bands,
        total_tokens,
        reasoning_tokens,
        first_at: t.first_at,
        last_at: t.last_at,
        unattributed: t.unattributed,
    }
}

/// Whether a path is that of a transcript.
pub fn is_jsonl(path: &str) -> (b: bool)
    ensures
        b == (extension_of(path@) == Some("jsonl"@)),
{
    has_extension(path, "jsonl")
}

/// Whether a path is that of a Codex transcript.
pub fn is_rollout(path: &str) -> (b: bool)
    ensures
        b == (extension_of(path@) == Some("jsonl"@) && match file_name_of(path@) {
            Some(name) => begins_with(name, "rollout-"@),
            None => false,
        }),
{
    if !is_jsonl(path) {
        return false;
    }
    match file_name(path) {
        Some(name) => starts_with(name, "rollout-"),
        None => false,
    }
}

/// Where an agent's executable is: the first of its [`candidates`] at which
/// there is a file, where `is_file` says so of each of them.
///
/// [`candidates`]: crate::launch::candidates
pub fn discover_executable(program: &str, path: &Option<String>, is_file: &Vec<bool>) -> (r: Option<
    String,
>)
    requires
        is_file@.len() == places_of(program@, opt_text(*path)).len(),
    ensures
        opt_text(r) == first_file(places_of(program@, opt_text(*path)), is_file@),
{
    discover(program, path, is_file)
}

/// What was found of an application whose files are read.
#[derive(Debug, Clone)]
pub struct FileApp {
    pub observed: Observed2,
    pub executable: Option<String>,
    pub directory_exists: bool,
}

/// What is shown of each application: the two whose files are read, and
/// `claude_desktop`.
pub fn describe_adapters(
    claude_code: FileApp,
    codex: FileApp,
    claude_desktop_installed: bool,
) -> (v: Vec<AdapterDescriptor>)
    ensures
        v@.len() == 3,
        describes_file_adapter(
            v@[0],
            "claude_code"@,
            title("claude_code"@),
            claude_code.observed,
            claude_code.executable,
            claude_code.directory_exists,
        ),
        describes_file_adapter(
            v@[1],
            "codex"@,
            "Codex"@,
            codex.observed,
            codex.executable,
            codex.directory_exists,
        ),
        describes_desktop(v@[2], claude_desktop_installed),
{
    let mut v: Vec<AdapterDescriptor> = Vec::new();
    v.push(
        describe_file_adapter(
            "claude_code",
            title_of("claude_code").as_str(),
            &claude_code.observed,
            claude_code.executable,
            claude_code.directory_exists,
        ),
    );
    v.push(
        describe_file_adapter(
            "codex",
            "Codex",
            &codex.observed,
            codex.executable,
            codex.directory_exists,
        ),
    );
    v.push(describe_claude_desktop(claude_desktop_installed));
    v
}

/// A session's stored counts go into the buckets of the same names.
pub proof fn law_session_columns_keep_their_buckets(t: SessionTotals)
    ensures
        t.input_fresh >= 0 ==> session_bands(t).input_fresh == t.input_fresh,
        t.input_fresh < 0 ==> session_bands(t).input_fresh == 0,
        t.cache_read >= 0 ==> session_bands(t).cache_read == t.cache_read,
        t.cache_read < 0 ==> session_bands(t).cache_read == 0,
        t.cache_write_5m >= 0 ==> session_bands(t).cache_write_5m == t.cache_write_5m,
        t.cache_write_5m < 0 ==> session_bands(t).cache_write_5m == 0,
        t.cache_write_1h >= 0 ==> session_bands(t).cache_write_1h == t.cache_write_1h,
        t.cache_write_1h < 0 ==> session_bands(t).cache_write_1h == 0,
        t.cache_write_unspecified >= 0 ==> session_bands(t).cache_write_unspecified == t.cache_write_unspecified,
        t.cache_write_unspecified < 0 ==> session_bands(t).cache_write_unspecified == 0,
        t.output_total >= 0 ==> session_bands(t).output_total == t.output_total,
        t.output_total < 0 ==> session_bands(t).output_total == 0,
        t.unclassified >= 0 ==> session_bands(t).unclassified == t.unclassified,
        t.unclassified < 0 ==> session_bands(t).unclassified == 0,
        t.reasoning.is_some() == session_bands(t).reasoning.is_some(),
        t.reasoning.is_some() && t.reasoning.unwrap() >= 0 ==> session_bands(t).reasoning.unwrap()
            == t.reasoning.unwrap(),
{
}

/// A session's reasoning is the number that was reported; it is exact where every
/// request reports it, a floor that says how many do where only some do, and
/// unavailable where none does.
pub proof fn law_session_reasoning_says_who_reports_it(t: SessionTotals)
    requires
        0 <= t.requests <= u32::MAX,
        0 <= t.reasoning_reported_by <= u32::MAX,
    ensures
        t.reasoning.is_none() <==> session_reasoning(t).value.is_none(),
        t.reasoning.is_some() && t.reasoning.unwrap() >= 0 ==> session_reasoning(t).value.unwrap()
            == t.reasoning.unwrap(),
        t.reasoning.is_some() && t.reasoning_reported_by >= t.requests ==> session_reasoning(
            t,
        ).accuracy is Exact,
        t.reasoning.is_some() && t.reasoning_reported_by < t.requests ==> session_reasoning(
            t,
        ).accuracy is Partial && session_reasoning(t).accuracy->measured == t.reasoning_reported_by
            && session_reasoning(t).accuracy->total == t.requests,
{
}

/// What is shown of a recorded session.
pub open spec fn summarizes(t: SessionTotals, s: SessionSummary) -> bool {
    &&& s.session_id == t.session_id
    &&& s.adapter_id == t.adapter_id
    &&& s.model_id == t.model_id
    &&& s.requests == requests_of(t.requests)
    &&& s.bands == session_bands(t)
    &&& s.total_tokens@ == MeasuredView {
        value: Some(clamp_u64(session_bands(t).total())),
        accuracy: AccuracyView::Exact { source: MeasurementSource::ProviderReported },
    }
    &&& s.reasoning_tokens@ == session_reasoning(t)
    &&& s.first_at == t.first_at
    &&& s.last_at == t.last_at
    &&& s.unattributed == t.unattributed
}

/// What is shown of a session is its own, and its total is all of its tokens.
pub proof fn law_a_summary_is_the_sessions_own(t: SessionTotals, s: SessionSummary)
    requires
        summarizes(t, s),
        0 <= t.requests <= u32::MAX,
        t.input_fresh >= 0 && t.cache_read >= 0 && t.cache_write_5m >= 0 && t.cache_write_1h >= 0,
        t.cache_write_unspecified >= 0 && t.output_total >= 0 && t.unclassified >= 0,
        t.input_fresh + t.cache_read + t.cache_write_5m + t.cache_write_1h
            + t.cache_write_unspecified + t.output_total + t.unclassified <= u64::MAX,
    ensures
        s.session_id == t.session_id,
        s.adapter_id == t.adapter_id,
        s.model_id == t.model_id,
        s.requests == t.requests,
        s.first_at == t.first_at,
        s.last_at == t.last_at,
        s.unattributed == t.unattributed,
        s.total_tokens.value.is_some(),
        s.total_tokens.value.unwrap() == t.input_fresh + t.cache_read + t.cache_write_5m
            + t.cache_write_1h + t.cache_write_unspecified + t.output_total + t.unclassified,
        s.reasoning_tokens.value.is_none() <==> t.reasoning.is_none(),
{
    assert(s.total_tokens@.value == s.total_tokens.value);
    assert(s.reasoning_tokens@.value == s.reasoning_tokens.value);
}

} // verus!
