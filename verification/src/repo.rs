//! What is stored of a request, and how observations of it are merged.
use vstd::prelude::*;

use crate::reconcile::clamp_i64;
use crate::text::{copy_opt, Text};
use crate::time::Timestamp;
use crate::token_usage::TokenUsage;
use crate::tokens::TokenBands;

verus! {

/// A usage observation ready to be persisted.
#[derive(Debug, Clone, PartialEq)]
pub struct UsageRecord {
    pub adapter_id: String,
    pub session_id: String,
    /// The identity that makes reading again safe.
    pub dedup_key: String,
    pub model_id: Option<String>,
    pub occurred_at: Timestamp,
    pub measurement_source: String,
    pub request_kind: String,
    pub usage: TokenUsage,
    pub is_sidechain: bool,
    pub agent_id: Option<String>,
    pub agent_type: Option<String>,
    /// The provider's own counts, kept as the audit trail.
    pub raw_json: Option<String>,
}

/// How a request's row was affected.
#[derive(Debug, Clone, Copy, PartialEq, Eq, Structural)]
pub enum UpsertOutcome {
    /// First sighting.
    Inserted,
    /// Already known, and at least one count grew.
    Updated,
    /// Already known with identical or larger counts.
    Unchanged,
}

/// The token columns of a request's row.
#[derive(Debug, Clone, Copy, PartialEq, Eq, Structural)]
pub struct UsageRow {
    pub input_fresh: i64,
    pub cache_read: i64,
    pub cache_write_5m: i64,
    pub cache_write_1h: i64,
    pub cache_write_unspecified: i64,
    pub output_total: i64,
    pub reasoning: Option<i64>,
    pub unclassified: i64,
}

/// Aggregate token counts for a task.
#[derive(Debug, Clone, PartialEq, Eq)]
pub struct TaskTotals {
    pub requests: i64,
    pub input_fresh: i64,
    pub cache_read: i64,
    pub cache_write_5m: i64,
    pub cache_write_1h: i64,
    pub cache_write_unspecified: i64,
    pub output_total: i64,
    /// Tokens that belong to neither side, and cannot be priced.
    pub unclassified: i64,
    /// `None` when no contributing request reported reasoning at all.
    pub reasoning: Option<i64>,
    /// How many requests reported reasoning.
    pub reasoning_reported_by: i64,
    pub first_at: Option<String>,
    pub last_at: Option<String>,
}

impl Default for TaskTotals {
    fn default() -> (t: Self)
        ensures
            t.requests == 0,
            t.input_fresh == 0,
            t.cache_read == 0,
            t.cache_write_5m == 0,
            t.cache_write_1h == 0,
            t.cache_write_unspecified == 0,
            t.output_total == 0,
            t.unclassified == 0,
            t.reasoning.is_none(),
            t.reasoning_reported_by == 0,
            t.first_at.is_none(),
            t.last_at.is_none(),
    {
        TaskTotals {
            requests: 0,
            input_fresh: 0,
            cache_read: 0,
            cache_write_5m: 0,
            cache_write_1h: 0,
            cache_write_unspecified: 0,
            output_total: 0,
            unclassified: 0,
            reasoning: None,
            reasoning_reported_by: 0,
            first_at: None,
            last_at: None,
        }
    }
}

/// Aggregate token counts for a session.
#[derive(Debug, Clone, PartialEq, Eq)]
pub struct SessionTotals {
    pub session_id: String,
    pub adapter_id: String,
    pub model_id: Option<String>,
    pub requests: i64,
    pub input_fresh: i64,
    pub cache_read: i64,
    pub cache_write_5m: i64,
    pub cache_write_1h: i64,
    pub cache_write_unspecified: i64,
    pub output_total: i64,
    pub unclassified: i64,
    pub reasoning: Option<i64>,
    pub reasoning_reported_by: i64,
    pub failed: i64,
    pub first_at: Option<String>,
    pub last_at: Option<String>,
    /// No task claims the session.
    pub unattributed: bool,
}

/// The larger of two stored counts.
pub open spec fn larger_i64(a: i64, b: i64) -> i64 {
    if a >= b {
        a
    } else {
        b
    }
}

/// A count as it is stored: the largest that fits where it does not.
pub open spec fn stored(n: u64) -> i64 {
    clamp_i64(n as int)
}

/// The columns of a first sighting.
pub open spec fn row_of(u: TokenBands) -> UsageRow {
    UsageRow {
        input_fresh: stored(u.input_fresh),
        cache_read: stored(u.cache_read),
        cache_write_5m: stored(u.cache_write_5m),
        cache_write_1h: stored(u.cache_write_1h),
        cache_write_unspecified: stored(u.cache_write_unspecified),
        output_total: stored(u.output_total),
        reasoning: match u.reasoning {
            Some(r) => Some(stored(r)),
            None => None,
        },
        unclassified: stored(u.unclassified),
    }
}

/// Column-wise maximum; a reported reasoning count wins over an unreported one.
pub open spec fn row_max(a: UsageRow, b: UsageRow) -> UsageRow {
    UsageRow {
        input_fresh: larger_i64(a.input_fresh, b.input_fresh),
        cache_read: larger_i64(a.cache_read, b.cache_read),
        cache_write_5m: larger_i64(a.cache_write_5m, b.cache_write_5m),
        cache_write_1h: larger_i64(a.cache_write_1h, b.cache_write_1h),
        cache_write_unspecified: larger_i64(a.cache_write_unspecified, b.cache_write_unspecified),
        output_total: larger_i64(a.output_total, b.output_total),
        reasoning: match (a.reasoning, b.reasoning) {
            (Some(x), Some(y)) => Some(larger_i64(x, y)),
            (Some(x), None) => Some(x),
            (None, y) => y,
        },
        unclassified: larger_i64(a.unclassified, b.unclassified),
    }
}

/// What a request's row becomes by an observation.
pub open spec fn row_after(existing: Option<UsageRow>, u: TokenBands) -> UsageRow {
    match existing {
        None => row_of(u),
        Some(e) => row_max(e, row_of(u)),
    }
}

/// How a request's row is affected by an observation.
pub open spec fn outcome_after(existing: Option<UsageRow>, u: TokenBands) -> UpsertOutcome {
    match existing {
        None => UpsertOutcome::Inserted,
        Some(e) => if row_after(existing, u) == e {
            UpsertOutcome::Unchanged
        } else {
            UpsertOutcome::Updated
        },
    }
}

/// A count as it is stored.
pub fn to_stored(n: u64) -> (r: i64)
    ensures
        r == stored(n),
{
    if n <= i64::MAX as u64 {
        n as i64
    } else {
        i64::MAX
    }
}

fn max_i64(a: i64, b: i64) -> (m: i64)
    ensures
        m == larger_i64(a, b),
{
    if a >= b {
        a
    } else {
        b
    }
}

/// The columns of a first sighting.
pub fn first_row(usage: &TokenUsage) -> (r: UsageRow)
    ensures
        r == row_of(usage@),
{
    UsageRow {
        input_fresh: to_stored(usage.input_fresh()),
        cache_read: to_stored(usage.cache_read()),
        cache_write_5m: to_stored(usage.cache_write_5m()),
        cache_write_1h: to_stored(usage.cache_write_1h()),
        cache_write_unspecified: to_stored(usage.cache_write_unspecified()),
        output_total: to_stored(usage.output_total()),
        reasoning: match usage.reasoning() {
            Some(r) => Some(to_stored(r)),
            None => None,
        },
        unclassified: to_stored(usage.unclassified()),
    }
}

/// The columns after another observation of the same request.
pub fn merge_max_row(existing: UsageRow, incoming: &TokenUsage) -> (r: UsageRow)
    ensures
        r == row_max(existing, row_of(incoming@)),
{
    let new = first_row(incoming);
    UsageRow {
        input_fresh: max_i64(existing.input_fresh, new.input_fresh),
        cache_read: max_i64(existing.cache_read, new.cache_read),
        cache_write_5m: max_i64(existing.cache_write_5m, new.cache_write_5m),
        cache_write_1h: max_i64(existing.cache_write_1h, new.cache_write_1h),
        cache_write_unspecified: max_i64(
            existing.cache_write_unspecified,
            new.cache_write_unspecified,
        ),
        output_total: max_i64(existing.output_total, new.output_total),
        reasoning: match (existing.reasoning, new.reasoning) {
            (Some(a), Some(b)) => Some(max_i64(a, b)),
            (Some(a), None) => Some(a),
            (None, b) => b,
        },
        unclassified: max_i64(existing.unclassified, new.unclassified),
    }
}

/// Which task a session or a request belongs to, and how that is known.
#[derive(Debug, Clone, PartialEq, Eq)]
pub struct Attribution {
    pub task_id: String,
    pub method: String,
}

/// What is stored of a request.
#[derive(Debug, Clone, PartialEq, Eq)]
pub struct StoredRequest {
    pub counts: UsageRow,
    pub model_id: Option<String>,
    /// `None` where no task claims the request. Never guessed.
    pub attribution: Option<Attribution>,
}

/// What is stored of a request after an observation. A new one belongs to
/// whatever its session is bound to; a known one stays where it is, and learns
/// its model if that was not known and a count has grown.
pub open spec fn request_after(
    existing: Option<StoredRequest>,
    binding: Option<Attribution>,
    rec: UsageRecord,
) -> StoredRequest {
    match existing {
        None => StoredRequest {
            counts: row_of(rec.usage@),
            model_id: rec.model_id,
            attribution: binding,
        },
        Some(e) => StoredRequest {
            counts: row_max(e.counts, row_of(rec.usage@)),
            model_id: if e.model_id.is_none() && row_max(e.counts, row_of(rec.usage@))
                != e.counts {
                rec.model_id
            } else {
                e.model_id
            },
            attribution: e.attribution,
        },
    }
}

/// The counts of a stored request.
pub open spec fn counts_of(existing: Option<StoredRequest>) -> Option<UsageRow> {
    match existing {
        Some(e) => Some(e.counts),
        None => None,
    }
}

/// Insert or merge a usage observation: what to store, and how the row was
/// affected. `existing` is the request's row and `binding` what its session is
/// bound to. The merge is a column-wise maximum, which makes reading again safe
/// in whatever order.
pub fn upsert_usage(
    existing: Option<StoredRequest>,
    binding: Option<Attribution>,
    rec: &UsageRecord,
) -> (r: (StoredRequest, UpsertOutcome))
    ensures
        r.0 == request_after(existing, binding, *rec),
        r.0.counts == row_after(counts_of(existing), rec.usage@),
        r.1 == outcome_after(counts_of(existing), rec.usage@),
{
    match existing {
        None => (
            StoredRequest {
                counts: first_row(&rec.usage),
                model_id: copy_opt(&rec.model_id),
                attribution: binding,
            },
            UpsertOutcome::Inserted,
        ),
        Some(e) => {
            let merged = merge_max_row(e.counts, &rec.usage);
            if merged == e.counts {
                return (e, UpsertOutcome::Unchanged);
            }
            let model_id = match e.model_id {
                Some(known) => Some(known),
                None => copy_opt(&rec.model_id),
            };
            (
                StoredRequest { counts: merged, model_id, attribution: e.attribution },
                UpsertOutcome::Updated,
            )
        },
    }
}

/// What one source says of a request. A request that is measured in several
/// ways keeps each, for comparison.
#[derive(Debug, Clone, PartialEq, Eq)]
pub struct SourceRow {
    pub counts: UsageRow,
    pub raw_json: Option<String>,
    pub observed_at: String,
}

/// What a source's row becomes by another observation: the largest of each
/// count, with reasoning unreported as long as no observation reports it, the
/// latest of the provider's own objects, and the later time.
pub open spec fn source_after(
    existing: Option<SourceRow>,
    rec: UsageRecord,
    observed_at: String,
) -> SourceRow {
    let new = row_of(rec.usage@);
    match existing {
        None => SourceRow { counts: new, raw_json: rec.raw_json, observed_at },
        Some(e) => SourceRow {
            counts: row_max(e.counts, new),
            raw_json: match rec.raw_json {
                Some(json) => Some(json),
                None => e.raw_json,
            },
            observed_at,
        },
    }
}

/// Insert or merge what one source says of a request.
pub fn upsert_source(
    existing: Option<SourceRow>,
    rec: &UsageRecord,
    observed_at: String,
) -> (r: SourceRow)
    ensures
        r == source_after(existing, *rec, observed_at),
{
    match existing {
        None => SourceRow {
            counts: first_row(&rec.usage),
            raw_json: copy_opt(&rec.raw_json),
            observed_at,
        },
        Some(e) => {
            let counts = merge_max_row(e.counts, &rec.usage);
            let raw_json = match &rec.raw_json {
                Some(json) => Some(json.clone()),
                None => e.raw_json,
            };
            SourceRow { counts, raw_json, observed_at }
        },
    }
}

/// A source's row never gains a reasoning count that nothing reported.
pub proof fn law_source_never_invents_reasoning(
    existing: SourceRow,
    rec: UsageRecord,
    observed_at: String,
)
    ensures
        source_after(Some(existing), rec, observed_at).counts.reasoning.is_none()
            <==> existing.counts.reasoning.is_none() && rec.usage@.reasoning.is_none(),
{
}

/// Why a session could not be bound: it belongs to a task already.
#[derive(Debug, Clone, PartialEq, Eq)]
pub struct AlreadyBound {
    pub task_id: String,
}

/// Bind a session to a task. `existing` is what the session is bound to. One
/// that is bound stays where it is: two tasks never share usage.
pub fn bind_session(existing: Option<Attribution>, task_id: String, method: String) -> (r: Result<
    Attribution,
    AlreadyBound,
>)
    ensures
        r == match existing {
            None => Ok::<Attribution, AlreadyBound>(Attribution { task_id, method }),
            Some(e) => Err(AlreadyBound { task_id: e.task_id }),
        },
        binds(existing, task_id, method, r),
{
    match existing {
        None => Ok(Attribution { task_id, method }),
        Some(e) => Err(AlreadyBound { task_id: e.task_id }),
    }
}

/// What is stored of a request when its session is claimed after the fact.
pub open spec fn claimed(row: StoredRequest, by: Attribution) -> StoredRequest {
    StoredRequest {
        attribution: match row.attribution {
            Some(a) => Some(a),
            None => Some(by),
        },
        ..row
    }
}

/// Attribute a request that was recorded before its session was bound, and say
/// whether it moved. One that belongs to a task stays there.
pub fn attribute_existing(row: StoredRequest, by: Attribution) -> (r: (StoredRequest, bool))
    ensures
        r.0 == claimed(row, by),
        r.1 == row.attribution.is_none(),
{
    match row.attribution {
        Some(a) => (
            StoredRequest { counts: row.counts, model_id: row.model_id, attribution: Some(a) },
            false,
        ),
        None => (
            StoredRequest { counts: row.counts, model_id: row.model_id, attribution: Some(by) },
            true,
        ),
    }
}

/// Which task each session is bound to, after trying to bind one.
pub open spec fn bindings_after(
    bindings: Map<Text, Attribution>,
    session: Text,
    to: Attribution,
) -> Map<Text, Attribution> {
    if bindings.contains_key(session) {
        bindings
    } else {
        bindings.insert(session, to)
    }
}

/// Which task each session is bound to, after trying to bind several.
pub open spec fn bindings_after_all(
    bindings: Map<Text, Attribution>,
    tries: Seq<(Text, Attribution)>,
) -> Map<Text, Attribution>
    decreases tries.len(),
{
    if tries.len() == 0 {
        bindings
    } else {
        bindings_after(
            bindings_after_all(bindings, tries.drop_last()),
            tries.last().0,
            tries.last().1,
        )
    }
}

/// A session that belongs to a task belongs to it for good, whatever else is
/// tried: no two tasks share a session.
pub proof fn law_a_session_belongs_to_one_task(
    bindings: Map<Text, Attribution>,
    tries: Seq<(Text, Attribution)>,
    session: Text,
)
    requires
        bindings.contains_key(session),
    ensures
        bindings_after_all(bindings, tries).contains_key(session),
        bindings_after_all(bindings, tries)[session] == bindings[session],
    decreases tries.len(),
{
    if tries.len() > 0 {
        law_a_session_belongs_to_one_task(bindings, tries.drop_last(), session);
    }
}

/// Binding one session leaves every other as it was.
pub proof fn law_binding_touches_one_session(
    bindings: Map<Text, Attribution>,
    session: Text,
    to: Attribution,
    other: Text,
)
    requires
        other != session,
    ensures
        bindings_after(bindings, session, to).contains_key(other) == bindings.contains_key(other),
        bindings.contains_key(other) ==> bindings_after(bindings, session, to)[other]
            == bindings[other],
{
}

/// A request's task is the one its session was bound to when it was first
/// seen, or none: it is never guessed, and no later observation or claim moves
/// it to another.
pub proof fn law_attribution_never_moves(
    existing: StoredRequest,
    binding: Option<Attribution>,
    rec: UsageRecord,
    by: Attribution,
)
    ensures
        request_after(None, binding, rec).attribution == binding,
        request_after(Some(existing), binding, rec).attribution == existing.attribution,
        existing.attribution.is_some() ==> claimed(existing, by) == existing,
        claimed(existing, by).counts == existing.counts,
{
}

/// What a request's row becomes by a run of observations.
pub open spec fn row_after_all(existing: Option<UsageRow>, us: Seq<TokenBands>) -> Option<UsageRow>
    decreases us.len(),
{
    if us.len() == 0 {
        existing
    } else {
        Some(row_after(row_after_all(existing, us.drop_last()), us.last()))
    }
}

/// Two observations give the same row in either order.
pub proof fn law_upsert_order_does_not_matter(
    existing: Option<UsageRow>,
    a: TokenBands,
    b: TokenBands,
)
    ensures
        row_after(Some(row_after(existing, a)), b) == row_after(Some(row_after(existing, b)), a),
{
}

/// An observation that is already in a row leaves it unchanged, so reading a
/// file again converges rather than accumulates.
pub proof fn law_upsert_again_changes_nothing(existing: Option<UsageRow>, u: TokenBands)
    ensures
        row_after(Some(row_after(existing, u)), u) == row_after(existing, u),
        outcome_after(Some(row_after(existing, u)), u) == UpsertOutcome::Unchanged,
{
}

proof fn absorbs(existing: Option<UsageRow>, us: Seq<TokenBands>, i: int)
    requires
        0 <= i < us.len(),
    ensures
        row_after_all(existing, us).is_some(),
        row_max(row_after_all(existing, us).unwrap(), row_of(us[i])) == row_after_all(
            existing,
            us,
        ).unwrap(),
    decreases us.len(),
{
    if i < us.len() - 1 {
        assert(us.drop_last()[i] == us[i]);
        absorbs(existing, us.drop_last(), i);
    }
}

/// After a run of observations, seeing any one of them again, in whatever
/// order, changes nothing.
pub proof fn law_rereading_converges(existing: Option<UsageRow>, us: Seq<TokenBands>, i: int)
    requires
        0 <= i < us.len(),
    ensures
        row_after_all(existing, us).is_some(),
        row_after(row_after_all(existing, us), us[i]) == row_after_all(existing, us).unwrap(),
        outcome_after(row_after_all(existing, us), us[i]) == UpsertOutcome::Unchanged,
{
    absorbs(existing, us, i);
}

/// A row's counts never go down, and a reported reasoning count is never lost.
pub proof fn law_upsert_never_lowers(e: UsageRow, u: TokenBands)
    ensures
        row_after(Some(e), u).input_fresh >= e.input_fresh,
        row_after(Some(e), u).cache_read >= e.cache_read,
        row_after(Some(e), u).cache_write_5m >= e.cache_write_5m,
        row_after(Some(e), u).cache_write_1h >= e.cache_write_1h,
        row_after(Some(e), u).cache_write_unspecified >= e.cache_write_unspecified,
        row_after(Some(e), u).output_total >= e.output_total,
        row_after(Some(e), u).unclassified >= e.unclassified,
        e.reasoning.is_some() ==> row_after(Some(e), u).reasoning.is_some() && row_after(
            Some(e),
            u,
        ).reasoning.unwrap() >= e.reasoning.unwrap(),
        e.reasoning.is_none() && u.reasoning.is_none() ==> row_after(
            Some(e),
            u,
        ).reasoning.is_none(),
{
}

/// One day's total of an application that keeps a daily counter.
#[derive(Debug, Clone, PartialEq, Eq)]
pub struct DailyRow {
    pub day: String,
    pub tokens: i64,
    pub last_seen_at: String,
}

/// What a day's total becomes by a sample.
pub open spec fn day_after(stored_before: Option<i64>, tokens: u64) -> i64 {
    match stored_before {
        Some(t) => larger_i64(t, stored(tokens)),
        None => stored(tokens),
    }
}

/// What a day's total becomes by a sample: the largest seen. Within a day the
/// counter only grows, so sampling it again is free.
pub fn record_daily(existing: Option<i64>, tokens: u64) -> (r: i64)
    ensures
        r == day_after(existing, tokens),
{
    match existing {
        Some(t) => max_i64(t, to_stored(tokens)),
        None => to_stored(tokens),
    }
}

/// A day's total never goes backwards, and a sample taken again changes
/// nothing.
pub proof fn law_a_days_total_never_goes_backwards(before: i64, tokens: u64)
    ensures
        day_after(Some(before), tokens) >= before,
        day_after(Some(day_after(Some(before), tokens)), tokens) == day_after(
            Some(before),
            tokens,
        ),
{
}

/// A first sighting is stored column by column, as far as a column holds.
pub proof fn law_first_sightings_are_stored_as_they_are(u: TokenBands)
    ensures
        u.input_fresh <= i64::MAX ==> row_of(u).input_fresh == u.input_fresh,
        u.input_fresh > i64::MAX ==> row_of(u).input_fresh == i64::MAX,
        u.cache_read <= i64::MAX ==> row_of(u).cache_read == u.cache_read,
        u.cache_read > i64::MAX ==> row_of(u).cache_read == i64::MAX,
        u.cache_write_5m <= i64::MAX ==> row_of(u).cache_write_5m == u.cache_write_5m,
        u.cache_write_5m > i64::MAX ==> row_of(u).cache_write_5m == i64::MAX,
        u.cache_write_1h <= i64::MAX ==> row_of(u).cache_write_1h == u.cache_write_1h,
        u.cache_write_1h > i64::MAX ==> row_of(u).cache_write_1h == i64::MAX,
        u.cache_write_unspecified <= i64::MAX ==> row_of(u).cache_write_unspecified == u.cache_write_unspecified,
        u.cache_write_unspecified > i64::MAX ==> row_of(u).cache_write_unspecified == i64::MAX,
        u.output_total <= i64::MAX ==> row_of(u).output_total == u.output_total,
        u.output_total > i64::MAX ==> row_of(u).output_total == i64::MAX,
        u.unclassified <= i64::MAX ==> row_of(u).unclassified == u.unclassified,
        u.unclassified > i64::MAX ==> row_of(u).unclassified == i64::MAX,
        u.reasoning.is_some() == row_of(u).reasoning.is_some(),
        u.reasoning.is_some() && u.reasoning.unwrap() <= i64::MAX ==> row_of(u).reasoning.unwrap()
            == u.reasoning.unwrap(),
        u.reasoning.is_some() && u.reasoning.unwrap() > i64::MAX ==> row_of(u).reasoning.unwrap()
            == i64::MAX,
        row_after(None, u) == row_of(u),
        outcome_after(None, u) == UpsertOutcome::Inserted,
{
}

/// After an observation every column holds the larger of what was stored and
/// what was seen, and one of the two; the row counts as updated exactly where
/// one of them grew.
pub proof fn law_a_row_holds_the_larger_of_both(e: UsageRow, u: TokenBands)
    ensures
        row_after(Some(e), u).input_fresh >= row_of(u).input_fresh,
        row_after(Some(e), u).input_fresh == e.input_fresh || row_after(Some(e), u).input_fresh == row_of(u).input_fresh,
        row_after(Some(e), u).cache_read >= row_of(u).cache_read,
        row_after(Some(e), u).cache_read == e.cache_read || row_after(Some(e), u).cache_read == row_of(u).cache_read,
        row_after(Some(e), u).cache_write_5m >= row_of(u).cache_write_5m,
        row_after(Some(e), u).cache_write_5m == e.cache_write_5m || row_after(Some(e), u).cache_write_5m == row_of(u).cache_write_5m,
        row_after(Some(e), u).cache_write_1h >= row_of(u).cache_write_1h,
        row_after(Some(e), u).cache_write_1h == e.cache_write_1h || row_after(Some(e), u).cache_write_1h == row_of(u).cache_write_1h,
        row_after(Some(e), u).cache_write_unspecified >= row_of(u).cache_write_unspecified,
        row_after(Some(e), u).cache_write_unspecified == e.cache_write_unspecified || row_after(Some(e), u).cache_write_unspecified == row_of(u).cache_write_unspecified,
        row_after(Some(e), u).output_total >= row_of(u).output_total,
        row_after(Some(e), u).output_total == e.output_total || row_after(Some(e), u).output_total == row_of(u).output_total,
        row_after(Some(e), u).unclassified >= row_of(u).unclassified,
        row_after(Some(e), u).unclassified == e.unclassified || row_after(Some(e), u).unclassified == row_of(u).unclassified,
        row_after(Some(e), u).reasoning == e.reasoning || row_after(Some(e), u).reasoning == row_of(
            u,
        ).reasoning,
        u.reasoning.is_some() ==> row_after(Some(e), u).reasoning.is_some() && row_after(
            Some(e),
            u,
        ).reasoning.unwrap() >= row_of(u).reasoning.unwrap(),
        outcome_after(Some(e), u) == UpsertOutcome::Updated <==> (row_of(u).input_fresh > e.input_fresh
            || row_of(u).cache_read > e.cache_read
            || row_of(u).cache_write_5m > e.cache_write_5m
            || row_of(u).cache_write_1h > e.cache_write_1h
            || row_of(u).cache_write_unspecified > e.cache_write_unspecified
            || row_of(u).output_total > e.output_total
            || row_of(u).unclassified > e.unclassified
            || (u.reasoning.is_some() && (e.reasoning.is_none() || row_of(u).reasoning.unwrap()
                > e.reasoning.unwrap()))),
        outcome_after(Some(e), u) != UpsertOutcome::Inserted,
{
}

/// A request that is seen again keeps a model that is known and learns one that
/// is not once it has grown; what was seen first is stored with its own model and
/// counts.
pub proof fn law_a_model_is_learned_and_never_lost(
    e: StoredRequest,
    binding: Option<Attribution>,
    rec: UsageRecord,
)
    ensures
        request_after(None, binding, rec).model_id == rec.model_id,
        request_after(None, binding, rec).counts == row_after(None, rec.usage@),
        request_after(Some(e), binding, rec).counts == row_after(Some(e.counts), rec.usage@),
        e.model_id.is_some() ==> request_after(Some(e), binding, rec).model_id == e.model_id,
        e.model_id.is_none() && outcome_after(Some(e.counts), rec.usage@) == UpsertOutcome::Updated
            ==> request_after(Some(e), binding, rec).model_id == rec.model_id,
        outcome_after(Some(e.counts), rec.usage@) == UpsertOutcome::Unchanged ==> request_after(
            Some(e),
            binding,
            rec,
        ) == e,
{
}

/// What a source says is kept beside the request: the same counts as a request's
/// row, the provider's own object unless a later one replaces it, and the time of
/// the last observation.
pub proof fn law_a_source_keeps_its_audit_trail(
    e: SourceRow,
    rec: UsageRecord,
    observed_at: String,
)
    ensures
        source_after(None, rec, observed_at).counts == row_after(None, rec.usage@),
        source_after(None, rec, observed_at).raw_json == rec.raw_json,
        source_after(Some(e), rec, observed_at).counts == row_after(Some(e.counts), rec.usage@),
        rec.raw_json.is_some() ==> source_after(Some(e), rec, observed_at).raw_json
            == rec.raw_json,
        rec.raw_json.is_none() ==> source_after(Some(e), rec, observed_at).raw_json == e.raw_json,
        source_after(Some(e), rec, observed_at).observed_at == observed_at,
        source_after(None, rec, observed_at).observed_at == observed_at,
{
}

/// A request that no task has claimed is claimed, and nothing else of it changes.
pub proof fn law_a_claim_attributes_what_nobody_has(row: StoredRequest, by: Attribution)
    ensures
        row.attribution.is_none() ==> claimed(row, by).attribution == Some(by),
        claimed(row, by).counts == row.counts,
        claimed(row, by).model_id == row.model_id,
{
}

/// A free session is bound to the task that asks for it.
pub proof fn law_a_free_session_is_bound(
    bindings: Map<Text, Attribution>,
    session: Text,
    to: Attribution,
)
    ensures
        bindings_after(bindings, session, to).contains_key(session),
        !bindings.contains_key(session) ==> bindings_after(bindings, session, to)[session] == to,
{
}

/// A day's total is the largest sample of it.
pub proof fn law_a_days_total_is_its_largest_sample(before: i64, tokens: u64)
    ensures
        tokens <= i64::MAX ==> day_after(None, tokens) == tokens,
        tokens <= i64::MAX ==> day_after(Some(before), tokens) >= tokens,
        tokens <= i64::MAX ==> day_after(Some(before), tokens) == before || day_after(
            Some(before),
            tokens,
        ) == tokens,
{
}

/// What trying to bind a session comes to.
pub open spec fn binds(
    existing: Option<Attribution>,
    task_id: String,
    method: String,
    r: Result<Attribution, AlreadyBound>,
) -> bool {
    match (existing, r) {
        (None, Ok(a)) => a.task_id == task_id && a.method == method,
        (Some(e), Err(b)) => b.task_id == e.task_id,
        _ => false,
    }
}

/// Binding succeeds exactly where the session is free, and then binds it to the
/// task that asked and in the way it asked; a refusal names the task that has it.
pub proof fn law_only_a_free_session_is_bound(
    existing: Option<Attribution>,
    task_id: String,
    method: String,
    r: Result<Attribution, AlreadyBound>,
)
    requires
        binds(existing, task_id, method, r),
    ensures
        r is Ok <==> existing.is_none(),
        r is Ok ==> r->Ok_0.task_id == task_id && r->Ok_0.method == method,
        r is Err ==> r->Err_0.task_id == existing.unwrap().task_id,
{
}

} // verus!
