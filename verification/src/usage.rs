//! Usage aggregated over time.
//!
//! Everything here is grouped by model as well as by time, even where only a
//! daily total is wanted: rates differ between models, so tokens that are summed
//! first and priced afterwards are priced at a blend that matches no actual
//! rate. Failed requests are left out of counts and sums.
use vstd::prelude::*;
use vstd::string::StringExecFns;

use crate::text::{str_eq, texts, Text};

verus! {

/// Which part of history to read. The bounds are texts as
/// [`crate::time::to_sql_time`] writes them, which compare as the instants do.
#[derive(Debug, Clone, PartialEq, Eq)]
pub struct Filter {
    pub since: Option<String>,
    pub until: Option<String>,
    pub adapter: Option<String>,
}

/// The conditions of a filter beyond the kind of request, with a placeholder
/// for each value.
pub open spec fn conditions(f: Filter) -> Text {
    (if f.since.is_some() {
        " AND occurred_at >= ?"@
    } else {
        Seq::empty()
    }) + (if f.until.is_some() {
        " AND occurred_at < ?"@
    } else {
        Seq::empty()
    }) + (if f.adapter.is_some() {
        " AND adapter_id = ?"@
    } else {
        Seq::empty()
    })
}

/// The values of a filter, in the order of their placeholders.
pub open spec fn bound_values(f: Filter) -> Seq<Text> {
    (match f.since {
        Some(s) => seq![s@],
        None => Seq::empty(),
    }) + (match f.until {
        Some(s) => seq![s@],
        None => Seq::empty(),
    }) + (match f.adapter {
        Some(s) => seq![s@],
        None => Seq::empty(),
    })
}

/// The columns that aggregate usage.
pub const SELECT_TOTALS: &'static str = "COUNT(*) AS requests, COALESCE(SUM(input_fresh), 0) AS input_fresh, COALESCE(SUM(cache_read), 0) AS cache_read, COALESCE(SUM(cache_write_5m), 0) AS cache_write_5m, COALESCE(SUM(cache_write_1h), 0) AS cache_write_1h, COALESCE(SUM(cache_write_unspecified), 0) AS cache_write_unspecified, COALESCE(SUM(output_total), 0) AS output_total, COALESCE(SUM(unclassified), 0) AS unclassified, SUM(reasoning) AS reasoning, COUNT(reasoning) AS reasoning_reported_by";

impl Filter {
    /// Everything ever recorded.
    pub fn all() -> (f: Self)
        ensures
            f.since.is_none(),
            f.until.is_none(),
            f.adapter.is_none(),
    {
        Filter { since: None, until: None, adapter: None }
    }

    pub fn since(self, at: String) -> (f: Self)
        ensures
            f == (Filter { since: Some(at), ..self }),
    {
        Filter { since: Some(at), until: self.until, adapter: self.adapter }
    }

    pub fn until(self, at: String) -> (f: Self)
        ensures
            f == (Filter { until: Some(at), ..self }),
    {
        Filter { since: self.since, until: Some(at), adapter: self.adapter }
    }

    pub fn adapter(self, id: String) -> (f: Self)
        ensures
            f == (Filter { adapter: Some(id), ..self }),
    {
        Filter { since: self.since, until: self.until, adapter: Some(id) }
    }

    fn append_conditions(&self, sql: &mut String)
        ensures
            final(sql)@ == old(sql)@ + conditions(*self),
    {
        let ghost before = sql@;
        if self.since.is_some() {
            sql.append(" AND occurred_at >= ?");
        }
        if self.until.is_some() {
            sql.append(" AND occurred_at < ?");
        }
        if self.adapter.is_some() {
            sql.append(" AND adapter_id = ?");
        }
        proof {
            assert(sql@ =~= before + conditions(*self));
        }
    }

    /// The `WHERE` clause for measured requests, with a placeholder for each
    /// value: the values never become part of the query's text.
    pub fn predicate(&self) -> (s: String)
        ensures
            s@ == " WHERE request_kind != 'failed'"@ + conditions(*self),
            s@ == measured_where(*self),
    {
        let mut sql = " WHERE request_kind != 'failed'".to_owned();
        self.append_conditions(&mut sql);
        sql
    }

    /// The query that counts the requests that failed and could not be measured.
    pub fn failed_query(&self) -> (s: String)
        ensures
            s@ == "SELECT COUNT(*) FROM ai_request WHERE request_kind = 'failed'"@ + conditions(
                *self,
            ),
            s@ == failed_sql(*self),
    {
        let mut sql = "SELECT COUNT(*) FROM ai_request WHERE request_kind = 'failed'".to_owned();
        self.append_conditions(&mut sql);
        sql
    }

    /// The values to bind, in the order of their placeholders.
    pub fn values(&self) -> (v: Vec<String>)
        ensures
            texts(v@) == bound_values(*self),
    {
        let mut v: Vec<String> = Vec::new();
        if let Some(s) = &self.since {
            v.push(s.clone());
        }
        if let Some(s) = &self.until {
            v.push(s.clone());
        }
        if let Some(s) = &self.adapter {
            v.push(s.clone());
        }
        proof {
            assert(texts(v@) =~= bound_values(*self));
        }
        v
    }

    /// The query for grand totals.
    pub fn totals_query(&self) -> (s: String)
        ensures
            s@ == "SELECT "@ + SELECT_TOTALS@ + " FROM ai_request"@ + (
            " WHERE request_kind != 'failed'"@ + conditions(*self)),
            s@ == totals_sql(*self),
    {
        let mut sql = "SELECT ".to_owned();
        sql.append(SELECT_TOTALS);
        sql.append(" FROM ai_request");
        sql.append(self.predicate().as_str());
        sql
    }

    /// The query for totals per bucket of time and per model, oldest first.
    pub fn grouped_query(&self, format: &str) -> (s: String)
        ensures
            s@ == "SELECT strftime('"@ + format@ + "', occurred_at) AS at, model_id, "@
                + SELECT_TOTALS@ + " FROM ai_request"@ + (" WHERE request_kind != 'failed'"@
                + conditions(*self)) + " GROUP BY at, model_id ORDER BY at"@,
            s@ == grouped_sql(*self, format@),
    {
        let mut sql = "SELECT strftime('".to_owned();
        sql.append(format);
        sql.append("', occurred_at) AS at, model_id, ");
        sql.append(SELECT_TOTALS);
        sql.append(" FROM ai_request");
        sql.append(self.predicate().as_str());
        sql.append(" GROUP BY at, model_id ORDER BY at");
        sql
    }

    /// The query for totals per value of a column, busiest first.
    pub fn per_column_query(&self, column: &str) -> (s: String)
        ensures
            s@ == "SELECT "@ + column@ + ", "@ + SELECT_TOTALS@ + " FROM ai_request"@ + (
            " WHERE request_kind != 'failed'"@ + conditions(*self)) + " GROUP BY "@ + column@
                + " ORDER BY requests DESC"@,
            s@ == per_column_sql(*self, column@),
    {
        let mut sql = "SELECT ".to_owned();
        sql.append(column);
        sql.append(", ");
        sql.append(SELECT_TOTALS);
        sql.append(" FROM ai_request");
        sql.append(self.predicate().as_str());
        sql.append(" GROUP BY ");
        sql.append(column);
        sql.append(" ORDER BY requests DESC");
        sql
    }
}

/// How many placeholders a text holds.
pub open spec fn placeholders(s: Text) -> nat
    decreases s.len(),
{
    if s.len() == 0 {
        0
    } else {
        placeholders(s.drop_last()) + if s.last() == '?' {
            1nat
        } else {
            0nat
        }
    }
}

proof fn placeholders_of_both(a: Text, b: Text)
    ensures
        placeholders(a + b) == placeholders(a) + placeholders(b),
    decreases b.len(),
{
    if b.len() == 0 {
        assert(a + b =~= a);
    } else {
        placeholders_of_both(a, b.drop_last());
        assert((a + b).drop_last() =~= a + b.drop_last());
    }
}

proof fn placeholders_none(s: Text)
    requires
        forall|i: int| 0 <= i < s.len() ==> s[i] != '?',
    ensures
        placeholders(s) == 0,
    decreases s.len(),
{
    if s.len() > 0 {
        placeholders_none(s.drop_last());
    }
}

proof fn placeholders_at_end(s: Text)
    requires
        s.len() > 0,
        s.last() == '?',
        forall|i: int| 0 <= i < s.len() - 1 ==> s[i] != '?',
    ensures
        placeholders(s) == 1,
{
    placeholders_none(s.drop_last());
}

/// A filter's conditions hold exactly one placeholder for each of its values.
pub proof fn law_a_placeholder_for_each_value(f: Filter)
    ensures
        placeholders(conditions(f)) == bound_values(f).len(),
{
    reveal_strlit(" AND occurred_at >= ?");
    reveal_strlit(" AND occurred_at < ?");
    reveal_strlit(" AND adapter_id = ?");
    placeholders_at_end(" AND occurred_at >= ?"@);
    placeholders_at_end(" AND occurred_at < ?"@);
    placeholders_at_end(" AND adapter_id = ?"@);
    let a: Text = if f.since.is_some() {
        " AND occurred_at >= ?"@
    } else {
        Seq::empty()
    };
    let b: Text = if f.until.is_some() {
        " AND occurred_at < ?"@
    } else {
        Seq::empty()
    };
    let c: Text = if f.adapter.is_some() {
        " AND adapter_id = ?"@
    } else {
        Seq::empty()
    };
    placeholders_of_both(a, b);
    placeholders_of_both(a + b, c);
    assert(conditions(f) =~= a + b + c);
}

/// A part of usage: the disjoint buckets and how many requests filled them.
#[derive(Debug, Clone, Copy, PartialEq, Eq, Structural)]
pub struct Totals {
    pub requests: i64,
    pub input_fresh: i64,
    pub cache_read: i64,
    pub cache_write_5m: i64,
    pub cache_write_1h: i64,
    pub cache_write_unspecified: i64,
    pub output_total: i64,
    pub unclassified: i64,
    /// `None` when no contributing request reported a reasoning count.
    pub reasoning: Option<i64>,
    /// How many of `requests` carried a reasoning count.
    pub reasoning_reported_by: i64,
}

/// [`Totals`] with numbers of any size.
pub struct Sums {
    pub requests: int,
    pub input_fresh: int,
    pub cache_read: int,
    pub cache_write_5m: int,
    pub cache_write_1h: int,
    pub cache_write_unspecified: int,
    pub output_total: int,
    pub unclassified: int,
    pub reasoning: Option<int>,
    pub reasoning_reported_by: int,
}

impl View for Totals {
    type V = Sums;

    open spec fn view(&self) -> Sums {
        Sums {
            requests: self.requests as int,
            input_fresh: self.input_fresh as int,
            cache_read: self.cache_read as int,
            cache_write_5m: self.cache_write_5m as int,
            cache_write_1h: self.cache_write_1h as int,
            cache_write_unspecified: self.cache_write_unspecified as int,
            output_total: self.output_total as int,
            unclassified: self.unclassified as int,
            reasoning: match self.reasoning {
                Some(r) => Some(r as int),
                None => None,
            },
            reasoning_reported_by: self.reasoning_reported_by as int,
        }
    }
}

/// A number that an `i64` holds.
pub open spec fn in_i64(n: int) -> bool {
    i64::MIN <= n <= i64::MAX
}

impl Sums {
    /// Every sum is one that an `i64` holds.
    pub open spec fn fits(self) -> bool {
        &&& in_i64(self.requests)
        &&& in_i64(self.input_fresh)
        &&& in_i64(self.cache_read)
        &&& in_i64(self.cache_write_5m)
        &&& in_i64(self.cache_write_1h)
        &&& in_i64(self.cache_write_unspecified)
        &&& in_i64(self.output_total)
        &&& in_i64(self.unclassified)
        &&& self.reasoning.is_some() ==> in_i64(self.reasoning.unwrap())
        &&& in_i64(self.reasoning_reported_by)
    }
}

/// Nothing at all.
pub open spec fn no_usage() -> Sums {
    Sums {
        requests: 0,
        input_fresh: 0,
        cache_read: 0,
        cache_write_5m: 0,
        cache_write_1h: 0,
        cache_write_unspecified: 0,
        output_total: 0,
        unclassified: 0,
        reasoning: None,
        reasoning_reported_by: 0,
    }
}

/// Two parts of usage together. Reasoning stays unreported only where neither
/// part reports it.
pub open spec fn together(a: Sums, b: Sums) -> Sums {
    Sums {
        requests: a.requests + b.requests,
        input_fresh: a.input_fresh + b.input_fresh,
        cache_read: a.cache_read + b.cache_read,
        cache_write_5m: a.cache_write_5m + b.cache_write_5m,
        cache_write_1h: a.cache_write_1h + b.cache_write_1h,
        cache_write_unspecified: a.cache_write_unspecified + b.cache_write_unspecified,
        output_total: a.output_total + b.output_total,
        unclassified: a.unclassified + b.unclassified,
        reasoning: match (a.reasoning, b.reasoning) {
            (Some(x), Some(y)) => Some(x + y),
            (Some(x), None) => Some(x),
            (None, y) => y,
        },
        reasoning_reported_by: a.reasoning_reported_by + b.reasoning_reported_by,
    }
}

/// A run of parts together.
pub open spec fn folded(parts: Seq<Totals>) -> Sums
    decreases parts.len(),
{
    if parts.len() == 0 {
        no_usage()
    } else {
        together(folded(parts.drop_last()), parts.last()@)
    }
}

/// Adding the parts up stays within an `i64` all the way.
pub open spec fn folds_within(parts: Seq<Totals>) -> bool {
    forall|n: int| 0 <= n <= parts.len() ==> #[trigger] folded(parts.take(n)).fits()
}

impl Default for Totals {
    fn default() -> (t: Self)
        ensures
            t@ == no_usage(),
    {
        Totals {
            requests: 0,
            input_fresh: 0,
            cache_read: 0,
            cache_write_5m: 0,
            cache_write_1h: 0,
            cache_write_unspecified: 0,
            output_total: 0,
            unclassified: 0,
            reasoning: None,
            reasoning_reported_by: 0,
        }
    }
}

impl Totals {
    /// The input side adds up within an `i64` all the way.
    pub open spec fn input_adds_up(self) -> bool {
        &&& in_i64(self.input_fresh + self.cache_read)
        &&& in_i64(self.input_fresh + self.cache_read + self.cache_write_5m)
        &&& in_i64(
            self.input_fresh + self.cache_read + self.cache_write_5m + self.cache_write_1h,
        )
        &&& in_i64(
            self.input_fresh + self.cache_read + self.cache_write_5m + self.cache_write_1h
                + self.cache_write_unspecified,
        )
    }

    /// All buckets add up within an `i64` all the way.
    pub open spec fn adds_up(self) -> bool {
        &&& self.input_adds_up()
        &&& in_i64(
            self.input_fresh + self.cache_read + self.cache_write_5m + self.cache_write_1h
                + self.cache_write_unspecified + self.output_total,
        )
        &&& in_i64(
            self.input_fresh + self.cache_read + self.cache_write_5m + self.cache_write_1h
                + self.cache_write_unspecified + self.output_total + self.unclassified,
        )
    }

    /// Everything charged as input.
    pub open spec fn input_tokens(self) -> int {
        self.input_fresh + self.cache_read + self.cache_write_5m + self.cache_write_1h
            + self.cache_write_unspecified
    }

    /// Every token.
    pub open spec fn all_tokens(self) -> int {
        self.input_tokens() + self.output_total + self.unclassified
    }

    /// Every token, across every disjoint bucket.
    pub fn grand_total(&self) -> (n: i64)
        requires
            self.adds_up(),
        ensures
            n == self.all_tokens(),
            n == self.input_fresh + self.cache_read + self.cache_write_5m + self.cache_write_1h
                + self.cache_write_unspecified + self.output_total + self.unclassified,
    {
        self.input_fresh + self.cache_read + self.cache_write_5m + self.cache_write_1h
            + self.cache_write_unspecified + self.output_total + self.unclassified
    }

    /// Everything charged as input: fresh, cache reads and cache writes.
    pub fn input_side(&self) -> (n: i64)
        requires
            self.input_adds_up(),
        ensures
            n == self.input_tokens(),
            n == self.input_fresh + self.cache_read + self.cache_write_5m + self.cache_write_1h
                + self.cache_write_unspecified,
    {
        self.input_fresh + self.cache_read + self.cache_write_5m + self.cache_write_1h
            + self.cache_write_unspecified
    }

    fn accumulate(&mut self, other: &Totals)
        requires
            together(old(self)@, other@).fits(),
        ensures
            final(self)@ == together(old(self)@, other@),
    {
        self.requests = self.requests + other.requests;
        self.input_fresh = self.input_fresh + other.input_fresh;
        self.cache_read = self.cache_read + other.cache_read;
        self.cache_write_5m = self.cache_write_5m + other.cache_write_5m;
        self.cache_write_1h = self.cache_write_1h + other.cache_write_1h;
        self.cache_write_unspecified = self.cache_write_unspecified
            + other.cache_write_unspecified;
        self.output_total = self.output_total + other.output_total;
        self.unclassified = self.unclassified + other.unclassified;
        self.reasoning_reported_by = self.reasoning_reported_by + other.reasoning_reported_by;
        self.reasoning =
        match (self.reasoning, other.reasoning) {
            (Some(a), Some(b)) => Some(a + b),
            (Some(a), None) => Some(a),
            (None, b) => b,
        };
    }
}

/// Sum a set of parts into one.
pub fn fold(parts: &[Totals]) -> (t: Totals)
    requires
        folds_within(parts@),
    ensures
        t@ == folded(parts@),
{
    let mut out = Totals::default();
    let mut i: usize = 0;
    proof {
        assert(parts@.take(0) =~= Seq::empty());
    }
    while i < parts.len()
        invariant
            i <= parts.len(),
            folds_within(parts@),
            out@ == folded(parts@.take(i as int)),
        decreases parts.len() - i,
    {
        proof {
            assert(parts@.take(i + 1).drop_last() =~= parts@.take(i as int));
            assert(folded(parts@.take(i + 1)).fits());
        }
        out.accumulate(&parts[i]);
        i += 1;
    }
    proof {
        assert(parts@.take(i as int) =~= parts@);
    }
    out
}

/// One bucket of one model's usage.
#[derive(Debug, Clone, PartialEq, Eq)]
pub struct Slice {
    /// Bucket label: `YYYY-MM-DD` for days, `YYYY-MM-DDTHH` for hours.
    pub at: String,
    /// `None` where the transcript never named a model.
    pub model_id: Option<String>,
    pub totals: Totals,
}

/// One row per run of slices with the same label, in order.
pub open spec fn bucketed(slices: Seq<Slice>) -> Seq<(Text, Sums)>
    decreases slices.len(),
{
    if slices.len() == 0 {
        Seq::empty()
    } else {
        let before = bucketed(slices.drop_last());
        let s = slices.last();
        if before.len() > 0 && before.last().0 == s.at@ {
            before.drop_last().push((s.at@, together(before.last().1, s.totals@)))
        } else {
            before.push((s.at@, s.totals@))
        }
    }
}

/// Adding the slices up by bucket stays within an `i64` all the way.
pub open spec fn buckets_within(slices: Seq<Slice>) -> bool {
    forall|n: int|
        0 < n <= slices.len() ==> (#[trigger] bucketed(slices.take(n))).last().1.fits()
}

/// The rows of a list, as the contracts see them.
pub open spec fn row_views(v: Seq<(String, Totals)>) -> Seq<(Text, Sums)> {
    v.map_values(|r: (String, Totals)| (r.0@, r.1@))
}

/// Fold per-model slices into one row per bucket, preserving order.
///
/// For charts. Cost must still be derived from the unfolded slices.
pub fn fold_by_bucket(slices: &[Slice]) -> (r: Vec<(String, Totals)>)
    requires
        buckets_within(slices@),
    ensures
        row_views(r@) == bucketed(slices@),
{
    let mut out: Vec<(String, Totals)> = Vec::new();
    let mut i: usize = 0;
    proof {
        assert(slices@.take(0) =~= Seq::empty());
        assert(row_views(out@) =~= Seq::empty());
    }
    while i < slices.len()
        invariant
            i <= slices.len(),
            buckets_within(slices@),
            row_views(out@) == bucketed(slices@.take(i as int)),
        decreases slices.len() - i,
    {
        let s = &slices[i];
        let ghost before = row_views(out@);
        proof {
            assert(slices@.take(i + 1).drop_last() =~= slices@.take(i as int));
            assert(bucketed(slices@.take(i + 1)).last().1.fits());
        }
        let n: usize = out.len();
        let same = n > 0 && str_eq(out[n - 1].0.as_str(), s.at.as_str());
        if same {
            proof {
                assert(before.last() == (out@[n - 1].0@, out@[n - 1].1@));
            }
            let (at, mut totals) = out.pop().unwrap();
            totals.accumulate(&s.totals);
            out.push((at, totals));
        } else {
            proof {
                if n > 0 {
                    assert(before.last() == (out@[n - 1].0@, out@[n - 1].1@));
                }
            }
            out.push((s.at.clone(), s.totals));
        }
        proof {
            assert(row_views(out@) =~= bucketed(slices@.take(i + 1)));
        }
        i += 1;
    }
    proof {
        assert(slices@.take(i as int) =~= slices@);
    }
    out
}

/// The parts of usage that slices hold.
pub open spec fn parts_of(slices: Seq<Slice>) -> Seq<Totals> {
    slices.map_values(|s: Slice| s.totals)
}

/// All rows together.
pub open spec fn rows_together(rows: Seq<(Text, Sums)>) -> Sums
    decreases rows.len(),
{
    if rows.len() == 0 {
        no_usage()
    } else {
        together(rows_together(rows.drop_last()), rows.last().1)
    }
}

/// Putting parts together does not depend on their grouping, nor on their
/// order.
pub proof fn law_together_is_addition(a: Sums, b: Sums, c: Sums)
    ensures
        together(together(a, b), c) == together(a, together(b, c)),
        together(a, b) == together(b, a),
        together(no_usage(), a) == a,
{
}

/// Folding by bucket neither loses nor invents anything: all rows together are
/// all slices together.
pub proof fn law_buckets_keep_the_total(slices: Seq<Slice>)
    ensures
        rows_together(bucketed(slices)) == folded(parts_of(slices)),
    decreases slices.len(),
{
    if slices.len() > 0 {
        let d = slices.drop_last();
        law_buckets_keep_the_total(d);
        assert(parts_of(slices).drop_last() =~= parts_of(d));
        let before = bucketed(d);
        let s = slices.last();
        let rows = bucketed(slices);
        if before.len() > 0 && before.last().0 == s.at@ {
            assert(rows.drop_last() =~= before.drop_last());
            law_together_is_addition(
                rows_together(before.drop_last()),
                before.last().1,
                s.totals@,
            );
        } else {
            assert(rows.drop_last() =~= before);
        }
    }
}

/// Reasoning is unreported in a sum exactly where no part reports it.
pub proof fn law_unreported_reasoning_stays_unreported(parts: Seq<Totals>)
    ensures
        folded(parts).reasoning.is_none() <==> forall|i: int|
            0 <= i < parts.len() ==> (#[trigger] parts[i]).reasoning.is_none(),
    decreases parts.len(),
{
    if parts.len() > 0 {
        let d = parts.drop_last();
        law_unreported_reasoning_stays_unreported(d);
        if folded(parts).reasoning.is_none() {
            assert forall|i: int| 0 <= i < parts.len() implies (
            #[trigger] parts[i]).reasoning.is_none() by {
                if i < d.len() {
                    assert(d[i] == parts[i]);
                }
            }
        } else {
            if parts.last().reasoning.is_none() {
                let i = choose|i: int| 0 <= i < d.len() && (#[trigger] d[i]).reasoning.is_some();
                assert(parts[i] == d[i]);
            } else {
                assert(parts[parts.len() - 1].reasoning.is_some());
            }
        }
    }
}

/// Each part of a filter restricts by itself, whatever the others are: setting
/// the agent puts its condition and its value last; setting the start puts its
/// condition and its value first; setting the end puts its condition and its
/// value behind the start's and before the agent's. A part that is not set
/// restricts nothing.
pub proof fn law_each_part_of_a_filter_restricts(f: Filter, value: String)
    ensures
        conditions(Filter { adapter: Some(value), ..f }) == conditions(
            Filter { adapter: None, ..f },
        ) + " AND adapter_id = ?"@,
        bound_values(Filter { adapter: Some(value), ..f }) == bound_values(
            Filter { adapter: None, ..f },
        ).push(value@),
        conditions(Filter { since: Some(value), ..f }) == " AND occurred_at >= ?"@ + conditions(
            Filter { since: None, ..f },
        ),
        bound_values(Filter { since: Some(value), ..f }) == seq![value@] + bound_values(
            Filter { since: None, ..f },
        ),
        conditions(Filter { until: Some(value), ..f }) == conditions(
            Filter { until: None, adapter: None, ..f },
        ) + " AND occurred_at < ?"@ + conditions(Filter { since: None, until: None, ..f }),
        bound_values(Filter { until: Some(value), ..f }) == bound_values(
            Filter { until: None, adapter: None, ..f },
        ).push(value@) + bound_values(Filter { since: None, until: None, ..f }),
        f.since.is_none() && f.until.is_none() && f.adapter.is_none() ==> conditions(f) == Seq::<
            char,
        >::empty() && bound_values(f) == Seq::<Text>::empty(),
{
    assert(conditions(Filter { adapter: Some(value), ..f }) =~= conditions(
        Filter { adapter: None, ..f },
    ) + " AND adapter_id = ?"@);
    assert(bound_values(Filter { adapter: Some(value), ..f }) =~= bound_values(
        Filter { adapter: None, ..f },
    ).push(value@));
    assert(conditions(Filter { since: Some(value), ..f }) =~= " AND occurred_at >= ?"@
        + conditions(Filter { since: None, ..f }));
    assert(bound_values(Filter { since: Some(value), ..f }) =~= seq![value@] + bound_values(
        Filter { since: None, ..f },
    ));
    assert(conditions(Filter { until: Some(value), ..f }) =~= conditions(
        Filter { until: None, adapter: None, ..f },
    ) + " AND occurred_at < ?"@ + conditions(Filter { since: None, until: None, ..f }));
    assert(bound_values(Filter { until: Some(value), ..f }) =~= bound_values(
        Filter { until: None, adapter: None, ..f },
    ).push(value@) + bound_values(Filter { since: None, until: None, ..f }));
    if f.since.is_none() && f.until.is_none() && f.adapter.is_none() {
        assert(conditions(f) =~= Seq::<char>::empty());
        assert(bound_values(f) =~= Seq::<Text>::empty());
    }
}

/// The condition and the value of each part of a filter that is set are there,
/// at the same place: the agent's are the last, the start's are the first.
pub proof fn law_a_set_part_is_in_the_query(f: Filter)
    ensures
        f.adapter.is_some() ==> bound_values(f).len() > 0 && bound_values(f).last()
            == f.adapter.unwrap()@ && exists|before: Text| conditions(f)
            == #[trigger] (before + " AND adapter_id = ?"@),
        f.since.is_some() ==> bound_values(f).len() > 0 && bound_values(f)[0] == f.since.unwrap()@
            && exists|after: Text| conditions(f) == #[trigger] (" AND occurred_at >= ?"@ + after),
        f.until.is_some() ==> bound_values(f).contains(f.until.unwrap()@) && exists|
            before: Text,
            after: Text,
        | conditions(f) == #[trigger] (before + " AND occurred_at < ?"@ + after),
        bound_values(f).len() == (if f.since.is_some() {
            1int
        } else {
            0
        }) + (if f.until.is_some() {
            1int
        } else {
            0
        }) + (if f.adapter.is_some() {
            1int
        } else {
            0
        }),
{
    if f.adapter.is_some() {
        law_each_part_of_a_filter_restricts(f, f.adapter.unwrap());
        assert(f == (Filter { adapter: f.adapter, ..f }));
    }
    if f.since.is_some() {
        law_each_part_of_a_filter_restricts(f, f.since.unwrap());
        assert(f == (Filter { since: f.since, ..f }));
    }
    if f.until.is_some() {
        law_each_part_of_a_filter_restricts(f, f.until.unwrap());
        assert(f == (Filter { until: f.until, ..f }));
        let first = bound_values(Filter { until: None, adapter: None, ..f });
        assert(bound_values(f)[first.len() as int] == f.until.unwrap()@);
    }
}

/// One part more adds each of its columns to the same column of the sum, and
/// nothing to any other.
pub proof fn law_a_part_adds_to_its_own_columns(parts: Seq<Totals>, t: Totals)
    ensures
        folded(Seq::empty()).requests == 0,
        folded(parts.push(t)).requests == folded(parts).requests + t.requests,
        folded(Seq::empty()).input_fresh == 0,
        folded(parts.push(t)).input_fresh == folded(parts).input_fresh + t.input_fresh,
        folded(Seq::empty()).cache_read == 0,
        folded(parts.push(t)).cache_read == folded(parts).cache_read + t.cache_read,
        folded(Seq::empty()).cache_write_5m == 0,
        folded(parts.push(t)).cache_write_5m == folded(parts).cache_write_5m + t.cache_write_5m,
        folded(Seq::empty()).cache_write_1h == 0,
        folded(parts.push(t)).cache_write_1h == folded(parts).cache_write_1h + t.cache_write_1h,
        folded(Seq::empty()).cache_write_unspecified == 0,
        folded(parts.push(t)).cache_write_unspecified == folded(parts).cache_write_unspecified + t.cache_write_unspecified,
        folded(Seq::empty()).output_total == 0,
        folded(parts.push(t)).output_total == folded(parts).output_total + t.output_total,
        folded(Seq::empty()).unclassified == 0,
        folded(parts.push(t)).unclassified == folded(parts).unclassified + t.unclassified,
        folded(Seq::empty()).reasoning_reported_by == 0,
        folded(parts.push(t)).reasoning_reported_by == folded(parts).reasoning_reported_by + t.reasoning_reported_by,
        folded(Seq::empty()).reasoning.is_none(),
        t.reasoning.is_none() ==> folded(parts.push(t)).reasoning == folded(parts).reasoning,
        t.reasoning.is_some() && folded(parts).reasoning.is_none() ==> folded(
            parts.push(t),
        ).reasoning == Some(t.reasoning.unwrap() as int),
        t.reasoning.is_some() && folded(parts).reasoning.is_some() ==> folded(
            parts.push(t),
        ).reasoning == Some(folded(parts).reasoning.unwrap() + t.reasoning.unwrap()),
{
    assert(parts.push(t).drop_last() =~= parts);
}

/// Slices of one label become one row of that label, which is all of them
/// together.
pub proof fn law_one_label_is_one_row(slices: Seq<Slice>, label: Text)
    requires
        slices.len() > 0,
        forall|i: int| 0 <= i < slices.len() ==> (#[trigger] slices[i]).at@ == label,
    ensures
        bucketed(slices).len() == 1,
        bucketed(slices)[0].0 == label,
        bucketed(slices)[0].1 == folded(parts_of(slices)),
    decreases slices.len(),
{
    let d = slices.drop_last();
    assert(slices[slices.len() - 1].at@ == label);
    assert(parts_of(slices).drop_last() =~= parts_of(d));
    if d.len() > 0 {
        assert forall|i: int| 0 <= i < d.len() implies (#[trigger] d[i]).at@ == label by {
            assert(d[i] == slices[i]);
        }
        law_one_label_is_one_row(d, label);
    } else {
        assert(d =~= Seq::<Slice>::empty());
        assert(parts_of(d) =~= Seq::<Totals>::empty());
        law_together_is_addition(slices.last().totals@, no_usage(), no_usage());
    }
}

proof fn last_row_has_the_last_label(slices: Seq<Slice>)
    requires
        slices.len() > 0,
    ensures
        bucketed(slices).len() > 0,
        bucketed(slices).last().0 == slices.last().at@,
{
}

/// A change of label starts new rows: the rows of what comes before it and of
/// what comes after it do not touch.
pub proof fn law_labels_part_the_rows(a: Seq<Slice>, b: Seq<Slice>)
    requires
        a.len() > 0,
        b.len() > 0,
        a.last().at@ != b[0].at@,
    ensures
        bucketed(a + b) == bucketed(a) + bucketed(b),
    decreases b.len(),
{
    let d = b.drop_last();
    assert((a + b).drop_last() =~= a + d);
    assert((a + b).last() == b.last());
    last_row_has_the_last_label(a);
    if d.len() == 0 {
        assert(a + d =~= a);
        assert(b[0] == b.last());
        assert(bucketed(d) =~= Seq::<(Text, Sums)>::empty());
        assert(bucketed(a + b) =~= bucketed(a) + bucketed(b));
    } else {
        assert(d[0] == b[0]);
        law_labels_part_the_rows(a, d);
        last_row_has_the_last_label(d);
        assert((bucketed(a) + bucketed(d)).last() == bucketed(d).last());
        assert(bucketed(a + b) =~= bucketed(a) + bucketed(b));
    }
}

/// Every column counts once: a token more in any of them is a token more in
/// total, and one more of input exactly where the column is input. Reasoning is a
/// part of the output and counts nowhere by itself.
pub proof fn law_every_column_counts_once(t: Totals, n: i64)
    ensures
        (Totals { input_fresh: n, ..t }).all_tokens() - t.all_tokens() == n - t.input_fresh,
        (Totals { input_fresh: n, ..t }).input_tokens() - t.input_tokens() == n - t.input_fresh,
        (Totals { cache_read: n, ..t }).all_tokens() - t.all_tokens() == n - t.cache_read,
        (Totals { cache_read: n, ..t }).input_tokens() - t.input_tokens() == n - t.cache_read,
        (Totals { cache_write_5m: n, ..t }).all_tokens() - t.all_tokens() == n - t.cache_write_5m,
        (Totals { cache_write_5m: n, ..t }).input_tokens() - t.input_tokens() == n - t.cache_write_5m,
        (Totals { cache_write_1h: n, ..t }).all_tokens() - t.all_tokens() == n - t.cache_write_1h,
        (Totals { cache_write_1h: n, ..t }).input_tokens() - t.input_tokens() == n - t.cache_write_1h,
        (Totals { cache_write_unspecified: n, ..t }).all_tokens() - t.all_tokens() == n - t.cache_write_unspecified,
        (Totals { cache_write_unspecified: n, ..t }).input_tokens() - t.input_tokens() == n - t.cache_write_unspecified,
        (Totals { output_total: n, ..t }).all_tokens() - t.all_tokens() == n - t.output_total,
        (Totals { output_total: n, ..t }).input_tokens() - t.input_tokens() == 0,
        (Totals { unclassified: n, ..t }).all_tokens() - t.all_tokens() == n - t.unclassified,
        (Totals { unclassified: n, ..t }).input_tokens() - t.input_tokens() == 0,
        (Totals { reasoning: Some(n), ..t }).all_tokens() == t.all_tokens(),
        (Totals { requests: n, ..t }).all_tokens() == t.all_tokens(),
        t@ == no_usage() ==> t.all_tokens() == 0 && t.input_tokens() == 0,
{
}

/// The `WHERE` clause for measured requests.
pub open spec fn measured_where(f: Filter) -> Text {
    " WHERE request_kind != 'failed'"@ + conditions(f)
}

/// The query that counts failed requests.
pub open spec fn failed_sql(f: Filter) -> Text {
    "SELECT COUNT(*) FROM ai_request WHERE request_kind = 'failed'"@ + conditions(f)
}

/// The query for grand totals.
pub open spec fn totals_sql(f: Filter) -> Text {
    "SELECT "@ + SELECT_TOTALS@ + " FROM ai_request"@ + measured_where(f)
}

/// The query for totals per bucket of time and per model.
pub open spec fn grouped_sql(f: Filter, format: Text) -> Text {
    "SELECT strftime('"@ + format + "', occurred_at) AS at, model_id, "@ + SELECT_TOTALS@
        + " FROM ai_request"@ + measured_where(f) + " GROUP BY at, model_id ORDER BY at"@
}

/// The query for totals per value of a column.
pub open spec fn per_column_sql(f: Filter, column: Text) -> Text {
    "SELECT "@ + column + ", "@ + SELECT_TOTALS@ + " FROM ai_request"@ + measured_where(f)
        + " GROUP BY "@ + column + " ORDER BY requests DESC"@
}

/// Every query is restricted by the whole filter: totals leave failed requests
/// out, the count of failures holds nothing else, and a grouping stands behind
/// the restriction and never in its place.
pub proof fn law_every_query_is_restricted(f: Filter, by: Text)
    ensures
        measured_where(f) == " WHERE request_kind != 'failed'"@ + conditions(f),
        exists|before: Text| failed_sql(f) == #[trigger] (before + conditions(f)),
        exists|before: Text| totals_sql(f) == #[trigger] (before + (
        " WHERE request_kind != 'failed'"@ + conditions(f))),
        exists|before: Text, after: Text|
            grouped_sql(f, by) == #[trigger] (before + (" WHERE request_kind != 'failed'"@
                + conditions(f)) + after) && after == " GROUP BY at, model_id ORDER BY at"@,
        exists|before: Text, after: Text|
            per_column_sql(f, by) == #[trigger] (before + (" WHERE request_kind != 'failed'"@
                + conditions(f)) + after) && after == " GROUP BY "@ + by
                + " ORDER BY requests DESC"@,
{
    let w = " WHERE request_kind != 'failed'"@ + conditions(f);
    assert(failed_sql(f) == "SELECT COUNT(*) FROM ai_request WHERE request_kind = 'failed'"@
        + conditions(f));
    assert(totals_sql(f) == "SELECT "@ + SELECT_TOTALS@ + " FROM ai_request"@ + w);
    let a = "SELECT strftime('"@ + by + "', occurred_at) AS at, model_id, "@ + SELECT_TOTALS@
        + " FROM ai_request"@;
    assert(grouped_sql(f, by) == a + w + " GROUP BY at, model_id ORDER BY at"@);
    let b = "SELECT "@ + by + ", "@ + SELECT_TOTALS@ + " FROM ai_request"@;
    let c = " GROUP BY "@ + by + " ORDER BY requests DESC"@;
    assert(per_column_sql(f, by) =~= b + w + c);
}

/// Totals are seen by the contracts as they are, column by column, and rows keep
/// their labels.
pub proof fn law_totals_are_seen_as_they_are(t: Totals, rows: Seq<(String, Totals)>, i: int)
    ensures
        t@.requests == t.requests,
        t@.input_fresh == t.input_fresh,
        t@.cache_read == t.cache_read,
        t@.cache_write_5m == t.cache_write_5m,
        t@.cache_write_1h == t.cache_write_1h,
        t@.cache_write_unspecified == t.cache_write_unspecified,
        t@.output_total == t.output_total,
        t@.unclassified == t.unclassified,
        t@.reasoning_reported_by == t.reasoning_reported_by,
        t@.reasoning.is_some() == t.reasoning.is_some(),
        t.reasoning.is_some() ==> t@.reasoning.unwrap() == t.reasoning.unwrap(),
        row_views(rows).len() == rows.len(),
        0 <= i < rows.len() ==> row_views(rows)[i] == (rows[i].0@, rows[i].1@),
{
}

} // verus!
