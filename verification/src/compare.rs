//! Tasks side by side.
//!
//! Normalisation is done on decimals, and what makes rows less comparable than
//! a table implies is computed from the rows themselves.
use vstd::prelude::*;
use vstd::string::StringExecFns;

use crate::decimal::{decimal_product, decimal_quotient, Decimal};
use crate::dto::{Comparison, ComparisonRow, Normalized, TaskMetrics, TaskStatus};
use crate::ids::{uuid_text, Uuid};
use crate::measurement::{Accuracy, AccuracyView, Measured, MeasuredView};
use crate::metrics::copy_amount;
use crate::money::{currency_code, Currency, Money};
use crate::pricing::measured_amount;
use crate::table::{ascending, insert_ascending, inserted, law_inserting_adds_once};
use crate::text::{dec, dec_u64, join, joined, str_eq, texts, Text};

verus! {

/// Output tokens per unit of normalisation.
pub const PER: u64 = 1_000;

/// A certainty that is derived from another: never exact, and otherwise what it
/// was.
pub open spec fn derived(a: AccuracyView) -> AccuracyView {
    match a {
        AccuracyView::Exact { source } => AccuracyView::Calculated { source },
        other => other,
    }
}

/// A count per unit of output.
pub open spec fn scaled(count: u64, output: u64) -> u64 {
    if count * PER <= u64::MAX {
        ((count * PER) / output as int) as u64
    } else {
        (u64::MAX / output) as u64
    }
}

/// A measured count per unit of output.
pub open spec fn count_per_output(m: MeasuredView<u64>, output: u64) -> MeasuredView<u64> {
    match m.value {
        None => m,
        Some(v) => MeasuredView { value: Some(scaled(v, output)), accuracy: derived(m.accuracy) },
    }
}

/// An amount per unit of output; where it cannot be computed there is none.
pub open spec fn amount_per_output(
    m: MeasuredView<(i128, u32)>,
    output: u64,
) -> MeasuredView<(i128, u32)> {
    match m.value {
        None => m,
        Some(v) => match decimal_product(v, (PER as i128, 0u32)) {
            Some(p) => match decimal_quotient(p, (output as i128, 0u32)) {
                Some(q) => MeasuredView { value: Some(q), accuracy: derived(m.accuracy) },
                None => MeasuredView { value: None, accuracy: m.accuracy },
            },
            None => MeasuredView { value: None, accuracy: m.accuracy },
        },
    }
}

/// A task's figures divided by the output it produced.
pub open spec fn normalizes(m: TaskMetrics, n: Normalized) -> bool {
    let output = m.bands.output_total;
    &&& n.basis@ == "per 1000 output tokens"@
    &&& n.denominator == output
    &&& n.total_tokens@ == count_per_output(m.total_tokens@, output)
    &&& n.input_tokens@ == MeasuredView {
        value: Some(scaled(m.bands.input_side() as u64, output)),
        accuracy: derived(m.total_tokens@.accuracy),
    }
    &&& measured_amount(n.cost) == amount_per_output(
        measured_amount(m.cost.api_equivalent),
        output,
    )
}

/// A certainty that is derived from another.
pub fn downgrade_to_calculated(accuracy: &Accuracy) -> (r: Accuracy)
    ensures
        r@ == derived(accuracy@),
{
    match accuracy {
        Accuracy::Exact { source } => Accuracy::Calculated { source: *source },
        other => other.copy(),
    }
}

fn scale(count: u64, output: u64) -> (r: u64)
    requires
        output > 0,
    ensures
        r == scaled(count, output),
{
    match count.checked_mul(PER) {
        Some(n) => n / output,
        None => u64::MAX / output,
    }
}

fn per_output(m: &Measured<u64>, output: u64) -> (r: Measured<u64>)
    requires
        output > 0,
    ensures
        r@ == count_per_output(m@, output),
{
    match m.value {
        None => Measured { value: None, accuracy: m.accuracy.copy() },
        Some(v) => Measured {
            value: Some(scale(v, output)),
            accuracy: downgrade_to_calculated(&m.accuracy),
        },
    }
}

/// Money divided by output, in decimal.
fn normalize_money(amount: &Measured<Money>, output: u64) -> (r: Measured<Money>)
    ensures
        measured_amount(r) == amount_per_output(measured_amount(*amount), output),
{
    let value = match amount.value {
        Some(v) => v,
        None => {
            return copy_amount(amount);
        },
    };
    let product = match value.amount().checked_mul(Decimal::from_u64(PER)) {
        Some(p) => p,
        None => {
            return Measured { value: None, accuracy: amount.accuracy.copy() };
        },
    };
    match product.checked_div(Decimal::from_u64(output)) {
        Some(q) => Measured {
            value: Some(Money::new(q)),
            accuracy: downgrade_to_calculated(&amount.accuracy),
        },
        None => Measured { value: None, accuracy: amount.accuracy.copy() },
    }
}

/// Divide a task's figures by the output it produced. `None` when there is no
/// output yet.
pub fn normalize_row(m: &TaskMetrics) -> (r: Option<Normalized>)
    requires
        m.bands.input_side() <= u64::MAX,
    ensures
        match r {
            Some(n) => m.bands.output_total > 0 && normalizes(*m, n),
            None => m.bands.output_total == 0,
        },
{
    let output: u64 = m.bands.output_total;
    if output == 0 {
        return None;
    }
    let input_side: u64 = m.bands.input_fresh + m.bands.cache_read + m.bands.cache_write_5m
        + m.bands.cache_write_1h + m.bands.cache_write_unspecified;
    Some(
        Normalized {
            basis: "per 1000 output tokens".to_owned(),
            denominator: output,
            total_tokens: per_output(&m.total_tokens, output),
            input_tokens: Measured {
                value: Some(scale(input_side, output)),
                accuracy: downgrade_to_calculated(&m.total_tokens.accuracy),
            },
            cost: normalize_money(&m.cost.api_equivalent, output),
        },
    )
}

/// The models of some rows, each once and in order.
pub open spec fn models_of(rows: Seq<ComparisonRow>) -> Seq<Text>
    decreases rows.len(),
{
    if rows.len() == 0 {
        Seq::empty()
    } else {
        let before = models_of(rows.drop_last());
        match rows.last().metrics.model_id {
            Some(m) => inserted(before, m@),
            None => before,
        }
    }
}

/// How many rows have a property.
pub open spec fn how_many(rows: Seq<ComparisonRow>, p: spec_fn(ComparisonRow) -> bool) -> nat
    decreases rows.len(),
{
    if rows.len() == 0 {
        0
    } else {
        how_many(rows.drop_last(), p) + if p(rows.last()) {
            1nat
        } else {
            0nat
        }
    }
}

/// Reasoning is known.
pub open spec fn reports_reasoning() -> spec_fn(ComparisonRow) -> bool {
    |r: ComparisonRow| r.metrics.reasoning_tokens.value.is_some()
}

/// No cost is known.
pub open spec fn has_no_price() -> spec_fn(ComparisonRow) -> bool {
    |r: ComparisonRow| r.metrics.cost.api_equivalent.value.is_none()
}

/// The task is still running.
pub open spec fn is_running() -> spec_fn(ComparisonRow) -> bool {
    |r: ComparisonRow| r.metrics.status == TaskStatus::Running
}

/// Some requests were not measured.
pub open spec fn is_incomplete() -> spec_fn(ComparisonRow) -> bool {
    |r: ComparisonRow| r.metrics.requests.is_lower_bound || r.metrics.requests.failed > 0
}

/// A sentence, where a condition holds.
pub open spec fn when(condition: bool, sentence: Text) -> Seq<Text> {
    if condition {
        seq![sentence]
    } else {
        Seq::empty()
    }
}

/// What makes these rows less comparable than a table implies.
pub open spec fn caveats_of(rows: Seq<ComparisonRow>, currency: Currency) -> Seq<Text> {
    let n = rows.len();
    let models = models_of(rows);
    let reasoning = how_many(rows, reports_reasoning());
    let unpriced = how_many(rows, has_no_price());
    let running = how_many(rows, is_running());
    let incomplete = how_many(rows, is_incomplete());
    if n < 2 {
        Seq::empty()
    } else {
        when(
            models.len() > 1,
            "These tasks ran on different models ("@ + joined(models, ", "@)
                + "). Differences in tokens and cost are partly differences between the models, not between the runs."@,
        ) + when(
            0 < reasoning < n,
            "Reasoning tokens are reported for "@ + dec(reasoning) + " of "@ + dec(n)
                + " tasks. The agents that do not report them are not producing zero — the count is unavailable, so that column cannot be totalled or ranked."@,
        ) + when(
            unpriced > 0,
            dec(unpriced) + " of "@ + dec(n)
                + " tasks have no price for their model, so their cost is unavailable rather than zero and the cost column cannot be ranked. A rate can be entered under Models & Pricing."@,
        ) + when(
            running > 0,
            dec(running) + " of "@ + dec(n)
                + " tasks are still running, so their figures are a snapshot and will grow."@,
        ) + when(
            incomplete > 0,
            dec(incomplete) + " of "@ + dec(n)
                + " tasks have requests that could not be measured, so their totals are lower bounds."@,
        ) + when(
            currency != Currency::Usd,
            "Costs are converted to "@ + currency_code(currency)
                + " from USD, which is what providers publish. A converted amount is calculated rather than exact."@,
        )
    }
}

fn of_n(count: usize, n: usize, rest: &str) -> (s: String)
    ensures
        s@ == dec(count as nat) + " of "@ + dec(n as nat) + rest@,
{
    let mut s = dec_u64(count as u64);
    s.append(" of ");
    s.append(dec_u64(n as u64).as_str());
    s.append(rest);
    s
}

/// What makes these rows less comparable than a table implies.
pub fn caveats(rows: &[ComparisonRow], currency: Currency) -> (r: Vec<String>)
    ensures
        texts(r@) == caveats_of(rows@, currency),
{
    let mut out: Vec<String> = Vec::new();
    let n: usize = rows.len();
    if n < 2 {
        proof {
            assert(texts(out@) =~= Seq::empty());
        }
        return out;
    }
    let mut models: Vec<String> = Vec::new();
    let mut reasoning: usize = 0;
    let mut unpriced: usize = 0;
    let mut running: usize = 0;
    let mut incomplete: usize = 0;
    let mut i: usize = 0;
    proof {
        assert(texts(models@) =~= Seq::empty());
    }
    while i < n
        invariant
            n == rows@.len(),
            i <= n,
            ascending(texts(models@)),
            texts(models@) == models_of(rows@.take(i as int)),
            reasoning == how_many(rows@.take(i as int), reports_reasoning()),
            unpriced == how_many(rows@.take(i as int), has_no_price()),
            running == how_many(rows@.take(i as int), is_running()),
            incomplete == how_many(rows@.take(i as int), is_incomplete()),
            reasoning <= i,
            unpriced <= i,
            running <= i,
            incomplete <= i,
        decreases n - i,
    {
        let row = &rows[i];
        proof {
            assert(rows@.take(i + 1).drop_last() =~= rows@.take(i as int));
            assert(rows@.take(i + 1).last() == *row);
        }
        if let Some(m) = &row.metrics.model_id {
            insert_ascending(&mut models, m);
        }
        if row.metrics.reasoning_tokens.value.is_some() {
            reasoning += 1;
        }
        if row.metrics.cost.api_equivalent.value.is_none() {
            unpriced += 1;
        }
        if row.metrics.status == TaskStatus::Running {
            running += 1;
        }
        if row.metrics.requests.is_lower_bound || row.metrics.requests.failed > 0 {
            incomplete += 1;
        }
        i += 1;
    }
    proof {
        assert(rows@.take(i as int) =~= rows@);
    }
    if models.len() > 1 {
        let mut s = "These tasks ran on different models (".to_owned();
        s.append(join(&models, ", ").as_str());
        s.append(
            "). Differences in tokens and cost are partly differences between the models, not between the runs.",
        );
        out.push(s);
    }
    if 0 < reasoning && reasoning < n {
        let mut s = "Reasoning tokens are reported for ".to_owned();
        s.append(dec_u64(reasoning as u64).as_str());
        s.append(" of ");
        s.append(dec_u64(n as u64).as_str());
        s.append(
            " tasks. The agents that do not report them are not producing zero — the count is unavailable, so that column cannot be totalled or ranked.",
        );
        out.push(s);
    }
    if unpriced > 0 {
        out.push(
            of_n(
                unpriced,
                n,
                " tasks have no price for their model, so their cost is unavailable rather than zero and the cost column cannot be ranked. A rate can be entered under Models & Pricing.",
            ),
        );
    }
    if running > 0 {
        out.push(
            of_n(
                running,
                n,
                " tasks are still running, so their figures are a snapshot and will grow.",
            ),
        );
    }
    if incomplete > 0 {
        out.push(
            of_n(
                incomplete,
                n,
                " tasks have requests that could not be measured, so their totals are lower bounds.",
            ),
        );
    }
    if currency != Currency::Usd {
        let mut s = "Costs are converted to ".to_owned();
        s.append(currency.code());
        s.append(
            " from USD, which is what providers publish. A converted amount is calculated rather than exact.",
        );
        out.push(s);
    }
    proof {
        assert(texts(out@) =~= caveats_of(rows@, currency));
    }
    out
}

/// The name that a list gives an identifier; the first where there are several.
pub open spec fn name_in(names: Seq<(String, String)>, id: Text) -> Option<Text>
    decreases names.len(),
{
    if names.len() == 0 {
        None
    } else if names[0].0@ == id {
        Some(names[0].1@)
    } else {
        name_in(names.drop_first(), id)
    }
}

/// The tasks that were asked for and exist, with their names, in the order asked
/// for.
pub open spec fn known(ids: Seq<Uuid>, names: Seq<(String, String)>) -> Seq<(Uuid, Text)>
    decreases ids.len(),
{
    if ids.len() == 0 {
        Seq::empty()
    } else {
        let before = known(ids.drop_last(), names);
        match name_in(names, uuid_text(ids.last().bits)) {
            Some(name) => before.push((ids.last(), name)),
            None => before,
        }
    }
}

/// The tasks that were asked for and do not exist.
pub open spec fn unknown(ids: Seq<Uuid>, names: Seq<(String, String)>) -> Seq<Text>
    decreases ids.len(),
{
    if ids.len() == 0 {
        Seq::empty()
    } else {
        let before = unknown(ids.drop_last(), names);
        match name_in(names, uuid_text(ids.last().bits)) {
            Some(_) => before,
            None => before.push(uuid_text(ids.last().bits)),
        }
    }
}

/// The tasks that a comparison was asked for.
#[derive(Debug, Clone, PartialEq)]
pub struct Selection {
    pub present: Vec<(Uuid, String)>,
    pub missing: Vec<String>,
    pub asked: usize,
}

/// Tasks and their names, as the contracts see them.
pub open spec fn named_tasks(v: Seq<(Uuid, String)>) -> Seq<(Uuid, Text)> {
    v.map_values(|p: (Uuid, String)| (p.0, p.1@))
}

fn find_name<'a>(names: &'a [(String, String)], id: &str) -> (r: Option<&'a String>)
    ensures
        match r {
            Some(s) => name_in(names@, id@) == Some(s@),
            None => name_in(names@, id@).is_none(),
        },
{
    let mut i: usize = 0;
    proof {
        assert(names@.skip(0) =~= names@);
    }
    while i < names.len()
        invariant
            i <= names.len(),
            name_in(names@, id@) == name_in(names@.skip(i as int), id@),
        decreases names.len() - i,
    {
        proof {
            assert(names@.skip(i as int)[0] == names@[i as int]);
            assert(names@.skip(i as int).drop_first() =~= names@.skip(i + 1));
        }
        if str_eq(names[i].0.as_str(), id) {
            return Some(&names[i].1);
        }
        i += 1;
    }
    None
}

/// Part the tasks that were asked for into those that exist and those that do
/// not: a task that is not there is not a task that did nothing.
pub fn select(task_ids: &[Uuid], names: &[(String, String)]) -> (s: Selection)
    ensures
        named_tasks(s.present@) == known(task_ids@, names@),
        texts(s.missing@) == unknown(task_ids@, names@),
        s.asked == task_ids@.len(),
{
    let mut present: Vec<(Uuid, String)> = Vec::new();
    let mut missing: Vec<String> = Vec::new();
    let mut i: usize = 0;
    proof {
        assert(named_tasks(present@) =~= Seq::empty());
        assert(texts(missing@) =~= Seq::empty());
    }
    while i < task_ids.len()
        invariant
            i <= task_ids.len(),
            named_tasks(present@) == known(task_ids@.take(i as int), names@),
            texts(missing@) == unknown(task_ids@.take(i as int), names@),
        decreases task_ids.len() - i,
    {
        let id = task_ids[i];
        let text = id.text();
        let ghost p = named_tasks(present@);
        let ghost m = texts(missing@);
        proof {
            assert(task_ids@.take(i + 1).drop_last() =~= task_ids@.take(i as int));
            assert(task_ids@.take(i + 1).last() == id);
        }
        match find_name(names, text.as_str()) {
            Some(name) => {
                present.push((id, name.clone()));
                proof {
                    assert(named_tasks(present@) =~= p.push((id, name@)));
                }
            },
            None => {
                missing.push(text);
                proof {
                    assert(texts(missing@) =~= m.push(uuid_text(id.bits)));
                }
            },
        }
        i += 1;
    }
    proof {
        assert(task_ids@.take(i as int) =~= task_ids@);
    }
    Selection { present, missing, asked: task_ids.len() }
}

/// What is said of tasks that were asked for and do not exist.
pub open spec fn absence(missing: Seq<Text>, asked: nat) -> Seq<Text> {
    when(
        missing.len() > 0,
        dec(missing.len()) + " of the "@ + dec(asked)
            + " tasks asked for are not in this database and have been left out rather than shown as empty: "@
            + joined(missing, ", "@) + "."@,
    )
}

/// Whether a row stands for a task with its metrics.
pub open spec fn is_row(
    task: (Uuid, String),
    m: TaskMetrics,
    normalize: bool,
    row: ComparisonRow,
) -> bool {
    &&& row.task_id == task.0
    &&& row.name == task.1
    &&& *row.metrics == m
    &&& match row.normalized {
        Some(n) => normalize && m.bands.output_total > 0 && normalizes(m, n),
        None => !normalize || m.bands.output_total == 0,
    }
}

/// Build a comparison of the tasks that exist, in the order asked for, from
/// their metrics.
pub fn compare(
    selection: Selection,
    metrics: Vec<TaskMetrics>,
    currency: Currency,
    normalize: bool,
) -> (c: Comparison)
    requires
        metrics@.len() == selection.present@.len(),
        forall|i: int|
            0 <= i < metrics@.len() ==> (#[trigger] metrics@[i]).bands.input_side() <= u64::MAX,
    ensures
        c.rows@.len() == metrics@.len(),
        forall|i: int|
            0 <= i < metrics@.len() ==> is_row(
                selection.present@[i],
                metrics@[i],
                normalize,
                #[trigger] c.rows@[i],
            ),
        texts(c.caveats@) == absence(texts(selection.missing@), selection.asked as nat)
            + caveats_of(c.rows@, currency),
{
    let mut present = selection.present;
    let mut left = metrics;
    let mut rows: Vec<ComparisonRow> = Vec::new();
    let ghost tasks = present@;
    let ghost all = left@;
    let n: usize = left.len();
    while rows.len() < n
        invariant
            n == all.len(),
            n == tasks.len(),
            rows@.len() <= n,
            left@ == all.skip(rows@.len() as int),
            present@ == tasks.skip(rows@.len() as int),
            forall|i: int|
                0 <= i < all.len() ==> (#[trigger] all[i]).bands.input_side() <= u64::MAX,
            forall|i: int|
                0 <= i < rows@.len() ==> is_row(tasks[i], all[i], normalize, #[trigger] rows@[i]),
        decreases n - rows.len(),
    {
        let ghost k = rows@.len() as int;
        let m = left.remove(0);
        let (task_id, name) = present.remove(0);
        proof {
            assert(m == all[k]);
            assert(left@ =~= all.skip(k + 1));
            assert(present@ =~= tasks.skip(k + 1));
        }
        let normalized = if normalize {
            normalize_row(&m)
        } else {
            None
        };
        rows.push(ComparisonRow { task_id, name, metrics: Box::new(m), normalized });
    }
    let mut notes = caveats(rows.as_slice(), currency);
    let missing = selection.missing;
    if missing.len() > 0 {
        let mut s = dec_u64(missing.len() as u64);
        s.append(" of the ");
        s.append(dec_u64(selection.asked as u64).as_str());
        s.append(
            " tasks asked for are not in this database and have been left out rather than shown as empty: ",
        );
        s.append(join(&missing, ", ").as_str());
        s.append(".");
        let ghost before = texts(notes@);
        let ghost first = s@;
        notes.insert(0, s);
        proof {
            assert(texts(notes@) =~= seq![first] + before);
        }
    } else {
        proof {
            assert(texts(notes@) =~= Seq::<Text>::empty() + texts(notes@));
        }
    }
    Comparison { rows, caveats: notes }
}

/// A ratio is never exact, whatever it was derived from, and keeps any other
/// certainty as it was.
pub proof fn law_normalized_is_never_exact(m: MeasuredView<u64>, output: u64)
    requires
        m.wf(),
    ensures
        !(count_per_output(m, output).accuracy is Exact),
        !(m.accuracy is Exact) ==> count_per_output(m, output).accuracy == m.accuracy,
        m.value.is_none() <==> count_per_output(m, output).value.is_none(),
{
}

/// Every task that was asked for is either shown or named as missing: none is
/// left out in silence, and none is shown that does not exist.
pub proof fn law_every_task_is_accounted_for(ids: Seq<Uuid>, names: Seq<(String, String)>)
    ensures
        known(ids, names).len() + unknown(ids, names).len() == ids.len(),
    decreases ids.len(),
{
    if ids.len() > 0 {
        law_every_task_is_accounted_for(ids.drop_last(), names);
    }
}

/// A single row needs no caveats.
pub proof fn law_one_row_has_no_caveats(rows: Seq<ComparisonRow>, currency: Currency)
    requires
        rows.len() < 2,
    ensures
        caveats_of(rows, currency) == Seq::<Text>::empty(),
{
}

/// Per thousand output tokens, exactly: what is shown, times the output, is a
/// thousand times the count, but for what a whole number leaves over.
pub open spec fn is_per_thousand(shown: u64, count: int, output: int) -> bool {
    shown * output <= 1000 * count < (shown + 1) * output
}

proof fn scaled_is_per_thousand(count: u64, output: u64)
    requires
        output > 0,
        1000 * count <= u64::MAX,
    ensures
        is_per_thousand(scaled(count, output), count as int, output as int),
{
    let n = 1000 * count;
    let q = n / output as int;
    vstd::arithmetic::div_mod::lemma_fundamental_div_mod(n, output as int);
    assert(q * output <= n < (q + 1) * output) by (nonlinear_arith)
        requires
            output > 0,
            n == output * q + n % (output as int),
            0 <= n % (output as int) < output,
    ;
    assert(0 <= q <= n) by (nonlinear_arith)
        requires
            output > 0,
            n >= 0,
            q * output <= n < (q + 1) * output,
    ;
}

/// A normalised row counts, per thousand output tokens, all tokens that were
/// charged as input: fresh ones, cache reads, and cache writes of every kind. Its
/// denominator is the task's output, its total is the task's total, and a figure
/// that the task does not have it does not have either.
pub proof fn law_normalized_figures_are_per_thousand(m: TaskMetrics, n: Normalized)
    requires
        m.bands.output_total > 0,
        normalizes(m, n),
    ensures
        n.denominator == m.bands.output_total,
        n.input_tokens.value.is_some(),
        1000 * (m.bands.input_fresh + m.bands.cache_read + m.bands.cache_write_5m
            + m.bands.cache_write_1h + m.bands.cache_write_unspecified) <= u64::MAX
            ==> is_per_thousand(
            n.input_tokens.value.unwrap(),
            m.bands.input_fresh + m.bands.cache_read + m.bands.cache_write_5m
                + m.bands.cache_write_1h + m.bands.cache_write_unspecified,
            m.bands.output_total as int,
        ),
        n.total_tokens.value.is_some() == m.total_tokens.value.is_some(),
        m.total_tokens.value.is_some() && 1000 * m.total_tokens.value.unwrap() <= u64::MAX
            ==> is_per_thousand(
            n.total_tokens.value.unwrap(),
            m.total_tokens.value.unwrap() as int,
            m.bands.output_total as int,
        ),
        !(n.input_tokens@.accuracy is Exact),
        !(m.total_tokens@.accuracy is Exact) ==> n.input_tokens@.accuracy
            == m.total_tokens@.accuracy,
        m.cost.api_equivalent.value.is_none() ==> n.cost.value.is_none(),
        m.cost.api_equivalent.value.is_some() && !(m.cost.api_equivalent@.accuracy is Exact)
            ==> n.cost@.accuracy == m.cost.api_equivalent@.accuracy,
{
    let input = m.bands.input_fresh + m.bands.cache_read + m.bands.cache_write_5m
        + m.bands.cache_write_1h + m.bands.cache_write_unspecified;
    assert(n.input_tokens@.value == n.input_tokens.value);
    assert(n.total_tokens@.value == n.total_tokens.value);
    assert(m.total_tokens@.value == m.total_tokens.value);
    if 1000 * input <= u64::MAX {
        scaled_is_per_thousand(input as u64, m.bands.output_total);
    }
    if m.total_tokens.value.is_some() && 1000 * m.total_tokens.value.unwrap() <= u64::MAX {
        scaled_is_per_thousand(m.total_tokens.value.unwrap(), m.bands.output_total);
    }
}

/// The name of a task is found exactly where there is one, and it is the first
/// that its identifier has.
pub proof fn law_a_name_is_found_where_there_is_one(names: Seq<(String, String)>, id: Text)
    ensures
        name_in(names, id).is_none() <==> forall|i: int|
            0 <= i < names.len() ==> (#[trigger] names[i]).0@ != id,
        name_in(names, id).is_some() ==> exists|i: int|
            0 <= i < names.len() && (#[trigger] names[i]).0@ == id && names[i].1@ == name_in(
                names,
                id,
            ).unwrap() && forall|j: int| 0 <= j < i ==> (#[trigger] names[j]).0@ != id,
    decreases names.len(),
{
    if names.len() > 0 {
        let rest = names.drop_first();
        law_a_name_is_found_where_there_is_one(rest, id);
        assert forall|j: int| 0 < j < names.len() implies names[j] == #[trigger] rest[j - 1] by {}
        if names[0].0@ != id {
            if name_in(rest, id).is_some() {
                let k = choose|k: int|
                    0 <= k < rest.len() && (#[trigger] rest[k]).0@ == id && rest[k].1@ == name_in(
                        rest,
                        id,
                    ).unwrap() && forall|j: int| 0 <= j < k ==> (#[trigger] rest[j]).0@ != id;
                assert(names[k + 1] == rest[k]);
                assert forall|j: int| 0 <= j < k + 1 implies (#[trigger] names[j]).0@ != id by {
                    if j > 0 {
                        assert(names[j] == rest[j - 1]);
                    }
                }
            } else {
                assert forall|i: int| 0 <= i < names.len() implies (#[trigger] names[i]).0@
                    != id by {
                    if i > 0 {
                        assert(names[i] == rest[i - 1]);
                    }
                }
            }
        }
    }
}

/// The models of some rows are exactly those that a row names, each once and in
/// order.
pub proof fn law_models_are_those_of_the_rows(rows: Seq<ComparisonRow>, m: Text)
    ensures
        ascending(models_of(rows)),
        models_of(rows).contains(m) <==> exists|i: int|
            0 <= i < rows.len() && (#[trigger] rows[i]).metrics.model_id.is_some()
                && rows[i].metrics.model_id.unwrap()@ == m,
    decreases rows.len(),
{
    if rows.len() > 0 {
        let d = rows.drop_last();
        let n = rows.len() - 1;
        law_models_are_those_of_the_rows(d, m);
        assert(rows[n] == rows.last());
        if let Some(own) = rows.last().metrics.model_id {
            law_inserting_adds_once(models_of(d), own@, m);
        }
        if exists|i: int|
            0 <= i < d.len() && (#[trigger] d[i]).metrics.model_id.is_some()
                && d[i].metrics.model_id.unwrap()@ == m {
            let i = choose|i: int|
                0 <= i < d.len() && (#[trigger] d[i]).metrics.model_id.is_some()
                    && d[i].metrics.model_id.unwrap()@ == m;
            assert(rows[i] == d[i]);
        }
        if exists|i: int|
            0 <= i < rows.len() && (#[trigger] rows[i]).metrics.model_id.is_some()
                && rows[i].metrics.model_id.unwrap()@ == m {
            let i = choose|i: int|
                0 <= i < rows.len() && (#[trigger] rows[i]).metrics.model_id.is_some()
                    && rows[i].metrics.model_id.unwrap()@ == m;
            if i < n {
                assert(d[i] == rows[i]);
            }
        }
    }
}

/// A row more counts where it has the property, and only there.
pub proof fn law_rows_are_counted_once(
    rows: Seq<ComparisonRow>,
    row: ComparisonRow,
    p: spec_fn(ComparisonRow) -> bool,
)
    ensures
        how_many(Seq::empty(), p) == 0,
        how_many(rows.push(row), p) == how_many(rows, p) + if p(row) {
            1int
        } else {
            0
        },
{
    assert(rows.push(row).drop_last() =~= rows);
}

/// What makes a row less comparable: reasoning is known where there is a number,
/// a price is missing where there is no cost, a task runs where its status says
/// so, and a row is incomplete where its counts are a floor or a request failed.
pub proof fn law_rows_are_judged_by_their_metrics(r: ComparisonRow)
    ensures
        reports_reasoning()(r) <==> r.metrics.reasoning_tokens.value.is_some(),
        has_no_price()(r) <==> r.metrics.cost.api_equivalent.value.is_none(),
        is_running()(r) <==> r.metrics.status == TaskStatus::Running,
        is_incomplete()(r) <==> r.metrics.requests.is_lower_bound || r.metrics.requests.failed > 0,
{
}

/// Of two rows or more, each thing that makes them less comparable is said, in
/// its own sentence, exactly where it is so.
pub proof fn law_caveats_are_said_where_they_hold(rows: Seq<ComparisonRow>, currency: Currency)
    requires
        rows.len() >= 2,
    ensures
        ({
            let c = caveats_of(rows, currency);
            let n = rows.len();
            let models = models_of(rows);
            let reasoning = how_many(rows, reports_reasoning());
            let unpriced = how_many(rows, has_no_price());
            let running = how_many(rows, is_running());
            let incomplete = how_many(rows, is_incomplete());
            &&& c.len() == one_if(models.len() > 1) + one_if(reasoning > 0 && reasoning < n)
                + one_if(unpriced > 0) + one_if(running > 0) + one_if(incomplete > 0) + one_if(
                currency != Currency::Usd,
            )
            &&& models.len() > 1 ==> c.contains(
                "These tasks ran on different models ("@ + joined(models, ", "@)
                    + "). Differences in tokens and cost are partly differences between the models, not between the runs."@,
            )
            &&& reasoning > 0 && reasoning < n ==> c.contains(
                "Reasoning tokens are reported for "@ + dec(reasoning) + " of "@ + dec(n)
                    + " tasks. The agents that do not report them are not producing zero — the count is unavailable, so that column cannot be totalled or ranked."@,
            )
            &&& unpriced > 0 ==> c.contains(
                dec(unpriced) + " of "@ + dec(n)
                    + " tasks have no price for their model, so their cost is unavailable rather than zero and the cost column cannot be ranked. A rate can be entered under Models & Pricing."@,
            )
            &&& running > 0 ==> c.contains(
                dec(running) + " of "@ + dec(n)
                    + " tasks are still running, so their figures are a snapshot and will grow."@,
            )
            &&& incomplete > 0 ==> c.contains(
                dec(incomplete) + " of "@ + dec(n)
                    + " tasks have requests that could not be measured, so their totals are lower bounds."@,
            )
            &&& currency != Currency::Usd ==> c.contains(
                "Costs are converted to "@ + currency_code(currency)
                    + " from USD, which is what providers publish. A converted amount is calculated rather than exact."@,
            )
        }),
{
    let n = rows.len();
    let c = caveats_of(rows, currency);
    let models = models_of(rows);
    let reasoning = how_many(rows, reports_reasoning());
    let a1 = one_if(models.len() > 1);
    let a2 = one_if(reasoning > 0 && reasoning < n);
    let a3 = one_if(how_many(rows, has_no_price()) > 0);
    let a4 = one_if(how_many(rows, is_running()) > 0);
    let a5 = one_if(how_many(rows, is_incomplete()) > 0);
    let a6 = one_if(currency != Currency::Usd);
    assert(c.len() == a1 + a2 + a3 + a4 + a5 + a6);
    assert(a1 == 1 ==> c.contains(c[0]));
    assert(a2 == 1 ==> c.contains(c[a1]));
    assert(a3 == 1 ==> c.contains(c[a1 + a2]));
    assert(a4 == 1 ==> c.contains(c[a1 + a2 + a3]));
    assert(a5 == 1 ==> c.contains(c[a1 + a2 + a3 + a4]));
    assert(a6 == 1 ==> c.contains(c[a1 + a2 + a3 + a4 + a5]));
}

/// One where a condition holds, and else nothing.
pub open spec fn one_if(condition: bool) -> int {
    if condition {
        1
    } else {
        0
    }
}

/// A task that exists is shown under its own name and no other, one that does not
/// is named as missing, and both come in the order asked for.
pub proof fn law_tasks_come_in_the_order_asked_for(
    ids: Seq<Uuid>,
    id: Uuid,
    names: Seq<(String, String)>,
)
    ensures
        known(Seq::empty(), names) == Seq::<(Uuid, Text)>::empty(),
        unknown(Seq::empty(), names) == Seq::<Text>::empty(),
        name_in(names, uuid_text(id.bits)).is_some() ==> known(ids.push(id), names) == known(
            ids,
            names,
        ).push((id, name_in(names, uuid_text(id.bits)).unwrap())) && unknown(ids.push(id), names)
            == unknown(ids, names),
        name_in(names, uuid_text(id.bits)).is_none() ==> known(ids.push(id), names) == known(
            ids,
            names,
        ) && unknown(ids.push(id), names) == unknown(ids, names).push(uuid_text(id.bits)),
{
    assert(ids.push(id).drop_last() =~= ids);
}

/// Tasks that are missing are said to be, with how many of how many and which.
pub proof fn law_missing_tasks_are_named(missing: Seq<Text>, asked: nat)
    ensures
        missing.len() == 0 ==> absence(missing, asked).len() == 0,
        missing.len() > 0 ==> absence(missing, asked).len() == 1 && absence(missing, asked)[0]
            == dec(missing.len()) + " of the "@ + dec(asked)
            + " tasks asked for are not in this database and have been left out rather than shown as empty: "@
            + joined(missing, ", "@) + "."@,
{
}

/// A row of a comparison is a task's own: its identity, its name and its metrics,
/// normalised exactly where that was asked for and there is output to divide by.
pub proof fn law_a_row_is_the_tasks_own(
    task: (Uuid, String),
    m: TaskMetrics,
    normalize: bool,
    row: ComparisonRow,
)
    requires
        is_row(task, m, normalize, row),
    ensures
        row.task_id == task.0,
        row.name == task.1,
        *row.metrics == m,
        row.normalized.is_some() <==> normalize && m.bands.output_total > 0,
        row.normalized.is_some() ==> row.normalized.unwrap().denominator == m.bands.output_total,
{
}

/// A cost per thousand output tokens is a thousand times the cost, divided by the
/// output; it is missing exactly where one of the two does not fit.
pub proof fn law_a_cost_is_per_thousand(m: TaskMetrics, n: Normalized, v: (i128, u32))
    requires
        m.bands.output_total > 0,
        normalizes(m, n),
        measured_amount(m.cost.api_equivalent).value == Some(v),
    ensures
        decimal_product(v, (1000i128, 0u32)).is_none() ==> measured_amount(n.cost).value.is_none(),
        decimal_product(v, (1000i128, 0u32)).is_some() ==> measured_amount(n.cost).value
            == decimal_quotient(
            decimal_product(v, (1000i128, 0u32)).unwrap(),
            (m.bands.output_total as i128, 0u32),
        ),
{
}

/// A count too large to be multiplied by a thousand is taken as the largest that
/// can be, and nothing is ever more than that.
pub proof fn law_a_huge_count_is_capped(count: u64, output: u64)
    requires
        output > 0,
        1000 * count > u64::MAX,
    ensures
        scaled(count, output) == u64::MAX / output,
{
}

/// What was exact is calculated once it is divided, from the same source; any
/// other certainty stays what it was.
pub proof fn law_a_derived_figure_is_calculated(a: AccuracyView)
    ensures
        a is Exact ==> derived(a) == (AccuracyView::Calculated { source: a->Exact_source }),
        !(a is Exact) ==> derived(a) == a,
{
}

} // verus!
