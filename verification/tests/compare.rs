use aum::compare::{caveats, compare, downgrade_to_calculated, normalize_row, select};
use aum::decimal::Decimal;
use aum::dto::{
    ComparisonRow, CostBreakdown, LatencySummary, RequestCounts, TaskMetrics, TaskStatus,
};
use aum::ids::Uuid;
use aum::measurement::{
    Accuracy, DisplayKind, Measured, MeasurementSource, UnavailableReason,
};
use aum::money::{Currency, Money};
use aum::tokens::TokenBands;

fn metrics(output: u64, model: &str, cost: Measured<Money>) -> TaskMetrics {
    TaskMetrics {
        task_id: Uuid { bits: 7 },
        status: TaskStatus::Completed,
        model_id: Some(model.to_owned()),
        bands: TokenBands {
            input_fresh: 4_000,
            cache_read: 0,
            cache_write_5m: 0,
            cache_write_1h: 0,
            cache_write_unspecified: 0,
            output_total: output,
            reasoning: None,
            unclassified: 0,
        },
        total_tokens: Measured::exact(4_000 + output, MeasurementSource::ProviderReported),
        reasoning_tokens: Measured::unavailable(UnavailableReason::NotReportedByProvider {
            field: "reasoning".to_owned(),
            detail: "claude_code does not report reasoning tokens.".to_owned(),
        }),
        requests: RequestCounts {
            succeeded: 1,
            failed: 0,
            retries: Some(0),
            is_lower_bound: false,
        },
        cost: CostBreakdown::subscription(Currency::Usd, cost, "team"),
        latency: LatencySummary::unavailable(
            "no latency in transcripts",
            "the local proxy",
        ),
        elapsed_ms: 10_000,
    }
}

fn row(m: TaskMetrics) -> ComparisonRow {
    let normalized = normalize_row(&m);
    ComparisonRow {
        task_id: m.task_id,
        name: "t".to_owned(),
        metrics: Box::new(m),
        normalized,
    }
}

fn usd(s: &str) -> Measured<Money> {
    Measured::calculated(
        Money::new(Decimal::from_text(s).unwrap()),
        MeasurementSource::ApplicationTelemetry,
    )
}

#[test]
fn normalising_divides_by_output_and_says_what_it_divided_by() {
    let m = metrics(2_000, "claude_opus_5", usd("90.00"));
    let n = normalize_row(&m).unwrap();

    assert_eq!(n.denominator, 2_000);
    assert!(n.basis.contains("1000"), "{}", n.basis);
    assert_eq!(n.total_tokens.value, Some(3_000));
    assert_eq!(
        n.cost.value.unwrap().amount(),
        Decimal::from_text("45").unwrap()
    );
}

#[test]
fn a_task_with_no_output_yet_normalises_to_nothing_rather_than_to_infinity() {
    assert!(normalize_row(&metrics(0, "m", usd("1.00"))).is_none());
}

#[test]
fn a_normalised_figure_is_never_exact() {
    let m = metrics(2_000, "m", usd("90.00"));
    assert_eq!(m.total_tokens.display_kind(), DisplayKind::Exact);
    let n = normalize_row(&m).unwrap();
    assert_eq!(n.total_tokens.display_kind(), DisplayKind::Calculated);
}

#[test]
fn an_unpriced_task_normalises_to_unavailable_with_its_original_reason() {
    let missing = Measured::unavailable(UnavailableReason::NoPricingForModel {
        model_id: "gpt-5.6-sol".to_owned(),
    });
    let n = normalize_row(&metrics(2_000, "gpt-5.6-sol", missing)).unwrap();

    assert_eq!(n.cost.value, None);
    assert!(
        matches!(
            n.cost.accuracy,
            Accuracy::Unavailable {
                reason: UnavailableReason::NoPricingForModel { .. }
            }
        ),
        "the reason must survive normalisation: {:?}",
        n.cost.accuracy
    );
}

#[test]
fn comparing_different_models_says_so() {
    let rows = vec![
        row(metrics(1_000, "claude_opus_5", usd("1.00"))),
        row(metrics(1_000, "gpt-5.6-terra", usd("1.00"))),
    ];
    let text = caveats(&rows, Currency::Usd).join(" ");
    assert!(text.contains("different models"), "{text}");
    assert!(text.contains("claude_opus_5"), "{text}");
}

#[test]
fn an_unpriced_row_makes_the_cost_column_unrankable_and_says_where_to_fix_it() {
    let rows = vec![
        row(metrics(1_000, "m", usd("1.00"))),
        row(metrics(
            1_000,
            "m",
            Measured::unavailable(UnavailableReason::NoPricingForModel {
                model_id: "m".to_owned(),
            }),
        )),
    ];
    let text = caveats(&rows, Currency::Usd).join(" ");
    assert!(text.contains("cannot be ranked"), "{text}");
    assert!(text.contains("Models & Pricing"), "{text}");
}

#[test]
fn a_single_row_needs_no_caveats() {
    let rows = vec![row(metrics(1_000, "m", usd("1.00")))];
    assert!(caveats(&rows, Currency::Usd).is_empty());
}

#[test]
fn a_converted_comparison_says_the_amounts_were_converted() {
    let rows = vec![
        row(metrics(1_000, "m", usd("1.00"))),
        row(metrics(1_000, "m", usd("2.00"))),
    ];
    let text = caveats(&rows, Currency::Eur).join(" ");
    assert!(text.contains("converted to EUR"), "{text}");
}

fn task(n: u128) -> Uuid {
    Uuid { bits: n }
}

fn known(ids: &[u128]) -> Vec<(String, String)> {
    ids.iter().map(|n| (task(*n).text(), format!("task {n}"))).collect()
}

#[test]
fn a_task_that_is_not_in_this_database_is_left_out_and_named() {
    let selection = select(&[task(1), task(9)], &known(&[1]));
    assert_eq!(selection.present.len(), 1);
    let c = compare(
        selection,
        vec![metrics(1_000, "m", usd("1.00"))],
        Currency::Usd,
        true,
    );
    assert_eq!(c.rows.len(), 1);
    assert!(
        c.caveats.iter().any(|s| s.contains(&task(9).text())),
        "{:?}",
        c.caveats
    );
}

#[test]
fn rows_come_back_in_the_order_they_were_asked_for() {
    let selection = select(&[task(3), task(1), task(2)], &known(&[1, 2, 3]));
    let all = (0..3).map(|_| metrics(1_000, "m", usd("1.00"))).collect();
    let c = compare(selection, all, Currency::Usd, false);
    let names: Vec<&str> = c.rows.iter().map(|r| r.name.as_str()).collect();
    assert_eq!(names, vec!["task 3", "task 1", "task 2"]);
    assert!(c.rows.iter().all(|r| r.normalized.is_none()));
}

#[test]
fn an_empty_selection_compares_nothing_rather_than_everything() {
    let selection = select(&[], &known(&[1, 2, 3]));
    let c = compare(selection, Vec::new(), Currency::Usd, false);
    assert!(c.rows.is_empty());
    assert!(c.caveats.is_empty());
}

#[test]
fn a_derived_certainty_is_never_exact() {
    let exact = Accuracy::Exact {
        source: MeasurementSource::ProviderReported,
    };
    assert_eq!(
        downgrade_to_calculated(&exact),
        Accuracy::Calculated {
            source: MeasurementSource::ProviderReported
        }
    );
    let partial = Accuracy::Partial {
        measured: 1,
        total: 2,
        reason: "r".to_owned(),
    };
    assert_eq!(downgrade_to_calculated(&partial), partial);
}
