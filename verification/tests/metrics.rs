use aum::decimal::Decimal;
use aum::dto::TaskStatus;
use aum::ids::Uuid;
use aum::measurement::{Accuracy, DisplayKind, Measured, UnavailableReason};
use aum::metrics::{build, cost_task, try_cost_task, Completeness, MetricsInput};
use aum::money::Currency;
use aum::repo::TaskTotals;
use aum::table::{ModelPricing, PriceTable, Rates};

fn totals() -> TaskTotals {
    TaskTotals {
        requests: 13,
        input_fresh: 100,
        cache_read: 2_000,
        cache_write_1h: 500,
        output_total: 400,
        reasoning: None,
        reasoning_reported_by: 0,
        ..Default::default()
    }
}

fn input<'a>(
    totals: &'a TaskTotals,
    completeness: &'a Completeness,
    adapter: &'a str,
) -> MetricsInput<'a> {
    MetricsInput {
        task_id: Uuid::nil(),
        status: TaskStatus::Running,
        totals,
        completeness,
        model_id: Some("claude_opus_5".to_owned()),
        elapsed_ms: 60_000,
        failed_requests: 0,
        retries: Some(0),
        adapter_id: adapter,
        currency: Currency::Usd,
        api_equivalent: Measured::unavailable(UnavailableReason::NoPricingForModel {
            model_id: "claude_opus_5".to_owned(),
        }),
        subscription_plan: Some("team".to_owned()),
    }
}

#[test]
fn a_complete_task_of_measured_requests_is_exact() {
    let t = totals();
    let c = Completeness::default();
    let m = build(&input(&t, &c, "claude_code"));
    assert_eq!(m.total_tokens.display_kind(), DisplayKind::Exact);
    assert_eq!(m.total_tokens.value, Some(3_000));
}

#[test]
fn one_unmeasured_request_downgrades_the_total_to_partial() {
    let t = totals();
    let c = Completeness {
        unmeasured_requests: 1,
        ..Default::default()
    };
    let m = build(&input(&t, &c, "claude_code"));

    assert_eq!(m.total_tokens.display_kind(), DisplayKind::Partial);
    assert!(matches!(
        m.total_tokens.accuracy,
        Accuracy::Partial {
            measured: 13,
            total: 14,
            ..
        }
    ));
    assert!(m.requests.is_lower_bound, "counts are a floor");
}

#[test]
fn starting_mid_session_is_enough_to_stop_a_total_being_exact() {
    let t = totals();
    let c = Completeness {
        started_mid_session: true,
        ..Default::default()
    };
    let m = build(&input(&t, &c, "claude_code"));
    assert_ne!(m.total_tokens.display_kind(), DisplayKind::Exact);

    let Accuracy::Partial { reason, .. } = &m.total_tokens.accuracy else {
        panic!("expected partial, got {:?}", m.total_tokens.accuracy)
    };
    assert!(
        reason.contains("began after"),
        "the reason must explain the gap: {reason}"
    );
}

#[test]
fn an_ingest_anomaly_stops_a_total_being_exact() {
    let t = totals();
    let c = Completeness {
        anomalies: 1,
        ..Default::default()
    };
    assert_ne!(
        build(&input(&t, &c, "claude_code"))
            .total_tokens
            .display_kind(),
        DisplayKind::Exact
    );
}

#[test]
fn a_task_with_nothing_measured_reports_unavailable_not_zero() {
    let t = TaskTotals::default();
    let c = Completeness::default();
    let m = build(&input(&t, &c, "claude_code"));
    assert_eq!(m.total_tokens.value, None);
    assert_eq!(m.total_tokens.display_kind(), DisplayKind::Unavailable);
}

#[test]
fn claude_code_reports_reasoning_as_unavailable_rather_than_zero() {
    let t = totals();
    let c = Completeness::default();
    let m = build(&input(&t, &c, "claude_code"));

    assert_eq!(m.reasoning_tokens.value, None);
    assert_eq!(m.reasoning_tokens.display_kind(), DisplayKind::Unavailable);
    assert_ne!(m.reasoning_tokens.value, Some(0));
}

#[test]
fn codex_reports_reasoning_exactly_when_every_request_has_it() {
    let t = TaskTotals {
        requests: 5,
        reasoning: Some(175),
        reasoning_reported_by: 5,
        output_total: 800,
        ..Default::default()
    };
    let c = Completeness::default();
    let m = build(&input(&t, &c, "codex"));

    assert_eq!(m.reasoning_tokens.value, Some(175));
    assert_eq!(m.reasoning_tokens.display_kind(), DisplayKind::Exact);
}

#[test]
fn metrics_a_mixed_task_reports_reasoning_as_a_floor_over_the_requests_that_have_it() {
    let t = TaskTotals {
        requests: 15,
        reasoning: Some(175),
        reasoning_reported_by: 5,
        output_total: 2_000,
        ..Default::default()
    };
    let c = Completeness::default();
    let m = build(&input(&t, &c, "codex"));

    assert_eq!(m.reasoning_tokens.value, Some(175));
    assert!(matches!(
        m.reasoning_tokens.accuracy,
        Accuracy::Partial {
            measured: 5,
            total: 15,
            ..
        }
    ));
}

#[test]
fn a_subscription_task_never_claims_an_actual_charge() {
    let t = totals();
    let c = Completeness::default();
    let m = build(&input(&t, &c, "claude_code"));

    assert_eq!(m.cost.actual_billed.value, None);
    assert!(matches!(
        m.cost.actual_billed.accuracy,
        Accuracy::Unavailable {
            reason: UnavailableReason::SubscriptionBilled { .. }
        }
    ));
}

#[test]
fn latency_is_unavailable_and_says_what_would_make_it_available() {
    let t = totals();
    let c = Completeness::default();
    let m = build(&input(&t, &c, "claude_code"));

    for metric in [
        &m.latency.p95_ms,
        &m.latency.average_ms,
        &m.latency.time_to_first_token_ms,
        &m.latency.output_tokens_per_sec,
    ] {
        assert_eq!(metric.value, None);
    }

    let Accuracy::Unavailable { reason } = &m.latency.p95_ms.accuracy else {
        panic!("expected unavailable")
    };
    let sentence = reason.sentence();
    assert!(sentence.contains("proxy") || sentence.contains("OpenTelemetry"));
    assert!(sentence.to_lowercase().replace(' ', "_").contains("claude_code"));
}

#[test]
fn unclassified_tokens_are_included_in_the_total() {
    let t = TaskTotals {
        requests: 1,
        unclassified: 15_683,
        ..Default::default()
    };
    let c = Completeness::default();
    let m = build(&input(&t, &c, "codex"));

    assert_eq!(m.total_tokens.value, Some(15_683));
    assert_eq!(m.bands.unclassified, 15_683);
    assert_eq!(m.bands.input_side_total(), 0);
    assert_eq!(m.bands.output_total, 0);
}

#[test]
fn retries_stay_unavailable_where_the_agent_does_not_expose_them() {
    let t = totals();
    let c = Completeness::default();
    let mut i = input(&t, &c, "codex");
    i.retries = None;
    assert_eq!(build(&i).requests.retries, None);
}

fn model_totals(input: i64, output: i64) -> TaskTotals {
    TaskTotals {
        requests: 1,
        input_fresh: input,
        output_total: output,
        ..Default::default()
    }
}

#[test]
fn a_task_spanning_two_models_is_priced_per_model() {
    let table = PriceTable::from_entries(vec![
        ModelPricing {
            version_id: "a".into(),
            model_id: "expensive".into(),
            rates: Rates {
                input_per_mtok: Decimal::new(15, 0),
                output_per_mtok: Decimal::new(75, 0),
                cache_read_per_mtok: Decimal::new(2, 0),
                cache_write_5m_per_mtok: Decimal::new(19, 0),
                cache_write_1h_per_mtok: Decimal::new(30, 0),
            },
            effective_from: "2026-01-01T00:00:00.000Z".into(),
            source: "seed".into(),
            note: None,
        },
        ModelPricing {
            version_id: "b".into(),
            model_id: "cheap".into(),
            rates: Rates {
                input_per_mtok: Decimal::new(1, 0),
                output_per_mtok: Decimal::new(5, 0),
                cache_read_per_mtok: Decimal::zero(),
                cache_write_5m_per_mtok: Decimal::new(1, 0),
                cache_write_1h_per_mtok: Decimal::new(2, 0),
            },
            effective_from: "2026-01-01T00:00:00.000Z".into(),
            source: "seed".into(),
            note: None,
        },
    ]);

    let per_model = vec![
        (Some("expensive".to_owned()), model_totals(1_000_000, 0)),
        (Some("cheap".to_owned()), model_totals(1_000_000, 0)),
    ];
    let cost = cost_task(&per_model, &table);
    assert_eq!(cost.display_kind(), DisplayKind::Calculated);
    assert_eq!(
        cost.value.unwrap().amount(),
        Decimal::new(16, 0)
    );
}

#[test]
fn a_task_using_an_unpriced_model_reports_a_floor() {
    let table = PriceTable::from_entries(vec![]);
    let per_model = vec![(Some("gpt-5.6-sol".to_owned()), model_totals(1_000, 100))];
    let cost = cost_task(&per_model, &table);
    assert_eq!(cost.value, None, "never zero for an unknown model");
    assert_eq!(cost.display_kind(), DisplayKind::Unavailable);
}

#[test]
fn a_gap_is_explained() {
    let c = Completeness {
        unmeasured_requests: 2,
        started_mid_session: true,
        anomalies: 1,
    };
    assert!(!c.is_complete());
    let reason = c.reason();
    assert_eq!(reason.matches("; ").count(), 2, "{reason}");
    assert!(reason.contains('2') && reason.contains("began after"), "{reason}");
    assert!(Completeness::default().is_complete());
}

#[test]
fn an_unmeasured_thing_is_named() {
    let t = TaskTotals::default();
    let c = Completeness::default();
    let m = build(&input(&t, &c, "codex"));
    let Accuracy::Unavailable { reason } = &m.total_tokens.accuracy else {
        panic!("expected unavailable")
    };
    assert!(reason.sentence().starts_with("No requests have been measured for this"));
    assert!(reason.sentence().ends_with("task yet."));
}

#[test]
fn a_cost_can_be_asked_for_with_care() {
    let table = PriceTable::from_entries(vec![]);
    let per_model = vec![(Some("m".to_owned()), model_totals(1_000, 100))];
    assert_eq!(
        try_cost_task(&per_model, &table),
        Some(cost_task(&per_model, &table))
    );
}
