use aum::decimal::Decimal;
use aum::dto::{CostBreakdown, LatencySummary};
use aum::events::{AgentEvent, EventEnvelope};
use aum::handshake::{Handshake, HANDSHAKE_KIND, HANDSHAKE_PROTOCOL};
use aum::ids::Uuid;
use aum::measurement::{
    Accuracy, DisplayKind, Measured, MeasurementSource, UnavailableReason,
};
use aum::money::{parse_currency, Currency, Money};
use aum::nano;
use aum::time::{now_sql, to_sql_time, Timestamp};
use aum::tokens::TokenBands;

fn exact(n: u64) -> Measured<u64> {
    Measured::exact(n, MeasurementSource::ProviderReported)
}

fn missing() -> Measured<u64> {
    Measured::unavailable(UnavailableReason::RequestFailed {
        detail: "The request failed before usage was reported.".to_owned(),
    })
}

fn d(s: &str) -> Decimal {
    Decimal::from_text(s).unwrap()
}

#[test]
fn unavailable_never_carries_a_value() {
    assert!(missing().value.is_none());
}

#[test]
fn absent_provider_field_is_unavailable_not_zero() {
    let m = Measured::<u64>::from_option(
        None,
        MeasurementSource::ProviderReported,
        UnavailableReason::NotReportedByProvider {
            field: "reasoning_tokens".to_owned(),
            detail: "claude_code does not report a reasoning-token count.".to_owned(),
        },
    );
    assert_eq!(m.display_kind(), DisplayKind::Unavailable);
    assert_ne!(m.value, Some(0));
}

#[test]
fn all_exact_sums_to_exact() {
    let s = Measured::sum(&[exact(10), exact(20), exact(30)]);
    assert_eq!(s.value, Some(60));
    assert_eq!(s.display_kind(), DisplayKind::Exact);
}

#[test]
fn one_missing_contributor_downgrades_the_total_to_partial() {
    let mut parts: Vec<Measured<u64>> = (0..12).map(|_| exact(100)).collect();
    parts.push(missing());

    let s = Measured::sum(&parts);
    assert_eq!(s.value, Some(1200));
    assert_eq!(s.display_kind(), DisplayKind::Partial);
    assert!(matches!(
        s.accuracy,
        Accuracy::Partial {
            measured: 12,
            total: 13,
            ..
        }
    ));
}

#[test]
fn all_missing_stays_unavailable_and_never_becomes_zero() {
    let s = Measured::sum(&[missing(), missing()]);
    assert_eq!(s.value, None);
    assert_eq!(s.display_kind(), DisplayKind::Unavailable);
}

#[test]
fn weakest_certainty_wins_when_complete() {
    let s = Measured::sum(&[
        exact(10),
        Measured::calculated(20, MeasurementSource::ApplicationTelemetry),
    ]);
    assert_eq!(s.value, Some(30));
    assert_eq!(s.display_kind(), DisplayKind::Calculated);
}

#[test]
fn accuracy_never_recovers_by_adding_more_exact_values() {
    let degraded = Measured::sum(&[exact(1), missing()]);
    let more = Measured::sum(&[degraded, exact(5), exact(5)]);
    assert_ne!(more.display_kind(), DisplayKind::Exact);
}

#[test]
fn empty_is_unavailable_not_zero() {
    assert_eq!(Measured::sum(&[]).value, None);
}

#[test]
fn a_total_that_does_not_fit_stops_at_the_largest_count() {
    let s = Measured::sum(&[exact(u64::MAX), exact(7)]);
    assert_eq!(s.value, Some(u64::MAX));
    assert_eq!(s.display_kind(), DisplayKind::Exact);
}

#[test]
fn an_estimate_is_weaker_than_a_calculation() {
    let s = Measured::sum(&[
        Measured::calculated(20, MeasurementSource::ApplicationTelemetry),
        Measured::estimated(3),
        exact(1),
    ]);
    assert_eq!(s.value, Some(24));
    assert_eq!(s.display_kind(), DisplayKind::Estimated);
}

#[test]
fn a_measurement_keeps_its_certainty_when_its_value_is_mapped() {
    let m = exact(21).map(|n: u64| n.wrapping_mul(2));
    assert_eq!(m.value, Some(42));
    assert_eq!(m.display_kind(), DisplayKind::Exact);
    let none = missing().map(|n: u64| n);
    assert_eq!(none.value, None);
    assert_eq!(none.accuracy, missing().accuracy);
}

#[test]
fn every_reason_has_a_sentence() {
    let reasons = [
        UnavailableReason::NoTelemetry { detail: "a".to_owned() },
        UnavailableReason::NotReportedByProvider {
            field: "f".to_owned(),
            detail: "b".to_owned(),
        },
        UnavailableReason::RequestFailed { detail: "c".to_owned() },
        UnavailableReason::NoPricingForModel { model_id: "m-1".to_owned() },
        UnavailableReason::ModelUnknown { detail: "e".to_owned() },
        UnavailableReason::SubscriptionBilled { plan: "team".to_owned() },
        UnavailableReason::RequiresCaptureLevel {
            level: "proxy".to_owned(),
            detail: "g".to_owned(),
        },
    ];
    for r in &reasons {
        assert!(!r.sentence().is_empty());
        assert_eq!(r.copy(), *r);
    }
    assert_eq!(reasons[0].sentence(), "a");
    assert!(reasons[3].sentence().contains("m-1"));
    assert!(reasons[5].sentence().contains("team"));
}

#[test]
fn input_side_total_is_the_sum_of_disjoint_buckets() {
    let b = TokenBands {
        input_fresh: 2,
        cache_read: 30_885,
        cache_write_1h: 23_610,
        output_total: 4_452,
        ..Default::default()
    };
    assert_eq!(b.input_side_total(), 54_497);
    assert_eq!(b.grand_total(), 58_949);
}

#[test]
fn reasoning_stays_none_when_neither_side_reports_it() {
    let a = TokenBands {
        output_total: 10,
        reasoning: None,
        ..Default::default()
    };
    let b = TokenBands {
        output_total: 20,
        reasoning: None,
        ..Default::default()
    };
    assert_eq!(a.merge_add(b).reasoning, None);
}

#[test]
fn reasoning_is_a_floor_when_only_one_side_reports_it() {
    let anthropic = TokenBands {
        output_total: 100,
        reasoning: None,
        ..Default::default()
    };
    let codex = TokenBands {
        output_total: 50,
        reasoning: Some(35),
        ..Default::default()
    };
    assert_eq!(anthropic.merge_add(codex).reasoning, Some(35));
}

#[test]
fn merge_max_is_order_independent() {
    let early = TokenBands {
        input_fresh: 5,
        output_total: 1,
        ..Default::default()
    };
    let last = TokenBands {
        input_fresh: 5,
        output_total: 378,
        ..Default::default()
    };
    assert_eq!(early.merge_max(last), last.merge_max(early));
    assert_eq!(early.merge_max(last).output_total, 378);
}

#[test]
fn merge_max_is_idempotent() {
    let b = TokenBands {
        input_fresh: 5,
        output_total: 378,
        ..Default::default()
    };
    assert_eq!(b.merge_max(b), b);
}

#[test]
fn cache_hit_rate_is_none_rather_than_zero_when_there_was_no_input() {
    assert_eq!(TokenBands::default().cache_hit_ratio(), None);
    let b = TokenBands {
        input_fresh: 10,
        cache_read: 30,
        output_total: 5,
        ..Default::default()
    };
    assert_eq!(b.cache_hit_ratio(), Some((30, 40)));
}

#[test]
fn totals_stop_at_the_largest_count() {
    let b = TokenBands {
        input_fresh: u64::MAX,
        output_total: 10,
        unclassified: 3,
        ..Default::default()
    };
    assert_eq!(b.grand_total(), u64::MAX);
    assert_eq!(b.merge_add(b).input_fresh, u64::MAX);
    assert_eq!(b.merge_add(b).output_total, 20);
}

#[test]
fn subscription_cost_never_claims_an_actual_charge() {
    let c = CostBreakdown::subscription(
        Currency::Usd,
        Measured::calculated(
            Money::new(Decimal::new(48, 2)),
            MeasurementSource::ApplicationTelemetry,
        ),
        "team",
    );
    assert!(c.actual_billed.value.is_none());
    assert!(c.api_equivalent.value.is_some());
}

#[test]
fn unmeasurable_latency_is_unavailable_with_a_remedy() {
    let l = LatencySummary::unavailable(
        "claude_code transcripts contain no latency field.",
        "the local proxy",
    );
    assert!(l.p95_ms.value.is_none());
    let s = match &l.p95_ms.accuracy {
        Accuracy::Unavailable { reason } => reason.sentence(),
        other => panic!("expected Unavailable, got {other:?}"),
    };
    assert!(s.contains("proxy"), "reason should name the remedy: {s}");
}

fn envelope(payload: AgentEvent) -> EventEnvelope {
    EventEnvelope {
        seq: 42,
        stream_epoch: Uuid::nil(),
        ts: Timestamp::from_timestamp(1_786_561_815, 0).unwrap(),
        task_id: None,
        payload,
    }
}

#[test]
fn sse_frame_is_well_formed() {
    let encoded = Ok(r#"{"seq":42,"payload":{"type":"heartbeat","lag_ms":3}}"#.to_owned());
    let frame = envelope(AgentEvent::Heartbeat { lag_ms: 3 }).to_sse_frame(&encoded);
    assert!(frame.starts_with("id: 42\nevent: heartbeat\ndata: {"));
    assert!(frame.ends_with("\n\n"));
    let data = frame.lines().nth(2).unwrap();
    assert!(data.starts_with("data: "));
}

#[test]
fn a_frame_that_cannot_be_encoded_says_so() {
    let e = envelope(AgentEvent::Resync {
        reason: "lagged".to_owned(),
    });
    assert_eq!(
        e.to_sse_frame(&Err("key must be a string".to_owned())),
        "id: 42\nevent: resync\ndata: {\"type\":\"ingest_anomaly\",\"kind\":\"serialize\",\"detail\":\"key must be a string\"}\n\n"
    );
}

#[test]
fn handshake_is_exactly_one_line() {
    let h = Handshake::new(51234, 4711, "1.0.0", "0.1.0");
    let encoded = Ok(format!(
        r#"{{"kind":"{}","protocol":{},"port":{},"pid":{}}}"#,
        h.kind, h.protocol, h.port, h.pid
    ));
    let line = h.to_line(&encoded);
    assert_eq!(line.matches('\n').count(), 1);
    assert!(line.ends_with('\n'));
    let failed = h.to_line(&Err("no".to_owned()));
    assert_eq!(
        failed,
        "{\"kind\":\"aum.handshake.error\",\"error\":\"no\"}\n"
    );
}

#[test]
fn a_handshake_says_what_it_is() {
    let h = Handshake::new(51234, 4711, "1.0.0", "0.1.0");
    assert_eq!(h.kind, HANDSHAKE_KIND);
    assert_eq!(h.protocol, HANDSHAKE_PROTOCOL);
    assert_eq!((h.port, h.pid), (51234, 4711));
    assert_eq!(h.contract_version, "1.0.0");
    assert_eq!(h.impl_version, "0.1.0");
    assert!(h.started_at.secs() > 1_700_000_000);
}

#[test]
fn serializes_as_string_not_number() {
    let m = Money::new(d("0.004125"));
    assert_eq!(m.text(), "0.004125");
}

#[test]
fn round_trips_without_loss() {
    let original = Money::new(d("0.1088527500000001"));
    let back = Money::from_text(&original.text()).unwrap();
    assert_eq!(original, back);
    assert_eq!(back.amount().mantissa(), 1_088_527_500_000_001);
    assert_eq!(back.amount().scale(), 16);
}

#[test]
fn text_that_is_no_amount_is_refused() {
    assert!(Money::from_text("").is_none());
    assert!(Money::from_text("twelve").is_none());
    assert!(Money::from_text("1.2.3").is_none());
    assert_eq!(Money::from_text("-12.50").unwrap().text(), "-12.50");
    assert_eq!(
        Money::from_text("79228162514264337593543950335").unwrap().text(),
        "79228162514264337593543950335"
    );
}

#[test]
fn nanos_round_trip() {
    let m = Money::new(d("15.000000001"));
    assert_eq!(Money::from_nanos(m.to_nanos().unwrap()), m);
}

#[test]
fn sum_is_exact_over_many_small_amounts() {
    let one = Money::new(d("0.0000001"));
    let many = vec![one; 10_000];
    let total = Money::sum(&many).unwrap();
    assert_eq!(total, Money::new(d("0.0010000")));
}

#[test]
fn a_sum_that_does_not_fit_is_refused() {
    let most = Money::new(d("79228162514264337593543950335"));
    assert!(Money::sum(&[most, Money::new(d("1"))]).is_none());
    assert!(most.checked_add(Money::new(d("1"))).is_none());
    assert_eq!(Money::sum(&[]).unwrap(), Money::zero());
    assert_eq!(
        Money::new(d("1.25")).checked_add(Money::new(d("0.5"))).unwrap(),
        Money::new(d("1.75"))
    );
}

#[test]
fn an_amount_too_large_for_storage_is_refused() {
    assert_eq!(Money::new(d("10000000000")).to_nanos(), None);
    assert_eq!(Money::new(d("79228162514264337593543950335")).to_nanos(), None);
    assert_eq!(Money::new(d("-2.5")).to_nanos(), Some(-2_500_000_000));
}

#[test]
fn currency_codes_parse_case_insensitively_and_reject_the_rest() {
    assert_eq!(parse_currency("eur"), Some(Currency::Eur));
    assert_eq!(parse_currency("CZK"), Some(Currency::Czk));
    assert_eq!(parse_currency("usd"), Some(Currency::Usd));
    assert_eq!(parse_currency("GBP"), None);
    assert_eq!(parse_currency(""), None);
}

#[test]
fn currency_codes_round_trip() {
    for c in [Currency::Usd, Currency::Eur, Currency::Czk] {
        assert_eq!(parse_currency(c.code()), Some(c));
    }
}

#[test]
fn the_scale_is_what_the_schema_says_it_is() {
    assert_eq!(nano::from_decimal(d("15.00")), Some(15_000_000_000));
    assert_eq!(nano::to_decimal(15_000_000_000), d("15"));
}

#[test]
fn published_rates_round_trip_without_drift() {
    for s in [
        "15.00",
        "1.50",
        "0.30",
        "0.075",
        "18.75",
        "3.00",
        "0.0000001",
    ] {
        let n = nano::from_decimal(d(s)).unwrap();
        assert_eq!(nano::to_decimal(n), d(s), "{s} did not survive the round trip");
    }
}

#[test]
fn a_rate_too_large_to_store_is_refused_rather_than_wrapped() {
    assert_eq!(nano::from_decimal(d("100000000000")), None);
}

#[test]
fn a_stored_rate_does_not_come_back_claiming_nine_decimal_places() {
    assert_eq!(nano::to_decimal(5_000_000_000).text(), "5");
    assert_eq!(nano::to_decimal(750_000_000).text(), "0.75");
    assert_eq!(nano::to_decimal(75_000_000).text(), "0.075");
}

#[test]
fn zero_is_a_real_rate_and_stays_one() {
    assert_eq!(nano::from_decimal(Decimal::zero()), Some(0));
    assert_eq!(nano::to_decimal(0), Decimal::zero());
}

#[test]
fn a_half_nano_goes_to_the_even_one() {
    assert_eq!(nano::from_decimal(d("0.0000000005")), Some(0));
    assert_eq!(nano::from_decimal(d("0.0000000015")), Some(2));
    assert_eq!(nano::from_decimal(d("-0.0000000015")), Some(-2));
}

#[test]
fn times_are_written_with_milliseconds_in_utc() {
    let t = Timestamp::parse_from_rfc3339("2026-08-12T21:10:15.774+02:00").unwrap();
    assert_eq!(to_sql_time(t), "2026-08-12T19:10:15.774Z");
    assert!(Timestamp::parse_from_rfc3339("yesterday").is_none());
    assert!(Timestamp::from_timestamp(i64::MAX, 0).is_none());
    assert_eq!(
        to_sql_time(Timestamp::from_timestamp(0, 5_000_000).unwrap()),
        "1970-01-01T00:00:00.005Z"
    );
    assert_eq!(now_sql().len(), 24);
}

#[test]
fn identifiers_are_written_hyphenated() {
    assert_eq!(Uuid::nil().text(), "00000000-0000-0000-0000-000000000000");
    let u = Uuid {
        bits: 0x0123_4567_89ab_cdef_0123_4567_89ab_cdef,
    };
    assert_eq!(u.text(), "01234567-89ab-cdef-0123-456789abcdef");
}
