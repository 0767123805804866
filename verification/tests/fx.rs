use aum::decimal::Decimal;
use aum::fx::{convert, describe, ExchangeRate, FxError, STALE_AFTER_DAYS};
use aum::measurement::{Accuracy, DisplayKind, Measured, MeasurementSource, UnavailableReason};
use aum::money::{Currency, Money};
use aum::time::Timestamp;

fn now() -> Timestamp {
    Timestamp::parse_from_rfc3339("2026-08-13T12:00:00Z").unwrap()
}

fn rate(days_old: i64) -> ExchangeRate {
    ExchangeRate {
        quote: Currency::Eur,
        rate: Decimal::from_text("0.92").unwrap(),
        as_of: Timestamp::from_timestamp(now().secs() - days_old * 86_400, 0).unwrap(),
        source: "manual".to_owned(),
    }
}

fn usd(amount: &str) -> Measured<Money> {
    Measured::calculated(
        Money::new(Decimal::from_text(amount).unwrap()),
        MeasurementSource::ApplicationTelemetry,
    )
}

#[test]
fn usd_needs_no_conversion_and_loses_no_certainty() {
    let original = usd("1.0885275");
    let converted = convert(original.clone(), Currency::Usd, None, now());
    assert_eq!(converted, original);
}

#[test]
fn a_fresh_rate_converts_and_stays_calculated() {
    let m = convert(usd("100"), Currency::Eur, Some(&rate(1)), now());
    assert_eq!(
        m.value.unwrap().amount(),
        Decimal::from_text("92.00").unwrap()
    );
    assert_eq!(m.display_kind(), DisplayKind::Calculated);
}

#[test]
fn a_stale_rate_downgrades_the_amount_to_estimated() {
    let m = convert(usd("100"), Currency::Eur, Some(&rate(12)), now());
    assert_eq!(
        m.value.unwrap().amount(),
        Decimal::from_text("92.00").unwrap()
    );
    assert_eq!(m.display_kind(), DisplayKind::Estimated);
}

#[test]
fn a_missing_rate_yields_unavailable_rather_than_the_usd_figure() {
    let m = convert(usd("100"), Currency::Czk, None, now());
    assert_eq!(m.value, None);
    assert_eq!(m.display_kind(), DisplayKind::Unavailable);
}

#[test]
fn an_unavailable_amount_keeps_its_original_reason() {
    let missing: Measured<Money> =
        Measured::unavailable(UnavailableReason::NoPricingForModel {
            model_id: "gpt-5.6-sol".to_owned(),
        });
    let m = convert(missing, Currency::Eur, Some(&rate(1)), now());
    assert!(matches!(
        m.accuracy,
        Accuracy::Unavailable {
            reason: UnavailableReason::NoPricingForModel { .. }
        }
    ));
}

#[test]
fn staleness_is_dated_rather_than_merely_flagged() {
    let text = describe(Some(&rate(12)), now());
    assert!(text.contains("12 days old"), "{text}");
    assert!(
        text.contains("2026-08-01"),
        "the date must be shown: {text}"
    );
}

#[test]
fn a_fresh_rate_is_described_with_its_date() {
    let text = describe(Some(&rate(1)), now());
    assert!(text.contains("2026-08-12"), "{text}");
    assert!(!text.contains("approximate"));
}

#[test]
fn no_rate_at_all_is_stated_plainly() {
    assert!(describe(None, now()).contains("No exchange rate"));
}

#[test]
fn the_staleness_boundary_is_where_it_says_it_is() {
    assert!(!rate(STALE_AFTER_DAYS - 1).is_stale(now()));
    assert!(rate(STALE_AFTER_DAYS).is_stale(now()));
}

#[test]
fn an_age_is_counted_in_whole_days() {
    assert_eq!(rate(3).age_days(now()), 3);
    let almost = ExchangeRate {
        as_of: Timestamp::from_timestamp(now().secs() - 86_399, 0).unwrap(),
        ..rate(0)
    };
    assert_eq!(almost.age_days(now()), 0);
}

#[test]
fn a_conversion_that_does_not_fit_is_unavailable() {
    let m = convert(
        usd("79228162514264337593543950335"),
        Currency::Czk,
        Some(&ExchangeRate {
            quote: Currency::Czk,
            rate: Decimal::from_text("23.5").unwrap(),
            ..rate(1)
        }),
        now(),
    );
    assert_eq!(m.value, None);
    let Accuracy::Unavailable { reason } = &m.accuracy else {
        panic!("expected unavailable, got {:?}", m.accuracy)
    };
    assert!(format!("{reason:?}").contains("too large"), "{reason:?}");
}

#[test]
fn a_conversion_never_makes_an_amount_more_certain() {
    let floor = Measured {
        value: usd("100").value,
        accuracy: Accuracy::Partial {
            measured: 1,
            total: 2,
            reason: "one has no price".to_owned(),
        },
    };
    let m = convert(floor.clone(), Currency::Eur, Some(&rate(1)), now());
    assert_eq!(
        m.value.unwrap().amount(),
        Decimal::from_text("92.00").unwrap()
    );
    assert_eq!(m.accuracy, floor.accuracy);

    let m = convert(floor, Currency::Eur, Some(&rate(12)), now());
    assert_eq!(
        m.accuracy,
        Accuracy::Partial {
            measured: 1,
            total: 2,
            reason: "one has no price; FX rate 12 days old, from 2026-08-01 (manual). \
                     Amounts shown in EUR are approximate."
                .to_owned(),
        }
    );

    let guess = convert(usd("100"), Currency::Eur, Some(&rate(12)), now());
    assert_eq!(guess.display_kind(), DisplayKind::Estimated);
    let again = convert(guess, Currency::Eur, Some(&rate(1)), now());
    assert_eq!(again.display_kind(), DisplayKind::Estimated);
    let stale_again = convert(again, Currency::Eur, Some(&rate(12)), now());
    assert_eq!(stale_again.display_kind(), DisplayKind::Estimated);

    let exact = Measured {
        value: usd("100").value,
        accuracy: Accuracy::Exact {
            source: MeasurementSource::ProviderReported,
        },
    };
    let m = convert(exact, Currency::Eur, Some(&rate(1)), now());
    assert_eq!(m.display_kind(), DisplayKind::Calculated);
}

#[test]
fn each_failure_names_the_currency() {
    assert!(FxError::NoRate(Currency::Czk).message().contains("Czk"));
    assert!(
        FxError::Unusable {
            currency: Currency::Eur
        }
        .message()
        .contains("Eur")
    );
}
