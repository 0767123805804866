use aum::desktop::{counter_path, parse, reading, DailyTokens};
use aum::names::{first_word_of, title_of};
use aum::repo::record_daily;

#[test]
fn reads_the_real_shape() {
    let got = parse(r#"{"tokens-today":{"date":"2026-08-13","tokens":1119656}}"#).unwrap();
    assert_eq!(got.day, "2026-08-13");
    assert_eq!(got.tokens, 1_119_656);
}

#[test]
fn a_shape_we_do_not_recognise_is_declined_rather_than_guessed() {
    for raw in [
        "{}",
        r#"{"tokens-today":{}}"#,
        r#"{"tokens-today":{"date":"2026-08-13"}}"#,
        r#"{"tokens-today":{"tokens":5}}"#,
        r#"{"tokens-today":{"date":"2026-08-13","tokens":"lots"}}"#,
        r#"{"tokens-today":{"date":"","tokens":5}}"#,
        "not json at all",
    ] {
        assert_eq!(parse(raw), None, "should have declined: {raw}");
    }
}

#[test]
fn a_zero_count_is_a_real_reading() {
    let got = parse(r#"{"tokens-today":{"date":"2026-08-13","tokens":0}}"#).unwrap();
    assert_eq!(got.tokens, 0);
}

#[test]
fn a_reading_needs_a_day_and_a_count() {
    assert_eq!(
        reading(Some("2026-08-13".to_owned()), Some(5)),
        Some(DailyTokens {
            day: "2026-08-13".to_owned(),
            tokens: 5
        })
    );
    assert_eq!(reading(Some(String::new()), Some(5)), None);
    assert_eq!(reading(None, Some(5)), None);
    assert_eq!(reading(Some("2026-08-13".to_owned()), None), None);
}

#[test]
fn a_days_total_never_goes_backwards() {
    let first = record_daily(None, 900);
    assert_eq!(record_daily(Some(first), 12), 900);
}

#[test]
fn a_growing_counter_is_followed_upwards() {
    let first = record_daily(None, 100);
    assert_eq!(record_daily(Some(first), 900), 900);
}

#[test]
fn a_lower_reading_never_lowers_a_recorded_day() {
    let first = record_daily(None, 900);
    assert_eq!(record_daily(Some(first), 3), 900);
}

#[test]
fn a_repeated_sample_does_not_inflate_the_day() {
    let mut stored = None;
    for _ in 0..50 {
        stored = Some(record_daily(stored, 1_119_656));
    }
    assert_eq!(stored, Some(1_119_656));
}

#[test]
fn a_count_too_large_to_store_stops_at_the_largest() {
    assert_eq!(record_daily(None, u64::MAX), i64::MAX);
}

#[test]
fn the_counter_stands_in_the_makers_directory() {
    let path = counter_path("/Users/u");
    assert!(path.starts_with("/Users/u/Library/Application Support/C"));
    assert!(path.ends_with("/buddy-tokens.json"));
    assert_eq!(
        path.to_lowercase(),
        format!(
            "/users/u/library/application support/{}/buddy-tokens.json",
            first_word_of("claude_desktop")
        )
    );
}

#[test]
fn names_are_made_from_ids() {
    assert_eq!(title_of("gemini_cli"), "Gemini Cli");
    assert_eq!(title_of("codex"), "Codex");
    assert_eq!(title_of(""), "");
    assert_eq!(title_of("_a__b"), " A  B");
    assert_eq!(first_word_of("gemini_cli"), "gemini");
    assert_eq!(first_word_of("codex"), "codex");
    assert_eq!(first_word_of("_x"), "");
}
