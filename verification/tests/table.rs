use aum::decimal::Decimal;
use aum::table::{ModelPricing, PriceTable, Rates};

fn rates(input: &str) -> Rates {
    let d = |s: &str| Decimal::from_text(s).unwrap();
    Rates {
        input_per_mtok: d(input),
        output_per_mtok: d("75.00"),
        cache_read_per_mtok: d("1.50"),
        cache_write_5m_per_mtok: d("18.75"),
        cache_write_1h_per_mtok: d("30.00"),
    }
}

fn entry(version: &str, model: &str, input: &str, from: &str, source: &str) -> ModelPricing {
    ModelPricing {
        version_id: version.to_owned(),
        model_id: model.to_owned(),
        rates: rates(input),
        effective_from: from.to_owned(),
        source: source.to_owned(),
        note: None,
    }
}

const MARCH: &str = "2026-03-01T00:00:00.000Z";
const AUGUST: &str = "2026-08-01T00:00:00.000Z";

fn version(table: &PriceTable, model: &str, at: &str) -> String {
    table
        .lookup_at(model, at)
        .map(|p| p.version_id.clone())
        .unwrap_or_default()
}

#[test]
fn a_march_request_keeps_marchs_rate_after_an_august_change() {
    let table = PriceTable::from_entries(vec![
        entry("march", "m", "10.00", MARCH, "seed"),
        entry("august", "m", "15.00", AUGUST, "seed"),
    ]);
    assert_eq!(version(&table, "m", "2026-03-15T09:00:00.000Z"), "march");
    assert_eq!(version(&table, "m", "2026-07-31T23:59:59.999Z"), "march");
    assert_eq!(
        version(&table, "m", AUGUST),
        "august",
        "a version applies from its first instant"
    );
    assert_eq!(version(&table, "m", "2026-09-24T12:00:00.000Z"), "august");
}

#[test]
fn usage_older_than_every_version_takes_the_earliest() {
    let table = PriceTable::from_entries(vec![
        entry("march", "m", "10.00", MARCH, "seed"),
        entry("august", "m", "15.00", AUGUST, "seed"),
    ]);
    assert_eq!(version(&table, "m", "2025-12-31T00:00:00.000Z"), "march");
}

#[test]
fn a_price_entered_for_an_unpriced_model_covers_its_past() {
    let table = PriceTable::from_entries(vec![entry(
        "typed",
        "m",
        "10.00",
        "2026-09-24T14:05:00.000Z",
        "user",
    )]);
    assert_eq!(version(&table, "m", "2026-09-08T05:21:12.639Z"), "typed");
}

#[test]
fn a_user_entry_takes_over_from_when_it_was_made() {
    let table = PriceTable::from_entries(vec![
        entry("shipped", "m", "5.00", MARCH, "seed"),
        entry("typed", "m", "4.00", "2026-09-01T12:00:00.000Z", "user"),
    ]);
    assert_eq!(version(&table, "m", "2026-08-31T12:00:00.000Z"), "shipped");
    assert_eq!(version(&table, "m", "2026-09-02T12:00:00.000Z"), "typed");
}

#[test]
fn a_user_entry_wins_a_tie_with_a_shipped_version() {
    for entries in [
        vec![
            entry("shipped", "m", "5.00", MARCH, "seed"),
            entry("typed", "m", "4.00", MARCH, "user"),
        ],
        vec![
            entry("typed", "m", "4.00", MARCH, "user"),
            entry("shipped", "m", "5.00", MARCH, "seed"),
        ],
    ] {
        let table = PriceTable::from_entries(entries);
        assert_eq!(version(&table, "m", "2026-04-01T00:00:00.000Z"), "typed");
        assert_eq!(
            version(&table, "m", "2026-01-01T00:00:00.000Z"),
            "typed",
            "and as the earliest version, too"
        );
    }
}

#[test]
fn a_shipped_version_that_begins_later_takes_over_from_a_user_entry() {
    let table = PriceTable::from_entries(vec![
        entry(
            "typed",
            "gpt-5.6-sol",
            "5.00",
            "2026-08-13T11:51:48.188Z",
            "user",
        ),
        entry(
            "cut",
            "gpt-5.6-sol",
            "4.00",
            "2026-08-21T00:00:00.000Z",
            "seed",
        ),
    ]);
    assert_eq!(
        version(&table, "gpt-5.6-sol", "2026-08-20T12:00:00.000Z"),
        "typed"
    );
    assert_eq!(
        version(&table, "gpt-5.6-sol", "2026-08-21T12:00:00.000Z"),
        "cut"
    );
}

#[test]
fn older_versions_are_not_destroyed_by_a_newer_one() {
    let mut table = PriceTable::from_entries(vec![entry("v1", "m", "10.00", MARCH, "seed")]);
    table.push(entry("v2", "m", "15.00", AUGUST, "seed"));
    assert_eq!(table.len(), 2);
    assert_eq!(version(&table, "m", "2026-03-15T00:00:00.000Z"), "v1");
}

#[test]
fn lookup_is_exact_and_never_falls_back_to_a_similar_model() {
    let table =
        PriceTable::from_entries(vec![entry("v1", "claude_opus_4_8", "10.00", MARCH, "seed")]);
    let at = "2026-09-24T00:00:00.000Z";
    assert!(table.lookup_at("claude_opus_5", at).is_none());
    assert!(table.lookup_at("claude_opus", at).is_none());
    assert!(table.lookup_at("claude_opus_4_8", at).is_some());
    assert!(!table.has_price("claude_opus_5"));
}

#[test]
fn breaks_are_the_price_changes_and_not_the_first_prices() {
    let table = PriceTable::from_entries(vec![
        entry("a1", "a", "10.00", MARCH, "seed"),
        entry("a2", "a", "15.00", AUGUST, "seed"),
        entry("b1", "b", "1.00", "2026-05-01T00:00:00.000Z", "seed"),
        entry("b2", "b", "2.00", AUGUST, "user"),
    ]);
    assert_eq!(table.breaks(), vec![AUGUST.to_owned()]);
}

#[test]
fn a_table_says_what_it_holds() {
    let table = PriceTable::from_entries(Vec::new());
    assert!(table.is_empty());
    assert!(table.models().is_empty());
    assert!(table.breaks().is_empty());
    let table = PriceTable::from_entries(vec![
        entry("a1", "a", "10.00", MARCH, "seed"),
        entry("b1", "b", "1.00", AUGUST, "seed"),
    ]);
    assert_eq!(table.len(), 2);
    assert_eq!(table.models()[1].version_id, "b1");
    assert!(table.has_price("a") && table.has_price("b"));
    assert_eq!(table.lookup("a").unwrap().version_id, "a1");
    assert!(table.lookup("c").is_none());
}

#[test]
fn the_newest_version_is_the_one_without_a_date() {
    let table = PriceTable::from_entries(vec![
        entry("august", "m", "15.00", AUGUST, "seed"),
        entry("march", "m", "10.00", MARCH, "seed"),
    ]);
    assert_eq!(table.lookup("m").unwrap().version_id, "august");
}

#[test]
fn breaks_come_oldest_first_and_once() {
    let table = PriceTable::from_entries(vec![
        entry("a3", "a", "3.00", "2026-09-01T00:00:00.000Z", "seed"),
        entry("a1", "a", "1.00", MARCH, "seed"),
        entry("a2", "a", "2.00", AUGUST, "seed"),
        entry("b1", "b", "1.00", MARCH, "seed"),
        entry("b2", "b", "2.00", AUGUST, "seed"),
    ]);
    assert_eq!(
        table.breaks(),
        vec![AUGUST.to_owned(), "2026-09-01T00:00:00.000Z".to_owned()]
    );
}
