use aum::decimal::Decimal;
use aum::fx::ExchangeRate;
use aum::measurement::{DisplayKind, Measured, MeasurementSource};
use aum::money::{Currency, Money};
use aum::nano::NANO;
use aum::prices::{
    as_u64, cost_by_bucket, cost_of_slices, load_fx, load_table, save_fx, save_price, to_pricing,
    to_usage, try_cost_by_bucket, try_cost_of_slices, FxRateRow, MoneyState,
    PriceError, PriceVersionRow,
};
use aum::table::{PriceTable, Rates};
use aum::time::Timestamp;
use aum::usage::{fold, fold_by_bucket, Filter, Slice, Totals, SELECT_TOTALS};

fn d(s: &str) -> Decimal {
    Decimal::from_text(s).unwrap()
}

fn rates(input: &str, output: &str) -> Rates {
    Rates {
        input_per_mtok: d(input),
        output_per_mtok: d(output),
        cache_read_per_mtok: d("0"),
        cache_write_5m_per_mtok: d("0"),
        cache_write_1h_per_mtok: d("0"),
    }
}

fn noon() -> Timestamp {
    Timestamp::parse_from_rfc3339("2026-08-13T12:00:00Z").unwrap()
}

fn saved(model: &str, r: Rates) -> PriceVersionRow {
    save_price(format!("v-{model}"), model, r, None, noon()).unwrap().0
}

fn table_of(rows: Vec<PriceVersionRow>) -> PriceTable {
    load_table(PriceTable::from_entries(Vec::new()), &rows)
}

fn slice(at: &str, model: &str, input: i64) -> Slice {
    Slice {
        at: at.to_owned(),
        model_id: Some(model.to_owned()),
        totals: Totals {
            requests: 1,
            input_fresh: input,
            ..Totals::default()
        },
    }
}

#[test]
fn a_day_spanning_two_models_costs_more_than_either_single_rate_implies() {
    let table = table_of(vec![
        saved("expensive", rates("5.00", "0")),
        saved("cheap", rates("2.00", "0")),
    ]);
    let slices = vec![
        slice("2026-08-13", "expensive", 1_000_000),
        slice("2026-08-13", "cheap", 1_000_000),
    ];
    let got = cost_of_slices(&slices, &table).value.unwrap().amount();
    assert_eq!(got, d("7"));
    assert_ne!(got, d("10"), "blended at the higher rate");
    assert_ne!(got, d("4"), "blended at the lower rate");
}

#[test]
fn one_unpriced_model_makes_the_total_a_floor_that_says_so() {
    let table = table_of(vec![saved("priced", rates("5.00", "0"))]);
    let slices = vec![
        slice("2026-08-13", "priced", 1_000_000),
        slice("2026-08-13", "unpriced", 1_000_000),
    ];
    let cost = try_cost_of_slices(&slices, &table).unwrap();
    assert_eq!(cost.value.unwrap().amount(), d("5"));
    assert_eq!(cost.display_kind(), DisplayKind::Partial);
    let why = format!("{:?}", cost.accuracy);
    assert!(why.contains("no price for their model"), "{why}");
}

#[test]
fn each_bucket_is_costed_from_its_own_models() {
    let table = table_of(vec![
        saved("expensive", rates("5.00", "0")),
        saved("cheap", rates("2.00", "0")),
    ]);
    let slices = vec![
        slice("2026-08-13", "expensive", 1_000_000),
        slice("2026-08-14", "cheap", 1_000_000),
    ];
    let per_day = cost_by_bucket(&slices, &table);
    assert_eq!(per_day.len(), 2);
    assert_eq!(per_day[0].0, "2026-08-13");
    assert_eq!(per_day[0].1.value.unwrap().amount(), d("5"));
    assert_eq!(per_day[1].1.value.unwrap().amount(), d("2"));
    assert_eq!(try_cost_by_bucket(&slices, &table), Some(per_day));
}

#[test]
fn a_day_with_nothing_recorded_is_unavailable_rather_than_free() {
    let table = table_of(Vec::new());
    let cost = cost_of_slices(&[], &table);
    assert_eq!(cost.value, None);
    assert_eq!(cost.display_kind(), DisplayKind::Unavailable);
}

#[test]
fn a_totals_slice_keeps_its_bands_disjoint_through_costing() {
    let t = Totals {
        input_fresh: 2,
        cache_read: 19_712,
        cache_write_1h: 6_993,
        output_total: 50,
        ..Totals::default()
    };
    assert_eq!(t.input_side(), 2 + 19_712 + 6_993);
    assert_eq!(t.grand_total(), 2 + 19_712 + 6_993 + 50);
    assert_eq!(to_usage(&t).grand_total(), 2 + 19_712 + 6_993 + 50);
}

#[test]
fn folding_a_reported_bucket_with_an_unreported_one_keeps_the_number() {
    let reported = Totals {
        reasoning: Some(35),
        reasoning_reported_by: 1,
        requests: 1,
        ..Totals::default()
    };
    let silent = Totals {
        reasoning: None,
        requests: 1,
        ..Totals::default()
    };
    let both = fold(&[reported, silent]);
    assert_eq!(both.reasoning, Some(35));
    assert_eq!(both.reasoning_reported_by, 1, "still only one reported it");
    assert_eq!(both.requests, 2);
}

#[test]
fn reasoning_stays_absent_when_nobody_reported_it() {
    let slices = [slice("2026-08-13", "m", 10), slice("2026-08-14", "m", 10)];
    let totals: Vec<Totals> = slices.iter().map(|s| s.totals).collect();
    assert_eq!(fold(&totals).reasoning, None);
}

#[test]
fn hours_bucket_separately_from_days() {
    let hours = fold_by_bucket(&[
        slice("2026-08-13T09", "m", 3),
        slice("2026-08-13T11", "m", 4),
    ]);
    assert_eq!(hours.len(), 2);
    assert_eq!(hours[0].0, "2026-08-13T09");
    assert_eq!(hours[0].1.input_fresh, 3);
    assert_eq!(hours[1].1.input_fresh, 4);
    let days = fold_by_bucket(&[slice("2026-08-13", "a", 3), slice("2026-08-13", "b", 4)]);
    assert_eq!(days.len(), 1);
    assert_eq!(days[0].1.input_fresh, 7);
}

#[test]
fn a_negative_count_is_nothing() {
    assert_eq!(fold(&[]), Totals::default());
    assert_eq!(to_usage(&slice("a", "m", -5).totals).input_fresh(), 0);
    assert_eq!(as_u64(-4), 0);
    assert_eq!(as_u64(4), 4);
}

#[test]
fn a_filter_becomes_a_query_with_its_values_apart() {
    let f = Filter::all()
        .since("2026-08-12T00:00:00.000Z".to_owned())
        .until("2026-08-14T00:00:00.000Z".to_owned())
        .adapter("codex".to_owned());
    assert_eq!(
        f.predicate(),
        " WHERE request_kind != 'failed' AND occurred_at >= ? AND occurred_at < ? AND adapter_id = ?"
    );
    assert_eq!(
        f.values(),
        vec!["2026-08-12T00:00:00.000Z", "2026-08-14T00:00:00.000Z", "codex"]
    );
    assert_eq!(
        Filter::all().failed_query(),
        "SELECT COUNT(*) FROM ai_request WHERE request_kind = 'failed'"
    );
    assert!(Filter::all().values().is_empty());
    assert_eq!(
        Filter::all().totals_query(),
        format!("SELECT {SELECT_TOTALS} FROM ai_request WHERE request_kind != 'failed'")
    );
    assert!(f.grouped_query("%Y-%m-%d").starts_with("SELECT strftime('%Y-%m-%d', occurred_at) AS at, model_id, "));
    assert!(f.per_column_query("model_id").ends_with(" GROUP BY model_id ORDER BY requests DESC"));
}

#[test]
fn a_price_the_user_enters_becomes_usable_immediately() {
    const UNSEEDED: &str = "not-a-real-model-2027";
    assert!(!table_of(Vec::new()).has_price(UNSEEDED));
    let table = table_of(vec![saved(UNSEEDED, rates("15.00", "75.00"))]);
    let found = table.lookup(UNSEEDED).unwrap();
    assert_eq!(found.rates.input_per_mtok, d("15"));
    assert_eq!(found.source, "user");
    assert_eq!(found.effective_from, "2026-08-13T12:00:00.000Z");
}

#[test]
fn rates_survive_storage_at_full_decimal_precision() {
    let table = table_of(vec![saved("m", rates("0.075", "1.234567891"))]);
    let r = &table.lookup("m").unwrap().rates;
    assert_eq!(r.input_per_mtok, d("0.075"));
    assert_eq!(r.output_per_mtok, d("1.234567891"));
}

#[test]
fn a_user_price_overrides_a_seeded_one_for_the_same_model() {
    let mut seeded = to_pricing(&saved("m", rates("1.00", "1.00")));
    seeded.source = "seed".to_owned();
    seeded.effective_from = "2026-01-01T00:00:00.000Z".to_owned();
    let table = load_table(
        PriceTable::from_entries(vec![seeded]),
        &vec![saved("m", rates("999.00", "999.00"))],
    );
    let found = table.lookup("m").unwrap();
    assert_eq!(found.source, "user");
    assert_eq!(found.rates.input_per_mtok, d("999"));
}

#[test]
fn an_absurd_rate_is_refused_rather_than_stored_wrong() {
    let err = save_price(
        "v".to_owned(),
        "m",
        rates("100000000000", "1.00"),
        None,
        noon(),
    )
    .unwrap_err();
    assert!(matches!(err, PriceError::Unstorable { field: "input", .. }));
    assert!(err.message().contains("100000000000"), "{}", err.message());
    let db = PriceError::Db {
        message: "gone".to_owned(),
    };
    assert!(db.message().contains("gone"));
}

#[test]
fn an_exchange_rate_round_trips_and_is_dated() {
    assert!(load_fx(&Vec::new()).is_empty());
    let (row, kept) = save_fx("r1".to_owned(), Currency::Eur, d("0.92"), noon()).unwrap();
    let back = load_fx(&vec![row]);
    assert_eq!(back.len(), 1);
    assert_eq!(back[0].rate, d("0.92"));
    assert_eq!(back[0].source, "manual");
    assert_eq!(back[0].as_of, kept.as_of);
    assert!(!back[0].is_stale(noon()));
    assert!(save_fx("r2".to_owned(), Currency::Eur, d("100000000000"), noon()).is_err());
}

#[test]
fn a_rate_in_an_unknown_currency_or_without_a_date_is_left_out() {
    let row = |currency: &str, as_of: &str| FxRateRow {
        id: "x".to_owned(),
        quote_currency: currency.to_owned(),
        rate_nano: 920_000_000,
        as_of: as_of.to_owned(),
        source: "manual".to_owned(),
    };
    let rows = vec![
        row("GBP", "2026-08-13T12:00:00.000Z"),
        row("EUR", "one day"),
        row("CZK", "2026-08-13T12:00:00.000Z"),
    ];
    let back = load_fx(&rows);
    assert_eq!(back.len(), 1);
    assert_eq!(back[0].quote, Currency::Czk);
}

#[test]
fn a_missing_cache_rate_falls_back_to_input_rather_than_to_zero() {
    let row = PriceVersionRow {
        id: "v1".to_owned(),
        model_id: "m".to_owned(),
        input_per_mtok: 3 * NANO,
        output_per_mtok: 15 * NANO,
        cache_read_per_mtok: None,
        cache_write_5m_per_mtok: None,
        cache_write_1h_per_mtok: None,
        effective_from: "2026-01-01T00:00:00.000Z".to_owned(),
        source: "user".to_owned(),
        note: None,
    };
    let table = table_of(vec![row]);
    let r = &table.lookup("m").unwrap().rates;
    assert_eq!(r.cache_read_per_mtok, d("3"));
    assert_eq!(r.cache_write_1h_per_mtok, d("3"));
}

#[test]
fn a_stored_rate_is_the_one_that_was_entered() {
    let entered = rates("0.000000001", "75.00");
    let back = to_pricing(&saved("m", entered.clone())).rates;
    assert_eq!(back, entered);
    let finer = to_pricing(&saved("m", rates("0.0000000009", "1"))).rates;
    assert_eq!(finer.input_per_mtok, d("0.000000001"), "rounded to what is kept");
    let (row, kept) = save_fx("r".to_owned(), Currency::Czk, d("23.512345678"), noon()).unwrap();
    assert_eq!(load_fx(&vec![row])[0].rate, kept.rate);
}

#[test]
fn a_money_state_converts_by_its_own_rate() {
    let state = MoneyState {
        table: table_of(Vec::new()),
        fx: vec![ExchangeRate {
            quote: Currency::Eur,
            rate: d("0.92"),
            as_of: noon(),
            source: "manual".to_owned(),
        }],
    };
    let amount = Measured::calculated(Money::new(d("100")), MeasurementSource::ApplicationTelemetry);
    let eur = state.cost_context(Currency::Eur);
    assert_eq!(
        eur.present_at(amount.clone(), noon()).value.unwrap().amount(),
        d("92")
    );
    let czk = state.cost_context(Currency::Czk);
    assert_eq!(czk.present_at(amount.clone(), noon()).value, None);
    assert_eq!(state.cost_context(Currency::Usd).present(amount.clone()), amount);
}
