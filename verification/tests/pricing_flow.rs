//! The whole cost path, from an unpriced model to a converted amount.
use aum::decimal::Decimal;
use aum::dto::{TaskMetrics, TaskStatus};
use aum::ids::Uuid;
use aum::measurement::{Accuracy, DisplayKind, UnavailableReason};
use aum::metrics::{build, try_cost_task, Completeness, MetricsInput};
use aum::money::Currency;
use aum::prices::{load_fx, load_table, save_fx, save_price, CostContext, PriceVersionRow};
use aum::repo::{first_row, TaskTotals};
use aum::table::{PriceTable, Rates};
use aum::time::Timestamp;
use aum::token_usage::TokenUsage;
use aum::tokens::TokenBands;

const MODEL: &str = "claude_opus_5";

fn d(s: &str) -> Decimal {
    Decimal::from_text(s).unwrap()
}

fn at(text: &str) -> Timestamp {
    Timestamp::parse_from_rfc3339(text).unwrap()
}

fn now() -> Timestamp {
    at("2026-08-13T12:00:00Z")
}

fn rates() -> Rates {
    Rates {
        input_per_mtok: d("15.00"),
        output_per_mtok: d("75.00"),
        cache_read_per_mtok: d("1.50"),
        cache_write_5m_per_mtok: d("18.75"),
        cache_write_1h_per_mtok: d("30.00"),
    }
}

fn version(id: &str, rates: Rates, when: &str) -> PriceVersionRow {
    save_price(id.to_owned(), MODEL, rates, None, at(when)).unwrap().0
}

fn table_of(rows: Vec<PriceVersionRow>) -> PriceTable {
    load_table(PriceTable::from_entries(Vec::new()), &rows)
}

fn priced() -> PriceTable {
    table_of(vec![version("v1", rates(), "2026-08-13T12:00:00Z")])
}

// One million fresh input and one million output, so that the arithmetic is
// legible: at $15 and $75 per million the answer is exactly $90.
fn totals() -> TaskTotals {
    let row = first_row(&TokenUsage::from_bands(TokenBands {
        input_fresh: 1_000_000,
        output_total: 1_000_000,
        ..Default::default()
    }));
    TaskTotals {
        requests: 1,
        input_fresh: row.input_fresh,
        output_total: row.output_total,
        reasoning: row.reasoning,
        ..Default::default()
    }
}

fn task_metrics(cost: &CostContext<'_>) -> TaskMetrics {
    let totals = totals();
    let completeness = Completeness::default();
    let per_model = [(Some(MODEL.to_owned()), totals.clone())];
    let amount = try_cost_task(&per_model, cost.table).unwrap();
    build(&MetricsInput {
        task_id: Uuid::nil(),
        status: TaskStatus::Running,
        totals: &totals,
        completeness: &completeness,
        model_id: Some(MODEL.to_owned()),
        elapsed_ms: 60_000,
        failed_requests: 0,
        retries: Some(0),
        adapter_id: "claude_code",
        currency: cost.currency,
        api_equivalent: cost.present_at(amount, now()),
        subscription_plan: Some("subscription".to_owned()),
    })
}

#[test]
fn an_unpriced_model_costs_nothing_and_says_why() {
    let table = table_of(Vec::new());
    let m = task_metrics(&CostContext::usd(&table));
    assert_eq!(m.total_tokens.value, Some(2_000_000));
    assert_eq!(m.cost.api_equivalent.value, None);
    match &m.cost.api_equivalent.accuracy {
        Accuracy::Unavailable {
            reason: UnavailableReason::NoPricingForModel { model_id },
        } => assert_eq!(model_id, MODEL),
        other => panic!("expected NoPricingForModel, got {other:?}"),
    }
}

#[test]
fn entering_a_price_makes_the_task_cost_a_real_number() {
    let table = priced();
    let m = task_metrics(&CostContext::usd(&table));
    assert_eq!(m.cost.api_equivalent.value.unwrap().amount(), d("90.00"));
    assert_eq!(
        m.cost.api_equivalent.display_kind(),
        DisplayKind::Calculated
    );
    assert_eq!(m.cost.currency, Currency::Usd);
}

#[test]
fn a_price_never_turns_a_subscription_into_a_charge() {
    let table = priced();
    let m = task_metrics(&CostContext::usd(&table));
    assert!(m.cost.api_equivalent.value.is_some());
    assert_eq!(m.cost.actual_billed.value, None);
    assert!(matches!(
        m.cost.actual_billed.accuracy,
        Accuracy::Unavailable {
            reason: UnavailableReason::SubscriptionBilled { .. }
        }
    ));
}

#[test]
fn converting_needs_a_rate_and_refuses_without_one() {
    let table = priced();
    let fx = load_fx(&Vec::new());
    assert!(fx.is_empty());
    let cost = CostContext {
        table: &table,
        fx: &fx,
        currency: Currency::Czk,
    };
    assert!(cost.rate().is_none());
    let m = task_metrics(&cost);
    assert_eq!(m.cost.currency, Currency::Czk);
    assert_eq!(m.cost.api_equivalent.value, None);
    assert_eq!(
        m.cost.api_equivalent.display_kind(),
        DisplayKind::Unavailable
    );
}

#[test]
fn a_recorded_rate_converts_and_the_currency_travels_with_the_amount() {
    let table = priced();
    let fx = load_fx(&vec![save_fx("r".to_owned(), Currency::Eur, d("0.92"), now()).unwrap().0]);
    let m = task_metrics(&CostContext {
        table: &table,
        fx: &fx,
        currency: Currency::Eur,
    });
    assert_eq!(
        m.cost.api_equivalent.value.unwrap().amount(),
        d("82.80"),
        "90.00 USD at 0.92"
    );
    assert_eq!(m.cost.currency, Currency::Eur);
    assert_eq!(
        m.cost.api_equivalent.display_kind(),
        DisplayKind::Calculated
    );
}

#[test]
fn a_rate_for_one_currency_does_not_convert_another() {
    let table = priced();
    let fx = load_fx(&vec![save_fx("r".to_owned(), Currency::Eur, d("0.92"), now()).unwrap().0]);
    let czk = task_metrics(&CostContext {
        table: &table,
        fx: &fx,
        currency: Currency::Czk,
    });
    assert_eq!(czk.cost.api_equivalent.value, None);
}

#[test]
fn correcting_a_price_changes_the_cost_and_keeps_the_old_version() {
    let mut corrected = rates();
    corrected.input_per_mtok = d("20.00");
    let versions = vec![
        version("v1", rates(), "2026-08-13T12:00:00Z"),
        version("v2", corrected, "2026-08-13T12:00:01Z"),
    ];
    assert_eq!(versions.len(), 2);
    let table = table_of(versions);
    let m = task_metrics(&CostContext::usd(&table));
    assert_eq!(m.cost.api_equivalent.value.unwrap().amount(), d("95.00"));
}

#[test]
fn usd_is_never_downgraded_by_a_conversion_that_does_not_happen() {
    let table = priced();
    let fx = load_fx(&vec![save_fx("r".to_owned(), Currency::Eur, d("0.92"), now()).unwrap().0]);
    assert_eq!(fx.len(), 1);
    let m = task_metrics(&CostContext {
        table: &table,
        fx: &fx,
        currency: Currency::Usd,
    });
    assert_eq!(m.cost.api_equivalent.value.unwrap().amount(), d("90.00"));
    assert_eq!(
        m.cost.api_equivalent.display_kind(),
        DisplayKind::Calculated
    );
}
