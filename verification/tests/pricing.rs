use aum::decimal::Decimal;
use aum::measurement::{Accuracy, DisplayKind, UnavailableReason};
use aum::native::{AnthropicCacheCreation, AnthropicUsage, OpenAiUsage};
use aum::pricing::{
    cost_of, cost_of_many, per_million, try_cost_of_many, CostOutcome,
};
use aum::table::{ModelPricing, PriceTable, Rates};
use aum::token_usage::TokenUsage;
use aum::tokens::TokenBands;

fn own(s: &str) -> Decimal {
    Decimal::from_text(s).unwrap()
}

fn dec(s: &str) -> rust_decimal::Decimal {
    s.parse().unwrap()
}

fn outside(d: Decimal) -> rust_decimal::Decimal {
    rust_decimal::Decimal::from_i128_with_scale(d.mantissa(), d.scale())
}

fn table() -> PriceTable {
    PriceTable::from_entries(vec![
        ModelPricing {
            version_id: "opus-test".to_owned(),
            model_id: "claude_opus_5".to_owned(),
            rates: Rates {
                input_per_mtok: own("15.00"),
                output_per_mtok: own("75.00"),
                cache_read_per_mtok: own("1.50"),
                cache_write_5m_per_mtok: own("18.75"),
                cache_write_1h_per_mtok: own("30.00"),
            },
            effective_from: "2026-01-01T00:00:00.000Z".to_owned(),
            source: "seed".to_owned(),
            note: None,
        },
        ModelPricing {
            version_id: "gpt-test".to_owned(),
            model_id: "gpt-5.5".to_owned(),
            rates: Rates {
                input_per_mtok: own("1.25"),
                output_per_mtok: own("10.00"),
                cache_read_per_mtok: own("0.125"),
                cache_write_5m_per_mtok: own("1.25"),
                cache_write_1h_per_mtok: own("1.25"),
            },
            effective_from: "2026-01-01T00:00:00.000Z".to_owned(),
            source: "seed".to_owned(),
            note: None,
        },
    ])
}

fn real_claude() -> TokenUsage {
    TokenUsage::from_anthropic(&AnthropicUsage {
        input_tokens: Some(2),
        output_tokens: Some(4_452),
        cache_creation_input_tokens: Some(23_610),
        cache_read_input_tokens: Some(30_885),
        cache_creation: Some(AnthropicCacheCreation {
            ephemeral_5m_input_tokens: Some(0),
            ephemeral_1h_input_tokens: Some(23_610),
        }),
        ..Default::default()
    })
    .unwrap()
}

fn real_codex() -> TokenUsage {
    TokenUsage::from_openai(&OpenAiUsage {
        input_tokens: Some(16_210),
        cached_input_tokens: Some(11_008),
        output_tokens: Some(164),
        reasoning_output_tokens: Some(35),
        total_tokens: Some(16_374),
        ..Default::default()
    })
    .unwrap()
}

#[test]
fn a_real_claude_request_costs_what_the_worked_example_says() {
    let CostOutcome::Priced { amount, .. } =
        cost_of(&real_claude(), Some("claude_opus_5"), &table())
    else {
        panic!("expected a price")
    };
    assert_eq!(outside(amount), dec("1.0885575"));
}

#[test]
fn pricing_cache_writes_at_a_flat_rate_would_understate_by_a_quarter() {
    let usage = real_claude();
    let t = table();
    let CostOutcome::Priced {
        amount: correct, ..
    } = cost_of(&usage, Some("claude_opus_5"), &t)
    else {
        panic!()
    };

    let flat = outside(per_million(usage.input_fresh(), own("15.00")).unwrap())
        + outside(per_million(usage.cache_write_1h(), own("18.75")).unwrap())
        + outside(per_million(usage.cache_read(), own("1.50")).unwrap())
        + outside(per_million(usage.output_total(), own("75.00")).unwrap());

    assert_eq!(flat, dec("0.8229450"));
    let correct = outside(correct);
    let understatement = (correct - flat) / correct;
    assert!(
        understatement > dec("0.20") && understatement < dec("0.28"),
        "expected roughly a quarter, got {understatement}"
    );
}

#[test]
fn a_real_codex_turn_costs_what_the_worked_example_says() {
    let CostOutcome::Priced { amount, .. } = cost_of(&real_codex(), Some("gpt-5.5"), &table())
    else {
        panic!("expected a price")
    };
    assert_eq!(outside(amount), dec("0.0095185"));
}

#[test]
fn reasoning_is_not_billed_on_top_of_output() {
    let usage = real_codex();
    let CostOutcome::Priced { amount, .. } = cost_of(&usage, Some("gpt-5.5"), &table()) else {
        panic!()
    };
    let amount = outside(amount);
    let double_counted = amount + outside(per_million(usage.reasoning().unwrap(), own("10.00")).unwrap());
    assert!(double_counted > amount);
    assert_eq!(
        amount,
        dec("0.0095185"),
        "reasoning must not be added again"
    );
}

#[test]
fn cached_input_is_not_charged_at_the_full_rate() {
    let usage = real_codex();
    assert_eq!(usage.input_fresh(), 5_202);
    assert_eq!(usage.cache_read(), 11_008);

    let CostOutcome::Priced { amount, .. } = cost_of(&usage, Some("gpt-5.5"), &table()) else {
        panic!()
    };
    let naive = outside(per_million(16_210, own("1.25")).unwrap())
        + outside(per_million(11_008, own("0.125")).unwrap())
        + outside(per_million(164, own("10.00")).unwrap());
    assert!(
        naive > outside(amount) * dec("2"),
        "the naive figure is 2.4x the truth"
    );
}

#[test]
fn an_unknown_model_is_unavailable_rather_than_free() {
    let outcome = cost_of(&real_codex(), Some("gpt-5.6-sol"), &table());
    assert!(matches!(
        outcome,
        CostOutcome::Unavailable(UnavailableReason::NoPricingForModel { .. })
    ));
}

#[test]
fn a_request_with_no_known_model_is_unavailable() {
    assert!(matches!(
        cost_of(&real_codex(), None, &table()),
        CostOutcome::Unavailable(UnavailableReason::ModelUnknown { .. })
    ));
}

#[test]
fn a_locally_generated_message_costs_nothing_and_says_so() {
    let outcome = cost_of(&TokenUsage::default(), Some("<synthetic>"), &table());
    assert!(matches!(
        outcome,
        CostOutcome::Priced { amount, .. } if outside(amount) == rust_decimal::Decimal::ZERO
    ));
}

#[test]
fn unclassified_tokens_are_reported_as_unpriceable() {
    let usage = TokenUsage::unclassified_only(15_683);
    let CostOutcome::Priced {
        amount,
        unpriceable_tokens,
        ..
    } = cost_of(&usage, Some("gpt-5.5"), &table())
    else {
        panic!()
    };
    assert_eq!(outside(amount), rust_decimal::Decimal::ZERO);
    assert_eq!(unpriceable_tokens, 15_683);
}

#[test]
fn a_task_of_priceable_requests_is_calculated_not_exact() {
    let items = vec![
        (real_claude(), Some("claude_opus_5".to_owned())),
        (real_codex(), Some("gpt-5.5".to_owned())),
    ];
    let m = cost_of_many(&items, &table());
    assert_eq!(m.display_kind(), DisplayKind::Calculated);
    assert_eq!(
        outside(m.value.unwrap().amount()),
        dec("1.0885575") + dec("0.0095185")
    );
}

#[test]
fn one_unpriced_model_makes_the_task_total_a_floor() {
    let items = vec![
        (real_claude(), Some("claude_opus_5".to_owned())),
        (real_codex(), Some("gpt-5.6-sol".to_owned())),
    ];
    let m = cost_of_many(&items, &table());
    assert_eq!(m.display_kind(), DisplayKind::Partial);
    assert_eq!(outside(m.value.unwrap().amount()), dec("1.0885575"));
}

#[test]
fn a_task_where_nothing_can_be_priced_is_unavailable_not_zero() {
    let items = vec![(real_codex(), Some("gpt-5.6-sol".to_owned()))];
    let m = cost_of_many(&items, &table());
    assert_eq!(m.value, None);
    assert_eq!(m.display_kind(), DisplayKind::Unavailable);
}

#[test]
fn summing_exactly_beats_rounding_each_request() {
    let tiny = TokenUsage::from_openai(&OpenAiUsage {
        input_tokens: Some(1),
        output_tokens: Some(1),
        total_tokens: Some(2),
        ..Default::default()
    })
    .unwrap();

    let items: Vec<_> = (0..10_000)
        .map(|_| (tiny, Some("gpt-5.5".to_owned())))
        .collect();
    let exact = outside(cost_of_many(&items, &table()).value.unwrap().amount());

    let per_request = match cost_of(&tiny, Some("gpt-5.5"), &table()) {
        CostOutcome::Priced { amount, .. } => outside(amount),
        CostOutcome::Unavailable(_) => panic!(),
    };
    let rounded_then_summed = per_request.round_dp(4) * rust_decimal::Decimal::from(10_000_u32);

    assert_ne!(
        exact, rounded_then_summed,
        "if these ever match, the test has stopped proving anything"
    );
    assert_eq!(
        rounded_then_summed,
        rust_decimal::Decimal::ZERO,
        "each request rounds to nothing"
    );
    assert!(
        exact > rust_decimal::Decimal::ZERO,
        "but ten thousand of them are not nothing"
    );
}

#[test]
fn an_empty_task_is_unavailable_rather_than_zero() {
    assert_eq!(cost_of_many(&[], &table()).value, None);
}

#[test]
fn a_product_that_does_not_fit_is_unavailable() {
    let huge = PriceTable::from_entries(vec![ModelPricing {
        version_id: "v".to_owned(),
        model_id: "m".to_owned(),
        rates: Rates {
            input_per_mtok: own("79228162514264337593543950335"),
            output_per_mtok: own("1"),
            cache_read_per_mtok: own("1"),
            cache_write_5m_per_mtok: own("1"),
            cache_write_1h_per_mtok: own("1"),
        },
        effective_from: "2026-01-01T00:00:00.000Z".to_owned(),
        source: "user".to_owned(),
        note: None,
    }]);
    let many = TokenUsage::from_bands(TokenBands {
        input_fresh: 10_000_000,
        ..Default::default()
    });
    let CostOutcome::Unavailable(reason) = cost_of(&many, Some("m"), &huge) else {
        panic!("expected no price")
    };
    assert_eq!(
        reason,
        UnavailableReason::NoTelemetry {
            detail: "This cost is too large to be computed.".to_owned()
        }
    );
    assert_eq!(per_million(10_000_000, own("79228162514264337593543950335")), None);
    assert_eq!(per_million(10_000_000, own("1.5")), Some(own("15")));
    assert_eq!(per_million(1, own("0.000000001")), Some(own("0.000000000000001")));
    let items = vec![(many, Some("m".to_owned()))];
    assert_eq!(
        try_cost_of_many(&items, &huge),
        Some(cost_of_many(&items, &huge))
    );
}

#[test]
fn a_floor_says_how_much_is_missing() {
    let items = vec![
        (real_claude(), Some("claude_opus_5".to_owned())),
        (real_codex(), Some("gpt-5.6-sol".to_owned())),
        (real_codex(), None),
    ];
    let m = try_cost_of_many(&items, &table()).unwrap();
    assert!(matches!(
        m.accuracy,
        Accuracy::Partial {
            measured: 1,
            total: 3,
            ..
        }
    ));
}

#[test]
fn cache_writes_without_a_tier_are_priced_at_the_short_one() {
    let usage = TokenUsage::from_anthropic(&AnthropicUsage {
        cache_creation_input_tokens: Some(1_000_000),
        ..Default::default()
    })
    .unwrap();
    let CostOutcome::Priced {
        amount,
        pricing_version,
        unpriceable_tokens,
    } = cost_of(&usage, Some("claude_opus_5"), &table())
    else {
        panic!("expected a price")
    };
    assert_eq!(outside(amount), dec("18.75"));
    assert_eq!(pricing_version, "opus-test");
    assert_eq!(unpriceable_tokens, 0);
}
