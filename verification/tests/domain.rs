use aum::native::{
    AnthropicCacheCreation, AnthropicIteration, AnthropicUsage, NativeUsage, OpenAiUsage,
};
use aum::token_usage::{NormalizeError, TokenUsage};
use aum::tokens::TokenBands;

fn real_anthropic() -> AnthropicUsage {
    AnthropicUsage {
        input_tokens: Some(2),
        output_tokens: Some(4_452),
        cache_creation_input_tokens: Some(23_610),
        cache_read_input_tokens: Some(30_885),
        cache_creation: Some(AnthropicCacheCreation {
            ephemeral_5m_input_tokens: Some(0),
            ephemeral_1h_input_tokens: Some(23_610),
        }),
        ..Default::default()
    }
}

fn real_openai() -> OpenAiUsage {
    OpenAiUsage {
        input_tokens: Some(16_210),
        cached_input_tokens: Some(11_008),
        cache_write_input_tokens: Some(0),
        output_tokens: Some(164),
        reasoning_output_tokens: Some(35),
        total_tokens: Some(16_374),
    }
}


#[test]
fn i1_anthropic_input_field_maps_straight_to_fresh_without_arithmetic() {
    let u = TokenUsage::from_anthropic(&real_anthropic()).unwrap();
    assert_eq!(u.input_fresh(), 2);
}

#[test]
fn i2_anthropic_input_side_total_is_the_sum_of_disjoint_buckets() {
    let u = TokenUsage::from_anthropic(&real_anthropic()).unwrap();
    assert_eq!(u.input_side_total(), 54_497);
    assert_eq!(u.grand_total(), 58_949);
}

#[test]
fn i3_anthropic_ttl_split_is_preserved_because_it_changes_the_price() {
    let u = TokenUsage::from_anthropic(&real_anthropic()).unwrap();
    assert_eq!(u.cache_write_1h(), 23_610);
    assert_eq!(u.cache_write_5m(), 0);
    assert_eq!(u.cache_write_unspecified(), 0);
}

#[test]
fn i4_anthropic_reasoning_is_none_never_some_zero() {
    let u = TokenUsage::from_anthropic(&real_anthropic()).unwrap();
    assert_eq!(u.reasoning(), None);
    assert_ne!(u.reasoning(), Some(0));
}

#[test]
fn a_ttl_split_that_does_not_add_up_is_reported_not_guessed() {
    let mut native = real_anthropic();
    native.cache_creation = Some(AnthropicCacheCreation {
        ephemeral_5m_input_tokens: Some(1),
        ephemeral_1h_input_tokens: Some(1),
    });
    assert!(matches!(
        TokenUsage::from_anthropic(&native),
        Err(NormalizeError::CacheTtlSplitMismatch { .. })
    ));
}

#[test]
fn a_missing_ttl_breakdown_keeps_the_tokens_in_an_unpriceable_bucket() {
    let mut native = real_anthropic();
    native.cache_creation = None;
    let u = TokenUsage::from_anthropic(&native).unwrap();
    assert_eq!(u.cache_write_unspecified(), 23_610);
    assert_eq!(u.cache_write_5m(), 0);
    assert_eq!(u.cache_write_1h(), 0);
    assert_eq!(u.input_side_total(), 54_497);
}


#[test]
fn i5_openai_cached_tokens_are_subtracted_out_of_input() {
    let u = TokenUsage::from_openai(&real_openai()).unwrap();
    assert_eq!(u.input_fresh(), 5_202);
    assert_eq!(u.cache_read(), 11_008);
    assert_eq!(u.input_side_total(), 16_210);
}

#[test]
fn i6_openai_reasoning_stays_inside_output_and_is_not_added_again() {
    let u = TokenUsage::from_openai(&real_openai()).unwrap();
    assert_eq!(u.output_total(), 164);
    assert_eq!(u.reasoning(), Some(35));
    assert!(u.reasoning().unwrap() <= u.output_total());
}

#[test]
fn i7_our_total_includes_cache_writes_that_the_provider_total_omits() {
    let native = OpenAiUsage {
        cache_write_input_tokens: Some(1_000),
        ..real_openai()
    };
    let u = TokenUsage::from_openai(&native).unwrap();
    assert_eq!(u.grand_total(), 16_374 + 1_000);
}

#[test]
fn i8_cached_exceeding_input_is_an_error_not_a_wrapped_subtraction() {
    let native = OpenAiUsage {
        input_tokens: Some(10),
        cached_input_tokens: Some(20),
        ..Default::default()
    };
    assert_eq!(
        TokenUsage::from_openai(&native),
        Err(NormalizeError::CachedExceedsInput {
            input: 10,
            cached: 20
        })
    );
}

#[test]
fn a_provider_that_is_silent_on_reasoning_is_not_read_as_zero() {
    let silent = OpenAiUsage {
        reasoning_output_tokens: None,
        ..real_openai()
    };
    assert_eq!(TokenUsage::from_openai(&silent).unwrap().reasoning(), None);
    let none = OpenAiUsage {
        reasoning_output_tokens: Some(0),
        ..real_openai()
    };
    assert_eq!(TokenUsage::from_openai(&none).unwrap().reasoning(), Some(0));
}

#[test]
fn a_bare_total_is_not_nothing() {
    let bare = OpenAiUsage {
        total_tokens: Some(15_683),
        ..Default::default()
    };
    assert!(!bare.is_zero());
    assert!(OpenAiUsage::default().is_zero());
}

#[test]
fn reasoning_exceeding_output_is_an_error() {
    let native = OpenAiUsage {
        output_tokens: Some(10),
        reasoning_output_tokens: Some(20),
        ..Default::default()
    };
    assert!(matches!(
        TokenUsage::from_openai(&native),
        Err(NormalizeError::ReasoningExceedsOutput { .. })
    ));
}

#[test]
fn the_providers_own_arithmetic_is_checked_but_does_not_reject_the_row() {
    let native = OpenAiUsage {
        total_tokens: Some(99_999),
        ..real_openai()
    };
    assert!(TokenUsage::from_openai(&native).is_ok());
    assert!(matches!(
        TokenUsage::check_openai_total(&native),
        Some(NormalizeError::ProviderTotalMismatch { .. })
    ));
    assert!(TokenUsage::check_openai_total(&real_openai()).is_none());
}


#[test]
fn i9_the_two_providers_become_comparable_only_after_normalization() {
    let anthropic = TokenUsage::from_anthropic(&real_anthropic()).unwrap();
    let codex = TokenUsage::from_openai(&real_openai()).unwrap();

    assert_eq!(real_anthropic().input_tokens.unwrap(), 2);
    assert_eq!(real_openai().input_tokens.unwrap(), 16_210);

    assert!(anthropic.input_side_total() > codex.input_side_total());
    assert_eq!(anthropic.input_side_total(), 54_497);
    assert_eq!(codex.input_side_total(), 16_210);
}

#[test]
fn i10_normalization_is_deterministic() {
    let a = TokenUsage::from_anthropic(&real_anthropic()).unwrap();
    let b = TokenUsage::from_anthropic(&real_anthropic()).unwrap();
    assert_eq!(a, b);
}


#[test]
fn summing_a_claude_and_a_codex_request_keeps_reasoning_as_a_floor() {
    let anthropic = TokenUsage::from_anthropic(&real_anthropic()).unwrap();
    let codex = TokenUsage::from_openai(&real_openai()).unwrap();
    let total = anthropic.merge_add(codex);

    assert_eq!(total.input_side_total(), 54_497 + 16_210);
    assert_eq!(total.reasoning(), Some(35));
}

#[test]
fn summing_two_claude_requests_leaves_reasoning_unknown() {
    let a = TokenUsage::from_anthropic(&real_anthropic()).unwrap();
    let b = TokenUsage::from_anthropic(&real_anthropic()).unwrap();
    assert_eq!(a.merge_add(b).reasoning(), None);
}

#[test]
fn merge_max_is_order_independent_and_idempotent() {
    let early = TokenUsage::from_anthropic(&AnthropicUsage {
        input_tokens: Some(5),
        output_tokens: Some(1),
        ..Default::default()
    })
    .unwrap();
    let last = TokenUsage::from_anthropic(&AnthropicUsage {
        input_tokens: Some(5),
        output_tokens: Some(378),
        ..Default::default()
    })
    .unwrap();

    assert_eq!(early.merge_max(last), last.merge_max(early));
    assert_eq!(early.merge_max(last).output_total(), 378);
    assert_eq!(last.merge_max(last), last);
}

#[test]
fn merging_duplicates_does_not_multiply_them() {
    let one = TokenUsage::from_anthropic(&real_anthropic()).unwrap();
    let deduped = (0..8).fold(TokenUsage::default(), |acc, _| acc.merge_max(one));
    assert_eq!(deduped, one);

    let naive = (0..8).fold(TokenUsage::default(), |acc, _| acc.merge_add(one));
    assert_eq!(naive.output_total(), 4_452 * 8);
}

#[test]
fn converting_to_wire_bands_preserves_every_bucket() {
    let u = TokenUsage::from_anthropic(&real_anthropic()).unwrap();
    let bands: TokenBands = u.into();
    assert_eq!(bands.input_side_total(), u.input_side_total());
    assert_eq!(bands.reasoning, None);
}

#[test]
fn a_ttl_split_that_does_not_add_up_is_kept_by_a_lenient_reading() {
    let mut native = real_anthropic();
    native.cache_creation = Some(AnthropicCacheCreation {
        ephemeral_5m_input_tokens: Some(1),
        ephemeral_1h_input_tokens: Some(2),
    });
    let n = TokenUsage::read_anthropic(&native);
    assert_eq!(n.usage.cache_write_5m(), 1);
    assert_eq!(n.usage.cache_write_1h(), 2);
    assert_eq!(
        n.discrepancy,
        Some(NormalizeError::CacheTtlSplitMismatch {
            split_sum: 3,
            reported: 23_610
        })
    );
    let clean = TokenUsage::read_anthropic(&real_anthropic());
    assert_eq!(clean.discrepancy, None);
    assert_eq!(clean.usage, TokenUsage::from_anthropic(&real_anthropic()).unwrap());
}

#[test]
fn each_contradiction_is_described() {
    let errors = [
        NormalizeError::CachedExceedsInput {
            input: 10,
            cached: 20,
        },
        NormalizeError::ReasoningExceedsOutput {
            output: 3,
            reasoning: 4,
        },
        NormalizeError::CacheTtlSplitMismatch {
            split_sum: 2,
            reported: 7,
        },
        NormalizeError::ProviderTotalMismatch {
            computed: 16_374,
            reported: 99_999,
        },
    ];
    let numbers = [("10", "20"), ("3", "4"), ("2", "7"), ("16374", "99999")];
    for (e, (a, b)) in errors.iter().zip(numbers) {
        let m = e.message();
        assert!(m.contains(a) && m.contains(b), "{m}");
    }
}

#[test]
fn iterations_are_a_breakdown_and_change_no_count() {
    let mut native = real_anthropic();
    native.iterations = Some(vec![AnthropicIteration {
        input_tokens: Some(2),
        output_tokens: Some(4_452),
        cache_read_input_tokens: Some(30_885),
        cache_creation_input_tokens: Some(23_610),
    }]);
    assert_eq!(
        TokenUsage::from_anthropic(&native).unwrap(),
        TokenUsage::from_anthropic(&real_anthropic()).unwrap()
    );
}

#[test]
fn a_delta_undoes_an_advance_and_never_goes_below_zero() {
    let before = OpenAiUsage {
        input_tokens: Some(100),
        output_tokens: Some(50),
        total_tokens: Some(150),
        ..Default::default()
    };
    let after = OpenAiUsage {
        input_tokens: Some(130),
        output_tokens: Some(40),
        total_tokens: Some(170),
        ..Default::default()
    };
    let d = after.saturating_delta(before);
    assert_eq!(d.input_tokens, Some(30));
    assert_eq!(d.output_tokens, Some(0));
    assert_eq!(d.total_tokens, Some(20));
    assert_eq!(d.reasoning_output_tokens, None);
    assert!(before.saturating_delta(before).is_zero());
    assert!(!after.is_zero());
}

#[test]
fn counts_are_written_as_json_with_absent_ones_null() {
    let u = OpenAiUsage {
        input_tokens: Some(1),
        total_tokens: Some(2),
        ..Default::default()
    };
    let v: serde_json::Value = serde_json::from_str(&u.to_json()).unwrap();
    assert_eq!(v["input_tokens"], 1);
    assert_eq!(v["total_tokens"], 2);
    assert_eq!(v["output_tokens"], serde_json::Value::Null);
    assert!(matches!(NativeUsage::OpenAi(u), NativeUsage::OpenAi(x) if x == u));
}

#[test]
fn tokens_of_neither_side_count_in_the_total_alone() {
    let u = TokenUsage::unclassified_only(77);
    assert_eq!(u.unclassified(), 77);
    assert_eq!(u.input_side_total(), 0);
    assert_eq!(u.output_total(), 0);
    assert_eq!(u.reasoning(), None);
    assert_eq!(u.grand_total(), 77);
}
