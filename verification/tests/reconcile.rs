use aum::native::OpenAiUsage;
use aum::reconcile::{Reconciled, Watermark};

fn usage(input: u64, cached: u64, output: u64, reasoning: u64) -> OpenAiUsage {
    OpenAiUsage {
        input_tokens: Some(input),
        cached_input_tokens: Some(cached),
        cache_write_input_tokens: Some(0),
        output_tokens: Some(output),
        reasoning_output_tokens: Some(reasoning),
        total_tokens: Some(input + output),
    }
}

#[test]
fn the_first_event_is_its_own_delta() {
    let mut w = Watermark::default();
    let first = usage(18_517, 12_160, 328, 106);
    assert_eq!(
        w.observe(Some(first), Some(first)),
        Reconciled::Turn { usage: first }
    );
}

#[test]
fn an_ordinary_turn_emits_the_difference_not_the_running_total() {
    let mut w = Watermark::default();
    let a = usage(1_000, 0, 100, 0);
    let b = usage(3_000, 500, 250, 50);

    w.observe(Some(a), Some(a));
    let Reconciled::Turn { usage: delta } =
        w.observe(Some(b), Some(usage(2_000, 500, 150, 50)))
    else {
        panic!("expected a turn")
    };

    assert_eq!(delta.input_tokens, Some(2_000));
    assert_eq!(delta.output_tokens, Some(150));
}

#[test]
fn a_verbatim_duplicate_contributes_nothing() {
    let mut w = Watermark::default();
    let a = usage(1_000, 0, 100, 0);
    w.observe(Some(a), Some(a));
    assert_eq!(w.observe(Some(a), Some(a)), Reconciled::Replay);
    assert_eq!(w.observe(Some(a), Some(a)), Reconciled::Replay);
}

#[test]
fn a_call_the_ledger_excludes_is_still_counted() {
    let mut w = Watermark::default();
    let cum = usage(24_873_976, 0, 0, 0);
    w.observe(Some(cum), Some(usage(210_476, 0, 0, 0)));

    let compaction_call = usage(15_683, 0, 0, 0);
    let outcome = w.observe(Some(cum), Some(compaction_call));

    assert_eq!(
        outcome,
        Reconciled::OffLedger {
            usage: compaction_call
        },
        "a billed call must not vanish just because the provider omits it"
    );
}

#[test]
fn the_duplicate_that_follows_an_off_ledger_call_is_still_a_duplicate() {
    let mut w = Watermark::default();
    let cum = usage(24_873_976, 0, 0, 0);
    w.observe(Some(cum), Some(usage(210_476, 0, 0, 0)));

    let call = usage(15_683, 0, 0, 0);
    assert!(matches!(
        w.observe(Some(cum), Some(call)),
        Reconciled::OffLedger { .. }
    ));
    assert_eq!(w.observe(Some(cum), Some(call)), Reconciled::Replay);
}

#[test]
fn compaction_does_not_rebase_the_counter() {
    let mut w = Watermark::default();
    let before = usage(24_873_976, 0, 0, 0);
    w.observe(Some(before), Some(usage(210_476, 0, 0, 0)));

    let after = usage(24_899_966, 0, 25_990, 0);
    let Reconciled::Turn { usage: delta } =
        w.observe(Some(after), Some(usage(25_990, 0, 0, 0)))
    else {
        panic!("expected an ordinary turn after compaction")
    };
    assert_eq!(delta.input_tokens, Some(25_990));
}

#[test]
fn a_backwards_counter_starts_a_new_epoch_rather_than_a_negative_delta() {
    let mut w = Watermark::default();
    w.observe(Some(usage(26_836_493, 0, 0, 0)), Some(usage(100, 0, 0, 0)));

    let outcome = w.observe(Some(usage(353_400, 0, 0, 0)), Some(usage(400, 0, 0, 0)));
    let Reconciled::EpochReset { usage: emitted, .. } = outcome else {
        panic!("expected an epoch reset, got {outcome:?}")
    };
    assert_eq!(emitted.input_tokens, Some(400));
    assert_eq!(w.epoch, 1);
}

#[test]
fn an_event_with_no_token_data_is_not_a_zero_token_turn() {
    let mut w = Watermark::default();
    assert_eq!(w.observe(None, None), Reconciled::NoTokenData);
    assert_eq!(w.cumulative, None);
}

#[test]
fn replaying_an_entire_session_from_the_start_is_idempotent() {
    let events: Vec<OpenAiUsage> = (1..=10).map(|i| usage(i * 1_000, 0, i * 10, 0)).collect();

    let run = |events: &[OpenAiUsage]| {
        let mut w = Watermark::default();
        let mut total = 0_u64;
        for e in events {
            if let Reconciled::Turn { usage } = w.observe(Some(*e), Some(*e)) {
                total += usage.input_tokens.unwrap_or(0);
            }
        }
        total
    };

    let once = run(&events);
    let doubled: Vec<OpenAiUsage> = events.iter().flat_map(|e| [*e, *e]).collect();
    assert_eq!(run(&doubled), once, "re-reading must not double a session");
}

#[test]
fn deltas_sum_back_to_the_providers_own_total() {
    let mut w = Watermark::default();
    let mut sum = 0_u64;
    for i in 1..=20_u64 {
        let cum = usage(i * 100, 0, i * 10, 0);
        if let Reconciled::Turn { usage } = w.observe(Some(cum), Some(cum)) {
            sum += usage.input_tokens.unwrap_or(0) + usage.output_tokens.unwrap_or(0);
        }
    }
    assert_eq!(sum, 20 * 100 + 20 * 10);
    assert_eq!(w.reconciliation_gap(), 0);
}

#[test]
fn the_reconciliation_gap_reports_off_ledger_calls_rather_than_hiding_them() {
    let mut w = Watermark::default();
    let cum = usage(1_000, 0, 100, 0);
    w.observe(Some(cum), Some(cum));
    w.observe(Some(cum), Some(usage(50, 0, 5, 0)));

    assert_eq!(w.reconciliation_gap(), 55);
}

#[test]
fn a_reset_says_where_the_counter_moved() {
    let mut w = Watermark::default();
    w.observe(Some(usage(26_836_493, 0, 0, 0)), Some(usage(100, 0, 0, 0)));
    assert_eq!(
        w.observe(Some(usage(353_400, 0, 0, 0)), Some(usage(400, 0, 0, 0))),
        Reconciled::EpochReset {
            usage: usage(400, 0, 0, 0),
            from_total: 26_836_493,
            to_total: 353_400
        }
    );
    assert_eq!(w.cumulative, Some(usage(353_400, 0, 0, 0)));
}
