use aum::native::{AnthropicCacheCreation, AnthropicUsage, OpenAiUsage};
use aum::repo::{
    attribute_existing, bind_session, first_row, merge_max_row, to_stored, upsert_source,
    upsert_usage, Attribution, StoredRequest, UpsertOutcome, UsageRecord,
};
use aum::time::Timestamp;
use aum::token_usage::TokenUsage;
use aum::usage::{fold, Totals};
use std::collections::BTreeMap;

#[derive(Default)]
struct Store {
    bindings: BTreeMap<String, Attribution>,
    requests: BTreeMap<(String, String), StoredRequest>,
}

impl Store {
    fn bind(&mut self, session: &str, task: &str) -> bool {
        let existing = self.bindings.get(session).cloned();
        match bind_session(existing, task.to_owned(), "launched_pinned".to_owned()) {
            Ok(a) => {
                self.bindings.insert(session.to_owned(), a);
                true
            }
            Err(_) => false,
        }
    }

    fn upsert(&mut self, rec: &UsageRecord) -> UpsertOutcome {
        let key = (rec.session_id.clone(), rec.dedup_key.clone());
        let existing = self.requests.remove(&key);
        let binding = self.bindings.get(&rec.session_id).cloned();
        let (row, outcome) = upsert_usage(existing, binding, rec);
        self.requests.insert(key, row);
        outcome
    }

    fn of_task(&self, task: &str) -> Vec<i64> {
        self.requests
            .values()
            .filter(|r| r.attribution.as_ref().is_some_and(|a| a.task_id == task))
            .map(|r| r.counts.output_total)
            .collect()
    }

    fn totals(&self, task: &str) -> Totals {
        let parts: Vec<Totals> = self
            .requests
            .values()
            .filter(|r| r.attribution.as_ref().is_some_and(|a| a.task_id == task))
            .map(|r| Totals {
                requests: 1,
                input_fresh: r.counts.input_fresh,
                cache_read: r.counts.cache_read,
                output_total: r.counts.output_total,
                reasoning: r.counts.reasoning,
                reasoning_reported_by: i64::from(r.counts.reasoning.is_some()),
                ..Totals::default()
            })
            .collect();
        fold(&parts)
    }

    fn unattributed(&self) -> usize {
        self.requests.values().filter(|r| r.attribution.is_none()).count()
    }
}

fn claude_usage(output: u64) -> TokenUsage {
    TokenUsage::from_anthropic(&AnthropicUsage {
        input_tokens: Some(2),
        output_tokens: Some(output),
        cache_read_input_tokens: Some(30_885),
        cache_creation_input_tokens: Some(23_610),
        cache_creation: Some(AnthropicCacheCreation {
            ephemeral_5m_input_tokens: Some(0),
            ephemeral_1h_input_tokens: Some(23_610),
        }),
        ..Default::default()
    })
    .unwrap()
}

fn codex_usage() -> TokenUsage {
    TokenUsage::from_openai(&OpenAiUsage {
        input_tokens: Some(16_210),
        cached_input_tokens: Some(11_008),
        output_tokens: Some(164),
        reasoning_output_tokens: Some(35),
        total_tokens: Some(16_374),
        ..Default::default()
    })
    .unwrap()
}

fn record(dedup: &str, usage: TokenUsage) -> UsageRecord {
    UsageRecord {
        adapter_id: "claude_code".into(),
        session_id: "sess-1".into(),
        dedup_key: dedup.into(),
        model_id: Some("claude_opus_5".into()),
        occurred_at: Timestamp::from_timestamp(1_786_561_815, 0).unwrap(),
        measurement_source: "provider_exact".into(),
        request_kind: "turn".into(),
        usage,
        is_sidechain: false,
        agent_id: None,
        agent_type: None,
        raw_json: None,
    }
}

#[test]
fn the_fanout_case_yields_one_request_not_eight() {
    let mut db = Store::default();
    for _ in 0..8 {
        db.upsert(&record("req_1:msg_1", claude_usage(1_454)));
    }
    assert!(db.of_task("no-task").is_empty(), "unbound session must not attribute");
    assert_eq!(db.requests.len(), 1);
    let output: i64 = db.requests.values().map(|r| r.counts.output_total).sum();
    assert_eq!(output, 1_454, "must be 1454, not 11632");
}

#[test]
fn a_later_larger_observation_wins_but_a_smaller_one_does_not() {
    let mut db = Store::default();
    assert_eq!(db.upsert(&record("k", claude_usage(1))), UpsertOutcome::Inserted);
    assert_eq!(db.upsert(&record("k", claude_usage(378))), UpsertOutcome::Updated);
    assert_eq!(db.upsert(&record("k", claude_usage(1))), UpsertOutcome::Unchanged);
    assert_eq!(db.requests.values().next().unwrap().counts.output_total, 378);
}

#[test]
fn usage_with_no_bound_task_lands_in_the_unattributed_bucket() {
    let mut db = Store::default();
    db.upsert(&record("k", claude_usage(100)));
    assert_eq!(db.unattributed(), 1);
}

#[test]
fn a_bound_session_attributes_to_exactly_that_task() {
    let mut db = Store::default();
    assert!(db.bind("sess-1", "t1"));
    db.upsert(&record("k", claude_usage(500)));
    assert_eq!(db.of_task("t1"), vec![500]);
    assert_eq!(db.unattributed(), 0);
}

#[test]
fn two_tasks_never_see_each_others_usage() {
    let mut db = Store::default();
    for (task, session) in [("t1", "s1"), ("t2", "s2")] {
        assert!(db.bind(session, task));
    }
    for (session, dedup, out) in [("s1", "a", 100), ("s2", "b", 700), ("s1", "c", 200)] {
        let mut rec = record(dedup, claude_usage(out));
        rec.session_id = session.into();
        db.upsert(&rec);
    }
    assert_eq!(db.of_task("t1"), vec![100, 200]);
    assert_eq!(db.of_task("t2"), vec![700]);
}

#[test]
fn a_session_cannot_be_bound_to_two_tasks() {
    let mut db = Store::default();
    assert!(db.bind("sess-1", "task-a"));
    assert!(!db.bind("sess-1", "task-b"));
    assert!(!db.bind("sess-1", "task-a"), "nor to the same one twice");
    assert_eq!(db.bindings["sess-1"].task_id, "task-a");
    let refused = bind_session(
        db.bindings.get("sess-1").cloned(),
        "task-b".to_owned(),
        "m".to_owned(),
    );
    assert_eq!(refused.unwrap_err().task_id, "task-a");
}

#[test]
fn the_same_request_cannot_be_recorded_twice() {
    let mut db = Store::default();
    assert_eq!(db.upsert(&record("k", claude_usage(1))), UpsertOutcome::Inserted);
    assert_eq!(db.upsert(&record("k", claude_usage(1))), UpsertOutcome::Unchanged);
    assert_eq!(db.requests.len(), 1);
}

#[test]
fn a_task_of_only_claude_requests_reports_reasoning_as_unknown() {
    let mut db = Store::default();
    db.upsert(&record("a", claude_usage(10)));
    assert!(db.requests.values().all(|r| r.counts.reasoning.is_none()));
}

#[test]
fn repo_a_mixed_task_reports_reasoning_as_a_floor_over_the_requests_that_have_it() {
    let mut db = Store::default();
    assert!(db.bind("sess-1", "t1"));
    db.upsert(&record("anthropic", claude_usage(100)));
    db.upsert(&record("codex", codex_usage()));
    let totals = db.totals("t1");
    assert_eq!(totals.reasoning, Some(35));
    // 1 of 2 requests reported it, so the aggregate is partial, not exact.
    assert_eq!(totals.reasoning_reported_by, 1);
    assert_eq!(totals.requests, 2);
}

#[test]
fn attaching_to_an_existing_session_can_claim_its_earlier_requests() {
    let mut db = Store::default();
    db.upsert(&record("a", claude_usage(100)));
    db.upsert(&record("b", claude_usage(200)));
    assert_eq!(db.unattributed(), 2);

    let by = Attribution {
        task_id: "t1".to_owned(),
        method: "session_id_exact".to_owned(),
    };
    let mut moved = 0;
    for row in db.requests.values_mut() {
        let (claimed, did_move) = attribute_existing(row.clone(), by.clone());
        *row = claimed;
        moved += usize::from(did_move);
    }
    assert_eq!(moved, 2);
    assert_eq!(db.unattributed(), 0);

    let other = Attribution {
        task_id: "t2".to_owned(),
        method: "session_id_exact".to_owned(),
    };
    let row = db.requests.values().next().unwrap().clone();
    assert_eq!(attribute_existing(row.clone(), other), (row, false));
}

#[test]
fn a_known_request_stays_with_its_task_and_learns_its_model() {
    let mut first = record("k", claude_usage(1));
    first.model_id = None;
    let (row, _) = upsert_usage(None, None, &first);
    assert_eq!(row.model_id, None);
    let by = Attribution {
        task_id: "t1".to_owned(),
        method: "m".to_owned(),
    };
    let (same, outcome) = upsert_usage(Some(row.clone()), Some(by.clone()), &record("k", claude_usage(1)));
    assert_eq!(outcome, UpsertOutcome::Unchanged);
    assert_eq!(same, row, "nothing grew, so nothing is written");
    let (grown, outcome) = upsert_usage(Some(row), Some(by), &record("k", claude_usage(9)));
    assert_eq!(outcome, UpsertOutcome::Updated);
    assert_eq!(grown.model_id.as_deref(), Some("claude_opus_5"));
    assert_eq!(grown.attribution, None);
}

#[test]
fn the_provider_object_is_kept_verbatim_for_audit() {
    let mut rec = record("k", claude_usage(100));
    rec.raw_json = Some(r#"{"input_tokens":2,"output_tokens":100}"#.into());
    let source = upsert_source(None, &rec, "t0".to_owned());
    assert!(source.raw_json.clone().unwrap().contains("\"input_tokens\":2"));
    assert_eq!(source.counts.reasoning, None);

    rec.raw_json = None;
    let again = upsert_source(Some(source), &rec, "t1".to_owned());
    assert!(again.raw_json.is_some());
    assert_eq!(again.observed_at, "t1");
    assert_eq!(again.counts.reasoning, None, "nobody has reported it yet");
    assert_eq!(again.counts.output_total, 100);

    let reported = upsert_source(Some(again), &record("k", codex_usage()), "t2".to_owned());
    assert_eq!(reported.counts.reasoning, Some(35));
    assert_eq!(reported.counts.output_total, 164);
}

#[test]
fn order_does_not_matter_and_counts_stop_at_the_largest() {
    let a = claude_usage(5);
    let b = codex_usage();
    assert_eq!(
        merge_max_row(first_row(&a), &b),
        merge_max_row(first_row(&b), &a)
    );
    assert_eq!(to_stored(u64::MAX), i64::MAX);
    assert_eq!(to_stored(7), 7);
}
