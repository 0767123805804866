use aum::dto::AdapterState;
use aum::measurement::DisplayKind;
use aum::probe::{Observed, Observed2};
use aum::repo::SessionTotals;
use aum::views::{
    describe_adapters, discover_executable, is_jsonl, is_rollout, session_summary, FileApp,
    CODEX_BUNDLED_PATH,
};

fn totals(
    requests: i64,
    reasoning: Option<i64>,
    reported_by: i64,
) -> SessionTotals {
    SessionTotals {
        session_id: "s".to_owned(),
        adapter_id: "claude_code".to_owned(),
        model_id: Some("claude_opus_5".to_owned()),
        requests,
        input_fresh: 10,
        cache_read: 20,
        cache_write_5m: 0,
        cache_write_1h: 30,
        cache_write_unspecified: 0,
        output_total: 40,
        unclassified: 0,
        reasoning,
        reasoning_reported_by: reported_by,
        failed: 0,
        first_at: None,
        last_at: None,
        unattributed: true,
    }
}

#[test]
fn an_agent_that_reports_no_reasoning_is_unavailable_rather_than_zero() {
    let s = session_summary(totals(5, None, 0));
    assert_eq!(s.reasoning_tokens.value, None);
    assert_eq!(s.reasoning_tokens.display_kind(), DisplayKind::Unavailable);
}

#[test]
fn reasoning_reported_by_every_request_is_exact() {
    let s = session_summary(totals(5, Some(99), 5));
    assert_eq!(s.reasoning_tokens.value, Some(99));
    assert_eq!(s.reasoning_tokens.display_kind(), DisplayKind::Exact);
}

#[test]
fn reasoning_reported_by_some_requests_is_a_floor_and_says_so() {
    let s = session_summary(totals(5, Some(99), 2));
    assert_eq!(s.reasoning_tokens.value, Some(99));
    assert_eq!(s.reasoning_tokens.display_kind(), DisplayKind::Partial);
    let sentence = format!("{:?}", s.reasoning_tokens.accuracy);
    assert!(sentence.contains("2 of 5"), "{sentence}");
}

#[test]
fn the_band_total_is_the_sum_of_disjoint_buckets() {
    let s = session_summary(totals(1, None, 0));
    assert_eq!(s.total_tokens.value, Some(10 + 20 + 30 + 40));
}

#[test]
fn a_program_that_is_not_installed_is_none_rather_than_a_guess() {
    let path = Some("/usr/local/bin:/usr/bin:/bin".to_owned());
    let nowhere = vec![false, false, false];
    assert_eq!(
        discover_executable("definitely-not-a-real-binary-xyz", &path, &nowhere),
        None
    );
}

#[test]
fn transcripts_are_told_by_their_names() {
    assert!(is_jsonl("/a/b/session.jsonl"));
    assert!(!is_jsonl("/a/b/session.json"));
    assert!(!is_jsonl("/a/b/.jsonl"));
    assert!(is_rollout("/a/rollout-2026.jsonl"));
    assert!(!is_rollout("/a/history.jsonl"));
    assert!(!is_rollout("/rollout-x/history.jsonl"));
}

#[test]
fn codex_is_found_where_it_is_bundled() {
    let found = discover_executable("codex", &None, &vec![true]);
    assert_eq!(found.as_deref(), Some(CODEX_BUNDLED_PATH));
}

fn app(directory_exists: bool) -> FileApp {
    FileApp {
        observed: Observed2 {
            observed: Observed::default(),
            files_sampled: 0,
        },
        executable: None,
        directory_exists,
    }
}

#[test]
fn every_application_is_described() {
    let all = describe_adapters(app(true), app(false), true);
    let ids: Vec<&str> = all.iter().map(|d| d.id.as_str()).collect();
    assert_eq!(ids, vec!["claude_code", "codex", "claude_desktop"]);
    assert_eq!(all[0].state, AdapterState::Detected);
    assert_eq!(all[1].state, AdapterState::NotInstalled);
    assert_eq!(all[2].state, AdapterState::Detected);
    for d in &all {
        assert_eq!(
            d.display_name.to_lowercase().replace(' ', "_"),
            d.id,
            "a name is its id in words"
        );
        assert!(d.display_name.starts_with('C'));
    }
    assert_eq!(all[1].display_name, "Codex");
}
