use aum::adapters::{LineCtx, ParseOutcome, Signal, UsageSignal};
use aum::codex;
use aum::copilot;
use aum::ingest::{
    actions, decide, gather, next_interval_ms, oversize_report, resume, watch_roots, Action,
    FileCursor, IngestState, PassStats, PersistedState, WatchRoot,
};
use aum::native::OpenAiUsage;
use aum::paths::{file_name, join_path};
use aum::repo::UpsertOutcome;
use aum::tailer::{Cursor, ReadStats};
use aum::time::Timestamp;
use aum::token_usage::TokenUsage;

fn at(secs: i64) -> Timestamp {
    Timestamp::from_timestamp(secs, 0).unwrap()
}

fn usage(key: &str) -> Signal {
    Signal::Usage(Box::new(UsageSignal {
        session_id: "sess-1".to_owned(),
        dedup_key: key.to_owned(),
        model_id: Some("m".to_owned()),
        occurred_at: at(5),
        usage: TokenUsage::unclassified_only(3),
        measurement_source: "provider_exact",
        request_kind: "turn",
        is_sidechain: true,
        agent_id: Some("a".to_owned()),
        agent_type: None,
        raw_json: Some("{}".to_owned()),
    }))
}

#[test]
fn a_prefix_filter_ignores_a_directorys_other_jsonl_files() {
    let root = WatchRoot {
        directory: "/d".to_owned(),
        extension: "jsonl",
        file_prefix: Some("rollout-"),
    };
    assert!(root.matches("/d/rollout-2026-01-01-abc.jsonl"));
    assert!(!root.matches("/d/history.jsonl"));
    assert!(!root.matches("/d/rollout-x.json"));
    assert!(!root.matches("/d/rollout-x"));
}

#[test]
fn discovery_finds_nested_subagent_transcripts() {
    let root = WatchRoot {
        directory: "/d".to_owned(),
        extension: "jsonl",
        file_prefix: None,
    };
    assert!(root.matches("/d/session-1.jsonl"));
    assert!(root.matches("/d/session-1/subagents/agent-1.jsonl"));
    assert!(!root.matches("/d/.jsonl"));
}

#[test]
fn every_watch_root_has_an_adapter_and_a_cache() {
    let roots = watch_roots("/home/u");
    assert_eq!(roots.len(), 3);
    assert_eq!(
        roots[0].directory,
        format!("/home/u/.{}/projects", aum::names::first_word_of("claude_code"))
    );
    assert_eq!(roots[1].directory, "/home/u/.codex/sessions");
    assert_eq!(roots[1].file_prefix, Some("rollout-"));
    assert!(
        roots.iter().any(|r| r.directory.ends_with("otel")),
        "Copilot's export directory should be watched"
    );
    assert_eq!(WatchRoot::copilot("/h").directory, "/h/.copilot/otel");
}

#[test]
fn a_malformed_line_is_recorded_as_an_anomaly() {
    let mut signals = Vec::new();
    gather(ParseOutcome::Ignored, &mut signals);
    gather(
        ParseOutcome::Malformed {
            reason: "not valid JSON".to_owned(),
        },
        &mut signals,
    );
    gather(ParseOutcome::Signals(vec![usage("k")]), &mut signals);
    assert_eq!(signals.len(), 2);
    let all = actions(signals, "claude_code", &Some("sess-1".to_owned()));
    assert_eq!(
        all[0],
        Action::Report {
            session_id: Some("sess-1".to_owned()),
            kind: "malformed_line".to_owned(),
            detail: "not valid JSON".to_owned()
        }
    );
    let Action::Record(r) = &all[1] else {
        panic!("expected a record")
    };
    assert_eq!(r.adapter_id, "claude_code");
    assert_eq!(r.dedup_key, "k");
    assert_eq!(r.agent_id.as_deref(), Some("a"));
    assert!(r.is_sidechain);

    let mut stats = PassStats::default();
    for a in &all {
        stats.count(a, UpsertOutcome::Inserted);
    }
    assert_eq!(stats.anomalies, 1);
    assert_eq!(stats.usage_recorded, 1);
}

#[test]
fn what_carries_no_tokens_becomes_nothing() {
    let quiet = [
        Signal::SessionOpened {
            session_id: "s".to_owned(),
            cwd: None,
            app_version: None,
        },
        Signal::ModelDeclared {
            session_id: "s".to_owned(),
            model_id: "m".to_owned(),
        },
        Signal::ContextCompacted {
            session_id: "s".to_owned(),
            pre_tokens: Some(998_935),
            post_tokens: None,
        },
    ];
    for s in quiet {
        assert_eq!(decide(s, "codex", &None), Action::Nothing);
    }
}

#[test]
fn failures_and_retries_are_counted_apart() {
    let failed = decide(
        Signal::RequestFailed {
            session_id: "s".to_owned(),
            dedup_key: "k".to_owned(),
            occurred_at: at(1),
            detail: "d".to_owned(),
        },
        "codex",
        &None,
    );
    assert!(matches!(&failed, Action::Fail { dedup_key, .. } if dedup_key == "k"));
    let retry = decide(
        Signal::RetryAttempt {
            session_id: "s".to_owned(),
            attempt: 1,
            max_attempts: None,
            occurred_at: at(1),
        },
        "codex",
        &None,
    );
    let mut stats = PassStats::default();
    stats.count(&failed, UpsertOutcome::Inserted);
    stats.count(&retry, UpsertOutcome::Inserted);
    stats.count(&decide(usage("k"), "codex", &None), UpsertOutcome::Unchanged);
    stats.count(&decide(usage("k"), "codex", &None), UpsertOutcome::Updated);
    stats.count(&Action::Nothing, UpsertOutcome::Inserted);
    assert_eq!((stats.failures, stats.retry_attempts), (1, 1));
    assert_eq!((stats.duplicates, stats.usage_recorded), (2, 0));
}

#[test]
fn dropped_lines_are_reported() {
    let read = ReadStats {
        scanned: 9,
        oversize_skipped: 3,
        oversize_relevant: 2,
        ..Default::default()
    };
    let stats = PassStats::of_file(&read);
    assert_eq!(stats.files_scanned, 1);
    assert_eq!(stats.lines_read, 9);
    assert_eq!((stats.anomalies, stats.oversize_relevant), (2, 2));
    let Some(Action::Report { kind, detail, .. }) = oversize_report(&read, &None) else {
        panic!("expected a report")
    };
    assert_eq!(kind, "oversize_relevant_line");
    assert!(detail.starts_with("2 line(s) exceeded the size limit"), "{detail}");
    assert!(detail.ends_with("task's totals are incomplete"), "{detail}");
    assert_eq!(oversize_report(&ReadStats::default(), &None), None);
}

#[test]
fn a_cursor_survives_storage() {
    let c = Cursor {
        byte_offset: 16,
        line_ordinal: 2,
        size_seen: 20,
    };
    let f = FileCursor::of_cursor("f".to_owned(), &c, None);
    assert_eq!(f.to_cursor(), c);
    let broken = FileCursor {
        byte_offset: -1,
        ..f
    };
    assert_eq!(broken.to_cursor().byte_offset, 0);
    let far = Cursor {
        byte_offset: u64::MAX,
        ..c
    };
    assert_eq!(
        FileCursor::of_cursor("f".to_owned(), &far, None).byte_offset,
        i64::MAX
    );
}

#[test]
fn reading_resumes_where_it_stopped() {
    let counter = OpenAiUsage {
        input_tokens: Some(5),
        ..Default::default()
    };
    let ctx = LineCtx {
        current_model: Some("m".to_owned()),
        current_session: Some("s".to_owned()),
        event_ordinal: 99,
        previous_cumulative: Some(counter),
        previous_last: None,
    };
    let cursor = Cursor {
        byte_offset: 16,
        line_ordinal: 2,
        size_seen: 20,
    };
    let back = resume(Some(PersistedState::of(&ctx)), &cursor, 20);
    assert_eq!(back.current_model.as_deref(), Some("m"));
    assert_eq!(back.current_session.as_deref(), Some("s"));
    assert_eq!(back.event_ordinal, 99);
    assert_eq!(back.previous_cumulative, Some(counter));
    let fresh = resume(None, &cursor, 20);
    assert_eq!(fresh.current_session, None);
    assert_eq!(fresh.event_ordinal, 2, "counted on from the cursor's line");
    assert_eq!(resume(None, &Cursor::default(), 20).event_ordinal, 0);
    assert_eq!(resume(None, &cursor, 15).event_ordinal, 0);
    let replaced = resume(Some(PersistedState::of(&ctx)), &cursor, 15);
    assert_eq!(replaced.event_ordinal, 0, "a file that shrank is a new one");
    assert_eq!(replaced.previous_cumulative, None);
}

fn codex_line(kind: &str, payload: codex::Payload) -> codex::Line {
    codex::Line {
        timestamp: Some("2026-05-14T12:20:30.000Z".to_owned()),
        kind: Some(kind.to_owned()),
        payload: Some(payload),
    }
}

fn codex_file() -> Vec<codex::Line> {
    let empty = || codex::Payload {
        kind: None,
        id: None,
        cwd: None,
        cli_version: None,
        model: None,
        info: None,
    };
    let counts = |input: u64| {
        let counted = |n: u64| OpenAiUsage {
            input_tokens: Some(n),
            total_tokens: Some(n),
            ..Default::default()
        };
        codex_line(
            "event_msg",
            codex::Payload {
                kind: Some("token_count".to_owned()),
                info: Some(codex::TokenInfo {
                    total_token_usage: Some(counted(input)),
                    last_token_usage: Some(counted(100)),
                }),
                ..empty()
            },
        )
    };
    let meta = codex_line(
        "session_meta",
        codex::Payload {
            id: Some("s1".to_owned()),
            ..empty()
        },
    );
    let chatter = codex_line("response_item", empty());
    vec![meta, chatter, counts(100), counts(200), counts(300)]
}

fn codex_pass(ctx: &mut LineCtx, lines: Vec<codex::Line>) -> Vec<(String, String, TokenUsage)> {
    let mut told = Vec::new();
    for line in lines {
        if let ParseOutcome::Signals(signals) = codex::parse_line(ctx, &Ok(line)) {
            told.extend(identities(signals));
        }
    }
    told
}

fn identities(signals: Vec<Signal>) -> Vec<(String, String, TokenUsage)> {
    signals
        .into_iter()
        .filter_map(|s| match s {
            Signal::Usage(u) => Some((u.session_id, u.dedup_key, u.usage)),
            _ => None,
        })
        .collect()
}

#[test]
fn a_codex_file_read_in_passes_and_again_is_the_same_requests() {
    let once = codex_pass(&mut LineCtx::default(), codex_file());
    assert_eq!(once.len(), 3);
    for cut in 0..=5 {
        let mut rest = codex_file();
        let tail = rest.split_off(cut);
        let mut ctx = LineCtx::default();
        let mut told = codex_pass(&mut ctx, rest);
        let cursor = Cursor {
            byte_offset: 1_000,
            line_ordinal: 77,
            size_seen: 1_000,
        };
        let mut ctx = resume(Some(PersistedState::of(&ctx)), &cursor, 2_000);
        told.extend(codex_pass(&mut ctx, tail));
        assert_eq!(told, once, "cut after {cut} lines");
    }
}

fn call(span_id: Option<&str>, input: u64) -> copilot::Envelope {
    let number = |key: &str, n: u64| copilot::Attribute {
        key: key.to_owned(),
        value: Some(copilot::AttrValue {
            int_value: Some(copilot::Scalar::Num {
                value: Some(n),
                text: n.to_string(),
            }),
            string_value: None,
            whole_double: None,
        }),
    };
    copilot::Envelope {
        resource_spans: Vec::new(),
        bare: copilot::Span {
            name: Some("chat".to_owned()),
            attributes: vec![
                number("gen_ai.usage.input_tokens", input),
                number("gen_ai.usage.output_tokens", 1),
            ],
            span_id: span_id.map(str::to_owned),
            trace_id: None,
            end_time: None,
            start_time: None,
        },
    }
}

fn copilot_pass(
    ctx: &mut LineCtx,
    lines: Vec<copilot::Envelope>,
) -> Vec<(String, String, TokenUsage)> {
    let mut told = Vec::new();
    for line in lines {
        if let ParseOutcome::Signals(signals) = copilot::parse_line(ctx, &Ok(line)) {
            told.extend(identities(signals));
        }
    }
    told
}

#[test]
fn a_copilot_export_read_in_passes_and_again_is_the_same_requests() {
    let file = || vec![call(Some("a"), 5), call(None, 6), call(None, 7), call(Some("b"), 8)];
    let once = copilot_pass(&mut LineCtx::default(), file());
    assert_eq!(once.len(), 4);
    assert_eq!(once[0].1, "a");
    assert_ne!(once[1].1, once[2].1);
    for cut in 0..=4 {
        let mut rest = file();
        let tail = rest.split_off(cut);
        let mut ctx = LineCtx::default();
        let mut told = copilot_pass(&mut ctx, rest);
        let mut ctx = resume(Some(PersistedState::of(&ctx)), &Cursor::default(), 10);
        told.extend(copilot_pass(&mut ctx, tail));
        assert_eq!(told, once, "cut after {cut} lines");
    }
    let alone = copilot_pass(&mut LineCtx::default(), vec![call(Some("b"), 8)]);
    assert_eq!(alone[0], once[3], "an id is an identity wherever it is read");
}

#[test]
fn passes_add_up() {
    let one = PassStats {
        files_scanned: 2,
        usage_recorded: 5,
        ..Default::default()
    };
    let mut total = PassStats::default();
    total.merge(one);
    total.merge(one);
    total.skip(7);
    assert_eq!(total.files_scanned, 4);
    assert_eq!(total.usage_recorded, 10);
    assert_eq!(total.files_skipped, 7);
    total.skip(u32::MAX);
    assert_eq!(total.files_skipped, u32::MAX);
}

#[test]
fn every_completed_pass_is_dated() {
    let mut s = IngestState::starting();
    assert!(s.backfilling);
    assert_eq!(s.last_pass_at, None);
    let busy = PassStats {
        usage_recorded: 1,
        ..Default::default()
    };
    s.finish_pass(busy, at(10));
    assert!(!s.backfilling);
    assert_eq!(s.passes, 1);
    assert_eq!(s.last_pass_at, Some(at(10)));
    s.finish_pass(PassStats::default(), at(20));
    assert_eq!(s.passes, 2);
    assert_eq!(s.last, PassStats::default());
    assert_eq!(s.cumulative, busy);
    assert_eq!(next_interval_ms(&busy), 250);
    assert_eq!(next_interval_ms(&PassStats::default()), 2_000);
}

#[test]
fn paths_are_joined_and_taken_apart() {
    assert_eq!(join_path("/a", "b"), "/a/b");
    assert_eq!(join_path("/a/", "b"), "/a/b");
    assert_eq!(join_path("", "b"), "b");
    assert_eq!(join_path("/a", "/b"), "/b");
    assert_eq!(file_name("/a/b.c"), Some("b.c"));
    assert_eq!(file_name("/a/b//"), Some("b"));
    assert_eq!(file_name("/a/b/."), Some("b"));
    assert_eq!(file_name("/"), None);
    assert_eq!(file_name("."), None);
    assert_eq!(file_name("a/.."), None);
    assert_eq!(file_name(""), None);
}
