use aum::adapters::{LineCtx, ParseOutcome, Signal, UsageAdapter, UsageSignal};
use aum::codex::{self, CodexAdapter, Line, Payload, TokenInfo, SOURCE_OFF_LEDGER};
use aum::native::OpenAiUsage;
use serde_json::Value;

fn text_field(v: &Value, key: &str) -> Result<Option<String>, String> {
    match v.get(key) {
        None | Some(Value::Null) => Ok(None),
        Some(Value::String(s)) => Ok(Some(s.clone())),
        Some(other) => Err(format!("{key}: expected a string, found {other}")),
    }
}

fn count_field(v: &Value, key: &str) -> Result<Option<u64>, String> {
    match v.get(key) {
        None | Some(Value::Null) => Ok(None),
        Some(n) => match n.as_u64() {
            Some(n) => Ok(Some(n)),
            None => Err(format!("{key}: expected a count, found {n}")),
        },
    }
}

fn usage_field(v: &Value, key: &str) -> Result<Option<OpenAiUsage>, String> {
    match v.get(key).filter(|o| !o.is_null()) {
        Some(u) => Ok(Some(OpenAiUsage {
            input_tokens: count_field(u, "input_tokens")?,
            cached_input_tokens: count_field(u, "cached_input_tokens")?,
            cache_write_input_tokens: count_field(u, "cache_write_input_tokens")?,
            output_tokens: count_field(u, "output_tokens")?,
            reasoning_output_tokens: count_field(u, "reasoning_output_tokens")?,
            total_tokens: count_field(u, "total_tokens")?,
        })),
        None => Ok(None),
    }
}

fn decode(bytes: &[u8]) -> Result<Line, String> {
    let v: Value = serde_json::from_slice(bytes).map_err(|e| e.to_string())?;
    let payload = match v.get("payload").filter(|o| !o.is_null()) {
        Some(p) => Some(Payload {
            kind: text_field(p, "type")?,
            id: text_field(p, "id")?,
            cwd: text_field(p, "cwd")?,
            cli_version: text_field(p, "cli_version")?,
            model: text_field(p, "model")?,
            info: match p.get("info").filter(|o| !o.is_null()) {
                Some(i) => Some(TokenInfo {
                    total_token_usage: usage_field(i, "total_token_usage")?,
                    last_token_usage: usage_field(i, "last_token_usage")?,
                }),
                None => None,
            },
        }),
        None => None,
    };
    Ok(Line {
        timestamp: text_field(&v, "timestamp")?,
        kind: text_field(&v, "type")?,
        payload,
    })
}

fn parse_line(ctx: &mut LineCtx, line: &[u8]) -> ParseOutcome {
    codex::parse_line(ctx, &decode(line))
}

fn session_meta() -> String {
    r#"{"timestamp":"2026-05-14T12:20:25.149Z","type":"session_meta","payload":{
        "id":"019e266e-53bd-73f0-ad31-a61e8a6000c5","cwd":"/redacted",
        "originator":"Codex Desktop","cli_version":"0.130.0-alpha.5","source":"vscode"}}"#
        .replace('\n', "")
}

fn turn_context(model: &str) -> String {
    format!(
        r#"{{"timestamp":"2026-05-14T12:20:26.000Z","type":"turn_context","payload":{{
          "turn_id":"t1","cwd":"/redacted","model":"{model}","effort":"xhigh"}}}}"#
    )
    .replace('\n', "")
}

fn token_count(input: u64, cached: u64, output: u64, reasoning: u64, last: &str) -> String {
    format!(
        r#"{{"timestamp":"2026-05-14T12:20:30.000Z","type":"event_msg","payload":{{
          "type":"token_count",
          "info":{{"total_token_usage":{{"input_tokens":{input},
             "cached_input_tokens":{cached},"output_tokens":{output},
             "reasoning_output_tokens":{reasoning},"total_tokens":{}}},
           "last_token_usage":{last},"model_context_window":258400}},
          "rate_limits":{{"limit_id":"codex","plan_type":"plus"}}}}}}"#,
        input + output
    )
    .replace('\n', "")
}

fn usage_json(input: u64, cached: u64, output: u64, reasoning: u64) -> String {
    format!(
        r#"{{"input_tokens":{input},"cached_input_tokens":{cached},
          "output_tokens":{output},"reasoning_output_tokens":{reasoning},
          "total_tokens":{}}}"#,
        input + output
    )
    .replace('\n', "")
}

fn run(lines: &[String]) -> (LineCtx, Vec<Signal>) {
    let mut ctx = LineCtx::default();
    let mut all = Vec::new();
    for line in lines {
        if let ParseOutcome::Signals(s) = parse_line(&mut ctx, line.as_bytes()) {
            all.extend(s);
        }
    }
    (ctx, all)
}

fn usages(signals: &[Signal]) -> Vec<&UsageSignal> {
    signals
        .iter()
        .filter_map(|s| match s {
            Signal::Usage(u) => Some(u.as_ref()),
            _ => None,
        })
        .collect()
}

#[test]
fn a_turn_reports_the_delta_not_the_running_total() {
    let (_, signals) = run(&[
        session_meta(),
        turn_context("gpt-5.5"),
        token_count(1_000, 0, 100, 0, &usage_json(1_000, 0, 100, 0)),
        token_count(3_000, 500, 250, 50, &usage_json(2_000, 500, 150, 50)),
    ]);

    let u = usages(&signals);
    assert_eq!(u.len(), 2);
    let second = u.get(1).unwrap();
    assert_eq!(second.usage.input_fresh(), 1_500);
    assert_eq!(second.usage.cache_read(), 500);
    assert_eq!(second.usage.output_total(), 150);
}

#[test]
fn reasoning_tokens_are_reported_and_stay_inside_output() {
    let (_, signals) = run(&[
        session_meta(),
        turn_context("gpt-5.5"),
        token_count(
            18_517,
            12_160,
            328,
            106,
            &usage_json(18_517, 12_160, 328, 106),
        ),
    ]);

    let u = usages(&signals);
    let usage = &u.first().unwrap().usage;
    assert_eq!(usage.reasoning(), Some(106));
    assert_eq!(usage.output_total(), 328);
    assert!(usage.reasoning().unwrap() <= usage.output_total());
}

#[test]
fn cached_input_is_subtracted_so_it_is_not_billed_twice() {
    let (_, signals) = run(&[
        session_meta(),
        turn_context("gpt-5.5"),
        token_count(
            16_210,
            11_008,
            164,
            35,
            &usage_json(16_210, 11_008, 164, 35),
        ),
    ]);

    let usage = &usages(&signals).first().unwrap().usage;
    assert_eq!(usage.input_fresh(), 5_202);
    assert_eq!(usage.cache_read(), 11_008);
    assert_eq!(usage.input_side_total(), 16_210);
}

#[test]
fn a_verbatim_duplicate_event_produces_no_second_request() {
    let event = token_count(1_000, 0, 100, 0, &usage_json(1_000, 0, 100, 0));
    let (_, signals) = run(&[
        session_meta(),
        turn_context("gpt-5.5"),
        event.clone(),
        event,
    ]);
    assert_eq!(
        usages(&signals).len(),
        1,
        "the duplicate must contribute nothing"
    );
}

#[test]
fn a_compaction_call_the_ledger_omits_is_still_recorded() {
    let cum = token_count(24_873_976, 0, 0, 0, &usage_json(210_476, 0, 0, 0));
    let off_ledger = token_count(24_873_976, 0, 0, 0, &usage_json(15_683, 0, 0, 0));

    let (_, signals) = run(&[session_meta(), turn_context("gpt-5.5"), cum, off_ledger]);
    let u = usages(&signals);
    assert_eq!(u.len(), 2);

    let second = u.get(1).unwrap();
    assert_eq!(second.request_kind, "off_ledger");
    assert_eq!(second.measurement_source, SOURCE_OFF_LEDGER);
    assert_eq!(second.usage.input_fresh(), 15_683);
}

#[test]
fn the_model_comes_from_turn_context_and_is_carried_forward() {
    let (_, signals) = run(&[
        session_meta(),
        turn_context("gpt-5.6-sol"),
        token_count(100, 0, 10, 0, &usage_json(100, 0, 10, 0)),
    ]);
    assert_eq!(
        usages(&signals).first().unwrap().model_id.as_deref(),
        Some("gpt-5.6-sol")
    );
}

#[test]
fn usage_before_any_turn_context_has_no_model_rather_than_a_guessed_one() {
    let (_, signals) = run(&[
        session_meta(),
        token_count(100, 0, 10, 0, &usage_json(100, 0, 10, 0)),
    ]);
    assert_eq!(usages(&signals).first().unwrap().model_id, None);
}

#[test]
fn an_event_with_null_info_is_not_a_request() {
    let line = r#"{"timestamp":"2026-05-14T12:20:30.000Z","type":"event_msg","payload":{
        "type":"token_count","info":null,
        "rate_limits":{"limit_id":"codex","plan_type":"plus"}}}"#
        .replace('\n', "");

    let (_, signals) = run(&[session_meta(), turn_context("gpt-5.5"), line]);
    assert!(usages(&signals).is_empty());
}

#[test]
fn a_rebased_counter_is_flagged_and_never_yields_a_negative_delta() {
    let (_, signals) = run(&[
        session_meta(),
        turn_context("gpt-5.5"),
        token_count(26_836_493, 0, 0, 0, &usage_json(100, 0, 0, 0)),
        token_count(353_400, 0, 0, 0, &usage_json(400, 0, 0, 0)),
    ]);

    assert!(
        signals
            .iter()
            .any(|s| matches!(s, Signal::Anomaly { kind, .. } if kind == "cumulative_rebased"))
    );
    let u = usages(&signals);
    assert_eq!(u.get(1).unwrap().usage.input_fresh(), 400);
}

#[test]
fn every_usage_row_gets_a_distinct_key() {
    let (_, signals) = run(&[
        session_meta(),
        turn_context("gpt-5.5"),
        token_count(1_000, 0, 100, 0, &usage_json(1_000, 0, 100, 0)),
        token_count(2_000, 0, 200, 0, &usage_json(1_000, 0, 100, 0)),
        token_count(3_000, 0, 300, 0, &usage_json(1_000, 0, 100, 0)),
    ]);

    let keys: Vec<&str> = usages(&signals)
        .iter()
        .map(|u| u.dedup_key.as_str())
        .collect();
    let unique: std::collections::HashSet<_> = keys.iter().collect();
    assert_eq!(keys.len(), 3);
    assert_eq!(unique.len(), 3, "keys must not collide: {keys:?}");
}

#[test]
fn the_prefilter_rejects_the_bulk_of_a_rollout() {
    let adapter = CodexAdapter;
    assert!(
        adapter.is_candidate_line(br#"{"type":"event_msg","payload":{"type":"token_count"}}"#)
    );
    assert!(adapter.is_candidate_line(br#"{"type":"turn_context","payload":{}}"#));
    assert!(adapter.is_candidate_line(br#"{"type":"session_meta","payload":{}}"#));
    assert!(
        !adapter.is_candidate_line(br#"{"type":"response_item","payload":{"type":"message"}}"#)
    );
}

#[test]
fn malformed_json_is_reported_rather_than_dropped() {
    let mut ctx = LineCtx::default();
    assert!(matches!(
        parse_line(&mut ctx, b"{not json"),
        ParseOutcome::Malformed { .. }
    ));
}

#[test]
fn a_compaction_call_with_only_a_total_keeps_its_tokens_unclassified() {
    let mut ctx = LineCtx::default();
    let meta = r#"{"type":"session_meta","payload":{"id":"s1","cwd":"/x"}}"#;
    let first = r#"{"type":"event_msg","payload":{"type":"token_count","info":{
        "total_token_usage":{"input_tokens":1000,"output_tokens":100,"total_tokens":1100},
        "last_token_usage":{"input_tokens":1000,"output_tokens":100,"total_tokens":1100}}}}"#;
    let off = r#"{"type":"event_msg","payload":{"type":"token_count","info":{
        "total_token_usage":{"input_tokens":1000,"output_tokens":100,"total_tokens":1100},
        "last_token_usage":{"input_tokens":0,"output_tokens":0,"total_tokens":15683}}}}"#;

    parse_line(&mut ctx, meta.replace('\n', "").as_bytes());
    parse_line(&mut ctx, first.replace('\n', "").as_bytes());
    let outcome = parse_line(&mut ctx, off.replace('\n', "").as_bytes());

    let ParseOutcome::Signals(signals) = outcome else {
        panic!("expected the compaction call to be recorded, got {outcome:?}")
    };
    let usage = signals
        .iter()
        .find_map(|s| match s {
            Signal::Usage(u) => Some(u.as_ref()),
            _ => None,
        })
        .expect("the compaction call must produce a usage row");

    assert_eq!(
        usage.usage.unclassified(),
        15_683,
        "the tokens must survive"
    );
    assert_eq!(usage.usage.grand_total(), 15_683);
    assert_eq!(usage.usage.input_side_total(), 0);
    assert_eq!(usage.usage.output_total(), 0);
    assert_eq!(usage.request_kind, "off_ledger");
}

#[test]
fn usage_outside_any_session_is_refused_and_said() {
    let (_, signals) = run(&[token_count(100, 0, 10, 0, &usage_json(100, 0, 10, 0))]);
    assert!(usages(&signals).is_empty());
}

#[test]
fn the_audit_trail_of_a_turn_is_its_counts() {
    let (_, signals) = run(&[
        session_meta(),
        token_count(1_000, 200, 100, 5, &usage_json(1_000, 200, 100, 5)),
    ]);
    let u = usages(&signals);
    assert_eq!(
        u[0].raw_json.as_deref(),
        Some(
            r#"{"input_tokens":1000,"cached_input_tokens":200,"cache_write_input_tokens":null,"output_tokens":100,"reasoning_output_tokens":5,"total_tokens":1100}"#
        )
    );
}
