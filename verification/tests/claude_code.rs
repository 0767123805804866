use aum::adapters::{LineCtx, ParseOutcome, Signal, UsageAdapter, UsageSignal};
use aum::claude_code::{self, ClaudeCodeAdapter, Line, Message};
use aum::native::{AnthropicCacheCreation, AnthropicIteration, AnthropicUsage, ServerToolUse};
use aum::time::{to_sql_time, Timestamp};
use serde_json::Value;

fn text_field(v: &Value, key: &str) -> Result<Option<String>, String> {
    match v.get(key) {
        None | Some(Value::Null) => Ok(None),
        Some(Value::String(s)) => Ok(Some(s.clone())),
        Some(other) => Err(format!("{key}: expected a string, found {other}")),
    }
}

fn count_field(v: &Value, key: &str) -> Result<Option<u64>, String> {
    match v.get(key) {
        None | Some(Value::Null) => Ok(None),
        Some(n) => match n.as_u64() {
            Some(n) => Ok(Some(n)),
            None => Err(format!("{key}: expected a count, found {n}")),
        },
    }
}

fn flag_field(v: &Value, key: &str) -> Result<Option<bool>, String> {
    match v.get(key) {
        None | Some(Value::Null) => Ok(None),
        Some(Value::Bool(b)) => Ok(Some(*b)),
        Some(other) => Err(format!("{key}: expected a flag, found {other}")),
    }
}

fn object<'a>(v: &'a Value, key: &str) -> Option<&'a Value> {
    v.get(key).filter(|o| !o.is_null())
}

fn usage_of(v: &Value) -> Result<AnthropicUsage, String> {
    let cache_creation = match object(v, "cache_creation") {
        Some(c) => Some(AnthropicCacheCreation {
            ephemeral_5m_input_tokens: count_field(c, "ephemeral_5m_input_tokens")?,
            ephemeral_1h_input_tokens: count_field(c, "ephemeral_1h_input_tokens")?,
        }),
        None => None,
    };
    let server_tool_use = match object(v, "server_tool_use") {
        Some(c) => Some(ServerToolUse {
            web_search_requests: count_field(c, "web_search_requests")?,
            web_fetch_requests: count_field(c, "web_fetch_requests")?,
        }),
        None => None,
    };
    let iterations = match object(v, "iterations").and_then(Value::as_array) {
        Some(all) => {
            let mut out = Vec::new();
            for i in all {
                out.push(AnthropicIteration {
                    input_tokens: count_field(i, "input_tokens")?,
                    output_tokens: count_field(i, "output_tokens")?,
                    cache_read_input_tokens: count_field(i, "cache_read_input_tokens")?,
                    cache_creation_input_tokens: count_field(i, "cache_creation_input_tokens")?,
                });
            }
            Some(out)
        }
        None => None,
    };
    Ok(AnthropicUsage {
        input_tokens: count_field(v, "input_tokens")?,
        output_tokens: count_field(v, "output_tokens")?,
        cache_creation_input_tokens: count_field(v, "cache_creation_input_tokens")?,
        cache_read_input_tokens: count_field(v, "cache_read_input_tokens")?,
        cache_creation,
        server_tool_use,
        service_tier: text_field(v, "service_tier")?,
        speed: text_field(v, "speed")?,
        inference_geo: text_field(v, "inference_geo")?,
        iterations,
    })
}

fn decode(bytes: &[u8]) -> Result<Line, String> {
    let v: Value = serde_json::from_slice(bytes).map_err(|e| e.to_string())?;
    let message = match object(&v, "message") {
        Some(m) => Some(Message {
            id: text_field(m, "id")?,
            model: text_field(m, "model")?,
            usage: match object(m, "usage") {
                Some(u) => Some(usage_of(u)?),
                None => None,
            },
        }),
        None => None,
    };
    Ok(Line {
        kind: text_field(&v, "type")?,
        session_id: text_field(&v, "sessionId")?,
        timestamp: text_field(&v, "timestamp")?,
        request_id: text_field(&v, "requestId")?,
        uuid: text_field(&v, "uuid")?,
        cwd: text_field(&v, "cwd")?,
        version: text_field(&v, "version")?,
        is_sidechain: flag_field(&v, "isSidechain")?,
        agent_id: text_field(&v, "agentId")?,
        attribution_agent: text_field(&v, "attributionAgent")?,
        is_api_error_message: flag_field(&v, "isApiErrorMessage")?,
        retry_attempt: count_field(&v, "retryAttempt")?.map(|n| n as u32),
        max_retries: count_field(&v, "maxRetries")?.map(|n| n as u32),
        subtype: text_field(&v, "subtype")?,
        pre_tokens: count_field(&v, "preTokens")?,
        post_tokens: count_field(&v, "postTokens")?,
        message,
    })
}

fn parse_line(ctx: &mut LineCtx, line: &[u8]) -> ParseOutcome {
    claude_code::parse_line(ctx, &decode(line))
}

fn parse(line: &str) -> (LineCtx, ParseOutcome) {
    let mut ctx = LineCtx::default();
    let outcome = parse_line(&mut ctx, line.as_bytes());
    (ctx, outcome)
}

fn usage_signals(outcome: &ParseOutcome) -> Vec<&UsageSignal> {
    match outcome {
        ParseOutcome::Signals(s) => s
            .iter()
            .filter_map(|x| match x {
                Signal::Usage(u) => Some(u.as_ref()),
                _ => None,
            })
            .collect(),
        _ => Vec::new(),
    }
}

fn assistant_line(request_id: &str, message_id: &str, output: u64) -> String {
    format!(
        r#"{{"type":"assistant","sessionId":"11111111-1111-1111-1111-111111111111",
             "uuid":"22222222-2222-2222-2222-222222222222",
             "parentUuid":"33333333-3333-3333-3333-333333333333",
             "timestamp":"2026-08-12T19:10:15.774Z","version":"2.1.227",
             "gitBranch":"main","cwd":"/redacted","userType":"external",
             "isSidechain":false,"entrypoint":"cli","requestId":"{request_id}",
             "effort":"high",
             "message":{{"id":"{message_id}","type":"message","role":"assistant",
               "model":"claude_opus_5","stop_reason":"tool_use",
               "content":[{{"type":"tool_use"}}],
               "usage":{{"input_tokens":2,"cache_creation_input_tokens":23610,
                 "cache_read_input_tokens":30885,"output_tokens":{output},
                 "server_tool_use":{{"web_search_requests":0,"web_fetch_requests":0}},
                 "service_tier":"standard",
                 "cache_creation":{{"ephemeral_1h_input_tokens":23610,"ephemeral_5m_input_tokens":0}},
                 "inference_geo":"not_available",
                 "iterations":[{{"input_tokens":2,"output_tokens":{output},
                   "cache_read_input_tokens":30885,"cache_creation_input_tokens":23610,
                   "type":"message"}}]}}}}}}"#
    )
    .replace('\n', "")
}

#[test]
fn extracts_the_provider_usage_object_verbatim() {
    let (_, outcome) = parse(&assistant_line("req_1", "msg_1", 4452));
    let usage = usage_signals(&outcome);
    assert_eq!(usage.len(), 1);

    let u = &usage.first().unwrap().usage;
    assert_eq!(u.input_fresh(), 2);
    assert_eq!(u.cache_read(), 30_885);
    assert_eq!(u.cache_write_1h(), 23_610);
    assert_eq!(u.output_total(), 4_452);
    assert_eq!(u.reasoning(), None);
}

#[test]
fn the_iterations_array_is_not_added_to_the_top_level() {
    let (_, outcome) = parse(&assistant_line("req_1", "msg_1", 4452));
    assert_eq!(
        usage_signals(&outcome)
            .first()
            .unwrap()
            .usage
            .output_total(),
        4_452
    );
}

#[test]
fn the_fanout_lines_of_one_response_share_one_dedup_key() {
    let keys: Vec<String> = (0..8)
        .map(|_| {
            let (_, outcome) = parse(&assistant_line("req_1", "msg_1", 1454));
            usage_signals(&outcome).first().unwrap().dedup_key.clone()
        })
        .collect();

    assert_eq!(keys.len(), 8);
    assert!(
        keys.windows(2).all(|w| w[0] == w[1]),
        "all eight must collapse to one key"
    );
}

#[test]
fn distinct_responses_get_distinct_keys() {
    let (_, a) = parse(&assistant_line("req_1", "msg_1", 10));
    let (_, b) = parse(&assistant_line("req_2", "msg_2", 20));
    assert_ne!(
        usage_signals(&a).first().unwrap().dedup_key,
        usage_signals(&b).first().unwrap().dedup_key
    );
}

#[test]
fn a_synthetic_line_is_a_failure_and_not_a_request() {
    let line = r#"{"type":"assistant","sessionId":"s1","uuid":"u1",
      "timestamp":"2026-08-12T19:10:15.774Z","isApiErrorMessage":true,
      "message":{"id":"e5f6","model":"<synthetic>","usage":{"input_tokens":0,
        "output_tokens":0,"cache_creation_input_tokens":0,"cache_read_input_tokens":0}}}"#
        .replace('\n', "");

    let (_, outcome) = parse(&line);
    assert!(
        usage_signals(&outcome).is_empty(),
        "must not count as usage"
    );
    let ParseOutcome::Signals(signals) = &outcome else {
        panic!("expected signals, got {outcome:?}")
    };
    assert!(
        signals
            .iter()
            .any(|s| matches!(s, Signal::RequestFailed { .. }))
    );
}

#[test]
fn compact_boundary_token_counts_never_reach_a_total() {
    let line = r#"{"type":"system","subtype":"compact_boundary","sessionId":"s1",
      "timestamp":"2026-08-12T19:10:15.774Z","preTokens":998935,"postTokens":10739}"#
        .replace('\n', "");

    let (_, outcome) = parse(&line);
    assert!(usage_signals(&outcome).is_empty());
    let ParseOutcome::Signals(signals) = &outcome else {
        panic!("expected signals")
    };
    assert!(signals.iter().any(|s| matches!(
        s,
        Signal::ContextCompacted {
            pre_tokens: Some(998_935),
            ..
        }
    )));
}

#[test]
fn api_error_lines_are_attempts_rather_than_failures() {
    let line = r#"{"type":"system","subtype":"api_error","level":"error","sessionId":"s1",
      "timestamp":"2026-08-12T19:10:15.774Z","retryAttempt":3,"maxRetries":8}"#
        .replace('\n', "");

    let (_, outcome) = parse(&line);
    let ParseOutcome::Signals(signals) = &outcome else {
        panic!("expected signals")
    };
    assert!(signals.iter().any(|s| matches!(
        s,
        Signal::RetryAttempt {
            attempt: 3,
            max_attempts: Some(8),
            ..
        }
    )));
    assert!(
        !signals
            .iter()
            .any(|s| matches!(s, Signal::RequestFailed { .. }))
    );
}

#[test]
fn a_subagent_line_attributes_to_the_parent_session() {
    let line = r#"{"type":"assistant","sessionId":"parent-session","uuid":"u1",
      "timestamp":"2026-08-12T19:10:15.774Z","isSidechain":true,
      "agentId":"agent-7","attributionAgent":"Explore","requestId":"req_9",
      "message":{"id":"msg_9","model":"claude_haiku_4_5_20251001",
        "usage":{"input_tokens":100,"output_tokens":50,
          "cache_creation_input_tokens":0,"cache_read_input_tokens":0}}}"#
        .replace('\n', "");

    let (_, outcome) = parse(&line);
    let u = usage_signals(&outcome);
    let signal = u.first().unwrap();
    assert_eq!(signal.session_id, "parent-session");
    assert!(signal.is_sidechain);
    assert_eq!(signal.agent_type.as_deref(), Some("Explore"));
    assert_eq!(
        signal.model_id.as_deref(),
        Some("claude_haiku_4_5_20251001")
    );
}

#[test]
fn a_user_line_carries_no_usage() {
    let line = r#"{"type":"user","sessionId":"s1","timestamp":"2026-08-12T19:10:15.774Z",
      "message":{"role":"user","content":"[redacted]"}}"#
        .replace('\n', "");
    assert!(usage_signals(&parse(&line).1).is_empty());
}

#[test]
fn malformed_json_is_reported_rather_than_silently_dropped() {
    let (_, outcome) = parse("{not json");
    assert!(matches!(outcome, ParseOutcome::Malformed { .. }));
}

#[test]
fn unknown_fields_do_not_break_parsing() {
    let mut line = assistant_line("req_1", "msg_1", 100);
    line = line.replace(
        r#""type":"assistant","#,
        r#""type":"assistant","somethingBrandNew":{"nested":true},"#,
    );
    assert_eq!(usage_signals(&parse(&line).1).len(), 1);
}

#[test]
fn the_stored_audit_trail_is_the_usage_object_not_the_conversation() {
    let (_, outcome) = parse(&assistant_line("req_1", "msg_1", 100));
    let raw = usage_signals(&outcome)
        .first()
        .unwrap()
        .raw_json
        .clone()
        .unwrap();
    assert!(raw.contains("input_tokens"), "the counts must be auditable");
    for forbidden in ["\"content\"", "\"role\"", "\"stop_reason\"", "\"cwd\""] {
        assert!(
            !raw.contains(forbidden),
            "audit trail leaked {forbidden}: {raw}"
        );
    }
}

#[test]
fn the_prefilter_accepts_usage_lines_and_rejects_ordinary_ones() {
    let adapter = ClaudeCodeAdapter;
    assert!(adapter.is_candidate_line(br#"{"type":"assistant","message":{"usage":{}}}"#));
    assert!(adapter.is_candidate_line(br#"{"type":"system","subtype":"api_error"}"#));
    assert!(!adapter.is_candidate_line(br#"{"type":"user","message":{"role":"user"}}"#));
}

#[test]
fn a_session_is_announced_once_rather_than_on_every_line() {
    let mut ctx = LineCtx::default();
    let line = assistant_line("req_1", "msg_1", 100);

    let first = parse_line(&mut ctx, line.as_bytes());
    let second = parse_line(&mut ctx, line.as_bytes());

    let count = |o: &ParseOutcome| match o {
        ParseOutcome::Signals(s) => s
            .iter()
            .filter(|x| matches!(x, Signal::SessionOpened { .. }))
            .count(),
        _ => 0,
    };
    assert_eq!(count(&first), 1);
    assert_eq!(count(&second), 0);
}

#[test]
fn the_time_of_a_line_is_its_own_or_now() {
    let mut ctx = LineCtx::default();
    let line = decode(assistant_line("req_1", "msg_1", 1).as_bytes());
    let now = Timestamp::from_timestamp(1_000_000_000, 0).unwrap();
    let own = claude_code::parse_line_at(&mut ctx, &line, now);
    assert_eq!(
        to_sql_time(usage_signals(&own)[0].occurred_at),
        "2026-08-12T19:10:15.774Z"
    );
    let undated = line.map(|l| Line {
        timestamp: Some("yesterday".to_owned()),
        ..l
    });
    let fallback = claude_code::parse_line_at(&mut ctx, &undated, now);
    assert_eq!(usage_signals(&fallback)[0].occurred_at, now);
}

#[test]
fn a_key_is_made_of_what_is_there() {
    let key = |request: Option<&str>, message: Option<&str>| {
        let mut line = decode(assistant_line("r", "m", 1).as_bytes()).unwrap();
        line.request_id = request.map(str::to_owned);
        if let Some(m) = &mut line.message {
            m.id = message.map(str::to_owned);
        }
        let mut ctx = LineCtx::default();
        let o = claude_code::parse_line(&mut ctx, &Ok(line));
        usage_signals(&o).first().map(|u| u.dedup_key.clone())
    };
    assert_eq!(key(Some("req_1"), Some("msg_1")).as_deref(), Some("req_1:msg_1"));
    assert_eq!(key(Some("req_1"), None).as_deref(), Some("req_1"));
    assert_eq!(key(None, Some("msg_1")).as_deref(), Some("msg_1"));
    assert_eq!(key(None, None), None);
}

#[test]
fn usage_without_an_identity_is_an_anomaly() {
    let mut line = decode(assistant_line("r", "m", 1).as_bytes()).unwrap();
    line.request_id = None;
    if let Some(m) = &mut line.message {
        m.id = None;
    }
    let mut ctx = LineCtx::default();
    let ParseOutcome::Signals(signals) = claude_code::parse_line(&mut ctx, &Ok(line)) else {
        panic!("expected signals")
    };
    assert!(
        signals
            .iter()
            .any(|s| matches!(s, Signal::Anomaly { kind, .. } if kind == "no_dedup_key"))
    );
    assert_eq!(ctx.event_ordinal, 0);
}

#[test]
fn a_contradictory_row_is_kept_and_flagged() {
    let mut line = decode(assistant_line("r", "m", 1).as_bytes()).unwrap();
    if let Some(m) = &mut line.message {
        if let Some(u) = &mut m.usage {
            u.cache_creation_input_tokens = Some(5);
        }
    }
    let mut ctx = LineCtx::default();
    let o = claude_code::parse_line(&mut ctx, &Ok(line));
    assert_eq!(usage_signals(&o)[0].usage.cache_write_1h(), 23_610);
    let ParseOutcome::Signals(signals) = &o else {
        panic!("expected signals")
    };
    assert!(signals.iter().any(
        |s| matches!(s, Signal::Anomaly { kind, .. } if kind == "provider_self_inconsistent")
    ));
}

#[test]
fn a_line_without_a_session_is_ignored() {
    assert!(matches!(
        parse(r#"{"type":"assistant","timestamp":"2026-08-12T19:10:15.774Z"}"#).1,
        ParseOutcome::Ignored
    ));
}

#[test]
fn the_audit_trail_is_the_usage_object_field_by_field() {
    let (_, outcome) = parse(&assistant_line("req_1", "msg_1", 100));
    let raw = usage_signals(&outcome)[0].raw_json.clone().unwrap();
    assert_eq!(
        raw,
        concat_lines(&[
            r#"{"input_tokens":2,"output_tokens":100,"cache_creation_input_tokens":23610,"#,
            r#""cache_read_input_tokens":30885,"cache_creation":{"ephemeral_5m_input_tokens":0,"#,
            r#""ephemeral_1h_input_tokens":23610},"server_tool_use":{"web_search_requests":0,"#,
            r#""web_fetch_requests":0},"service_tier":"standard","speed":null,"#,
            r#""inference_geo":"not_available","iterations":[{"input_tokens":2,"#,
            r#""output_tokens":100,"cache_read_input_tokens":30885,"#,
            r#""cache_creation_input_tokens":23610}]}"#,
        ])
    );
}

fn concat_lines(parts: &[&str]) -> String {
    parts.concat()
}

#[test]
fn a_text_in_the_audit_trail_is_quoted() {
    let u = AnthropicUsage {
        service_tier: Some("a \"b\"\n".to_owned()),
        ..Default::default()
    };
    let v: Value = serde_json::from_str(&u.to_json()).unwrap();
    assert_eq!(v["service_tier"], "a \"b\"\n");
    assert_eq!(v["iterations"], Value::Null);
    assert_eq!(v["cache_creation"], Value::Null);
}

fn identities(ctx: &mut LineCtx, lines: &[String]) -> Vec<(String, String, u64)> {
    lines
        .iter()
        .flat_map(|l| {
            let outcome = parse_line(ctx, l.as_bytes());
            usage_signals(&outcome)
                .into_iter()
                .map(|u| (u.session_id.clone(), u.dedup_key.clone(), u.usage.output_total()))
                .collect::<Vec<_>>()
        })
        .collect()
}

#[test]
fn a_transcript_read_in_passes_and_again_is_the_same_requests() {
    let lines = vec![
        assistant_line("req_1", "msg_1", 1),
        assistant_line("req_1", "msg_1", 378),
        assistant_line("req_2", "msg_2", 50),
    ];
    let once = identities(&mut LineCtx::default(), &lines);
    assert_eq!(once.len(), 3);
    assert_eq!(once[0].1, once[1].1);
    for cut in 0..=3 {
        let mut told = identities(&mut LineCtx::default(), &lines[..cut]);
        let mut lost = LineCtx {
            event_ordinal: 41,
            ..LineCtx::default()
        };
        told.extend(identities(&mut lost, &lines[cut..]));
        assert_eq!(told, once, "cut after {cut} lines");
    }
}
