use aum::adapters::{LineCtx, ParseOutcome};
use aum::claude_code::{self, ClaudeCodeAdapter};
use aum::codex::{self, CodexAdapter};
use aum::dto::{AdapterDescriptor, AdapterState, CapabilityState};
use aum::native::{AnthropicCacheCreation, AnthropicUsage, OpenAiUsage};
use aum::probe::{
    capabilities, describe_claude_desktop, describe_file_adapter, files_to_sample,
    sample_context, sample_lines, tail_start, Observed, Observed2, SAMPLE_BYTES, SAMPLE_FILES,
};
use serde_json::Value;

fn state<'a>(d: &'a AdapterDescriptor, name: &str) -> &'a CapabilityState {
    &d.capabilities
        .iter()
        .find(|(k, _)| k == name)
        .unwrap_or_else(|| panic!("no capability {name}"))
        .1
}

fn text(v: &Value, key: &str) -> Option<String> {
    v.get(key).and_then(Value::as_str).map(str::to_owned)
}

fn count(v: &Value, key: &str) -> Option<u64> {
    v.get(key).and_then(Value::as_u64)
}

fn anthropic(ctx: &mut LineCtx, line: &[u8]) -> ParseOutcome {
    let v: Value = serde_json::from_slice(line).unwrap();
    let m = &v["message"];
    let u = &m["usage"];
    let c = &u["cache_creation"];
    let decoded = claude_code::Line {
        kind: text(&v, "type"),
        session_id: text(&v, "sessionId"),
        timestamp: text(&v, "timestamp"),
        request_id: text(&v, "requestId"),
        message: Some(claude_code::Message {
            id: text(m, "id"),
            model: text(m, "model"),
            usage: Some(AnthropicUsage {
                input_tokens: count(u, "input_tokens"),
                output_tokens: count(u, "output_tokens"),
                cache_creation_input_tokens: count(u, "cache_creation_input_tokens"),
                cache_read_input_tokens: count(u, "cache_read_input_tokens"),
                cache_creation: Some(AnthropicCacheCreation {
                    ephemeral_5m_input_tokens: count(c, "ephemeral_5m_input_tokens"),
                    ephemeral_1h_input_tokens: count(c, "ephemeral_1h_input_tokens"),
                }),
                ..Default::default()
            }),
        }),
        ..Default::default()
    };
    claude_code::parse_line(ctx, &Ok(decoded))
}

fn openai(v: &Value) -> Option<OpenAiUsage> {
    if !v.is_object() {
        return None;
    }
    Some(OpenAiUsage {
        input_tokens: count(v, "input_tokens"),
        cached_input_tokens: count(v, "cached_input_tokens"),
        cache_write_input_tokens: count(v, "cache_write_input_tokens"),
        output_tokens: count(v, "output_tokens"),
        reasoning_output_tokens: count(v, "reasoning_output_tokens"),
        total_tokens: count(v, "total_tokens"),
    })
}

fn rollout(ctx: &mut LineCtx, line: &[u8]) -> ParseOutcome {
    let v: Value = serde_json::from_slice(line).unwrap();
    let p = &v["payload"];
    let decoded = codex::Line {
        timestamp: text(&v, "timestamp"),
        kind: text(&v, "type"),
        payload: Some(codex::Payload {
            kind: text(p, "type"),
            id: text(p, "id"),
            cwd: text(p, "cwd"),
            cli_version: text(p, "cli_version"),
            model: text(p, "model"),
            info: p.get("info").map(|i| codex::TokenInfo {
                total_token_usage: openai(&i["total_token_usage"]),
                last_token_usage: openai(&i["last_token_usage"]),
            }),
        }),
    };
    codex::parse_line(ctx, &Ok(decoded))
}

fn probe_claude_code(file: Option<String>) -> Observed2 {
    let mut observed = Observed::default();
    let files_sampled = usize::from(file.is_some());
    if let Some(contents) = file {
        let mut ctx = sample_context();
        for line in sample_lines(contents.as_bytes(), &ClaudeCodeAdapter) {
            let outcome = anthropic(&mut ctx, &line);
            observed.record(&outcome);
        }
    }
    Observed2 {
        observed,
        files_sampled,
    }
}

fn probe_codex(contents: String) -> Observed2 {
    let mut observed = Observed::default();
    let mut ctx = sample_context();
    for line in sample_lines(contents.as_bytes(), &CodexAdapter) {
        let outcome = rollout(&mut ctx, &line);
        observed.record(&outcome);
    }
    Observed2 {
        observed,
        files_sampled: 1,
    }
}

fn claude_line(output: u64, cache_1h: u64) -> String {
    format!(
        r#"{{"type":"assistant","sessionId":"s1","timestamp":"2026-08-12T19:10:15.774Z",
          "requestId":"req_{output}","message":{{"id":"msg_{output}","model":"claude_opus_5",
          "usage":{{"input_tokens":2,"output_tokens":{output},
            "cache_creation_input_tokens":{cache_1h},"cache_read_input_tokens":30885,
            "cache_creation":{{"ephemeral_5m_input_tokens":0,
              "ephemeral_1h_input_tokens":{cache_1h}}}}}}}}}"#
    )
    .replace('\n', "")
}

#[test]
fn an_uninstalled_application_claims_nothing() {
    let result = probe_claude_code(None);
    let d = describe_file_adapter("claude_code", "The agent", &result, None, false);

    assert_eq!(d.state, AdapterState::NotInstalled);
    for (_, capability) in &d.capabilities {
        assert!(
            matches!(capability, CapabilityState::Unknown { .. }),
            "an absent application must claim nothing, not deny everything"
        );
    }
}

#[test]
fn installed_but_unused_is_unknown_rather_than_unsupported() {
    let result = probe_claude_code(None);
    let d = describe_file_adapter("claude_code", "The agent", &result, None, true);

    assert_eq!(d.state, AdapterState::Detected);
    assert!(matches!(
        state(&d, "exact_token_counts"),
        CapabilityState::Unknown { .. }
    ));
}

#[test]
fn claude_code_capabilities_come_from_the_data_it_wrote() {
    let lines: Vec<String> = (1..=4).map(|i| claude_line(i * 100, 23_610)).collect();
    let result = probe_claude_code(Some(format!("{{}}\n{}\n", lines.join("\n"))));
    let d = describe_file_adapter("claude_code", "The agent", &result, None, true);

    assert_eq!(d.state, AdapterState::Ready);
    assert!(matches!(
        state(&d, "exact_token_counts"),
        CapabilityState::Supported { .. }
    ));

    let CapabilityState::Supported { evidence } = state(&d, "cache_ttl_breakdown") else {
        panic!("expected the TTL breakdown to be supported")
    };
    assert!(
        evidence.contains("23610"),
        "evidence should quote it: {evidence}"
    );
}

#[test]
fn claude_code_reasoning_is_unsupported_on_the_evidence_of_its_absence() {
    let result = probe_claude_code(Some(format!(
        "{{}}\n{}\n",
        (1..=4)
            .map(|i| claude_line(i * 100, 0))
            .collect::<Vec<_>>()
            .join("\n")
    )));
    let d = describe_file_adapter("claude_code", "The agent", &result, None, true);

    let CapabilityState::Unsupported { reason } = state(&d, "reasoning_tokens") else {
        panic!(
            "expected reasoning to be unsupported, got {:?}",
            state(&d, "reasoning_tokens")
        )
    };
    assert!(reason.contains("none carried"), "{reason}");
}

#[test]
fn codex_reasoning_is_supported_with_the_value_that_proved_it() {
    let lines = [
        r#"{"type":"session_meta","payload":{"id":"s1","cwd":"/x"}}"#.to_owned(),
        r#"{"type":"turn_context","payload":{"model":"gpt-5.5"}}"#.to_owned(),
        r#"{"type":"event_msg","payload":{"type":"token_count","info":{
           "total_token_usage":{"input_tokens":18517,"cached_input_tokens":12160,
             "output_tokens":328,"reasoning_output_tokens":106,"total_tokens":18845},
           "last_token_usage":{"input_tokens":18517,"cached_input_tokens":12160,
             "output_tokens":328,"reasoning_output_tokens":106,"total_tokens":18845}}}}"#
            .replace('\n', ""),
    ];
    let result = probe_codex(format!("{{}}\n{}\n", lines.join("\n")));
    let d = describe_file_adapter("codex", "Codex", &result, None, true);

    let CapabilityState::Supported { evidence } = state(&d, "reasoning_tokens") else {
        panic!("Codex does report reasoning tokens")
    };
    assert!(evidence.contains("106"), "{evidence}");
}

#[test]
fn latency_is_unsupported_and_explains_why_the_obvious_substitute_is_not_one() {
    let result = probe_claude_code(Some(format!("{{}}\n{}\n", claude_line(100, 0))));
    let d = describe_file_adapter("claude_code", "The agent", &result, None, true);

    let CapabilityState::Unsupported { reason } = state(&d, "per_request_latency") else {
        panic!("transcripts carry no latency")
    };
    assert!(reason.contains("retry backoff"), "{reason}");
}

#[test]
fn codex_launch_is_degraded_rather_than_claimed_or_denied() {
    let result = probe_codex(
        "{}\n".to_owned()
            + r#"{"type":"session_meta","payload":{"id":"s1"}}"#
            + "\n"
            + r#"{"type":"event_msg","payload":{"type":"token_count","info":{
               "total_token_usage":{"input_tokens":10,"output_tokens":5,"total_tokens":15},
               "last_token_usage":{"input_tokens":10,"output_tokens":5,"total_tokens":15}}}}"#
                .replace('\n', "")
                .as_str()
            + "\n",
    );
    let d = describe_file_adapter("codex", "Codex", &result, None, true);

    assert!(matches!(
        state(&d, "launch_with_pinned_session"),
        CapabilityState::Degraded { .. }
    ));
}

#[test]
fn claude_desktop_says_what_it_cannot_do_and_why() {
    let d = describe_claude_desktop(true);
    assert_eq!(d.state, AdapterState::Detected);

    for (name, capability) in &d.capabilities {
        assert!(
            matches!(capability, CapabilityState::Unsupported { .. }),
            "{name} should be unsupported for {}",
            d.display_name
        );
    }
    assert!(
        d.notes.iter().any(|n| n.contains("plan-limit percentages")),
        "the reason must be stated, not just the verdict"
    );
    assert!(
        d.notes
            .iter()
            .any(|n| n.to_lowercase().replace(' ', "_").contains("claude_code")),
        "and it should say what to use instead"
    );
}

#[test]
fn every_capability_is_reported_for_every_adapter() {
    let d = describe_claude_desktop(true);
    for name in capabilities() {
        assert!(
            d.capabilities.iter().any(|(k, _)| k == name),
            "{name} is missing from the matrix"
        );
    }
    assert_eq!(capabilities().len(), 12);
    assert_eq!(d.capabilities.len(), 12);
    assert_eq!(
        capabilities(),
        vec![
            "exact_token_counts",
            "cache_read_tokens",
            "cache_write_tokens",
            "cache_ttl_breakdown",
            "reasoning_tokens",
            "model_identity",
            "per_request_latency",
            "provider_reported_cost",
            "actual_billed_cost",
            "sub_agent_attribution",
            "launch_with_pinned_session",
            "failure_visibility",
        ]
    );
    let mut sorted = capabilities();
    sorted.sort_unstable();
    let reported: Vec<&str> = d.capabilities.iter().map(|(k, _)| k.as_str()).collect();
    assert_eq!(reported, sorted);
}

#[test]
fn the_first_line_of_a_sample_is_a_fragment() {
    let lines = sample_lines(b"\"usage\" cut\n\"usage\" one\n\nplain\n\"usage\" two", &ClaudeCodeAdapter);
    assert_eq!(lines, vec![b"\"usage\" one".to_vec(), b"\"usage\" two".to_vec()]);
}

#[test]
fn the_newest_files_are_sampled_from_their_ends() {
    let files: Vec<(String, i128)> = (0..9).map(|n| (format!("f{n}"), n)).collect();
    let sampled = files_to_sample(files);
    assert_eq!(sampled.len(), SAMPLE_FILES);
    assert_eq!(sampled, vec!["f8", "f7", "f6", "f5", "f4"]);
    assert!(files_to_sample(Vec::new()).is_empty());
    assert_eq!(tail_start(SAMPLE_BYTES), 0);
    assert_eq!(tail_start(SAMPLE_BYTES + 7), 7);
    assert_eq!(sample_context().current_session.as_deref(), Some("probe"));
}

#[test]
fn zero_is_not_evidence_and_a_broken_line_is_only_counted() {
    let mut o = Observed::default();
    o.record(&ParseOutcome::Malformed {
        reason: "no".to_owned(),
    });
    assert_eq!(o.lines, 1);
    assert_eq!(o.usage_rows, 0);
    let mut ctx = sample_context();
    o.record(&anthropic(&mut ctx, claude_line(5, 0).as_bytes()));
    assert_eq!(o.usage_rows, 1);
    assert_eq!(o.cache_write, None);
    assert_eq!(o.cache_read, Some(30_885));
    assert_eq!(o.reasoning_absent, 1);
    assert_eq!(o.model.as_deref(), Some("claude_opus_5"));
}
