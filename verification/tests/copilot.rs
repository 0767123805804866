use aum::adapters::{LineCtx, ParseOutcome, Signal, UsageAdapter, UsageSignal};
use aum::copilot::{
    self, AttrValue, Attribute, CopilotAdapter, Envelope, ResourceSpans, Scalar, ScopeSpans, Span,
};
use aum::time::to_sql_time;
use serde_json::Value;

const ATTR_INPUT: &str = "gen_ai.usage.input_tokens";
const ATTR_OUTPUT: &str = "gen_ai.usage.output_tokens";
const ATTR_CACHE_READ: &str = "gen_ai.usage.cache_read.input_tokens";
const ATTR_REASONING: &str = "gen_ai.usage.reasoning.output_tokens";
const ATTR_SESSION: &str = "gen_ai.conversation.id";
const ATTR_MODEL_RESPONSE: &str = "gen_ai.response.model";
const ATTR_MODEL_REQUEST: &str = "gen_ai.request.model";

fn text_at(v: &Value, key: &str) -> Option<String> {
    v.get(key).and_then(Value::as_str).map(str::to_owned)
}

fn scalar_at(v: &Value, key: &str) -> Option<Scalar> {
    match v.get(key) {
        Some(Value::String(s)) => Some(Scalar::Str(s.clone())),
        Some(Value::Number(n)) => Some(Scalar::Num {
            value: n.as_u64(),
            text: n.to_string(),
        }),
        _ => None,
    }
}

fn list<'a>(v: &'a Value, key: &str) -> &'a [Value] {
    v.get(key).and_then(Value::as_array).map_or(&[], Vec::as_slice)
}

fn attribute(v: &Value) -> Attribute {
    Attribute {
        key: text_at(v, "key").unwrap(),
        value: v.get("value").map(|x| AttrValue {
            int_value: scalar_at(x, "intValue"),
            string_value: text_at(x, "stringValue"),
            whole_double: x
                .get("doubleValue")
                .and_then(Value::as_f64)
                .filter(|d| d.is_finite() && *d >= 0.0 && d.fract() == 0.0)
                .map(|d| d as u64),
        }),
    }
}

fn span(v: &Value) -> Span {
    Span {
        name: text_at(v, "name"),
        attributes: list(v, "attributes").iter().map(attribute).collect(),
        span_id: text_at(v, "spanId"),
        trace_id: text_at(v, "traceId"),
        end_time: scalar_at(v, "endTimeUnixNano"),
        start_time: scalar_at(v, "startTimeUnixNano"),
    }
}

fn decode(bytes: &[u8]) -> Result<Envelope, String> {
    let v: Value = serde_json::from_slice(bytes).map_err(|e| e.to_string())?;
    Ok(Envelope {
        resource_spans: list(&v, "resourceSpans")
            .iter()
            .map(|r| ResourceSpans {
                scope_spans: list(r, "scopeSpans")
                    .iter()
                    .map(|s| ScopeSpans {
                        spans: list(s, "spans").iter().map(span).collect(),
                    })
                    .collect(),
            })
            .collect(),
        bare: span(&v),
    })
}

fn parse_line(ctx: &mut LineCtx, line: &[u8]) -> ParseOutcome {
    copilot::parse_line(ctx, &decode(line))
}

fn envelope(spans: &str) -> Vec<u8> {
    format!(r#"{{"resourceSpans":[{{"scopeSpans":[{{"spans":[{spans}]}}]}}]}}"#).into_bytes()
}

fn attr_int(key: &str, v: u64) -> String {
    format!(r#"{{"key":"{key}","value":{{"intValue":"{v}"}}}}"#)
}

fn attr_str(key: &str, v: &str) -> String {
    format!(r#"{{"key":"{key}","value":{{"stringValue":"{v}"}}}}"#)
}

fn chat_span(input: u64, output: u64, extra: &[String]) -> String {
    let mut attrs = vec![
        attr_int(ATTR_INPUT, input),
        attr_int(ATTR_OUTPUT, output),
        attr_str(ATTR_SESSION, "conv-1"),
        attr_str(ATTR_MODEL_RESPONSE, "gpt-5.5"),
    ];
    attrs.extend_from_slice(extra);
    format!(
        r#"{{"name":"chat","spanId":"aa01","traceId":"tt01",
           "endTimeUnixNano":"1786000000000000000","attributes":[{}]}}"#,
        attrs.join(",")
    )
}

fn parse(line: &[u8]) -> Vec<Signal> {
    let mut ctx = LineCtx::default();
    match parse_line(&mut ctx, line) {
        ParseOutcome::Signals(s) => s,
        other => panic!("expected signals, got {other:?}"),
    }
}

fn usage_of(signals: &[Signal]) -> Vec<&UsageSignal> {
    signals
        .iter()
        .filter_map(|s| match s {
            Signal::Usage(u) => Some(u.as_ref()),
            _ => None,
        })
        .collect()
}

#[test]
fn a_chat_span_becomes_one_measured_request() {
    let signals = parse(&envelope(&chat_span(1000, 200, &[])));
    let usage = usage_of(&signals);
    assert_eq!(usage.len(), 1);
    assert_eq!(usage[0].usage.input_fresh(), 1000);
    assert_eq!(usage[0].usage.output_total(), 200);
    assert_eq!(usage[0].model_id.as_deref(), Some("gpt-5.5"));
    assert_eq!(usage[0].session_id, "conv-1");
    assert_eq!(usage[0].dedup_key, "aa01");
}

#[test]
fn the_session_rollup_span_is_never_counted() {
    let rollup = format!(
        r#"{{"name":"invoke_agent","spanId":"bb01","attributes":[{},{}]}}"#,
        attr_int(ATTR_INPUT, 1000),
        attr_int(ATTR_OUTPUT, 200)
    );
    let line = envelope(&format!("{},{rollup}", chat_span(1000, 200, &[])));

    let usage = usage_of(&parse(&line)).len();
    assert_eq!(usage, 1, "the rollup span must not be counted");

    let mut ctx = LineCtx::default();
    assert!(matches!(
        parse_line(&mut ctx, &envelope(&rollup)),
        ParseOutcome::Ignored
    ));
}

#[test]
fn a_cache_read_is_taken_out_of_the_input_it_is_part_of() {
    let signals = parse(&envelope(&chat_span(
        1000,
        200,
        &[attr_int(ATTR_CACHE_READ, 900)],
    )));
    let u = usage_of(&signals);
    assert_eq!(u[0].usage.input_fresh(), 100);
    assert_eq!(u[0].usage.cache_read(), 900);
    assert_eq!(u[0].usage.input_side_total(), 1000);
}

#[test]
fn a_cache_read_larger_than_the_input_is_refused_rather_than_wrapped() {
    let signals = parse(&envelope(&chat_span(
        100,
        10,
        &[attr_int(ATTR_CACHE_READ, 900)],
    )));
    assert!(usage_of(&signals).is_empty());
    assert!(signals.iter().any(|s| matches!(
        s,
        Signal::Anomaly { kind, .. } if kind == "copilot_cache_exceeds_input"
    )));
}

#[test]
fn reasoning_that_is_absent_stays_unreported_rather_than_becoming_zero() {
    let without = parse(&envelope(&chat_span(10, 10, &[])));
    assert_eq!(usage_of(&without)[0].usage.reasoning(), None);

    let with = parse(&envelope(&chat_span(
        10,
        10,
        &[attr_int(ATTR_REASONING, 4)],
    )));
    assert_eq!(usage_of(&with)[0].usage.reasoning(), Some(4));
}

#[test]
fn reasoning_larger_than_output_is_refused() {
    let signals = parse(&envelope(&chat_span(10, 5, &[attr_int(ATTR_REASONING, 9)])));
    assert!(usage_of(&signals).is_empty());
    assert!(signals.iter().any(|s| matches!(
        s,
        Signal::Anomaly { kind, .. } if kind == "copilot_reasoning_exceeds_output"
    )));
}

#[test]
fn counts_are_read_whether_they_arrive_as_strings_or_numbers() {
    let numeric = r#"{"name":"chat","spanId":"cc01","attributes":[
        {"key":"gen_ai.usage.input_tokens","value":{"intValue":42}},
        {"key":"gen_ai.usage.output_tokens","value":{"intValue":7}}]}"#;
    let u = parse(&envelope(numeric));
    let u = usage_of(&u);
    assert_eq!(u[0].usage.input_fresh(), 42);
    assert_eq!(u[0].usage.output_total(), 7);
}

#[test]
fn the_answering_model_wins_over_the_requested_one() {
    let span = format!(
        r#"{{"name":"chat","spanId":"dd01","attributes":[{},{},{},{}]}}"#,
        attr_int(ATTR_INPUT, 10),
        attr_int(ATTR_OUTPUT, 10),
        attr_str(ATTR_MODEL_REQUEST, "asked-for"),
        attr_str(ATTR_MODEL_RESPONSE, "answered-by")
    );
    let signals = parse(&envelope(&span));
    assert_eq!(
        usage_of(&signals)[0].model_id.as_deref(),
        Some("answered-by")
    );
}

#[test]
fn a_span_with_no_measurement_is_ignored_rather_than_recorded_as_empty() {
    let span = r#"{"name":"chat","spanId":"ee01","attributes":[
        {"key":"gen_ai.conversation.id","value":{"stringValue":"c"}}]}"#;
    let mut ctx = LineCtx::default();
    assert!(matches!(
        parse_line(&mut ctx, &envelope(span)),
        ParseOutcome::Ignored
    ));
}

#[test]
fn the_audit_trail_holds_the_counts_and_not_the_conversation() {
    let span = format!(
        r#"{{"name":"chat","spanId":"ff01","attributes":[{},{},{}]}}"#,
        attr_int(ATTR_INPUT, 10),
        attr_int(ATTR_OUTPUT, 10),
        attr_str("gen_ai.prompt", "a secret the user typed")
    );
    let signals = parse(&envelope(&span));
    let raw = usage_of(&signals)[0].raw_json.clone().unwrap();
    assert!(!raw.contains("secret"), "{raw}");
    assert!(!raw.contains("gen_ai.prompt"), "{raw}");
    assert!(raw.contains("input_tokens"));
}

#[test]
fn a_session_and_its_model_are_announced_once() {
    let mut ctx = LineCtx::default();
    let first = parse_line(&mut ctx, &envelope(&chat_span(10, 10, &[])));
    let second = parse_line(&mut ctx, &envelope(&chat_span(20, 20, &[])));

    let count = |o: &ParseOutcome, f: fn(&Signal) -> bool| match o {
        ParseOutcome::Signals(s) => s.iter().filter(|x| f(x)).count(),
        _ => 0,
    };
    assert_eq!(
        count(&first, |s| matches!(s, Signal::SessionOpened { .. })),
        1
    );
    assert_eq!(
        count(&second, |s| matches!(s, Signal::SessionOpened { .. })),
        0
    );
    assert_eq!(
        count(&second, |s| matches!(s, Signal::ModelDeclared { .. })),
        0
    );
}

#[test]
fn the_span_id_is_the_identity_so_re_reading_a_file_is_free() {
    let mut a = LineCtx::default();
    let mut b = LineCtx::default();
    let line = envelope(&chat_span(10, 10, &[]));
    let first = parse_line(&mut a, &line);
    let again = parse_line(&mut b, &line);
    let key = |o: &ParseOutcome| match o {
        ParseOutcome::Signals(s) => s
            .iter()
            .find_map(|x| match x {
                Signal::Usage(u) => Some(u.dedup_key.clone()),
                _ => None,
            })
            .unwrap(),
        _ => panic!("no usage"),
    };
    assert_eq!(key(&first), key(&again));
}

#[test]
fn a_line_that_is_not_json_is_reported_rather_than_dropped() {
    let mut ctx = LineCtx::default();
    assert!(matches!(
        parse_line(&mut ctx, b"{not json"),
        ParseOutcome::Malformed { .. }
    ));
}

#[test]
fn the_prefilter_admits_a_real_export_line() {
    let adapter = CopilotAdapter;
    let line = envelope(&chat_span(1, 1, &[]));
    assert!(adapter.is_candidate_line(&line));
    assert!(!adapter.is_candidate_line(b"{\"type\":\"assistant\"}"));
}

#[test]
fn a_bare_span_is_read_like_one_in_an_envelope() {
    let line = chat_span(1000, 200, &[]).replace('\n', "");
    let signals = parse(line.as_bytes());
    let u = usage_of(&signals);
    assert_eq!(u.len(), 1);
    assert_eq!(u[0].usage.input_fresh(), 1000);
    assert_eq!(to_sql_time(u[0].occurred_at), "2026-08-06T07:06:40.000Z");
}

#[test]
fn a_count_that_arrives_as_a_whole_double_is_a_count() {
    let line = envelope(
        r#"{"name":"chat","spanId":"gg01","attributes":[
            {"key":"gen_ai.usage.input_tokens","value":{"doubleValue":42.0}},
            {"key":"gen_ai.usage.output_tokens","value":{"doubleValue":7.5}}]}"#,
    );
    let signals = parse(&line);
    let u = usage_of(&signals);
    assert_eq!(u[0].usage.input_fresh(), 42);
    assert_eq!(u[0].usage.output_total(), 0);
}

#[test]
fn a_span_without_an_id_is_numbered() {
    let mut ctx = LineCtx::default();
    let line = envelope(
        r#"{"name":"chat","attributes":[
            {"key":"gen_ai.usage.input_tokens","value":{"intValue":"42"}}]}"#,
    );
    let ParseOutcome::Signals(signals) = parse_line(&mut ctx, &line) else {
        panic!("expected signals")
    };
    assert_eq!(usage_of(&signals)[0].dedup_key, "copilot:1");
    assert_eq!(usage_of(&signals)[0].session_id, "unknown");
}

#[test]
fn the_audit_trail_of_a_call_is_its_counts() {
    let signals = parse(&envelope(&chat_span(1000, 200, &[])));
    assert_eq!(
        usage_of(&signals)[0].raw_json.as_deref(),
        Some(
            r#"{"gen_ai.response.model":"gpt-5.5","gen_ai.usage.cache_creation.input_tokens":null,"gen_ai.usage.cache_read.input_tokens":null,"gen_ai.usage.input_tokens":1000,"gen_ai.usage.output_tokens":200,"gen_ai.usage.reasoning.output_tokens":null}"#
        )
    );
}
