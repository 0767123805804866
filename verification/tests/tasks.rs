use aum::adapters::{Signal, UsageSignal};
use aum::ids::Uuid;
use aum::launch::{LaunchError, CODEX_BUNDLED_PATH};
use aum::tasks::{
    agent_missing, exit_status, plan, Agent, CodexStream, StreamAction, TaskError, TaskSpec,
};
use aum::time::Timestamp;
use aum::token_usage::TokenUsage;

#[test]
fn agents_map_to_their_adapter_ids() {
    assert_eq!(Agent::parse("claude_code"), Some(Agent::ClaudeCode));
    assert_eq!(Agent::parse("codex"), Some(Agent::Codex));
    assert_eq!(Agent::parse("cursor"), None);
    assert_eq!(Agent::ClaudeCode.adapter_id(), "claude_code");
}

#[test]
fn an_agent_is_called_what_its_id_says() {
    assert_eq!(Agent::Codex.executable(), "codex");
    assert_eq!(format!("{}_code", Agent::ClaudeCode.executable()), "claude_code");
    assert_eq!(Agent::Codex.subscription_plan(), "Codex subscription");
    assert!(Agent::ClaudeCode.subscription_plan().ends_with("e subscription"));
}

#[test]
fn launching_a_missing_agent_explains_where_to_find_it() {
    match agent_missing(Agent::Codex) {
        TaskError::AgentMissing { agent, hint } => {
            assert_eq!(agent, "codex");
            assert!(
                hint.contains("ChatGPT") && hint.contains(CODEX_BUNDLED_PATH),
                "hint should name the real place: {hint}"
            );
        }
        other => panic!("expected AgentMissing, got {other:?}"),
    }
    let m = agent_missing(Agent::ClaudeCode).message();
    assert!(m.contains(" was not found on this machine. Install C"), "{m}");
    assert!(m.ends_with(", or set its path in Settings."), "{m}");
}

fn spec(agent: Agent) -> TaskSpec {
    TaskSpec {
        name: "auth refactor".into(),
        agent,
        working_dir: "/work".into(),
        prompt: "refactor authentication".into(),
        benchmark_id: None,
        env: vec![("KEY".to_owned(), "hidden".to_owned())],
    }
}

const TASK: Uuid = Uuid { bits: 1 };
const SESSION: Uuid = Uuid { bits: 2 };

#[test]
fn a_claude_task_is_bound_before_the_process_starts() {
    let p = plan(spec(Agent::ClaudeCode), "/bin/agent".to_owned(), TASK, SESSION);
    let b = p.binding.expect("the session must be bound at launch");
    assert_eq!(b.method, "launched_pinned");
    assert_eq!(b.task_id, TASK.text());
    assert_eq!(b.session_id, SESSION.text());
    assert_eq!(
        b.evidence,
        format!(
            r#"{{"session_id":"{}","pinned_before_launch":true}}"#,
            SESSION.text()
        )
    );
    assert_eq!(p.launch.args[1], b.session_id);
    assert_eq!(p.adapter_id, "claude_code");
}

#[test]
fn a_codex_task_is_bound_by_what_it_says() {
    let p = plan(spec(Agent::Codex), "/bin/codex".to_owned(), TASK, SESSION);
    assert!(p.binding.is_none());
    assert!(p.launch.reads_stdout);
    assert_eq!(p.launch.working_dir, "/work");
}

#[test]
fn the_environment_is_handed_on_and_never_stored() {
    let p = plan(spec(Agent::Codex), "/bin/codex".to_owned(), TASK, SESSION);
    assert_eq!(p.command, "/bin/codex refactor authentication");
    assert!(!p.command.contains("hidden"));
    assert_eq!(p.launch.env, vec![("KEY".to_owned(), "hidden".to_owned())]);
}

fn opened(session: &str) -> Signal {
    Signal::SessionOpened {
        session_id: session.to_owned(),
        cwd: None,
        app_version: None,
    }
}

#[test]
fn a_run_is_bound_to_the_first_session_that_is_accepted() {
    let mut s = CodexStream::new(TASK);
    let StreamAction::Bind(first) = s.decide(opened("x1"), &None) else {
        panic!("expected a binding")
    };
    assert_eq!(first.session_id, "x1");
    assert_eq!(first.method, "launched_stdout");
    assert_eq!(first.adapter_id, "codex");
    assert_eq!(
        first.evidence,
        r#"{"session_id":"x1","read_from_own_child":true}"#
    );
    s.bound(false);
    assert!(matches!(s.decide(opened("x2"), &None), StreamAction::Bind(_)));
    s.bound(true);
    assert_eq!(s.decide(opened("x3"), &None), StreamAction::Nothing);
    s.bound(false);
    assert_eq!(s.decide(opened("x3"), &None), StreamAction::Nothing);
}

#[test]
fn usage_and_anomalies_on_the_stream_are_kept() {
    let s = CodexStream::new(TASK);
    let u = UsageSignal {
        session_id: "x1".to_owned(),
        dedup_key: "k".to_owned(),
        model_id: None,
        occurred_at: Timestamp::from_timestamp(0, 0).unwrap(),
        usage: TokenUsage::unclassified_only(5),
        measurement_source: "provider_cumulative_delta",
        request_kind: "turn",
        is_sidechain: true,
        agent_id: Some("a".to_owned()),
        agent_type: Some("b".to_owned()),
        raw_json: None,
    };
    let StreamAction::Record(r) = s.decide(Signal::Usage(Box::new(u)), &None) else {
        panic!("expected a record")
    };
    assert_eq!(r.adapter_id, "codex");
    assert!(!r.is_sidechain);
    assert_eq!((r.agent_id, r.agent_type), (None, None));
    assert_eq!(r.usage.unclassified(), 5);
    let anomaly = Signal::Anomaly {
        kind: "k".to_owned(),
        detail: "d".to_owned(),
    };
    assert_eq!(
        s.decide(anomaly, &Some("x1".to_owned())),
        StreamAction::Report {
            session_id: Some("x1".to_owned()),
            kind: "k".to_owned(),
            detail: "d".to_owned()
        }
    );
    let model = Signal::ModelDeclared {
        session_id: "x1".to_owned(),
        model_id: "m".to_owned(),
    };
    assert_eq!(s.decide(model, &None), StreamAction::Nothing);
}

#[test]
fn how_a_task_ended_is_its_status() {
    assert_eq!(exit_status(Some(0)), "completed");
    assert_eq!(exit_status(Some(1)), "failed");
    assert_eq!(exit_status(None), "failed");
}

#[test]
fn each_failure_is_described() {
    assert_eq!(
        TaskError::NoSuchTask(Uuid::nil()).message(),
        "no task with id 00000000-0000-0000-0000-000000000000"
    );
    assert_eq!(TaskError::Db("locked".to_owned()).message(), "database error: locked");
    assert_eq!(
        TaskError::Launch(LaunchError::NoPid).message(),
        "the process started but reported no PID"
    );
}
