//! Starting, watching and ending monitored tasks.
//!
//! A task's session is known before it can be confused with another's: a
//! `claude_code` session has its identity pinned before the process exists, and
//! a Codex run announces its own on the output of a child of ours.
use vstd::prelude::*;
use vstd::string::StringExecFns;

use crate::adapters::{Signal, SignalView, UsageSignalView};
use crate::ids::{uuid_text, Uuid};
use crate::launch::{
    claude_args, codex_args, launch_error_text, LaunchError, LaunchSpec, CODEX_BUNDLED_PATH,
};
use crate::names::{first_word, first_word_of, title, title_of};
use crate::repo::UsageRecord;
use crate::text::{copy_opt, opt_text, str_eq, texts, Text};

verus! {

/// Which agent a task runs.
#[derive(Debug, Clone, Copy, PartialEq, Eq, Structural)]
pub enum Agent {
    ClaudeCode,
    Codex,
}

/// An agent's adapter.
pub open spec fn adapter_of(a: Agent) -> Text {
    match a {
        Agent::ClaudeCode => "claude_code"@,
        Agent::Codex => "codex"@,
    }
}

/// An agent's program.
pub open spec fn program_of(a: Agent) -> Text {
    match a {
        Agent::ClaudeCode => first_word("claude_code"@),
        Agent::Codex => "codex"@,
    }
}

impl Agent {
    pub fn adapter_id(self) -> (s: &'static str)
        ensures
            s@ == adapter_of(self),
    {
        match self {
            Agent::ClaudeCode => "claude_code",
            Agent::Codex => "codex",
        }
    }

    pub fn executable(self) -> (s: &'static str)
        ensures
            s@ == program_of(self),
    {
        match self {
            Agent::ClaudeCode => first_word_of("claude_code"),
            Agent::Codex => "codex",
        }
    }

    /// Neither agent bills per token, so what is actually charged is not
    /// knowable.
    pub fn subscription_plan(self) -> (s: String)
        ensures
            s@ == title(program_of(self)) + " subscription"@,
    {
        let mut s = title_of(self.executable());
        s.append(" subscription");
        s
    }

    /// The agent of an adapter.
    pub fn parse(id: &str) -> (r: Option<Agent>)
        ensures
            match r {
                Some(a) => adapter_of(a) == id@,
                None => id@ != "claude_code"@ && id@ != "codex"@,
            },
    {
        if str_eq(id, "claude_code") {
            Some(Agent::ClaudeCode)
        } else if str_eq(id, "codex") {
            Some(Agent::Codex)
        } else {
            None
        }
    }
}

/// An adapter stands for one agent only, so that [`Agent::parse`] undoes
/// [`Agent::adapter_id`].
pub proof fn law_adapters_tell_agents_apart(a: Agent, b: Agent)
    requires
        adapter_of(a) == adapter_of(b),
    ensures
        a == b,
{
    reveal_strlit("claude_code");
    reveal_strlit("codex");
    assert("claude_code"@.len() != "codex"@.len());
}

/// What to run.
#[derive(Debug, Clone, PartialEq, Eq)]
pub struct TaskSpec {
    pub name: String,
    pub agent: Agent,
    pub working_dir: String,
    /// What to ask the agent to do.
    pub prompt: String,
    pub benchmark_id: Option<Uuid>,
    /// Extra environment for the child. Never stored: it routinely holds keys.
    pub env: Vec<(String, String)>,
}

/// Why a task could not be started or stopped.
#[derive(Debug, Clone, PartialEq, Eq)]
pub enum TaskError {
    Launch(LaunchError),
    /// What the store said.
    Db(String),
    AgentMissing { agent: String, hint: String },
    NoSuchTask(Uuid),
}

/// What an error says.
pub open spec fn task_error_text(e: TaskError) -> Text {
    match e {
        TaskError::Launch(e) => launch_error_text(e),
        TaskError::Db(cause) => "database error: "@ + cause@,
        TaskError::AgentMissing { agent, hint } => agent@ + " was not found on this machine. "@
            + hint@,
        TaskError::NoSuchTask(id) => "no task with id "@ + uuid_text(id.bits),
    }
}

impl TaskError {
    /// What the error says.
    pub fn message(&self) -> (s: String)
        ensures
            s@ == task_error_text(*self),
    {
        match self {
            TaskError::Launch(e) => e.message(),
            TaskError::Db(cause) => {
                let mut s = "database error: ".to_owned();
                s.append(cause.as_str());
                s
            },
            TaskError::AgentMissing { agent, hint } => {
                let mut s = agent.clone();
                s.append(" was not found on this machine. ");
                s.append(hint.as_str());
                s
            },
            TaskError::NoSuchTask(id) => {
                let mut s = "no task with id ".to_owned();
                s.append(id.text().as_str());
                s
            },
        }
    }
}

/// Where to look for an agent that is missing.
pub open spec fn missing_hint(a: Agent) -> Text {
    match a {
        Agent::Codex => "It is usually not on PATH: it ships inside the ChatGPT desktop app, at "@
            + CODEX_BUNDLED_PATH@ + "."@,
        Agent::ClaudeCode => "Install "@ + title(adapter_of(a)) + ", or set its path in Settings."@,
    }
}

/// That an agent is not on this machine, and where to look for it.
pub fn agent_missing(agent: Agent) -> (e: TaskError)
    ensures
        match e {
            TaskError::AgentMissing { agent: name, hint } => name@ == program_of(agent) && hint@
                == missing_hint(agent),
            _ => false,
        },
{
    let hint: String = match agent {
        Agent::Codex => {
            let mut s =
                "It is usually not on PATH: it ships inside the ChatGPT desktop app, at ".to_owned();
            s.append(CODEX_BUNDLED_PATH);
            s.append(".");
            s
        },
        Agent::ClaudeCode => {
            let mut s = "Install ".to_owned();
            s.append(title_of(agent.adapter_id()).as_str());
            s.append(", or set its path in Settings.");
            s
        },
    };
    TaskError::AgentMissing { agent: agent.executable().to_owned(), hint }
}

/// That a session belongs to a task, and how that is known.
#[derive(Debug, Clone, PartialEq, Eq)]
pub struct Binding {
    pub session_id: String,
    pub task_id: String,
    pub adapter_id: &'static str,
    pub method: &'static str,
    pub evidence: String,
}

/// A binding as the contracts see it.
pub ghost struct BindingView {
    pub session_id: Text,
    pub task_id: Text,
    pub adapter_id: Text,
    pub method: Text,
    pub evidence: Text,
}

impl View for Binding {
    type V = BindingView;

    open spec fn view(&self) -> BindingView {
        BindingView {
            session_id: self.session_id@,
            task_id: self.task_id@,
            adapter_id: self.adapter_id@,
            method: self.method@,
            evidence: self.evidence@,
        }
    }
}

/// The binding of a session whose identity was chosen before its launch.
pub open spec fn pinned(session: Text, task: Text) -> BindingView {
    BindingView {
        session_id: session,
        task_id: task,
        adapter_id: "claude_code"@,
        method: "launched_pinned"@,
        evidence: "{\"session_id\":\""@ + session + "\",\"pinned_before_launch\":true}"@,
    }
}

/// The binding of a session that announced itself on its own output.
pub open spec fn announced(session: Text, task: Text) -> BindingView {
    BindingView {
        session_id: session,
        task_id: task,
        adapter_id: "codex"@,
        method: "launched_stdout"@,
        evidence: "{\"session_id\":\""@ + session + "\",\"read_from_own_child\":true}"@,
    }
}

/// A task to be started.
#[derive(Debug, Clone, PartialEq, Eq)]
pub struct LaunchPlan {
    pub adapter_id: &'static str,
    /// The command as it is stored: without the environment.
    pub command: String,
    /// Written before the process starts, so that its very first request is
    /// already attributed.
    pub binding: Option<Binding>,
    pub launch: LaunchSpec,
}

/// A command as it is stored.
pub open spec fn command_text(program: Text, prompt: Text) -> Text {
    program + " "@ + prompt
}

/// How to start a task: what is stored of it, what is bound beforehand, and
/// what is run.
pub fn plan(spec: TaskSpec, program: String, task_id: Uuid, session_id: Uuid) -> (p: LaunchPlan)
    ensures
        p.adapter_id@ == adapter_of(spec.agent),
        p.command@ == command_text(program@, spec.prompt@),
        match spec.agent {
            Agent::ClaudeCode => {
                &&& p.binding.is_some()
                &&& p.binding.unwrap()@ == pinned(
                    uuid_text(session_id.bits),
                    uuid_text(task_id.bits),
                )
                &&& texts(p.launch.args@) == claude_args(session_id, Some(spec.prompt@))
                &&& !p.launch.reads_stdout
            },
            Agent::Codex => {
                &&& p.binding.is_none()
                &&& texts(p.launch.args@) == codex_args(spec.working_dir@, spec.prompt@)
                &&& p.launch.reads_stdout
            },
        },
        p.launch.program == program,
        p.launch.working_dir == spec.working_dir,
        p.launch.env == spec.env,
        planned(spec, program, task_id, session_id, p),
{
    let adapter_id: &'static str = spec.agent.adapter_id();
    let mut command = program.clone();
    command.append(" ");
    command.append(spec.prompt.as_str());
    match spec.agent {
        Agent::ClaudeCode => {
            let session = session_id.text();
            let mut evidence = "{\"session_id\":\"".to_owned();
            evidence.append(session.as_str());
            evidence.append("\",\"pinned_before_launch\":true}");
            let binding = Binding {
                session_id: session,
                task_id: task_id.text(),
                adapter_id: "claude_code",
                method: "launched_pinned",
                evidence,
            };
            let mut launch = LaunchSpec::claude_code(
                program,
                session_id,
                spec.working_dir,
                Some(spec.prompt),
            );
            launch.env = spec.env;
            LaunchPlan { adapter_id, command, binding: Some(binding), launch }
        },
        Agent::Codex => {
            let mut launch = LaunchSpec::codex_exec(program, spec.working_dir, spec.prompt);
            launch.env = spec.env;
            LaunchPlan { adapter_id, command, binding: None, launch }
        },
    }
}

/// The status of a task whose agent has ended on its own.
pub fn exit_status(code: Option<i32>) -> (s: &'static str)
    ensures
        s@ == if code == Some(0i32) {
            "completed"@
        } else {
            "failed"@
        },
        s@ == ended_as(code),
{
    match code {
        Some(c) => {
            if c == 0 {
                "completed"
            } else {
                "failed"
            }
        },
        None => "failed",
    }
}

/// What to do about a signal on an agent's own output.
#[derive(Debug, Clone, PartialEq)]
pub enum StreamAction {
    /// Bind the session to the task. Whether that succeeded is told to
    /// [`CodexStream::bound`].
    Bind(Binding),
    Record(UsageRecord),
    Report { session_id: Option<String>, kind: String, detail: String },
    Nothing,
}

/// The reading of a launched Codex process's own output.
#[derive(Debug, Clone, PartialEq, Eq)]
pub struct CodexStream {
    pub task_id: Uuid,
    pub is_bound: bool,
}

/// A measurement that stands for one from an agent's own output: it has no
/// sub-agents.
pub open spec fn records_own(u: UsageSignalView, r: UsageRecord) -> bool {
    &&& r.adapter_id@ == "codex"@
    &&& r.session_id@ == u.session_id
    &&& r.dedup_key@ == u.dedup_key
    &&& opt_text(r.model_id) == u.model_id
    &&& r.occurred_at@ == u.occurred_at
    &&& r.measurement_source@ == u.measurement_source
    &&& r.request_kind@ == u.request_kind
    &&& r.usage@ == u.usage
    &&& !r.is_sidechain
    &&& r.agent_id.is_none()
    &&& r.agent_type.is_none()
    &&& opt_text(r.raw_json) == u.raw_json
}

/// What is to be done about a signal on an agent's own output: the first
/// session that it announces is bound, and usage and anomalies are kept.
pub open spec fn stream_decides(
    task: Uuid,
    is_bound: bool,
    s: SignalView,
    session: Option<Text>,
    a: StreamAction,
) -> bool {
    match s {
        SignalView::SessionOpened { session_id, .. } => if is_bound {
            a == StreamAction::Nothing
        } else {
            a matches StreamAction::Bind(b) && b@ == announced(session_id, uuid_text(task.bits))
        },
        SignalView::Usage(u) => a matches StreamAction::Record(r) && records_own(u, r),
        SignalView::Anomaly { kind, detail } => {
            &&& a matches StreamAction::Report { session_id: s1, kind: k1, detail: d1 }
            &&& opt_text(s1) == session
            &&& k1@ == kind
            &&& d1@ == detail
        },
        _ => a == StreamAction::Nothing,
    }
}

impl CodexStream {
    /// Before anything was read.
    pub fn new(task_id: Uuid) -> (s: Self)
        ensures
            s.task_id == task_id,
            !s.is_bound,
    {
        CodexStream { task_id, is_bound: false }
    }

    /// What is to be done about a signal; `session` is the one being read.
    pub fn decide(&self, signal: Signal, session: &Option<String>) -> (a: StreamAction)
        ensures
            stream_decides(self.task_id, self.is_bound, signal@, opt_text(*session), a),
    {
        match signal {
            Signal::SessionOpened { session_id, .. } => {
                if self.is_bound {
                    return StreamAction::Nothing;
                }
                let mut evidence = "{\"session_id\":\"".to_owned();
                evidence.append(session_id.as_str());
                evidence.append("\",\"read_from_own_child\":true}");
                StreamAction::Bind(
                    Binding {
                        session_id,
                        task_id: self.task_id.text(),
                        adapter_id: "codex",
                        method: "launched_stdout",
                        evidence,
                    },
                )
            },
            Signal::Usage(u) => {
                let u = *u;
                StreamAction::Record(
                    UsageRecord {
                        adapter_id: "codex".to_owned(),
                        session_id: u.session_id,
                        dedup_key: u.dedup_key,
                        model_id: u.model_id,
                        occurred_at: u.occurred_at,
                        measurement_source: u.measurement_source.to_owned(),
                        request_kind: u.request_kind.to_owned(),
                        usage: u.usage,
                        is_sidechain: false,
                        agent_id: None,
                        agent_type: None,
                        raw_json: u.raw_json,
                    },
                )
            },
            Signal::Anomaly { kind, detail } => StreamAction::Report {
                session_id: copy_opt(session),
                kind,
                detail,
            },
            _ => StreamAction::Nothing,
        }
    }

    /// A binding was tried. One that was refused may be tried again with the
    /// next session; after one that was accepted there is no other.
    pub fn bound(&mut self, accepted: bool)
        ensures
            final(self).task_id == old(self).task_id,
            final(self).is_bound == (old(self).is_bound || accepted),
    {
        if accepted {
            self.is_bound = true;
        }
    }
}

/// A launched run is bound to one session at most: once it is bound, no signal
/// has another bound.
pub proof fn law_bound_at_most_once(
    task: Uuid,
    s: SignalView,
    session: Option<Text>,
    a: StreamAction,
)
    requires
        stream_decides(task, true, s, session, a),
    ensures
        !(a is Bind),
{
}

/// What identifies a pinned session to the store is what its process is told to
/// use: the binding and the first argument after the flag agree.
pub proof fn law_pinned_session_is_the_launched_one(
    session: Uuid,
    task: Uuid,
    prompt: Option<Text>,
)
    ensures
        claude_args(session, prompt)[0] == "--session-id"@,
        claude_args(session, prompt)[1] == pinned(
            uuid_text(session.bits),
            uuid_text(task.bits),
        ).session_id,
{
}

/// A binding names the session and the task that belong together, the agent, and
/// how that is known.
pub proof fn law_a_binding_names_session_and_task(session: Text, task: Text)
    ensures
        pinned(session, task).session_id == session,
        pinned(session, task).task_id == task,
        pinned(session, task).adapter_id == "claude_code"@,
        pinned(session, task).method == "launched_pinned"@,
        announced(session, task).session_id == session,
        announced(session, task).task_id == task,
        announced(session, task).adapter_id == "codex"@,
        announced(session, task).method == "launched_stdout"@,
{
}

/// The first session that a launched run announces is bound to its task.
pub proof fn law_the_announced_session_is_bound(
    task: Uuid,
    s: SignalView,
    session: Option<Text>,
    a: StreamAction,
)
    requires
        stream_decides(task, false, s, session, a),
        s is SessionOpened,
    ensures
        a is Bind,
        a->Bind_0.session_id@ == s->SessionOpened_session_id,
        a->Bind_0.task_id@ == uuid_text(task.bits),
        a->Bind_0.adapter_id@ == "codex"@,
{
}

/// Usage on a run's own output is recorded as what it is, bound or not, and an
/// anomaly is reported; nothing else is recorded.
pub proof fn law_a_run_records_its_own_usage(
    task: Uuid,
    is_bound: bool,
    s: SignalView,
    session: Option<Text>,
    a: StreamAction,
)
    requires
        stream_decides(task, is_bound, s, session, a),
    ensures
        a is Record <==> s is Usage,
        a is Report <==> s is Anomaly,
        s is Usage ==> a->Record_0.adapter_id@ == "codex"@ && a->Record_0.session_id@
            == s->Usage_0.session_id && a->Record_0.dedup_key@ == s->Usage_0.dedup_key
            && a->Record_0.usage@ == s->Usage_0.usage && opt_text(a->Record_0.model_id)
            == s->Usage_0.model_id && a->Record_0.occurred_at@ == s->Usage_0.occurred_at
            && a->Record_0.measurement_source@ == s->Usage_0.measurement_source
            && a->Record_0.request_kind@ == s->Usage_0.request_kind && opt_text(
            a->Record_0.raw_json,
        ) == s->Usage_0.raw_json,
        s is Anomaly ==> a->Report_kind@ == s->Anomaly_kind && opt_text(a->Report_session_id)
            == session,
{
}

/// Each agent has its own adapter and its own program.
pub proof fn law_agents_have_their_own_programs()
    ensures
        adapter_of(Agent::ClaudeCode) == "claude_code"@,
        adapter_of(Agent::Codex) == "codex"@,
        program_of(Agent::Codex) == "codex"@,
        program_of(Agent::ClaudeCode) == first_word(adapter_of(Agent::ClaudeCode)),
{
}

/// A stored command is the program and what it was asked, with a space between.
pub proof fn law_a_stored_command_is_program_and_prompt(program: Text, prompt: Text)
    ensures
        command_text(program, prompt).len() == program.len() + 1 + prompt.len(),
        command_text(program, prompt).take(program.len() as int) == program,
        command_text(program, prompt).skip(program.len() as int + 1) == prompt,
{
    reveal_strlit(" ");
    assert(command_text(program, prompt).take(program.len() as int) =~= program);
    assert(command_text(program, prompt).skip(program.len() as int + 1) =~= prompt);
}

/// The status of a task whose agent has ended on its own.
pub open spec fn ended_as(code: Option<i32>) -> Text {
    if code == Some(0i32) {
        "completed"@
    } else {
        "failed"@
    }
}

/// A run is completed exactly where it ended with zero; any other code, and an
/// end without one, is a failure.
pub proof fn law_only_zero_is_success(code: i32)
    ensures
        ended_as(Some(0)) == "completed"@,
        code != 0 ==> ended_as(Some(code)) == "failed"@,
        ended_as(None) == "failed"@,
{
}

/// How a task is started.
pub open spec fn planned(
    spec: TaskSpec,
    program: String,
    task: Uuid,
    session: Uuid,
    p: LaunchPlan,
) -> bool {
    &&& p.adapter_id@ == adapter_of(spec.agent)
    &&& p.command@ == command_text(program@, spec.prompt@)
    &&& match spec.agent {
        Agent::ClaudeCode => {
            &&& p.binding.is_some()
            &&& p.binding.unwrap()@ == pinned(uuid_text(session.bits), uuid_text(task.bits))
            &&& texts(p.launch.args@) == claude_args(session, Some(spec.prompt@))
            &&& !p.launch.reads_stdout
        },
        Agent::Codex => {
            &&& p.binding.is_none()
            &&& texts(p.launch.args@) == codex_args(spec.working_dir@, spec.prompt@)
            &&& p.launch.reads_stdout
        },
    }
    &&& p.launch.program == program
    &&& p.launch.working_dir == spec.working_dir
    &&& p.launch.env == spec.env
}

/// A task runs its own program, where and with what it was asked to; a run whose
/// session can be chosen is bound to the task beforehand by that session, and one
/// whose session cannot is bound by what it writes.
pub proof fn law_a_task_is_run_as_asked(
    spec: TaskSpec,
    program: String,
    task: Uuid,
    session: Uuid,
    p: LaunchPlan,
)
    requires
        planned(spec, program, task, session, p),
    ensures
        p.launch.program == program,
        p.launch.working_dir == spec.working_dir,
        p.launch.env == spec.env,
        texts(p.launch.args@).last() == spec.prompt@,
        p.binding.is_some() <==> spec.agent == Agent::ClaudeCode,
        p.launch.reads_stdout <==> spec.agent == Agent::Codex,
        spec.agent == Agent::ClaudeCode ==> p.binding.unwrap().session_id@ == uuid_text(
            session.bits,
        ) && p.binding.unwrap().task_id@ == uuid_text(task.bits) && texts(p.launch.args@)[1]
            == p.binding.unwrap().session_id@ && p.adapter_id@ == "claude_code"@,
        spec.agent == Agent::Codex ==> texts(p.launch.args@)[3] == spec.working_dir@
            && p.adapter_id@ == "codex"@,
{
}

/// An error names what went wrong: the launch's own, what the store said, the
/// agent and where to look for it, or the task.
pub proof fn law_a_task_error_names_its_cause(e: TaskError)
    ensures
        e is Launch ==> task_error_text(e) == launch_error_text(e->Launch_0),
        e is Db ==> exists|before: Text| task_error_text(e) == #[trigger] (before + e->Db_0@),
        e is AgentMissing ==> exists|between: Text|
            task_error_text(e) == #[trigger] (e->agent@ + between + e->hint@),
        e is NoSuchTask ==> exists|before: Text|
            task_error_text(e) == #[trigger] (before + uuid_text(e->NoSuchTask_0.bits)),
{
    if e is Db {
        assert(task_error_text(e) == "database error: "@ + e->Db_0@);
    }
    if e is AgentMissing {
        assert(task_error_text(e) == e->agent@ + " was not found on this machine. "@ + e->hint@);
    }
    if e is NoSuchTask {
        assert(task_error_text(e) == "no task with id "@ + uuid_text(e->NoSuchTask_0.bits));
    }
}

/// Codex is looked for where it is bundled.
pub proof fn law_a_missing_agent_is_hinted_at()
    ensures
        exists|before: Text, after: Text|
            missing_hint(Agent::Codex) == #[trigger] (before + CODEX_BUNDLED_PATH@ + after),
        missing_hint(Agent::ClaudeCode) == "Install "@ + title("claude_code"@)
            + ", or set its path in Settings."@,
{
    assert(missing_hint(Agent::Codex)
        == "It is usually not on PATH: it ships inside the ChatGPT desktop app, at "@
        + CODEX_BUNDLED_PATH@ + "."@);
}

} // verus!
