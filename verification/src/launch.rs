//! Launching an agent, and stopping it completely.
//!
//! Launching is what makes attribution exact: the identity that usage arrives
//! under is fixed beforehand, or read from the agent's own output.
use vstd::prelude::*;
use vstd::string::{StrSliceExecFns, StringExecFns};

use crate::ids::{uuid_text, Uuid};
use crate::names::{first_word, first_word_of, title, title_of};
use crate::paths::{
    file_name, file_name_of, join_path, joined_path,
    law_a_file_name_is_what_follows_the_last_slash,
};
use crate::procmon::ProcKey;
use crate::text::{joined, law_joining_puts_the_separator_between, opt_text, str_eq, texts, Text};

verus! {

/// The Codex executable is not on the search path: it ships inside the ChatGPT
/// desktop application.
pub const CODEX_BUNDLED_PATH: &'static str = "/Applications/ChatGPT.app/Contents/Resources/codex";

/// How to start one agent.
#[derive(Debug, Clone, PartialEq, Eq)]
pub struct LaunchSpec {
    pub program: String,
    pub args: Vec<String>,
    pub working_dir: String,
    /// Extra environment for the child. Never stored: it routinely holds keys.
    pub env: Vec<(String, String)>,
    /// The agent writes its events to its output, and they are read there
    /// rather than from a file.
    pub reads_stdout: bool,
}

/// Why an agent could not be started.
#[derive(Debug, Clone, PartialEq, Eq)]
pub enum LaunchError {
    NotFound { program: String, hint: String },
    NoWorkingDir(String),
    /// What the system said.
    Spawn(String),
    NoPid,
}

/// What an error says.
pub open spec fn launch_error_text(e: LaunchError) -> Text {
    match e {
        LaunchError::NotFound { program, hint } => program@ + " was not found. "@ + hint@,
        LaunchError::NoWorkingDir(dir) => "the working directory "@ + dir@ + " does not exist"@,
        LaunchError::Spawn(cause) => "could not start the process: "@ + cause@,
        LaunchError::NoPid => "the process started but reported no PID"@,
    }
}

impl LaunchError {
    /// What the error says.
    pub fn message(&self) -> (s: String)
        ensures
            s@ == launch_error_text(*self),
    {
        match self {
            LaunchError::NotFound { program, hint } => {
                let mut s = program.clone();
                s.append(" was not found. ");
                s.append(hint.as_str());
                s
            },
            LaunchError::NoWorkingDir(dir) => {
                let mut s = "the working directory ".to_owned();
                s.append(dir.as_str());
                s.append(" does not exist");
                s
            },
            LaunchError::Spawn(cause) => {
                let mut s = "could not start the process: ".to_owned();
                s.append(cause.as_str());
                s
            },
            LaunchError::NoPid => "the process started but reported no PID".to_owned(),
        }
    }
}

/// A process that was started: who it is, and the group it leads.
#[derive(Debug, Clone, Copy, PartialEq, Eq, Structural)]
pub struct Started {
    pub key: ProcKey,
    pub process_group: u32,
}

/// The arguments that pin a session's identity.
pub open spec fn claude_args(session: Uuid, prompt: Option<Text>) -> Seq<Text> {
    match prompt {
        Some(p) => seq!["--session-id"@, uuid_text(session.bits), "--print"@, p],
        None => seq!["--session-id"@, uuid_text(session.bits)],
    }
}

/// The arguments that have a run write its events to its output.
pub open spec fn codex_args(working_dir: Text, prompt: Text) -> Seq<Text> {
    seq!["exec"@, "--json"@, "--cd"@, working_dir, prompt]
}

/// Where to look when a program is missing.
pub open spec fn hint_text(program: Text) -> Text {
    match file_name_of(program) {
        Some(name) => if name == "codex"@ {
            "The Codex binary is usually not on PATH: it ships inside the ChatGPT desktop app, at "@
                + CODEX_BUNDLED_PATH@
                + ". Set the executable path for the Codex application in Settings."@
        } else if name == first_word("claude_code"@) {
            "Install "@ + title("claude_code"@) + ", or set its executable path in Settings."@
        } else {
            "Check the executable path configured for this application."@
        },
        None => "Check the executable path configured for this application."@,
    }
}

/// Where to look when a program is missing.
pub fn hint_for(program: &str) -> (s: String)
    ensures
        s@ == hint_text(program@),
{
    let name: &str = match file_name(program) {
        Some(name) => name,
        None => return "Check the executable path configured for this application.".to_owned(),
    };
    if str_eq(name, "codex") {
        let mut s =
            "The Codex binary is usually not on PATH: it ships inside the ChatGPT desktop app, at ".to_owned();
        s.append(CODEX_BUNDLED_PATH);
        s.append(". Set the executable path for the Codex application in Settings.");
        s
    } else if str_eq(name, first_word_of("claude_code")) {
        let mut s = "Install ".to_owned();
        s.append(title_of("claude_code").as_str());
        s.append(", or set its executable path in Settings.");
        s
    } else {
        "Check the executable path configured for this application.".to_owned()
    }
}

impl LaunchSpec {
    /// A `claude_code` session whose identity is chosen in advance. Its usage is
    /// read from the transcript, which holds the sub-agents' work too.
    pub fn claude_code(
        program: String,
        session_id: Uuid,
        working_dir: String,
        prompt: Option<String>,
    ) -> (s: Self)
        ensures
            s.program == program,
            texts(s.args@) == claude_args(session_id, opt_text(prompt)),
            s.working_dir == working_dir,
            s.env@.len() == 0,
            !s.reads_stdout,
    {
        let mut args: Vec<String> = Vec::new();
        args.push("--session-id".to_owned());
        args.push(session_id.text());
        match prompt {
            Some(prompt) => {
                let ghost p = prompt@;
                args.push("--print".to_owned());
                args.push(prompt);
                proof {
                    assert(texts(args@) =~= claude_args(session_id, Some(p)));
                }
            },
            None => {
                proof {
                    assert(texts(args@) =~= claude_args(session_id, None));
                }
            },
        }
        LaunchSpec { program, args, working_dir, env: Vec::new(), reads_stdout: false }
    }

    /// A Codex run whose events are read from its own output.
    pub fn codex_exec(program: String, working_dir: String, prompt: String) -> (s: Self)
        ensures
            s.program == program,
            texts(s.args@) == codex_args(working_dir@, prompt@),
            s.working_dir == working_dir,
            s.env@.len() == 0,
            s.reads_stdout,
    {
        let ghost p = prompt@;
        let mut args: Vec<String> = Vec::new();
        args.push("exec".to_owned());
        args.push("--json".to_owned());
        args.push("--cd".to_owned());
        args.push(working_dir.clone());
        args.push(prompt);
        proof {
            assert(texts(args@) =~= codex_args(working_dir@, p));
        }
        LaunchSpec { program, args, working_dir, env: Vec::new(), reads_stdout: true }
    }

    /// May it be started? Not without its working directory.
    pub fn check(&self, working_dir_exists: bool) -> (r: Result<(), LaunchError>)
        ensures
            r == if working_dir_exists {
                Ok(())
            } else {
                Err(LaunchError::NoWorkingDir(self.working_dir))
            },
    {
        if working_dir_exists {
            Ok(())
        } else {
            Err(LaunchError::NoWorkingDir(self.working_dir.clone()))
        }
    }

    /// What it means that the system did not start it: a program that is not
    /// there comes with a hint.
    pub fn refused(&self, missing: bool, cause: String) -> (e: LaunchError)
        ensures
            missing ==> match e {
                LaunchError::NotFound { program, hint } => program == self.program && hint@
                    == hint_text(self.program@),
                _ => false,
            },
            !missing ==> e == LaunchError::Spawn(cause),
    {
        if missing {
            LaunchError::NotFound {
                program: self.program.clone(),
                hint: hint_for(self.program.as_str()),
            }
        } else {
            LaunchError::Spawn(cause)
        }
    }

    /// Who it is, once started. It leads its own group. The time it began is
    /// the one that the system reports, so that a later look finds the same.
    pub fn started(pid: Option<u32>, start_time: Option<u64>) -> (r: Result<Started, LaunchError>)
        ensures
            r == match pid {
                Some(pid) => Ok(
                    Started {
                        key: ProcKey {
                            pid,
                            start_time: match start_time {
                                Some(t) => t,
                                None => 0,
                            },
                        },
                        process_group: pid,
                    },
                ),
                None => Err(LaunchError::NoPid),
            },
    {
        match pid {
            Some(pid) => {
                let start_time: u64 = match start_time {
                    Some(t) => t,
                    None => 0,
                };
                Ok(Started { key: ProcKey::new(pid, start_time), process_group: pid })
            },
            None => Err(LaunchError::NoPid),
        }
    }
}

/// The directories of a search path: its parts between the colons.
pub open spec fn path_parts(path: Text) -> Seq<Text>
    decreases path.len(),
{
    if path.len() == 0 {
        seq![Seq::empty()]
    } else if path.last() == ':' {
        path_parts(path.drop_last()).push(Seq::empty())
    } else {
        let before = path_parts(path.drop_last());
        before.drop_last().push(before.last().push(path.last()))
    }
}

/// The directories of a search path.
pub fn split_path(path: &str) -> (v: Vec<String>)
    ensures
        texts(v@) == path_parts(path@),
{
    let n: usize = path.unicode_len();
    let mut v: Vec<String> = Vec::new();
    let mut from: usize = 0;
    let mut i: usize = 0;
    proof {
        assert(path@.subrange(0, 0) =~= Seq::<char>::empty());
        assert(texts(v@).push(path@.subrange(0, 0)) =~= path_parts(path@.take(0)));
    }
    while i < n
        invariant
            n == path@.len(),
            from <= i <= n,
            texts(v@).push(path@.subrange(from as int, i as int)) == path_parts(
                path@.take(i as int),
            ),
        decreases n - i,
    {
        let ghost parts = path_parts(path@.take(i as int));
        proof {
            assert(path@.take(i + 1).drop_last() =~= path@.take(i as int));
            assert(path@.take(i + 1).last() == path@[i as int]);
        }
        if path.get_char(i) == ':' {
            let part = path.substring_char(from, i);
            let ghost before = texts(v@);
            v.push(part.to_owned());
            proof {
                assert(texts(v@) =~= before.push(path@.subrange(from as int, i as int)));
                assert(path@.subrange(i + 1, i + 1) =~= Seq::<char>::empty());
            }
            from = i + 1;
        } else {
            proof {
                assert(parts.drop_last() =~= texts(v@));
                assert(path@.subrange(from as int, i + 1) =~= path@.subrange(
                    from as int,
                    i as int,
                ).push(path@[i as int]));
            }
        }
        i += 1;
    }
    let part = path.substring_char(from, n);
    let ghost before = texts(v@);
    v.push(part.to_owned());
    proof {
        assert(texts(v@) =~= before.push(path@.subrange(from as int, n as int)));
        assert(path@.take(n as int) =~= path@);
    }
    v
}

/// The places where an executable may be: in each directory of the search path,
/// in order, and then where it is known to be bundled.
pub open spec fn places_of(program: Text, path: Option<Text>) -> Seq<Text> {
    let on_path = match path {
        Some(p) => path_parts(p).map_values(|dir: Text| joined_path(dir, program)),
        None => Seq::empty(),
    };
    if program == "codex"@ {
        on_path.push(CODEX_BUNDLED_PATH@)
    } else {
        on_path
    }
}

/// The places where an executable may be, in the order in which they count.
pub fn candidates(program: &str, path: &Option<String>) -> (v: Vec<String>)
    ensures
        texts(v@) == places_of(program@, opt_text(*path)),
{
    let mut v: Vec<String> = Vec::new();
    let ghost join = |dir: Text| joined_path(dir, program@);
    match path {
        Some(p) => {
            let dirs = split_path(p.as_str());
            let n: usize = dirs.len();
            let mut i: usize = 0;
            proof {
                assert(texts(v@) =~= texts(dirs@).take(0).map_values(join));
            }
            while i < n
                invariant
                    n == dirs@.len(),
                    i <= n,
                    join == (|dir: Text| joined_path(dir, program@)),
                    texts(v@) == texts(dirs@).take(i as int).map_values(join),
                decreases n - i,
            {
                let ghost before = texts(v@);
                v.push(join_path(dirs[i].as_str(), program));
                proof {
                    assert(texts(v@) =~= before.push(joined_path(dirs@[i as int]@, program@)));
                    assert(texts(dirs@).take(i + 1).map_values(join) =~= texts(dirs@).take(
                        i as int,
                    ).map_values(join).push(joined_path(dirs@[i as int]@, program@)));
                }
                i += 1;
            }
            proof {
                assert(texts(dirs@).take(n as int) =~= texts(dirs@));
            }
        },
        None => {
            proof {
                assert(texts(v@) =~= Seq::<Text>::empty());
            }
        },
    }
    if str_eq(program, "codex") {
        let ghost before = texts(v@);
        v.push(CODEX_BUNDLED_PATH.to_owned());
        proof {
            assert(texts(v@) =~= before.push(CODEX_BUNDLED_PATH@));
        }
    }
    v
}

/// The first of some places at which there is a file.
pub open spec fn first_file(places: Seq<Text>, is_file: Seq<bool>) -> Option<Text>
    decreases places.len(),
{
    if places.len() == 0 {
        None
    } else if is_file[0] {
        Some(places[0])
    } else {
        first_file(places.drop_first(), is_file.drop_first())
    }
}

/// Where an agent's executable is: the first of its places at which there is a
/// file, where `is_file` says so of each of [`candidates`]. `None` rather than
/// a guess.
pub fn discover(program: &str, path: &Option<String>, is_file: &Vec<bool>) -> (r: Option<String>)
    requires
        is_file@.len() == places_of(program@, opt_text(*path)).len(),
    ensures
        opt_text(r) == first_file(places_of(program@, opt_text(*path)), is_file@),
{
    let places = candidates(program, path);
    let ghost all = texts(places@);
    let n: usize = places.len();
    let mut i: usize = 0;
    proof {
        assert(all.len() == n);
        assert(all.skip(0) =~= all);
        assert(is_file@.skip(0) =~= is_file@);
    }
    while i < n
        invariant
            n == places@.len(),
            n == is_file@.len(),
            all == texts(places@),
            all == places_of(program@, opt_text(*path)),
            i <= n,
            first_file(all, is_file@) == first_file(all.skip(i as int), is_file@.skip(i as int)),
        decreases n - i,
    {
        proof {
            assert(all.skip(i as int)[0] == places@[i as int]@);
            assert(is_file@.skip(i as int)[0] == is_file@[i as int]);
            assert(all.skip(i as int).drop_first() =~= all.skip(i + 1));
            assert(is_file@.skip(i as int).drop_first() =~= is_file@.skip(i + 1));
        }
        if is_file[i] {
            return Some(places[i].clone());
        }
        i += 1;
    }
    None
}

/// What is found is one of the places and a file, and nothing before it is.
pub proof fn law_discovery_never_guesses(places: Seq<Text>, is_file: Seq<bool>)
    requires
        places.len() == is_file.len(),
    ensures
        match first_file(places, is_file) {
            Some(found) => exists|i: int|
                0 <= i < places.len() && #[trigger] is_file[i] && places[i] == found && forall|
                    k: int,
                |
                    0 <= k < i ==> !#[trigger] is_file[k],
            None => forall|i: int| 0 <= i < places.len() ==> !#[trigger] is_file[i],
        },
    decreases places.len(),
{
    if places.len() > 0 && !is_file[0] {
        let rest = places.drop_first();
        let flags = is_file.drop_first();
        law_discovery_never_guesses(rest, flags);
        match first_file(rest, flags) {
            Some(found) => {
                let i = choose|i: int|
                    0 <= i < rest.len() && #[trigger] flags[i] && rest[i] == found && forall|k: int|
                        0 <= k < i ==> !#[trigger] flags[k];
                assert(is_file[i + 1]);
                assert(places[i + 1] == found);
                assert forall|k: int| 0 <= k < i + 1 implies !#[trigger] is_file[k] by {
                    if k > 0 {
                        assert(!flags[k - 1]);
                    }
                }
            },
            None => {
                assert forall|i: int| 0 <= i < places.len() implies !#[trigger] is_file[i] by {
                    if i > 0 {
                        assert(!flags[i - 1]);
                    }
                }
            },
        }
    }
}

/// What to do next to stop an agent and everything it started.
#[derive(Debug, Clone, Copy, PartialEq, Eq, Structural)]
pub enum StopStep {
    /// Ask the group to end, and wait for the grace period.
    Terminate,
    /// End the group by force.
    Kill,
    Done,
}

impl StopStep {
    /// The step after this one; `exited` says whether the agent has ended.
    pub fn next(self, exited: bool) -> (s: StopStep)
        ensures
            s == match self {
                StopStep::Terminate => if exited {
                    StopStep::Done
                } else {
                    StopStep::Kill
                },
                StopStep::Kill => StopStep::Done,
                StopStep::Done => StopStep::Done,
            },
    {
        match self {
            StopStep::Terminate => {
                if exited {
                    StopStep::Done
                } else {
                    StopStep::Kill
                }
            },
            StopStep::Kill => StopStep::Done,
            StopStep::Done => StopStep::Done,
        }
    }
}

/// A process group as signals are addressed to it; a number that is too large
/// addresses nothing.
pub fn group_to_signal(process_group: u32) -> (r: Option<i32>)
    ensures
        r == if process_group <= i32::MAX {
            Some(process_group as i32)
        } else {
            None
        },
{
    if process_group <= i32::MAX as u32 {
        Some(process_group as i32)
    } else {
        None
    }
}

/// The directories of a search path, with the colons between them, are the path
/// again, and none of them holds a colon.
pub proof fn law_a_search_path_is_its_directories(path: Text)
    ensures
        path_parts(path).len() > 0,
        joined(path_parts(path), seq![':']) == path,
        forall|i: int, k: int|
            #![trigger path_parts(path)[i][k]]
            0 <= i < path_parts(path).len() && 0 <= k < path_parts(path)[i].len()
                ==> path_parts(path)[i][k] != ':',
    decreases path.len(),
{
    let parts = path_parts(path);
    let sep = seq![':'];
    if path.len() == 0 {
        assert(joined(parts, sep) =~= path);
    } else {
        let d = path.drop_last();
        let before = path_parts(d);
        law_a_search_path_is_its_directories(d);
        assert(path =~= d.push(path.last()));
        if path.last() == ':' {
            law_joining_puts_the_separator_between(before, Seq::empty(), sep);
            assert(joined(parts, sep) =~= d + sep);
            assert forall|i: int, k: int|
                #![trigger parts[i][k]]
                0 <= i < parts.len() && 0 <= k < parts[i].len() implies parts[i][k] != ':' by {
                assert(parts[i] == before[i]);
                assert(before[i][k] != ':');
            }
        } else {
            let first = before.drop_last();
            let last = before.last().push(path.last());
            assert(before =~= first.push(before.last()));
            assert(parts == first.push(last));
            if first.len() == 0 {
                assert(parts =~= seq![last]);
                assert(before =~= seq![before.last()]);
                law_joining_puts_the_separator_between(first, last, sep);
                law_joining_puts_the_separator_between(first, before.last(), sep);
            } else {
                law_joining_puts_the_separator_between(first, last, sep);
                law_joining_puts_the_separator_between(first, before.last(), sep);
            }
            assert(joined(parts, sep) =~= d.push(path.last()));
            assert forall|i: int, k: int|
                #![trigger parts[i][k]]
                0 <= i < parts.len() && 0 <= k < parts[i].len() implies parts[i][k] != ':' by {
                if i < first.len() {
                    assert(parts[i] == before[i]);
                    assert(before[i][k] != ':');
                } else if k < before.last().len() {
                    assert(parts[i][k] == before[before.len() - 1][k]);
                }
            }
        }
    }
}

/// An executable is looked for in every directory of the search path, in their
/// order, and Codex at last where it is bundled.
pub proof fn law_every_directory_is_looked_in(program: Text, path: Text, i: int)
    requires
        0 <= i < path_parts(path).len(),
    ensures
        places_of(program, Some(path))[i] == joined_path(path_parts(path)[i], program),
        program != "codex"@ ==> places_of(program, Some(path)).len() == path_parts(path).len()
            && places_of(program, None).len() == 0,
        program == "codex"@ ==> places_of(program, Some(path)).len() == path_parts(path).len() + 1
            && places_of(program, Some(path)).last() == CODEX_BUNDLED_PATH@ && places_of(
            program,
            None,
        ) == seq![CODEX_BUNDLED_PATH@],
{
    if program == "codex"@ {
        assert(places_of(program, None) =~= seq![CODEX_BUNDLED_PATH@]);
    }
}

/// An agent is told its session and its prompt, each behind its own flag; Codex
/// is told to write its events, where to work and what to do.
pub proof fn law_agents_are_told_what_to_do(session: Uuid, dir: Text, prompt: Text)
    ensures
        claude_args(session, None).len() == 2,
        claude_args(session, Some(prompt)).len() == 4,
        claude_args(session, Some(prompt))[0] == "--session-id"@,
        claude_args(session, Some(prompt))[1] == uuid_text(session.bits),
        claude_args(session, Some(prompt))[2] == "--print"@,
        claude_args(session, Some(prompt))[3] == prompt,
        codex_args(dir, prompt).len() == 5,
        codex_args(dir, prompt)[0] == "exec"@,
        codex_args(dir, prompt)[1] == "--json"@,
        codex_args(dir, prompt)[2] == "--cd"@,
        codex_args(dir, prompt)[3] == dir,
        codex_args(dir, prompt)[4] == prompt,
{
}

/// An error names what went wrong: the program and where to look for it, the
/// directory, or the cause.
pub proof fn law_a_launch_error_names_its_cause(e: LaunchError)
    ensures
        e is NotFound ==> exists|between: Text|
            launch_error_text(e) == #[trigger] (e->program@ + between + e->hint@),
        e is NoWorkingDir ==> exists|before: Text, after: Text|
            launch_error_text(e) == #[trigger] (before + e->NoWorkingDir_0@ + after),
        e is Spawn ==> exists|before: Text|
            launch_error_text(e) == #[trigger] (before + e->Spawn_0@),
{
    if e is NotFound {
        assert(launch_error_text(e) == e->program@ + " was not found. "@ + e->hint@);
    }
    if e is NoWorkingDir {
        assert(launch_error_text(e) == "the working directory "@ + e->NoWorkingDir_0@
            + " does not exist"@);
    }
    if e is Spawn {
        assert(launch_error_text(e) == "could not start the process: "@ + e->Spawn_0@);
    }
}

/// A program that is missing is looked for where it usually is: Codex inside the
/// desktop application, and the others in the settings.
pub proof fn law_a_missing_program_is_hinted_at(dir: Text)
    ensures
        hint_text("codex"@) == "The Codex binary is usually not on PATH: it ships inside the ChatGPT desktop app, at "@
            + CODEX_BUNDLED_PATH@
            + ". Set the executable path for the Codex application in Settings."@,
        hint_text(dir + "/"@ + "codex"@) == hint_text("codex"@),
        hint_text(""@) == "Check the executable path configured for this application."@,
{
    reveal_strlit("codex");
    reveal_strlit("");
    reveal_strlit(".");
    reveal_strlit("..");
    assert(!"codex"@.contains('/'));
    law_a_file_name_is_what_follows_the_last_slash(""@, dir, "codex"@);
}

} // verus!
