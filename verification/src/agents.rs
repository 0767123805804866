//! The applications that write their sessions but no measurement of them.
//!
//! Listing the silent ones is the point: an application that is missing from a
//! monitor is indistinguishable from one that was used and cost nothing.
use vstd::prelude::*;
use vstd::string::StringExecFns;

use crate::dto::{AdapterDescriptor, AdapterState};
use crate::paths::{join_path, joined_path};
use crate::probe::{capability_views, finish, named_matrix, no, uniform, uniform_matrix};
use crate::text::{texts, Text};

verus! {

/// An application that writes its sessions to disk but no measurement of them.
#[derive(Debug, Clone, PartialEq, Eq)]
pub struct Unmeasured {
    pub id: &'static str,
    pub display_name: &'static str,
    /// Paths behind the home directory whose existence means that the
    /// application is here.
    pub roots: Vec<&'static str>,
    /// What was found in those files, as a measurement rather than an opinion.
    pub finding: &'static str,
    /// What to do instead.
    pub remedy: &'static str,
}

pub const CURSOR_FINDING: &'static str = "Cursor stores conversations as blobs in per-chat SQLite files. Across 775 of them the content was prompts and completions, with no token count of any kind. Its `ai-tracking` database counts lines of accepted code, not tokens.";

pub const CURSOR_REMEDY: &'static str = "Cursor reports usage in its own dashboard, which is an account-level figure rather than anything on this machine.";

pub const JETBRAINS_FINDING: &'static str = "The IDE keeps its chat history in `aia-task-history/*.events`, base64-wrapped JSON. Across 1,184 decoded events there was no field carrying a token, a cost or a usage object.";

pub const JETBRAINS_REMEDY: &'static str = "The IDE's own AI usage window reports quota consumption for the account.";

pub const JUNIE_FINDING: &'static str = "Junie keeps `history.jsonl` and rotating logs. Neither carries token counts, and on this machine the history file was empty.";

pub const JUNIE_REMEDY: &'static str = "Junie draws on the same JetBrains AI quota as the assistant above.";

pub const GEMINI_FINDING: &'static str = "Gemini CLI is installed. It writes chats under `~/.gemini/tmp/*/chats/`, but there was nothing there to read on this machine, so no parser has been written against a real file.";

pub const GEMINI_REMEDY: &'static str = "An adapter can be added once there is a session to verify it against — a parser written from documentation alone is exactly how a confident wrong number gets shipped.";

/// Applications known to write sessions without usage.
pub fn unmeasured() -> (v: Vec<Unmeasured>)
    ensures
        v@.len() == 4,
        v@[0].id@ == "cursor"@,
        v@[1].id@ == "jetbrains_ai"@,
        v@[2].id@ == "junie"@,
        v@[3].id@ == "gemini_cli"@,
        v@[0].display_name@ == "Cursor"@,
        v@[1].display_name@ == "JetBrains AI Assistant"@,
        v@[2].display_name@ == "Junie"@,
        v@[3].display_name@ == "Gemini CLI"@,
        v@[0].roots@.map_values(|s: &'static str| s@) == seq![".cursor/chats"@, ".cursor"@],
        v@[1].roots@.map_values(|s: &'static str| s@) == seq![
            "Library/Application Support/JetBrains"@,
        ],
        v@[2].roots@.map_values(|s: &'static str| s@) == seq![".junie"@],
        v@[3].roots@.map_values(|s: &'static str| s@) == seq![".gemini"@],
        v@[0].finding@ == CURSOR_FINDING@,
        v@[0].remedy@ == CURSOR_REMEDY@,
        v@[1].finding@ == JETBRAINS_FINDING@,
        v@[1].remedy@ == JETBRAINS_REMEDY@,
        v@[2].finding@ == JUNIE_FINDING@,
        v@[2].remedy@ == JUNIE_REMEDY@,
        v@[3].finding@ == GEMINI_FINDING@,
        v@[3].remedy@ == GEMINI_REMEDY@,
{
    let mut v: Vec<Unmeasured> = Vec::new();
    let mut cursor: Vec<&'static str> = Vec::new();
    cursor.push(".cursor/chats");
    cursor.push(".cursor");
    let mut jetbrains: Vec<&'static str> = Vec::new();
    jetbrains.push("Library/Application Support/JetBrains");
    let mut junie: Vec<&'static str> = Vec::new();
    junie.push(".junie");
    let mut gemini: Vec<&'static str> = Vec::new();
    gemini.push(".gemini");
    proof {
        assert(cursor@.map_values(|s: &'static str| s@) =~= seq![".cursor/chats"@, ".cursor"@]);
        assert(jetbrains@.map_values(|s: &'static str| s@) =~= seq![
            "Library/Application Support/JetBrains"@,
        ]);
        assert(junie@.map_values(|s: &'static str| s@) =~= seq![".junie"@]);
        assert(gemini@.map_values(|s: &'static str| s@) =~= seq![".gemini"@]);
    }
    v.push(
        Unmeasured {
            id: "cursor",
            display_name: "Cursor",
            roots: cursor,
            finding: CURSOR_FINDING,
            remedy: CURSOR_REMEDY,
        },
    );
    v.push(
        Unmeasured {
            id: "jetbrains_ai",
            display_name: "JetBrains AI Assistant",
            roots: jetbrains,
            finding: JETBRAINS_FINDING,
            remedy: JETBRAINS_REMEDY,
        },
    );
    v.push(
        Unmeasured {
            id: "junie",
            display_name: "Junie",
            roots: junie,
            finding: JUNIE_FINDING,
            remedy: JUNIE_REMEDY,
        },
    );
    v.push(
        Unmeasured {
            id: "gemini_cli",
            display_name: "Gemini CLI",
            roots: gemini,
            finding: GEMINI_FINDING,
            remedy: GEMINI_REMEDY,
        },
    );
    v
}

/// The paths to look for an application at.
pub open spec fn places(home: Text, roots: Seq<&'static str>) -> Seq<Text> {
    roots.map_values(|r: &'static str| joined_path(home, r@))
}

/// The first path of which it is known that it exists.
pub open spec fn first_existing(paths: Seq<Text>, exists_at: Seq<bool>) -> Option<Text>
    decreases paths.len(),
{
    if paths.len() == 0 {
        None
    } else if exists_at[0] {
        Some(paths[0])
    } else {
        first_existing(paths.drop_first(), exists_at.drop_first())
    }
}

impl Unmeasured {
    /// The paths to look for this application at.
    pub fn paths(&self, home: &str) -> (v: Vec<String>)
        ensures
            texts(v@) == places(home@, self.roots@),
    {
        let mut v: Vec<String> = Vec::new();
        let mut i: usize = 0;
        while i < self.roots.len()
            invariant
                i <= self.roots.len(),
                texts(v@) == places(home@, self.roots@.take(i as int)),
            decreases self.roots.len() - i,
        {
            let root: &'static str = self.roots[i];
            let ghost before = texts(v@);
            v.push(join_path(home, root));
            proof {
                assert(texts(v@) =~= before.push(joined_path(home@, root@)));
                assert(places(home@, self.roots@.take(i + 1)) =~= places(
                    home@,
                    self.roots@.take(i as int),
                ).push(joined_path(home@, root@)));
            }
            i += 1;
        }
        proof {
            assert(self.roots@.take(i as int) =~= self.roots@);
        }
        v
    }

    /// The first of this application's paths that exists, where `exists_at`
    /// says of each of them whether it does.
    pub fn detect(&self, home: &str, exists_at: &Vec<bool>) -> (r: Option<String>)
        requires
            exists_at@.len() == self.roots@.len(),
        ensures
            match r {
                Some(p) => first_existing(places(home@, self.roots@), exists_at@) == Some(p@),
                None => first_existing(places(home@, self.roots@), exists_at@).is_none(),
            },
    {
        let ghost all = places(home@, self.roots@);
        let mut i: usize = 0;
        proof {
            assert(all.skip(0) =~= all);
            assert(exists_at@.skip(0) =~= exists_at@);
        }
        while i < self.roots.len()
            invariant
                i <= self.roots.len(),
                exists_at@.len() == self.roots@.len(),
                all == places(home@, self.roots@),
                first_existing(all, exists_at@) == first_existing(
                    all.skip(i as int),
                    exists_at@.skip(i as int),
                ),
            decreases self.roots.len() - i,
        {
            proof {
                assert(all.skip(i as int)[0] == all[i as int]);
                assert(exists_at@.skip(i as int)[0] == exists_at@[i as int]);
                assert(all.skip(i as int).drop_first() =~= all.skip(i + 1));
                assert(exists_at@.skip(i as int).drop_first() =~= exists_at@.skip(i + 1));
            }
            if exists_at[i] {
                return Some(join_path(home, self.roots[i]));
            }
            i += 1;
        }
        None
    }
}

/// What is said of an application without measurements.
pub open spec fn unmeasured_notes(
    name: Text,
    finding: Text,
    remedy: Text,
    found: bool,
) -> Seq<Text> {
    if found {
        seq![
            "Detected. "@ + name
                + " writes its sessions to disk, but nothing that counts tokens."@,
            finding,
            remedy,
            "Its usage is therefore absent from every total here. That is a gap in what can be measured, not a claim that it cost nothing."@,
        ]
    } else {
        seq![name + " was not found on this machine."@]
    }
}

/// Describe an application that cannot be measured, and where it was found.
/// Every capability is denied with the same evidence: the files have no numbers
/// in them.
pub fn describe_unmeasured(app: &Unmeasured, found: Option<String>) -> (d: AdapterDescriptor)
    ensures
        d.id@ == app.id@,
        d.display_name@ == app.display_name@,
        d.state == if found.is_some() {
            AdapterState::Detected
        } else {
            AdapterState::NotInstalled
        },
        d.app_version.is_none(),
        d.adapter_version@ == "0.1.0"@,
        d.executable_path == found,
        capability_views(d.capabilities@) == named_matrix(uniform_matrix(no(app.finding@))),
        texts(d.notes@) == unmeasured_notes(
            app.display_name@,
            app.finding@,
            app.remedy@,
            found.is_some(),
        ),
{
    let capabilities = uniform(true, app.finding);
    let mut notes: Vec<String> = Vec::new();
    if found.is_some() {
        let mut s = "Detected. ".to_owned();
        s.append(app.display_name);
        s.append(" writes its sessions to disk, but nothing that counts tokens.");
        notes.push(s);
        notes.push(app.finding.to_owned());
        notes.push(app.remedy.to_owned());
        notes.push(
            "Its usage is therefore absent from every total here. That is a gap in what can be measured, not a claim that it cost nothing.".to_owned(),
        );
    } else {
        let mut s = app.display_name.to_owned();
        s.append(" was not found on this machine.");
        notes.push(s);
    }
    proof {
        assert(texts(notes@) =~= unmeasured_notes(
            app.display_name@,
            app.finding@,
            app.remedy@,
            found.is_some(),
        ));
    }
    let state = if found.is_some() {
        AdapterState::Detected
    } else {
        AdapterState::NotInstalled
    };
    finish(app.id, app.display_name, state, found, capabilities, notes)
}

/// What is found of an application is the first of its paths that exists, and
/// nothing is found exactly where none does.
pub proof fn law_the_first_existing_path_is_found(paths: Seq<Text>, exists_at: Seq<bool>)
    requires
        paths.len() == exists_at.len(),
    ensures
        match first_existing(paths, exists_at) {
            Some(found) => exists|i: int|
                0 <= i < paths.len() && #[trigger] exists_at[i] && paths[i] == found && forall|
                    k: int,
                |
                    0 <= k < i ==> !#[trigger] exists_at[k],
            None => forall|i: int| 0 <= i < paths.len() ==> !#[trigger] exists_at[i],
        },
    decreases paths.len(),
{
    if paths.len() > 0 && !exists_at[0] {
        let p = paths.drop_first();
        let e = exists_at.drop_first();
        law_the_first_existing_path_is_found(p, e);
        match first_existing(p, e) {
            Some(found) => {
                let i = choose|i: int|
                    0 <= i < p.len() && #[trigger] e[i] && p[i] == found && forall|k: int|
                        0 <= k < i ==> !#[trigger] e[k];
                assert(exists_at[i + 1]);
                assert(paths[i + 1] == found);
                assert forall|k: int| 0 <= k < i + 1 implies !#[trigger] exists_at[k] by {
                    if k > 0 {
                        assert(!e[k - 1]);
                    }
                }
            },
            None => {
                assert forall|i: int| 0 <= i < paths.len() implies !#[trigger] exists_at[i] by {
                    if i > 0 {
                        assert(!e[i - 1]);
                    }
                }
            },
        }
    }
}

/// An application is looked for at each of its paths behind the home directory,
/// in their order.
pub proof fn law_an_application_is_looked_for_at_its_paths(
    home: Text,
    roots: Seq<&'static str>,
    i: int,
)
    requires
        0 <= i < roots.len(),
    ensures
        places(home, roots).len() == roots.len(),
        places(home, roots)[i] == joined_path(home, roots[i]@),
{
}

/// An application that is here is said to count nothing, with what was found and
/// what to do; one that is not is said not to be.
pub proof fn law_an_absent_count_is_said_to_be_absent(name: Text, finding: Text, remedy: Text)
    ensures
        unmeasured_notes(name, finding, remedy, true).contains(finding),
        unmeasured_notes(name, finding, remedy, true).contains(remedy),
        unmeasured_notes(name, finding, remedy, true).len() == 4,
        unmeasured_notes(name, finding, remedy, false) == seq![
            name + " was not found on this machine."@,
        ],
{
    let n = unmeasured_notes(name, finding, remedy, true);
    assert(n[1] == finding);
    assert(n[2] == remedy);
}

} // verus!
