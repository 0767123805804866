use aum::ids::Uuid;
use aum::launch::{
    candidates, discover, group_to_signal, hint_for, split_path, LaunchError, LaunchSpec,
    StopStep, CODEX_BUNDLED_PATH,
};
use aum::procmon::{ProcKey, ProcessInfo, ProcessMonitor, TreeUsage, MIN_INTERVAL_MS};

const OWN_PID: u32 = 4711;

fn process(pid: u32, parent: Option<u32>, memory: u64) -> ProcessInfo {
    ProcessInfo {
        key: ProcKey::new(pid, 1_000 + u64::from(pid)),
        parent,
        name: format!("p{pid}"),
        executable: None,
        memory_bytes: memory,
    }
}

fn monitor() -> ProcessMonitor {
    let mut m = ProcessMonitor::new();
    m.refresh(vec![
        process(9, Some(7), 8),
        process(OWN_PID, Some(1), 100),
        process(7, Some(OWN_PID), 4),
        process(1, None, 1),
        process(8, Some(9), 16),
        process(20, Some(1), 1_000),
    ]);
    m
}

#[test]
fn finds_this_process() {
    let m = monitor();
    let me = m.identify(OWN_PID).expect("we are running");
    assert_eq!(me.key.pid, OWN_PID);
    assert!(me.key.start_time > 0);
}

#[test]
fn a_pid_with_the_wrong_start_time_is_not_the_same_process() {
    let m = monitor();
    let me = m.identify(OWN_PID).unwrap();

    let impostor = ProcKey::new(me.key.pid, me.key.start_time.saturating_add(1));
    assert!(m.get(me.key).is_some(), "the real process resolves");
    assert!(
        m.get(impostor).is_none(),
        "a different start time must not match"
    );
    assert!(!m.is_alive(impostor));
}

#[test]
fn an_unknown_pid_resolves_to_nothing() {
    let m = monitor();
    assert!(m.identify(u32::MAX - 1).is_none());
}

#[test]
fn a_process_is_its_own_descendant() {
    let m = monitor();
    let me = m.identify(OWN_PID).unwrap();
    let tree = m.descendants(me.key);
    assert!(
        tree.iter().any(|p| p.key == me.key),
        "the root must be included in its own tree"
    );
}

#[test]
fn the_tree_of_a_dead_process_is_empty_rather_than_the_whole_machine() {
    let m = monitor();
    let dead = ProcKey::new(u32::MAX - 1, 0);
    assert!(m.descendants(dead).is_empty());
    assert_eq!(m.tree_usage(dead), TreeUsage::default());
}

#[test]
fn tree_usage_counts_at_least_the_root() {
    let m = monitor();
    let me = m.identify(OWN_PID).unwrap();
    let usage = m.tree_usage(me.key);
    assert!(usage.process_count >= 1);
    assert!(usage.memory_bytes > 0);
}

#[test]
fn the_monitor_can_measure_itself() {
    let m = monitor();
    assert!(
        m.own_usage(OWN_PID).is_some(),
        "monitor overhead must be observable"
    );
}

#[test]
fn a_tree_is_found_though_children_stand_before_their_parents() {
    let m = monitor();
    let me = m.identify(OWN_PID).unwrap();
    let pids: Vec<u32> = m.descendants(me.key).iter().map(|p| p.key.pid).collect();
    assert_eq!(pids, vec![9, OWN_PID, 7, 8]);
    assert_eq!(
        m.tree_usage(me.key),
        TreeUsage {
            process_count: 4,
            memory_bytes: 128
        }
    );
}

#[test]
fn a_ring_of_parents_ends() {
    let mut m = ProcessMonitor::default();
    m.refresh(vec![process(1, Some(2), 1), process(2, Some(1), 1), process(3, Some(3), 1)]);
    assert_eq!(m.descendants(ProcKey::new(1, 1_001)).len(), 2);
    assert_eq!(m.descendants(ProcKey::new(3, 1_003)).len(), 1);
}

#[test]
fn a_number_stands_for_one_process() {
    let mut m = ProcessMonitor::new();
    m.refresh(vec![process(1, None, 5), process(1, None, 6)]);
    assert_eq!(m.identify(1).unwrap().memory_bytes, 5);
    assert_eq!(m.tree_usage(ProcKey::new(1, 1_001)).process_count, 1);
    m.refresh(Vec::new());
    assert!(m.identify(1).is_none());
}

#[test]
fn memory_stops_at_the_largest_count() {
    let mut m = ProcessMonitor::new();
    m.refresh(vec![process(1, None, u64::MAX), process(2, Some(1), 6)]);
    assert_eq!(m.tree_usage(ProcKey::new(1, 1_001)).memory_bytes, u64::MAX);
}

#[test]
fn readings_are_not_taken_too_often() {
    assert!(ProcessMonitor::is_due(None));
    assert!(!ProcessMonitor::is_due(Some(MIN_INTERVAL_MS - 1)));
    assert!(ProcessMonitor::is_due(Some(MIN_INTERVAL_MS)));
}

#[test]
fn a_claude_launch_pins_the_session_identity() {
    let id = Uuid {
        bits: 0x0123_4567_89ab_cdef_0123_4567_89ab_cdef,
    };
    let spec = LaunchSpec::claude_code(
        "/usr/local/bin/agent".to_owned(),
        id,
        "/tmp".to_owned(),
        None,
    );
    assert_eq!(spec.args.first().map(String::as_str), Some("--session-id"));
    assert_eq!(
        spec.args.get(1).map(String::as_str),
        Some(id.text().as_str())
    );
    assert!(!spec.reads_stdout);
    let asked = LaunchSpec::claude_code(
        "/usr/local/bin/agent".to_owned(),
        id,
        "/tmp".to_owned(),
        Some("do it".to_owned()),
    );
    assert_eq!(&asked.args[2..], ["--print", "do it"]);
}

#[test]
fn a_codex_launch_reads_its_own_childs_stdout() {
    let spec = LaunchSpec::codex_exec(
        CODEX_BUNDLED_PATH.to_owned(),
        "/tmp".to_owned(),
        "do the thing".to_owned(),
    );
    assert_eq!(spec.args.first().map(String::as_str), Some("exec"));
    assert!(spec.args.iter().any(|a| a == "--json"));
    assert!(
        spec.reads_stdout,
        "attribution depends on reading our own pipe"
    );
    assert_eq!(&spec.args[2..], ["--cd", "/tmp", "do the thing"]);
    assert!(spec.env.is_empty());
}

#[test]
fn a_missing_program_explains_where_codex_actually_lives() {
    let hint = hint_for("/nowhere/codex");
    assert!(
        hint.contains("ChatGPT"),
        "hint should name the real location: {hint}"
    );
    assert!(hint.contains(CODEX_BUNDLED_PATH));
}

#[test]
fn discovery_returns_nothing_rather_than_a_guess() {
    let path = Some("/usr/local/bin:/usr/bin:/bin".to_owned());
    assert!(
        discover(
            "definitely-not-a-real-agent-binary",
            &path,
            &vec![false, false, false]
        )
        .is_none()
    );
}

#[test]
fn discovery_finds_something_that_is_on_path() {
    let path = Some("/usr/local/bin:/usr/bin:/bin".to_owned());
    assert_eq!(
        candidates("sh", &path),
        vec!["/usr/local/bin/sh", "/usr/bin/sh", "/bin/sh"]
    );
    assert_eq!(
        discover("sh", &path, &vec![false, true, true]).as_deref(),
        Some("/usr/bin/sh")
    );
}

#[test]
fn codex_is_looked_for_where_it_is_bundled_last() {
    let path = Some("/bin".to_owned());
    assert_eq!(candidates("codex", &path), vec!["/bin/codex", CODEX_BUNDLED_PATH]);
    assert_eq!(
        discover("codex", &path, &vec![true, true]).as_deref(),
        Some("/bin/codex")
    );
    assert_eq!(candidates("codex", &None), vec![CODEX_BUNDLED_PATH]);
    assert!(candidates("sh", &None).is_empty());
    assert_eq!(candidates("/bin/sh", &path), vec!["/bin/sh"]);
}

#[test]
fn a_search_path_is_split_at_its_colons() {
    assert_eq!(split_path("/a:/b:/c"), vec!["/a", "/b", "/c"]);
    assert_eq!(split_path(""), vec![""]);
    assert_eq!(split_path(":/a:"), vec!["", "/a", ""]);
}

#[test]
fn hints_go_by_the_name_that_a_path_ends_in() {
    assert!(hint_for("/x/codex/").contains("ChatGPT"));
    assert!(hint_for("/x/codex/.").contains("ChatGPT"));
    assert_eq!(
        hint_for("/x/codex/.."),
        "Check the executable path configured for this application."
    );
    assert_eq!(
        hint_for("sh"),
        "Check the executable path configured for this application."
    );
    assert_eq!(
        hint_for(""),
        "Check the executable path configured for this application."
    );
    let agent = hint_for(&format!("/x/{}", aum::names::first_word_of("claude_code")));
    assert!(agent.starts_with("Install C"), "{agent}");
    assert!(agent.ends_with(", or set its executable path in Settings."));
}

fn shell_spec() -> LaunchSpec {
    LaunchSpec {
        program: "/nowhere/codex".to_owned(),
        args: Vec::new(),
        working_dir: "/definitely/not/a/directory".to_owned(),
        env: Vec::new(),
        reads_stdout: true,
    }
}

#[test]
fn a_nonexistent_working_directory_fails_before_spawning() {
    let e = shell_spec().check(false).unwrap_err();
    assert_eq!(
        e.message(),
        "the working directory /definitely/not/a/directory does not exist"
    );
    assert!(shell_spec().check(true).is_ok());
}

#[test]
fn a_missing_binary_is_reported_with_a_hint() {
    let e = shell_spec().refused(true, "os error 2".to_owned());
    assert!(e.message().starts_with("/nowhere/codex was not found. "));
    match e {
        LaunchError::NotFound { hint, .. } => assert!(hint.contains("ChatGPT")),
        other => panic!("expected NotFound, got {other:?}"),
    }
    let other = shell_spec().refused(false, "denied".to_owned());
    assert_eq!(other.message(), "could not start the process: denied");
}

#[test]
fn a_launched_process_gets_a_verifiable_identity() {
    let s = LaunchSpec::started(Some(77), Some(123)).unwrap();
    assert_eq!(s.key, ProcKey::new(77, 123));
    assert_eq!(s.process_group, 77);
    assert_eq!(LaunchSpec::started(Some(77), None).unwrap().key.start_time, 0);
    let e = LaunchSpec::started(None, Some(1)).unwrap_err();
    assert_eq!(e.message(), "the process started but reported no PID");
}

#[test]
fn stopping_asks_first_and_then_insists() {
    assert_eq!(StopStep::Terminate.next(true), StopStep::Done);
    assert_eq!(StopStep::Terminate.next(false), StopStep::Kill);
    assert_eq!(StopStep::Kill.next(false), StopStep::Done);
    assert_eq!(group_to_signal(77), Some(77));
    assert_eq!(group_to_signal(u32::MAX), None);
}
