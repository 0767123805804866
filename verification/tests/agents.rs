use aum::agents::{describe_unmeasured, unmeasured};
use aum::dto::{AdapterState, CapabilityState};

#[test]
fn an_application_that_is_absent_is_reported_as_not_installed() {
    for app in &unmeasured() {
        let nothing = vec![false; app.roots.len()];
        let d = describe_unmeasured(app, app.detect("/home/u", &nothing));
        assert_eq!(d.state, AdapterState::NotInstalled, "{}", app.id);
    }
}

#[test]
fn a_detected_application_says_what_was_looked_at_and_what_was_missing() {
    let apps = unmeasured();
    let app = &apps[0];
    let found = app.detect("/home/u", &vec![true, false]);
    assert_eq!(found.as_deref(), Some("/home/u/.cursor/chats"));

    let d = describe_unmeasured(app, found);
    assert_eq!(d.state, AdapterState::Detected);
    assert!(
        d.notes
            .join(" ")
            .contains("not a claim that it cost nothing"),
        "silence must not read as zero: {:?}",
        d.notes
    );
    assert!(
        !d.capabilities.is_empty()
            && d.capabilities
                .iter()
                .all(|(_, c)| matches!(c, CapabilityState::Unsupported { .. })),
        "every capability should be unsupported for {}",
        app.id
    );
}

#[test]
fn every_entry_states_evidence_rather_than_an_opinion() {
    for app in &unmeasured() {
        assert!(!app.roots.is_empty(), "{}", app.id);
        assert!(
            app.finding.len() > 80,
            "{}: the finding should describe what was found",
            app.id
        );
        assert!(!app.remedy.is_empty(), "{}", app.id);
    }
}

#[test]
fn no_two_applications_share_an_id() {
    let apps = unmeasured();
    let mut ids: Vec<&str> = apps.iter().map(|a| a.id).collect();
    let before = ids.len();
    ids.sort_unstable();
    ids.dedup();
    assert_eq!(before, ids.len());
}

#[test]
fn the_first_path_that_exists_is_the_one_found() {
    let apps = unmeasured();
    assert_eq!(
        apps[0].paths("/home/u/"),
        vec!["/home/u/.cursor/chats", "/home/u/.cursor"]
    );
    assert_eq!(
        apps[0].detect("/home/u", &vec![false, true]).as_deref(),
        Some("/home/u/.cursor")
    );
    assert_eq!(apps[0].detect("/home/u", &vec![false, false]), None);
}
