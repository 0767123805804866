use aum::scan::{sort_newest_first, ScanCache, ScanResult, Seen};
use std::collections::BTreeMap;

const ROOT: &str = "/root";

struct Tree {
    clock: i128,
    files: BTreeMap<String, (u64, i128)>,
    dirs: BTreeMap<String, i128>,
}

impl Tree {
    fn new() -> Self {
        Tree {
            clock: 0,
            files: BTreeMap::new(),
            dirs: BTreeMap::from([(ROOT.to_owned(), 0)]),
        }
    }

    fn touch_parent(&mut self, path: &str) {
        let parent = &path[..path.rfind('/').unwrap()];
        self.dirs.insert(parent.to_owned(), self.clock);
    }

    fn make(&mut self, dir: &str) {
        self.clock += 1;
        self.dirs.insert(dir.to_owned(), self.clock);
        self.touch_parent(dir);
    }

    fn write(&mut self, path: &str, contents: &str) {
        self.clock += 1;
        let new = (contents.len() as u64, self.clock);
        if self.files.insert(path.to_owned(), new).is_none() {
            self.touch_parent(path);
        }
    }

    fn remove(&mut self, path: &str) {
        self.clock += 1;
        self.files.remove(path);
        self.touch_parent(path);
    }
}

fn pass(cache: &mut ScanCache, tree: &Tree) -> ScanResult {
    let dirs: Vec<(String, Option<i128>)> =
        tree.dirs.iter().map(|(d, t)| (d.clone(), Some(*t))).collect();
    let rewalked = cache.tree_changed(ROOT, &dirs);
    let listing = if rewalked {
        let files = tree
            .files
            .iter()
            .filter(|(p, _)| p.ends_with(".jsonl"))
            .map(|(p, (_, t))| (p.clone(), *t))
            .collect();
        cache.relist(ROOT, files)
    } else {
        cache.listing(ROOT)
    };
    let looked: Vec<(String, Option<Seen>)> = listing
        .into_iter()
        .map(|p| {
            let seen = tree.files.get(&p).map(|(size, modified)| Seen {
                size: *size,
                modified: Some(*modified),
            });
            (p, seen)
        })
        .collect();
    cache.changed_since_last(&looked, rewalked)
}

#[test]
fn the_first_pass_sees_everything() {
    let mut dir = Tree::new();
    dir.write("/root/a.jsonl", "x\n");
    dir.write("/root/b.jsonl", "y\n");

    let mut cache = ScanCache::new();
    let result = pass(&mut cache, &dir);
    assert_eq!(result.changed.len(), 2);
    assert!(result.rewalked);
}

#[test]
fn a_pass_over_an_idle_tree_finds_nothing_to_do() {
    let mut dir = Tree::new();
    dir.write("/root/a.jsonl", "x\n");

    let mut cache = ScanCache::new();
    pass(&mut cache, &dir);

    let second = pass(&mut cache, &dir);
    assert!(
        second.changed.is_empty(),
        "nothing changed, nothing to read"
    );
    assert_eq!(second.unchanged, 1);
    assert!(!second.rewalked, "an unchanged tree is not re-walked");
}

#[test]
fn an_appended_file_is_picked_up() {
    let mut dir = Tree::new();
    let path = "/root/a.jsonl".to_owned();
    dir.write(&path, "x\n");

    let mut cache = ScanCache::new();
    pass(&mut cache, &dir);

    dir.write(&path, "x\ny\n");

    let result = pass(&mut cache, &dir);
    assert_eq!(result.changed, vec![path]);
}

#[test]
fn a_new_file_is_picked_up_even_though_the_listing_was_cached() {
    let mut dir = Tree::new();
    dir.write("/root/a.jsonl", "x\n");

    let mut cache = ScanCache::new();
    pass(&mut cache, &dir);

    dir.write("/root/b.jsonl", "y\n");

    let result = pass(&mut cache, &dir);
    assert!(result.rewalked, "adding a file must trigger a re-walk");
    assert_eq!(result.changed.len(), 1);
    assert!(
        result.changed.first().unwrap().ends_with("b.jsonl"),
        "only the new file needs reading"
    );
}

#[test]
fn a_file_added_to_a_nested_directory_is_found() {
    let mut dir = Tree::new();
    let nested = "/root/session/subagents".to_owned();
    dir.make("/root/session");
    dir.make(&nested);
    dir.write("/root/session.jsonl", "x\n");

    let mut cache = ScanCache::new();
    pass(&mut cache, &dir);

    dir.write("/root/session/subagents/agent-1.jsonl", "y\n");

    let result = pass(&mut cache, &dir);
    assert_eq!(result.changed.len(), 1);
    assert!(result.changed.first().unwrap().ends_with("agent-1.jsonl"));
}

#[test]
fn a_truncated_file_is_picked_up() {
    let mut dir = Tree::new();
    let path = "/root/a.jsonl".to_owned();
    dir.write(&path, "aaaa\nbbbb\n");

    let mut cache = ScanCache::new();
    pass(&mut cache, &dir);

    dir.write(&path, "c\n");

    assert_eq!(
        pass(&mut cache, &dir).changed.len(),
        1
    );
}

#[test]
fn a_deleted_file_stops_being_offered() {
    let mut dir = Tree::new();
    let path = "/root/a.jsonl".to_owned();
    dir.write(&path, "x\n");

    let mut cache = ScanCache::new();
    pass(&mut cache, &dir);

    dir.remove(&path);

    let result = pass(&mut cache, &dir);
    assert!(result.changed.is_empty());
}

#[test]
fn files_that_do_not_match_are_never_offered() {
    let mut dir = Tree::new();
    dir.write("/root/a.jsonl", "x\n");
    dir.write("/root/notes.txt", "y\n");

    let mut cache = ScanCache::new();
    let result = pass(&mut cache, &dir);
    assert_eq!(result.changed.len(), 1);
    assert!(result.changed.first().unwrap().ends_with("a.jsonl"));
}

#[test]
fn a_missing_root_is_not_an_error() {
    let mut cache = ScanCache::new();
    let result = cache.without_root("/definitely/not/here");
    assert!(result.changed.is_empty());
    assert!(!result.rewalked);
}

#[test]
fn invalidating_forces_a_full_re_examination() {
    let mut dir = Tree::new();
    dir.write("/root/a.jsonl", "x\n");

    let mut cache = ScanCache::new();
    pass(&mut cache, &dir);
    assert!(
        pass(&mut cache, &dir)
            .changed
            .is_empty()
    );

    cache.invalidate();
    assert_eq!(
        pass(&mut cache, &dir).changed.len(),
        1
    );
}

#[test]
fn newest_files_are_offered_first() {
    let mut dir = Tree::new();
    dir.write("/root/old.jsonl", "x\n");
    dir.write("/root/new.jsonl", "y\n");

    let mut cache = ScanCache::new();
    let result = pass(&mut cache, &dir);
    assert!(
        result.changed.first().unwrap().ends_with("new.jsonl"),
        "got {:?}",
        result.changed
    );
}

#[test]
fn a_file_that_vanished_after_it_was_listed_is_forgotten() {
    let mut cache = ScanCache::new();
    let seen = Seen {
        size: 1,
        modified: None,
    };
    let first = cache.changed_since_last(&vec![("a".to_owned(), Some(seen))], true);
    assert_eq!(first.changed, vec!["a"]);
    assert_eq!(cache.known_files(), 1);
    let second = cache.changed_since_last(&vec![("a".to_owned(), None)], false);
    assert!(second.changed.is_empty());
    assert_eq!(cache.known_files(), 0);
}

#[test]
fn of_files_of_one_time_the_last_found_comes_first() {
    let sorted = sort_newest_first(vec![
        ("a".to_owned(), 1),
        ("b".to_owned(), 3),
        ("c".to_owned(), 1),
        ("d".to_owned(), 2),
    ]);
    let names: Vec<&str> = sorted.iter().map(|f| f.0.as_str()).collect();
    assert_eq!(names, vec!["b", "d", "c", "a"]);
}

#[test]
fn a_directory_that_disappears_is_a_change() {
    let mut cache = ScanCache::new();
    let both = vec![(ROOT.to_owned(), Some(1)), ("/root/x".to_owned(), Some(1))];
    assert!(cache.tree_changed(ROOT, &both));
    cache.relist(ROOT, Vec::new());
    assert!(!cache.tree_changed(ROOT, &both));
    let one = vec![(ROOT.to_owned(), Some(1))];
    assert!(cache.tree_changed(ROOT, &one));
    assert!(!cache.tree_changed(ROOT, &one));
}
