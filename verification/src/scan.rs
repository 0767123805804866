//! Deciding which files are worth reading again.
//!
//! A directory is listed again only when the modification time of some
//! directory in its tree moves, and a file is read again only when its size or
//! modification time moves. Whatever is decided here is a hint: a file wrongly
//! taken for unchanged is late, never lost.
use vstd::prelude::*;

use crate::assoc::Assoc;
use crate::measurement::clamp_u32;
use crate::text::{str_eq, texts, Text};

verus! {

/// What was last seen of a file. Times are nanoseconds since the epoch.
#[derive(Debug, Clone, Copy, PartialEq, Eq, Structural)]
pub struct Seen {
    pub size: u64,
    pub modified: Option<i128>,
}

/// Remembers what has already been examined.
#[derive(Debug, Clone, PartialEq)]
pub struct ScanCache {
    files: Assoc<Seen>,
    directories: Assoc<Option<i128>>,
    /// What was found under each root, newest first.
    listings: Assoc<Vec<String>>,
}

/// What a scan decided.
#[derive(Debug, Clone, PartialEq, Eq)]
pub struct ScanResult {
    /// Files that grew, shrank, or are new.
    pub changed: Vec<String>,
    /// How many files were considered and skipped.
    pub unchanged: u32,
    /// The tree itself was walked again.
    pub rewalked: bool,
}

/// The directories of a tree with their modification times, each once.
pub open spec fn each_once(dirs: Seq<(String, Option<i128>)>) -> bool {
    forall|i: int, j: int|
        0 <= i < j < dirs.len() ==> (#[trigger] dirs[i]).0@ != (#[trigger] dirs[j]).0@
}

/// The modification time of each directory of a tree.
pub open spec fn times_of(dirs: Seq<(String, Option<i128>)>) -> Map<Text, Option<i128>>
    decreases dirs.len(),
{
    if dirs.len() == 0 {
        Map::empty()
    } else {
        times_of(dirs.drop_last()).insert(dirs.last().0@, dirs.last().1)
    }
}

proof fn times_of_each(dirs: Seq<(String, Option<i128>)>)
    requires
        each_once(dirs),
    ensures
        forall|i: int|
            0 <= i < dirs.len() ==> times_of(dirs).contains_key((#[trigger] dirs[i]).0@)
                && times_of(dirs)[dirs[i].0@] == dirs[i].1,
        forall|k: Text| #[trigger]
            times_of(dirs).contains_key(k) ==> exists|i: int|
                0 <= i < dirs.len() && (#[trigger] dirs[i]).0@ == k,
    decreases dirs.len(),
{
    if dirs.len() > 0 {
        let d = dirs.drop_last();
        assert forall|i: int, j: int| 0 <= i < j < d.len() implies (#[trigger] d[i]).0@ != (
        #[trigger] d[j]).0@ by {
            assert(d[i] == dirs[i] && d[j] == dirs[j]);
        }
        times_of_each(d);
        assert forall|i: int| 0 <= i < dirs.len() implies times_of(dirs).contains_key(
            (#[trigger] dirs[i]).0@,
        ) && times_of(dirs)[dirs[i].0@] == dirs[i].1 by {
            if i < d.len() {
                assert(d[i] == dirs[i]);
                assert(dirs[i].0@ != dirs[dirs.len() - 1].0@);
            }
        }
        assert forall|k: Text| #[trigger] times_of(dirs).contains_key(k) implies exists|i: int|
            0 <= i < dirs.len() && (#[trigger] dirs[i]).0@ == k by {
            if k == dirs.last().0@ {
                assert(dirs[dirs.len() - 1].0@ == k);
            } else {
                assert(times_of(d).contains_key(k));
                let i = choose|i: int| 0 <= i < d.len() && (#[trigger] d[i]).0@ == k;
                assert(dirs[i] == d[i]);
            }
        }
    }
}

/// A list from newest to oldest with one more file: before the first that is
/// not newer.
pub open spec fn placed(v: Seq<(Text, i128)>, x: (Text, i128)) -> Seq<(Text, i128)>
    decreases v.len(),
{
    if v.len() == 0 {
        seq![x]
    } else if v[0].1 <= x.1 {
        seq![x] + v
    } else {
        seq![v[0]] + placed(v.drop_first(), x)
    }
}

/// Files from newest to oldest; of files of the same time, the one found last
/// comes first.
pub open spec fn newest_first(files: Seq<(Text, i128)>) -> Seq<(Text, i128)>
    decreases files.len(),
{
    if files.len() == 0 {
        Seq::empty()
    } else {
        placed(newest_first(files.drop_last()), files.last())
    }
}

/// Files and their times, as the contracts see them.
pub open spec fn timed(v: Seq<(String, i128)>) -> Seq<(Text, i128)> {
    v.map_values(|f: (String, i128)| (f.0@, f.1))
}

/// The paths of some files.
pub open spec fn paths_of(v: Seq<(Text, i128)>) -> Seq<Text> {
    v.map_values(|f: (Text, i128)| f.0)
}

proof fn placed_behind(v: Seq<(Text, i128)>, x: (Text, i128), i: int)
    requires
        0 <= i <= v.len(),
        forall|k: int| 0 <= k < i ==> (#[trigger] v[k]).1 > x.1,
        i < v.len() ==> v[i].1 <= x.1,
    ensures
        placed(v, x) == v.insert(i, x),
    decreases i,
{
    if i == 0 {
        if v.len() == 0 {
            assert(v.insert(0, x) =~= seq![x]);
        } else {
            assert(v.insert(0, x) =~= seq![x] + v);
        }
    } else {
        let d = v.drop_first();
        assert forall|k: int| 0 <= k < i - 1 implies (#[trigger] d[k]).1 > x.1 by {
            assert(d[k] == v[k + 1]);
        }
        assert(v[0].1 > x.1);
        placed_behind(d, x, i - 1);
        assert(v.insert(i, x) =~= seq![v[0]] + d.insert(i - 1, x));
    }
}

/// Order files from newest to oldest.
pub fn sort_newest_first(files: Vec<(String, i128)>) -> (r: Vec<(String, i128)>)
    ensures
        timed(r@) == newest_first(timed(files@)),
{
    let ghost all = timed(files@);
    let mut left = files;
    let mut out: Vec<(String, i128)> = Vec::new();
    let n: usize = left.len();
    let mut done: usize = 0;
    proof {
        assert(timed(out@) =~= Seq::empty());
        assert(timed(left@) =~= all.skip(0));
    }
    while done < n
        invariant
            n == all.len(),
            done <= n,
            left@.len() == n - done,
            timed(left@) == all.skip(done as int),
            timed(out@) == newest_first(all.take(done as int)),
        decreases n - done,
    {
        let ghost had = left@;
        let x = left.remove(0);
        let ghost item = (x.0@, x.1);
        let ghost sorted = timed(out@);
        proof {
            assert(all.skip(done as int)[0] == timed(had)[0]);
            assert forall|k: int| 0 <= k < left@.len() implies timed(left@)[k] == all.skip(
                done + 1,
            )[k] by {
                assert(left@[k] == had[k + 1]);
                assert(timed(had)[k + 1] == all.skip(done as int)[k + 1]);
            }
            assert(timed(left@) =~= all.skip(done + 1));
            assert(all.take(done + 1).drop_last() =~= all.take(done as int));
            assert(all.take(done + 1).last() == item);
        }
        let mut i: usize = 0;
        while i < out.len() && out[i].1 > x.1
            invariant
                i <= out.len(),
                sorted == timed(out@),
                item == (x.0@, x.1),
                forall|k: int| 0 <= k < i ==> (#[trigger] sorted[k]).1 > item.1,
            decreases out.len() - i,
        {
            proof {
                assert(sorted[i as int].1 == out@[i as int].1);
            }
            i += 1;
        }
        proof {
            if i < out@.len() {
                assert(sorted[i as int].1 == out@[i as int].1);
            }
            placed_behind(sorted, item, i as int);
        }
        out.insert(i, x);
        proof {
            assert(timed(out@) =~= sorted.insert(i as int, item));
        }
        done += 1;
    }
    proof {
        assert(all.take(done as int) =~= all);
    }
    out
}

/// What is remembered of files after looking at some of them. One that has
/// vanished is forgotten.
pub open spec fn files_after(m: Map<Text, Seen>, looked: Seq<(String, Option<Seen>)>) -> Map<
    Text,
    Seen,
>
    decreases looked.len(),
{
    if looked.len() == 0 {
        m
    } else {
        let before = files_after(m, looked.drop_last());
        match looked.last().1 {
            Some(now) => before.insert(looked.last().0@, now),
            None => before.remove(looked.last().0@),
        }
    }
}

/// A file is as it was last seen.
pub open spec fn is_unchanged(m: Map<Text, Seen>, path: Text, now: Seen) -> bool {
    m.contains_key(path) && m[path] == now
}

/// The files worth reading again, in the order looked at.
pub open spec fn changed_files(m: Map<Text, Seen>, looked: Seq<(String, Option<Seen>)>) -> Seq<
    Text,
>
    decreases looked.len(),
{
    if looked.len() == 0 {
        Seq::empty()
    } else {
        let before = changed_files(m, looked.drop_last());
        let known = files_after(m, looked.drop_last());
        match looked.last().1 {
            Some(now) => if is_unchanged(known, looked.last().0@, now) {
                before
            } else {
                before.push(looked.last().0@)
            },
            None => before,
        }
    }
}

/// How many files are as they were last seen.
pub open spec fn unchanged_files(m: Map<Text, Seen>, looked: Seq<(String, Option<Seen>)>) -> nat
    decreases looked.len(),
{
    if looked.len() == 0 {
        0
    } else {
        let known = files_after(m, looked.drop_last());
        unchanged_files(m, looked.drop_last()) + match looked.last().1 {
            Some(now) => if is_unchanged(known, looked.last().0@, now) {
                1nat
            } else {
                0nat
            },
            None => 0nat,
        }
    }
}

fn copy_texts(v: &Vec<String>) -> (r: Vec<String>)
    ensures
        texts(r@) == texts(v@),
{
    let mut out: Vec<String> = Vec::new();
    let mut i: usize = 0;
    while i < v.len()
        invariant
            i <= v.len(),
            out@.len() == i,
            forall|k: int| 0 <= k < i ==> (#[trigger] out@[k])@ == v@[k]@,
        decreases v.len() - i,
    {
        out.push(v[i].clone());
        i += 1;
    }
    proof {
        assert(texts(out@) =~= texts(v@));
    }
    out
}

fn same_time(a: Option<i128>, b: Option<i128>) -> (r: bool)
    ensures
        r == (a == b),
{
    match (a, b) {
        (Some(x), Some(y)) => x == y,
        (None, None) => true,
        _ => false,
    }
}

impl ScanCache {
    /// What is remembered of files.
    pub closed spec fn known(&self) -> Map<Text, Seen> {
        self.files@
    }

    /// The modification times of directories when last looked at.
    pub closed spec fn times(&self) -> Map<Text, Option<i128>> {
        self.directories@
    }

    /// What was found under each root.
    pub closed spec fn found(&self) -> Map<Text, Seq<Text>> {
        self.listings@.map_values(|v: Vec<String>| texts(v@))
    }

    /// What is remembered is well-formed.
    pub closed spec fn wf(&self) -> bool {
        self.files.wf() && self.directories.wf() && self.listings.wf()
    }

    pub fn new() -> (c: Self)
        ensures
            c.wf(),
            c.known() == Map::<Text, Seen>::empty(),
            c.times() == Map::<Text, Option<i128>>::empty(),
            c.found() == Map::<Text, Seq<Text>>::empty(),
    {
        let c = ScanCache {
            files: Assoc::new(),
            directories: Assoc::new(),
            listings: Assoc::new(),
        };
        proof {
            assert(c.found() =~= Map::<Text, Seq<Text>>::empty());
        }
        c
    }

    /// A root that is not a directory: the application is not installed, or has
    /// never run. What was found under it is forgotten, and nothing is offered.
    pub fn without_root(&mut self, root: &str) -> (r: ScanResult)
        requires
            old(self).wf(),
        ensures
            final(self).wf(),
            final(self).known() == old(self).known(),
            final(self).times() == old(self).times(),
            final(self).found() == old(self).found().remove(root@),
            r.changed@.len() == 0,
            r.unchanged == 0,
            !r.rewalked,
    {
        self.listings.remove(root);
        proof {
            assert(self.found() =~= old(self).found().remove(root@));
        }
        ScanResult { changed: Vec::new(), unchanged: 0, rewalked: false }
    }

    /// Whether a tree has to be walked again: it never was, or some directory
    /// in it is new, gone, or modified. The times are remembered either way.
    pub fn tree_changed(&mut self, root: &str, dirs: &Vec<(String, Option<i128>)>) -> (b: bool)
        requires
            old(self).wf(),
            each_once(dirs@),
        ensures
            final(self).wf(),
            final(self).known() == old(self).known(),
            final(self).found() == old(self).found(),
            final(self).times() == times_of(dirs@),
            b == (!old(self).found().contains_key(root@) || old(self).times() != times_of(dirs@)),
    {
        let unlisted = self.listings.get(root).is_none();
        let mut moved = false;
        let ghost old_times = self.times();
        let mut i: usize = 0;
        while i < dirs.len()
            invariant
                self.wf(),
                self.known() == old(self).known(),
                self.found() == old(self).found(),
                self.times() == old_times,
                i <= dirs.len(),
                moved == exists|k: int|
                    0 <= k < i && !(old_times.contains_key((#[trigger] dirs@[k]).0@)
                        && old_times[dirs@[k].0@] == dirs@[k].1),
            decreases dirs.len() - i,
        {
            let same = match self.directories.get(dirs[i].0.as_str()) {
                Some(t) => same_time(*t, dirs[i].1),
                None => false,
            };
            if !same {
                moved = true;
                proof {
                    let d = dirs@[i as int];
                    assert(!(old_times.contains_key(d.0@) && old_times[d.0@] == d.1));
                }
            }
            i += 1;
        }
        let mut gone = false;
        let old_dirs = self.directories.keys();
        let mut j: usize = 0;
        while j < old_dirs.len()
            invariant
                self.wf(),
                self.known() == old(self).known(),
                self.found() == old(self).found(),
                self.times() == old_times,
                j <= old_dirs.len(),
                gone == exists|k: int|
                    0 <= k < j && !is_among(dirs@, (#[trigger] old_dirs@[k])@),
            decreases old_dirs.len() - j,
        {
            if !among(dirs, old_dirs[j].as_str()) {
                gone = true;
                proof {
                    assert(!is_among(dirs@, old_dirs@[j as int]@));
                }
            }
            j += 1;
        }
        proof {
            times_of_each(dirs@);
            let now = times_of(dirs@);
            if !moved && !gone {
                assert forall|k: Text| #[trigger] old_times.contains_key(k) implies
                    now.contains_key(k) && now[k] == old_times[k] by {
                    let p = choose|p: int| 0 <= p < old_dirs@.len() && (#[trigger] old_dirs@[p])@
                        == k;
                    assert(is_among(dirs@, old_dirs@[p]@));
                    let q = choose|q: int| 0 <= q < dirs@.len() && (#[trigger] dirs@[q]).0@ == k;
                    assert(old_times[dirs@[q].0@] == dirs@[q].1);
                }
                assert forall|k: Text| #[trigger] now.contains_key(k) implies
                    old_times.contains_key(k) by {
                    let q = choose|q: int| 0 <= q < dirs@.len() && (#[trigger] dirs@[q]).0@ == k;
                    assert(old_times.contains_key(dirs@[q].0@));
                }
                assert(old_times =~= now);
            }
            if moved {
                let k = choose|k: int|
                    0 <= k < dirs@.len() && !(old_times.contains_key((#[trigger] dirs@[k]).0@)
                        && old_times[dirs@[k].0@] == dirs@[k].1);
                assert(now.contains_key(dirs@[k].0@));
            }
            if gone {
                let k = choose|k: int|
                    0 <= k < old_dirs@.len() && !is_among(dirs@, (#[trigger] old_dirs@[k])@);
                assert(old_times.contains_key(old_dirs@[k]@));
                if now.contains_key(old_dirs@[k]@) {
                    let q = choose|q: int|
                        0 <= q < dirs@.len() && (#[trigger] dirs@[q]).0@ == old_dirs@[k]@;
                    assert(is_among(dirs@, old_dirs@[k]@));
                }
            }
        }
        self.directories.clear();
        let mut k: usize = 0;
        while k < dirs.len()
            invariant
                self.wf(),
                self.known() == old(self).known(),
                self.found() == old(self).found(),
                k <= dirs.len(),
                self.times() == times_of(dirs@.take(k as int)),
            decreases dirs.len() - k,
        {
            proof {
                assert(dirs@.take(k + 1).drop_last() =~= dirs@.take(k as int));
            }
            self.directories.insert(dirs[k].0.clone(), dirs[k].1);
            k += 1;
        }
        proof {
            assert(dirs@.take(k as int) =~= dirs@);
        }
        unlisted || moved || gone
    }

    /// Remember what a walk found under a root, and hand it back from newest to
    /// oldest: what was written last is read first.
    pub fn relist(&mut self, root: &str, files: Vec<(String, i128)>) -> (r: Vec<String>)
        requires
            old(self).wf(),
        ensures
            final(self).wf(),
            final(self).known() == old(self).known(),
            final(self).times() == old(self).times(),
            texts(r@) == paths_of(newest_first(timed(files@))),
            final(self).found() == old(self).found().insert(root@, texts(r@)),
    {
        let sorted = sort_newest_first(files);
        let mut paths: Vec<String> = Vec::new();
        let mut i: usize = 0;
        while i < sorted.len()
            invariant
                i <= sorted.len(),
                paths@.len() == i,
                forall|k: int| 0 <= k < i ==> (#[trigger] paths@[k])@ == sorted@[k].0@,
            decreases sorted.len() - i,
        {
            paths.push(sorted[i].0.clone());
            i += 1;
        }
        proof {
            assert(texts(paths@) =~= paths_of(timed(sorted@)));
        }
        let kept = copy_texts(&paths);
        let ghost kept_texts = texts(kept@);
        self.listings.insert(root.to_owned(), kept);
        proof {
            assert(self.found() =~= old(self).found().insert(root@, kept_texts));
        }
        paths
    }

    /// What was last found under a root; nothing where it never was walked.
    pub fn listing(&self, root: &str) -> (r: Vec<String>)
        requires
            self.wf(),
        ensures
            texts(r@) == if self.found().contains_key(root@) {
                self.found()[root@]
            } else {
                Seq::empty()
            },
    {
        match self.listings.get(root) {
            Some(v) => copy_texts(v),
            None => {
                let v: Vec<String> = Vec::new();
                proof {
                    assert(texts(v@) =~= Seq::empty());
                }
                v
            },
        }
    }

    /// Look at the files of a listing, each with what it is like now or `None`
    /// where it has vanished: those that are as they were last seen are
    /// skipped, and the others are worth reading.
    pub fn changed_since_last(
        &mut self,
        looked: &Vec<(String, Option<Seen>)>,
        rewalked: bool,
    ) -> (r: ScanResult)
        requires
            old(self).wf(),
        ensures
            final(self).wf(),
            final(self).times() == old(self).times(),
            final(self).found() == old(self).found(),
            final(self).known() == files_after(old(self).known(), looked@),
            texts(r.changed@) == changed_files(old(self).known(), looked@),
            r.unchanged == clamp_u32(unchanged_files(old(self).known(), looked@)),
            r.rewalked == rewalked,
    {
        let ghost start = self.known();
        let mut changed: Vec<String> = Vec::new();
        let mut unchanged: u32 = 0;
        let mut i: usize = 0;
        proof {
            assert(texts(changed@) =~= Seq::empty());
        }
        while i < looked.len()
            invariant
                self.wf(),
                self.times() == old(self).times(),
                self.found() == old(self).found(),
                i <= looked.len(),
                self.known() == files_after(start, looked@.take(i as int)),
                texts(changed@) == changed_files(start, looked@.take(i as int)),
                unchanged == clamp_u32(unchanged_files(start, looked@.take(i as int))),
            decreases looked.len() - i,
        {
            let item = &looked[i];
            let ghost before = texts(changed@);
            proof {
                assert(looked@.take(i + 1).drop_last() =~= looked@.take(i as int));
                assert(looked@.take(i + 1).last() == *item);
            }
            match item.1 {
                None => {
                    self.files.remove(item.0.as_str());
                },
                Some(now) => {
                    let same = match self.files.get(item.0.as_str()) {
                        Some(previous) => previous.size == now.size && same_time(
                            previous.modified,
                            now.modified,
                        ),
                        None => false,
                    };
                    if same {
                        unchanged = unchanged.saturating_add(1);
                        proof {
                            assert(self.known().insert(item.0@, now) =~= self.known());
                        }
                    } else {
                        self.files.insert(item.0.clone(), now);
                        changed.push(item.0.clone());
                        proof {
                            assert(texts(changed@) =~= before.push(item.0@));
                        }
                    }
                },
            }
            i += 1;
        }
        proof {
            assert(looked@.take(i as int) =~= looked@);
        }
        ScanResult { changed, unchanged, rewalked }
    }

    /// Forget everything, so that the next pass examines everything again.
    pub fn invalidate(&mut self)
        requires
            old(self).wf(),
        ensures
            final(self).wf(),
            final(self).known() == Map::<Text, Seen>::empty(),
            final(self).times() == Map::<Text, Option<i128>>::empty(),
            final(self).found() == Map::<Text, Seq<Text>>::empty(),
    {
        self.files.clear();
        self.directories.clear();
        self.listings.clear();
        proof {
            assert(self.found() =~= Map::<Text, Seq<Text>>::empty());
        }
    }

    /// How many files are remembered.
    pub fn known_files(&self) -> (n: usize)
        requires
            self.wf(),
        ensures
            n == self.known().dom().len(),
    {
        self.files.len()
    }
}

/// A path is one of those of a tree's directories.
pub open spec fn is_among(dirs: Seq<(String, Option<i128>)>, path: Text) -> bool {
    exists|i: int| 0 <= i < dirs.len() && (#[trigger] dirs[i]).0@ == path
}

fn among(dirs: &Vec<(String, Option<i128>)>, path: &str) -> (b: bool)
    ensures
        b == is_among(dirs@, path@),
{
    let mut i: usize = 0;
    while i < dirs.len()
        invariant
            i <= dirs.len(),
            forall|k: int| 0 <= k < i ==> (#[trigger] dirs@[k]).0@ != path@,
        decreases dirs.len() - i,
    {
        if str_eq(dirs[i].0.as_str(), path) {
            proof {
                assert(dirs@[i as int].0@ == path@);
            }
            return true;
        }
        i += 1;
    }
    false
}

/// Files of a listing, each named once.
pub open spec fn looked_once(looked: Seq<(String, Option<Seen>)>) -> bool {
    forall|i: int, j: int|
        0 <= i < j < looked.len() ==> (#[trigger] looked[i]).0@ != (#[trigger] looked[j]).0@
}

/// After looking at files, what is remembered of each is what it was like.
pub proof fn law_looking_remembers(m: Map<Text, Seen>, looked: Seq<(String, Option<Seen>)>, i: int)
    requires
        looked_once(looked),
        0 <= i < looked.len(),
    ensures
        match looked[i].1 {
            Some(now) => is_unchanged(files_after(m, looked), looked[i].0@, now),
            None => !files_after(m, looked).contains_key(looked[i].0@),
        },
    decreases looked.len(),
{
    if i < looked.len() - 1 {
        let d = looked.drop_last();
        assert forall|a: int, b: int| 0 <= a < b < d.len() implies (#[trigger] d[a]).0@ != (
        #[trigger] d[b]).0@ by {
            assert(d[a] == looked[a] && d[b] == looked[b]);
        }
        assert(d[i] == looked[i]);
        law_looking_remembers(m, d, i);
        assert(looked[i].0@ != looked[looked.len() - 1].0@);
    }
}

/// A second look at an idle tree finds nothing to do.
pub proof fn law_idle_tree_has_nothing_to_read(
    m: Map<Text, Seen>,
    looked: Seq<(String, Option<Seen>)>,
)
    requires
        looked_once(looked),
    ensures
        changed_files(files_after(m, looked), looked) == Seq::<Text>::empty(),
{
    idle_prefix(files_after(m, looked), looked, looked.len() as int, m);
    assert(looked.take(looked.len() as int) =~= looked);
}

proof fn idle_prefix(
    known: Map<Text, Seen>,
    looked: Seq<(String, Option<Seen>)>,
    n: int,
    m: Map<Text, Seen>,
)
    requires
        looked_once(looked),
        known == files_after(m, looked),
        0 <= n <= looked.len(),
    ensures
        changed_files(known, looked.take(n)) == Seq::<Text>::empty(),
        files_after(known, looked.take(n)) == known,
    decreases n,
{
    if n > 0 {
        idle_prefix(known, looked, n - 1, m);
        assert(looked.take(n).drop_last() =~= looked.take(n - 1));
        assert(looked.take(n).last() == looked[n - 1]);
        law_looking_remembers(m, looked, n - 1);
        match looked[n - 1].1 {
            Some(now) => {
                assert(known.insert(looked[n - 1].0@, now) =~= known);
            },
            None => {
                assert(known.remove(looked[n - 1].0@) =~= known);
            },
        }
    }
}

/// A file that is new, or whose size or time moved since it was last seen, is
/// offered.
pub proof fn law_moved_files_are_offered(
    m: Map<Text, Seen>,
    looked: Seq<(String, Option<Seen>)>,
    i: int,
)
    requires
        looked_once(looked),
        0 <= i < looked.len(),
        looked[i].1.is_some(),
        !is_unchanged(m, looked[i].0@, looked[i].1.unwrap()),
    ensures
        changed_files(m, looked).contains(looked[i].0@),
    decreases looked.len(),
{
    let d = looked.drop_last();
    assert forall|a: int, b: int| 0 <= a < b < d.len() implies (#[trigger] d[a]).0@ != (
    #[trigger] d[b]).0@ by {
        assert(d[a] == looked[a] && d[b] == looked[b]);
    }
    if i < looked.len() - 1 {
        assert(d[i] == looked[i]);
        law_moved_files_are_offered(m, d, i);
        let before = changed_files(m, d);
        let k = choose|k: int| 0 <= k < before.len() && before[k] == looked[i].0@;
        assert(changed_files(m, looked)[k] == looked[i].0@);
    } else {
        untouched(m, d, looked[i].0@, looked);
        let c = changed_files(m, looked);
        assert(c[c.len() - 1] == looked[i].0@);
    }
}

proof fn untouched(
    m: Map<Text, Seen>,
    d: Seq<(String, Option<Seen>)>,
    path: Text,
    looked: Seq<(String, Option<Seen>)>,
)
    requires
        looked_once(looked),
        looked.len() > d.len(),
        d == looked.take(d.len() as int),
        path == looked[looked.len() - 1].0@,
    ensures
        files_after(m, d).contains_key(path) == m.contains_key(path),
        m.contains_key(path) ==> files_after(m, d)[path] == m[path],
    decreases d.len(),
{
    if d.len() > 0 {
        let e = d.drop_last();
        assert(e =~= looked.take(e.len() as int));
        untouched(m, e, path, looked);
        assert(d.last() == looked[d.len() - 1]);
        assert(looked[d.len() - 1].0@ != looked[looked.len() - 1].0@);
    }
}

/// Files are offered from newest to oldest.
pub proof fn law_newest_files_come_first(files: Seq<(Text, i128)>, i: int, j: int)
    requires
        0 <= i < j < newest_first(files).len(),
    ensures
        newest_first(files)[i].1 >= newest_first(files)[j].1,
    decreases files.len(),
{
    if files.len() > 0 {
        let v = newest_first(files.drop_last());
        assert forall|a: int, b: int| 0 <= a < b < v.len() implies v[a].1 >= v[b].1 by {
            law_newest_files_come_first(files.drop_last(), a, b);
        }
        placed_keeps_order(v, files.last(), i, j);
    }
}

proof fn placed_keeps_order(v: Seq<(Text, i128)>, x: (Text, i128), i: int, j: int)
    requires
        forall|a: int, b: int| 0 <= a < b < v.len() ==> v[a].1 >= v[b].1,
        0 <= i < j < placed(v, x).len(),
    ensures
        placed(v, x)[i].1 >= placed(v, x)[j].1,
        placed(v, x).len() == v.len() + 1,
        forall|a: int|
            0 <= a < placed(v, x).len() ==> (#[trigger] placed(v, x)[a]).1 <= x.1 || exists|b: int|
                0 <= b < v.len() && v[b] == placed(v, x)[a],
    decreases v.len(),
{
    if v.len() > 0 && v[0].1 > x.1 {
        let d = v.drop_first();
        assert forall|a: int, b: int| 0 <= a < b < d.len() implies d[a].1 >= d[b].1 by {
            assert(v[a + 1].1 >= v[b + 1].1);
        }
        let p = placed(d, x);
        placed_len(d, x);
        if p.len() >= 2 {
            placed_keeps_order(d, x, 0, 1);
        }
        if i > 0 {
            placed_keeps_order(d, x, i - 1, j - 1);
        } else {
            assert(placed(v, x)[j] == p[j - 1]);
            if p[j - 1].1 > x.1 {
                if p.len() < 2 {
                    assert(d.len() == 0);
                } else {
                    let b = choose|b: int| 0 <= b < d.len() && d[b] == p[j - 1];
                    assert(d[b] == v[b + 1]);
                }
            }
        }
        assert forall|a: int| 0 <= a < placed(v, x).len() implies (
        #[trigger] placed(v, x)[a]).1 <= x.1 || exists|b: int|
            0 <= b < v.len() && v[b] == placed(v, x)[a] by {
            if a == 0 {
                assert(v[0] == placed(v, x)[0]);
            } else {
                assert(placed(v, x)[a] == p[a - 1]);
                if p[a - 1].1 > x.1 {
                    if p.len() < 2 {
                        assert(d.len() == 0);
                    } else {
                        let b = choose|b: int| 0 <= b < d.len() && d[b] == p[a - 1];
                        assert(v[b + 1] == placed(v, x)[a]);
                    }
                }
            }
        }
    } else if v.len() > 0 {
        assert forall|a: int| 0 <= a < placed(v, x).len() implies (
        #[trigger] placed(v, x)[a]).1 <= x.1 || exists|b: int|
            0 <= b < v.len() && v[b] == placed(v, x)[a] by {
            if a > 0 {
                assert(v[a - 1] == placed(v, x)[a]);
            }
        }
        if i > 0 {
            assert(v[i - 1].1 >= v[j - 1].1);
        } else {
            assert(placed(v, x)[j] == v[j - 1]);
            if j > 1 {
                assert(v[0].1 >= v[j - 1].1);
            }
        }
    }
}

proof fn placed_len(v: Seq<(Text, i128)>, x: (Text, i128))
    ensures
        placed(v, x).len() == v.len() + 1,
    decreases v.len(),
{
    if v.len() > 0 && v[0].1 > x.1 {
        placed_len(v.drop_first(), x);
    }
}

proof fn placed_keeps(v: Seq<(Text, i128)>, x: (Text, i128))
    ensures
        placed(v, x).to_multiset() == v.to_multiset().insert(x),
    decreases v.len(),
{
    broadcast use vstd::seq_lib::group_to_multiset_ensures;

    let r = placed(v, x);
    if v.len() == 0 {
        assert(r =~= v.push(x));
    } else if v[0].1 <= x.1 {
        assert(r =~= v.insert(0, x));
        assert(seq![x] + v == r);
        vstd::seq_lib::lemma_multiset_commutative(seq![x], v);
        assert(seq![x] =~= Seq::empty().push(x));
        assert(r.to_multiset() =~= v.to_multiset().insert(x));
    } else {
        let d = v.drop_first();
        placed_keeps(d, x);
        vstd::seq_lib::lemma_multiset_commutative(seq![v[0]], placed(d, x));
        vstd::seq_lib::lemma_multiset_commutative(seq![v[0]], d);
        assert(seq![v[0]] + d =~= v);
        assert(r.to_multiset() =~= v.to_multiset().insert(x));
    }
}

/// Ordering files by time neither loses nor invents one.
pub proof fn law_ordering_keeps_every_file(files: Seq<(Text, i128)>)
    ensures
        newest_first(files).to_multiset() == files.to_multiset(),
        newest_first(files).len() == files.len(),
    decreases files.len(),
{
    broadcast use vstd::seq_lib::group_to_multiset_ensures;

    if files.len() > 0 {
        let d = files.drop_last();
        law_ordering_keeps_every_file(d);
        placed_keeps(newest_first(d), files.last());
        assert(d.push(files.last()) =~= files);
        assert(newest_first(files).to_multiset() =~= files.to_multiset());
    } else {
        assert(newest_first(files) =~= files);
    }
    assert(newest_first(files).to_multiset().len() == newest_first(files).len());
    assert(files.to_multiset().len() == files.len());
}

/// A file that is looked at is offered, skipped or gone: it is skipped exactly
/// where it has the size and the time that were last seen, and gone where it is
/// not there any more.
pub proof fn law_each_file_is_offered_or_skipped(
    m: Map<Text, Seen>,
    looked: Seq<(String, Option<Seen>)>,
    path: String,
    now: Seen,
)
    ensures
        changed_files(m, Seq::empty()) == Seq::<Text>::empty(),
        unchanged_files(m, Seq::empty()) == 0,
        files_after(m, Seq::empty()) == m,
        ({
            let known = files_after(m, looked);
            let seen = looked.push((path, Some(now)));
            let same = known.contains_key(path@) && known[path@].size == now.size
                && known[path@].modified == now.modified;
            &&& same ==> changed_files(m, seen) == changed_files(m, looked) && unchanged_files(
                m,
                seen,
            ) == unchanged_files(m, looked) + 1
            &&& !same ==> changed_files(m, seen) == changed_files(m, looked).push(path@)
                && unchanged_files(m, seen) == unchanged_files(m, looked)
            &&& files_after(m, seen).contains_key(path@) && files_after(m, seen)[path@] == now
            &&& forall|other: Text|
                other != path@ ==> #[trigger] files_after(m, seen).contains_key(other)
                    == known.contains_key(other)
        }),
        ({
            let gone = looked.push((path, None::<Seen>));
            &&& changed_files(m, gone) == changed_files(m, looked)
            &&& unchanged_files(m, gone) == unchanged_files(m, looked)
            &&& !files_after(m, gone).contains_key(path@)
        }),
{
    assert(looked.push((path, Some(now))).drop_last() =~= looked);
    assert(looked.push((path, None::<Seen>)).drop_last() =~= looked);
}

/// A tree's directories are remembered with their own times, and no others.
pub proof fn law_directories_keep_their_times(dirs: Seq<(String, Option<i128>)>, i: int, k: Text)
    requires
        each_once(dirs),
    ensures
        0 <= i < dirs.len() ==> times_of(dirs).contains_key(dirs[i].0@) && times_of(dirs)[dirs[i].0@]
            == dirs[i].1,
        times_of(dirs).contains_key(k) ==> exists|j: int|
            0 <= j < dirs.len() && (#[trigger] dirs[j]).0@ == k,
{
    times_of_each(dirs);
}

} // verus!
