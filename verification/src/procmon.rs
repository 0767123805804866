//! Processes: who they are, and what belongs to them.
//!
//! A process id is reused, so every reference here is the id together with the
//! time the process began: an unrelated process that inherits the number is not
//! mistaken for the one that was meant.
use vstd::prelude::*;

use crate::measurement::{clamp_u32, clamp_u64};
use crate::text::copy_opt;

verus! {

/// A process identity that survives the reuse of its number.
#[derive(Debug, Clone, Copy, PartialEq, Eq, Hash, Structural)]
pub struct ProcKey {
    pub pid: u32,
    /// Seconds since the epoch, as the system reports the process's start.
    pub start_time: u64,
}

impl ProcKey {
    pub fn new(pid: u32, start_time: u64) -> (k: Self)
        ensures
            k == (ProcKey { pid, start_time }),
    {
        ProcKey { pid, start_time }
    }
}

/// What is known of one process.
#[derive(Debug, Clone, PartialEq, Eq)]
pub struct ProcessInfo {
    pub key: ProcKey,
    pub parent: Option<u32>,
    pub name: String,
    pub executable: Option<String>,
    pub memory_bytes: u64,
}

impl ProcessInfo {
    /// A second one that says the same.
    pub fn copy(&self) -> (p: ProcessInfo)
        ensures
            p == *self,
    {
        ProcessInfo {
            key: self.key,
            parent: self.parent,
            name: self.name.clone(),
            executable: copy_opt(&self.executable),
            memory_bytes: self.memory_bytes,
        }
    }
}

/// Resource use of a process and everything under it.
#[derive(Debug, Clone, Copy, PartialEq, Eq, Structural)]
pub struct TreeUsage {
    pub process_count: u32,
    pub memory_bytes: u64,
}

impl Default for TreeUsage {
    fn default() -> (u: Self)
        ensures
            u == (TreeUsage { process_count: 0, memory_bytes: 0 }),
    {
        TreeUsage { process_count: 0, memory_bytes: 0 }
    }
}

/// Readings closer together than this, in milliseconds, would yield noise
/// rather than resolution.
pub const MIN_INTERVAL_MS: u64 = 500;

/// A process of this number is among these.
pub open spec fn has_pid(ps: Seq<ProcessInfo>, pid: u32) -> bool {
    exists|i: int| 0 <= i < ps.len() && (#[trigger] ps[i]).key.pid == pid
}

/// No number stands for two processes.
pub open spec fn distinct_pids(ps: Seq<ProcessInfo>) -> bool {
    forall|i: int, j: int|
        0 <= i < ps.len() && 0 <= j < ps.len() && (#[trigger] ps[i]).key.pid == (
        #[trigger] ps[j]).key.pid ==> i == j
}

/// The processes of a reading, the first of each number.
pub open spec fn one_of_each(ps: Seq<ProcessInfo>) -> Seq<ProcessInfo>
    decreases ps.len(),
{
    if ps.len() == 0 {
        Seq::empty()
    } else {
        let before = one_of_each(ps.drop_last());
        if has_pid(before, ps.last().key.pid) {
            before
        } else {
            before.push(ps.last())
        }
    }
}

/// The process of a number.
pub open spec fn process_of(ps: Seq<ProcessInfo>, pid: u32) -> Option<ProcessInfo>
    decreases ps.len(),
{
    if ps.len() == 0 {
        None
    } else if ps[0].key.pid == pid {
        Some(ps[0])
    } else {
        process_of(ps.drop_first(), pid)
    }
}

/// The process of an identity: one of that number which began then.
pub open spec fn same_process(ps: Seq<ProcessInfo>, key: ProcKey) -> Option<ProcessInfo> {
    match process_of(ps, key.pid) {
        Some(p) => if p.key.start_time == key.start_time {
            Some(p)
        } else {
            None
        },
        None => None,
    }
}

/// A number is reached from a root by going from parent to child at most
/// `depth` times.
pub open spec fn reached(ps: Seq<ProcessInfo>, root: u32, pid: u32, depth: nat) -> bool
    decreases depth,
{
    pid == root || (depth > 0 && exists|i: int|
        0 <= i < ps.len() && (#[trigger] ps[i]).key.pid == pid && ps[i].parent.is_some() && reached(
            ps,
            root,
            ps[i].parent.unwrap(),
            (depth - 1) as nat,
        ))
}

/// A number belongs to the tree under a root.
pub open spec fn in_tree(ps: Seq<ProcessInfo>, root: u32, pid: u32) -> bool {
    exists|depth: nat| reached(ps, root, pid, depth)
}

/// The processes of the tree under an identity; none where it is not alive.
pub open spec fn tree_of(ps: Seq<ProcessInfo>, root: ProcKey) -> Seq<ProcessInfo> {
    if same_process(ps, root).is_some() {
        ps.filter(|p: ProcessInfo| in_tree(ps, root.pid, p.key.pid))
    } else {
        Seq::empty()
    }
}

/// The memory of a list of processes.
pub open spec fn memory_of(ps: Seq<ProcessInfo>) -> nat
    decreases ps.len(),
{
    if ps.len() == 0 {
        0
    } else {
        memory_of(ps.drop_last()) + ps.last().memory_bytes as nat
    }
}

proof fn process_at(ps: Seq<ProcessInfo>, i: int)
    requires
        distinct_pids(ps),
        0 <= i < ps.len(),
    ensures
        process_of(ps, ps[i].key.pid) == Some(ps[i]),
    decreases ps.len(),
{
    if i > 0 {
        assert(ps[0].key.pid != ps[i].key.pid);
        let rest = ps.drop_first();
        assert forall|a: int, b: int|
            0 <= a < rest.len() && 0 <= b < rest.len() && (#[trigger] rest[a]).key.pid == (
            #[trigger] rest[b]).key.pid implies a == b by {
            assert(rest[a] == ps[a + 1]);
            assert(rest[b] == ps[b + 1]);
        }
        assert(rest[i - 1] == ps[i]);
        process_at(rest, i - 1);
    }
}

proof fn no_process(ps: Seq<ProcessInfo>, pid: u32)
    ensures
        process_of(ps, pid).is_some() == has_pid(ps, pid),
        process_of(ps, pid).is_some() ==> process_of(ps, pid).unwrap().key.pid == pid,
    decreases ps.len(),
{
    if ps.len() > 0 {
        let rest = ps.drop_first();
        no_process(rest, pid);
        if has_pid(rest, pid) {
            let i = choose|i: int| 0 <= i < rest.len() && (#[trigger] rest[i]).key.pid == pid;
            assert(ps[i + 1].key.pid == pid);
        }
        if has_pid(ps, pid) && ps[0].key.pid != pid {
            let i = choose|i: int| 0 <= i < ps.len() && (#[trigger] ps[i]).key.pid == pid;
            assert(rest[i - 1].key.pid == pid);
        }
    }
}

/// A child of the tree is in the tree.
pub proof fn law_children_follow_their_parent(ps: Seq<ProcessInfo>, root: u32, i: int)
    requires
        0 <= i < ps.len(),
        ps[i].parent.is_some(),
        in_tree(ps, root, ps[i].parent.unwrap()),
    ensures
        in_tree(ps, root, ps[i].key.pid),
{
    let d = choose|d: nat| reached(ps, root, ps[i].parent.unwrap(), d);
    assert(reached(ps, root, ps[i].key.pid, d + 1));
}

/// Nothing is in the tree that is not the root or the child of something in it:
/// a set that holds the root and its members' children holds the whole tree.
pub proof fn law_tree_is_the_smallest(ps: Seq<ProcessInfo>, root: u32, members: Set<u32>, pid: u32)
    requires
        members.contains(root),
        forall|i: int|
            0 <= i < ps.len() && (#[trigger] ps[i]).parent.is_some() && members.contains(
                ps[i].parent.unwrap(),
            ) ==> members.contains(ps[i].key.pid),
        in_tree(ps, root, pid),
    ensures
        members.contains(pid),
{
    let d = choose|d: nat| reached(ps, root, pid, d);
    closed_set_holds(ps, root, members, pid, d);
}

proof fn closed_set_holds(
    ps: Seq<ProcessInfo>,
    root: u32,
    members: Set<u32>,
    pid: u32,
    depth: nat,
)
    requires
        members.contains(root),
        forall|i: int|
            0 <= i < ps.len() && (#[trigger] ps[i]).parent.is_some() && members.contains(
                ps[i].parent.unwrap(),
            ) ==> members.contains(ps[i].key.pid),
        reached(ps, root, pid, depth),
    ensures
        members.contains(pid),
    decreases depth,
{
    if pid != root {
        let i = choose|i: int|
            0 <= i < ps.len() && (#[trigger] ps[i]).key.pid == pid && ps[i].parent.is_some()
                && reached(ps, root, ps[i].parent.unwrap(), (depth - 1) as nat);
        closed_set_holds(ps, root, members, ps[i].parent.unwrap(), (depth - 1) as nat);
    }
}

/// A living process is in its own tree.
pub proof fn law_root_is_in_its_tree(ps: Seq<ProcessInfo>, root: ProcKey)
    requires
        same_process(ps, root).is_some(),
    ensures
        tree_of(ps, root).contains(same_process(ps, root).unwrap()),
{
    no_process(ps, root.pid);
    assert(reached(ps, root.pid, root.pid, 0));
    let p = process_of(ps, root.pid).unwrap();
    first_is_member(ps, root.pid);
    let keep = |p: ProcessInfo| in_tree(ps, root.pid, p.key.pid);
    let i = choose|i: int| 0 <= i < ps.len() && ps[i] == p;
    ps.filter_lemma(keep);
    assert(keep(ps[i]));
    assert(ps.filter(keep).contains(ps[i]));
}

proof fn first_is_member(ps: Seq<ProcessInfo>, pid: u32)
    ensures
        process_of(ps, pid).is_some() ==> ps.contains(process_of(ps, pid).unwrap()),
    decreases ps.len(),
{
    if ps.len() > 0 {
        if ps[0].key.pid == pid {
            assert(ps.contains(ps[0]));
        } else {
            let rest = ps.drop_first();
            first_is_member(rest, pid);
            if process_of(rest, pid).is_some() {
                let p = process_of(rest, pid).unwrap();
                let i = choose|i: int| 0 <= i < rest.len() && rest[i] == p;
                assert(ps[i + 1] == p);
            }
        }
    }
}

/// A number that has passed to another process no longer names the first one:
/// the tree of what has ended is empty, never another's.
pub proof fn law_reused_number_is_another_process(ps: Seq<ProcessInfo>, key: ProcKey)
    requires
        match process_of(ps, key.pid) {
            Some(p) => p.key.start_time != key.start_time,
            None => true,
        },
    ensures
        same_process(ps, key).is_none(),
        tree_of(ps, key) == Seq::<ProcessInfo>::empty(),
{
}

/// How many rows are not marked yet.
spec fn unmarked(marks: Seq<bool>) -> nat
    decreases marks.len(),
{
    if marks.len() == 0 {
        0
    } else {
        unmarked(marks.drop_last()) + if marks.last() {
            0nat
        } else {
            1nat
        }
    }
}

proof fn marking_leaves_less(marks: Seq<bool>, i: int)
    requires
        0 <= i < marks.len(),
        !marks[i],
    ensures
        unmarked(marks.update(i, true)) < unmarked(marks),
    decreases marks.len(),
{
    let after = marks.update(i, true);
    if i == marks.len() - 1 {
        assert(after.drop_last() =~= marks.drop_last());
    } else {
        assert(after.drop_last() =~= marks.drop_last().update(i, true));
        marking_leaves_less(marks.drop_last(), i);
    }
}

/// Reads process state: the processes of the latest reading.
#[derive(Debug)]
pub struct ProcessMonitor {
    processes: Vec<ProcessInfo>,
}

impl View for ProcessMonitor {
    type V = Seq<ProcessInfo>;

    closed spec fn view(&self) -> Seq<ProcessInfo> {
        self.processes@
    }
}

impl Default for ProcessMonitor {
    fn default() -> (m: Self)
        ensures
            m@ == Seq::<ProcessInfo>::empty(),
    {
        ProcessMonitor::new()
    }
}

impl ProcessMonitor {
    #[verifier::type_invariant]
    spec fn distinct(&self) -> bool {
        distinct_pids(self.processes@)
    }

    pub fn new() -> (m: Self)
        ensures
            m@ == Seq::<ProcessInfo>::empty(),
    {
        ProcessMonitor { processes: Vec::new() }
    }

    /// Whether it is time to read again, so many milliseconds after the latest
    /// reading.
    pub fn is_due(since_last_ms: Option<u64>) -> (b: bool)
        ensures
            b == match since_last_ms {
                Some(ms) => ms >= MIN_INTERVAL_MS,
                None => true,
            },
            b == due(since_last_ms),
    {
        match since_last_ms {
            Some(ms) => ms >= MIN_INTERVAL_MS,
            None => true,
        }
    }

    /// Take a new reading.
    pub fn refresh(&mut self, processes: Vec<ProcessInfo>)
        ensures
            final(self)@ == one_of_each(processes@),
            distinct_pids(final(self)@),
    {
        let mut kept: Vec<ProcessInfo> = Vec::new();
        let n: usize = processes.len();
        let mut i: usize = 0;
        while i < n
            invariant
                n == processes@.len(),
                i <= n,
                kept@ == one_of_each(processes@.take(i as int)),
                distinct_pids(kept@),
            decreases n - i,
        {
            proof {
                assert(processes@.take(i + 1).drop_last() =~= processes@.take(i as int));
            }
            let p = &processes[i];
            if position(&kept, p.key.pid).is_none() {
                kept.push(p.copy());
            }
            i += 1;
        }
        proof {
            assert(processes@.take(n as int) =~= processes@);
        }
        self.processes = kept;
    }

    /// Look a process up, making sure that it is the same one: `None` where the
    /// number belongs to something else.
    pub fn get(&self, key: ProcKey) -> (r: Option<ProcessInfo>)
        ensures
            r == same_process(self@, key),
    {
        match self.identify(key.pid) {
            Some(p) => {
                if p.key.start_time != key.start_time {
                    return None;
                }
                Some(p)
            },
            None => None,
        }
    }

    /// Is this very process still running?
    pub fn is_alive(&self, key: ProcKey) -> (b: bool)
        ensures
            b == same_process(self@, key).is_some(),
    {
        self.get(key).is_some()
    }

    /// The running process of a number, with its full identity.
    pub fn identify(&self, pid: u32) -> (r: Option<ProcessInfo>)
        ensures
            r == process_of(self@, pid),
    {
        proof {
            use_type_invariant(self);
            no_process(self@, pid);
        }
        match position(&self.processes, pid) {
            Some(i) => {
                proof {
                    process_at(self@, i as int);
                }
                Some(self.processes[i].copy())
            },
            None => None,
        }
    }

    /// Every process of the tree under a root, the root included.
    pub fn descendants(&self, root: ProcKey) -> (r: Vec<ProcessInfo>)
        ensures
            r@ == tree_of(self@, root),
    {
        if !self.is_alive(root) {
            return Vec::new();
        }
        proof {
            use_type_invariant(self);
            no_process(self@, root.pid);
        }
        let ghost ps = self@;
        let marks = mark_tree(&self.processes, root.pid);
        let n: usize = self.processes.len();
        let mut r: Vec<ProcessInfo> = Vec::new();
        let ghost keep = |p: ProcessInfo| in_tree(ps, root.pid, p.key.pid);
        let mut i: usize = 0;
        proof {
            assert(ps.take(0).filter(keep) =~= Seq::<ProcessInfo>::empty()) by {
                reveal(Seq::filter);
            }
        }
        while i < n
            invariant
                n == self.processes@.len(),
                ps == self.processes@,
                marks@.len() == n,
                i <= n,
                keep == (|p: ProcessInfo| in_tree(ps, root.pid, p.key.pid)),
                forall|k: int|
                    0 <= k < n ==> #[trigger] marks@[k] == in_tree(ps, root.pid, ps[k].key.pid),
                r@ == ps.take(i as int).filter(keep),
            decreases n - i,
        {
            proof {
                reveal(Seq::filter);
                assert(ps.take(i + 1).drop_last() =~= ps.take(i as int));
                assert(ps.take(i + 1).last() == ps[i as int]);
                assert(marks@[i as int] == keep(ps[i as int]));
            }
            if marks[i] {
                r.push(self.processes[i].copy());
            }
            i += 1;
        }
        proof {
            assert(ps.take(n as int) =~= ps);
        }
        r
    }

    /// Resource use of a whole tree.
    pub fn tree_usage(&self, root: ProcKey) -> (u: TreeUsage)
        ensures
            u == (TreeUsage {
                process_count: clamp_u32(tree_of(self@, root).len()),
                memory_bytes: clamp_u64(memory_of(tree_of(self@, root))),
            }),
    {
        let members = self.descendants(root);
        let n: usize = members.len();
        let mut memory: u64 = 0;
        let mut i: usize = 0;
        while i < n
            invariant
                n == members@.len(),
                i <= n,
                memory == clamp_u64(memory_of(members@.take(i as int))),
            decreases n - i,
        {
            proof {
                assert(members@.take(i + 1).drop_last() =~= members@.take(i as int));
            }
            memory = memory.saturating_add(members[i].memory_bytes);
            i += 1;
        }
        proof {
            assert(members@.take(n as int) =~= members@);
        }
        let process_count: u32 = if n <= u32::MAX as usize {
            n as u32
        } else {
            u32::MAX
        };
        TreeUsage { process_count, memory_bytes: memory }
    }

    /// The process that is running this, so that the monitor's own cost is
    /// visible rather than supposed.
    pub fn own_usage(&self, own_pid: u32) -> (r: Option<ProcessInfo>)
        ensures
            r == process_of(self@, own_pid),
    {
        self.identify(own_pid)
    }
}

/// Where the process of a number stands.
fn position(ps: &Vec<ProcessInfo>, pid: u32) -> (r: Option<usize>)
    ensures
        match r {
            Some(i) => i < ps@.len() && ps@[i as int].key.pid == pid,
            None => !has_pid(ps@, pid),
        },
{
    let n: usize = ps.len();
    let mut i: usize = 0;
    while i < n
        invariant
            n == ps@.len(),
            i <= n,
            forall|k: int| 0 <= k < i ==> (#[trigger] ps@[k]).key.pid != pid,
        decreases n - i,
    {
        if ps[i].key.pid == pid {
            return Some(i);
        }
        i += 1;
    }
    None
}

/// Mark the processes of a tree. A child may stand before its parent, so the
/// list is gone over until nothing more is found.
fn mark_tree(ps: &Vec<ProcessInfo>, root: u32) -> (marks: Vec<bool>)
    requires
        distinct_pids(ps@),
        has_pid(ps@, root),
    ensures
        marks@.len() == ps@.len(),
        forall|k: int|
            0 <= k < ps@.len() ==> #[trigger] marks@[k] == in_tree(ps@, root, ps@[k].key.pid),
{
    let n: usize = ps.len();
    let mut marks: Vec<bool> = Vec::new();
    let mut i: usize = 0;
    while i < n
        invariant
            n == ps@.len(),
            i <= n,
            marks@.len() == i,
            forall|k: int| 0 <= k < i ==> #[trigger] marks@[k] == (ps@[k].key.pid == root),
        decreases n - i,
    {
        marks.push(ps[i].key.pid == root);
        i += 1;
    }
    proof {
        assert forall|k: int| 0 <= k < n && #[trigger] marks@[k] implies in_tree(
            ps@,
            root,
            ps@[k].key.pid,
        ) by {
            assert(reached(ps@, root, ps@[k].key.pid, 0));
        }
    }
    let mut grew = true;
    while grew
        invariant
            n == ps@.len(),
            marks@.len() == n,
            distinct_pids(ps@),
            has_pid(ps@, root),
            forall|k: int| 0 <= k < n && ps@[k].key.pid == root ==> #[trigger] marks@[k],
            forall|k: int|
                0 <= k < n && #[trigger] marks@[k] ==> in_tree(ps@, root, ps@[k].key.pid),
            !grew ==> forall|k: int|
                0 <= k < n && !(#[trigger] marks@[k]) ==> !has_marked_parent(ps@, marks@, k),
        decreases unmarked(marks@), grew as int,
    {
        grew = false;
        let ghost start = marks@;
        let mut j: usize = 0;
        while j < n
            invariant
                n == ps@.len(),
                marks@.len() == n,
                j <= n,
                distinct_pids(ps@),
                forall|k: int| 0 <= k < n && ps@[k].key.pid == root ==> #[trigger] marks@[k],
                forall|k: int|
                    0 <= k < n && #[trigger] marks@[k] ==> in_tree(ps@, root, ps@[k].key.pid),
                !grew ==> marks@ == start,
                grew ==> unmarked(marks@) < unmarked(start),
                !grew ==> forall|k: int|
                    0 <= k < j && !(#[trigger] marks@[k]) ==> !has_marked_parent(
                        ps@,
                        marks@,
                        k,
                    ),
            decreases n - j,
        {
            if !marks[j] {
                if let Some(parent) = ps[j].parent {
                    if let Some(at) = position(ps, parent) {
                        if marks[at] {
                            proof {
                                law_children_follow_their_parent(ps@, root, j as int);
                                marking_leaves_less(marks@, j as int);
                            }
                            marks.set(j, true);
                            grew = true;
                        }
                    }
                }
            }
            j += 1;
        }
    }
    proof {
        let members = Set::new(
            |pid: u32|
                exists|k: int| 0 <= k < n && #[trigger] marks@[k] && ps@[k].key.pid == pid,
        );
        let r = choose|r: int| 0 <= r < ps@.len() && (#[trigger] ps@[r]).key.pid == root;
        assert(marks@[r]);
        assert(members.contains(root));
        assert forall|i: int|
            0 <= i < ps@.len() && (#[trigger] ps@[i]).parent.is_some() && members.contains(
                ps@[i].parent.unwrap(),
            ) implies members.contains(ps@[i].key.pid) by {
            let k = choose|k: int|
                0 <= k < n && #[trigger] marks@[k] && ps@[k].key.pid == ps@[i].parent.unwrap();
            if !marks@[i] {
                assert(has_marked_parent(ps@, marks@, i));
            }
            assert(marks@[i]);
        }
        assert forall|k: int| 0 <= k < n implies #[trigger] marks@[k] == in_tree(
            ps@,
            root,
            ps@[k].key.pid,
        ) by {
            if in_tree(ps@, root, ps@[k].key.pid) {
                law_tree_is_the_smallest(ps@, root, members, ps@[k].key.pid);
                let m = choose|m: int|
                    0 <= m < n && #[trigger] marks@[m] && ps@[m].key.pid == ps@[k].key.pid;
                assert(m == k);
            }
        }
    }
    marks
}

/// A row's parent is marked.
spec fn has_marked_parent(ps: Seq<ProcessInfo>, marks: Seq<bool>, k: int) -> bool {
    ps[k].parent.is_some() && exists|m: int|
        0 <= m < ps.len() && #[trigger] marks[m] && ps[m].key.pid == ps[k].parent.unwrap()
}

/// The process of a number is the first of that number, and there is one exactly
/// where some process has it.
pub proof fn law_a_number_names_its_process(ps: Seq<ProcessInfo>, pid: u32)
    ensures
        process_of(ps, pid).is_none() <==> forall|i: int|
            0 <= i < ps.len() ==> (#[trigger] ps[i]).key.pid != pid,
        process_of(ps, pid).is_some() ==> exists|i: int|
            0 <= i < ps.len() && #[trigger] ps[i] == process_of(ps, pid).unwrap() && ps[i].key.pid
                == pid && forall|j: int| 0 <= j < i ==> (#[trigger] ps[j]).key.pid != pid,
    decreases ps.len(),
{
    if ps.len() > 0 {
        let rest = ps.drop_first();
        law_a_number_names_its_process(rest, pid);
        if ps[0].key.pid != pid {
            if process_of(rest, pid).is_some() {
                let k = choose|k: int|
                    0 <= k < rest.len() && #[trigger] rest[k] == process_of(rest, pid).unwrap()
                        && rest[k].key.pid == pid && forall|j: int|
                        0 <= j < k ==> (#[trigger] rest[j]).key.pid != pid;
                assert(ps[k + 1] == rest[k]);
                assert forall|j: int| 0 <= j < k + 1 implies (#[trigger] ps[j]).key.pid != pid by {
                    if j > 0 {
                        assert(ps[j] == rest[j - 1]);
                    }
                }
            } else {
                assert forall|i: int| 0 <= i < ps.len() implies (#[trigger] ps[i]).key.pid
                    != pid by {
                    if i > 0 {
                        assert(ps[i] == rest[i - 1]);
                    }
                }
            }
        }
    }
}

/// A process is alive where one of its number began when it did.
pub proof fn law_a_process_is_its_number_and_its_start(ps: Seq<ProcessInfo>, i: int, key: ProcKey)
    requires
        distinct_pids(ps),
        0 <= i < ps.len(),
        ps[i].key.pid == key.pid,
    ensures
        ps[i].key.start_time == key.start_time ==> same_process(ps, key) == Some(ps[i]),
        ps[i].key.start_time != key.start_time ==> same_process(ps, key).is_none(),
{
    process_at(ps, i);
}

/// The tree of a living process holds exactly the processes that descend from it,
/// itself included.
pub proof fn law_a_tree_holds_the_descendants(ps: Seq<ProcessInfo>, root: ProcKey, p: ProcessInfo)
    requires
        same_process(ps, root).is_some(),
    ensures
        tree_of(ps, root).contains(p) <==> ps.contains(p) && in_tree(ps, root.pid, p.key.pid),
{
    let keep = |p: ProcessInfo| in_tree(ps, root.pid, p.key.pid);
    ps.filter_lemma(keep);
    if ps.contains(p) && keep(p) {
        let i = choose|i: int| 0 <= i < ps.len() && ps[i] == p;
        assert(keep(ps[i]));
        assert(ps.filter(keep).contains(ps[i]));
    }
    if tree_of(ps, root).contains(p) {
        let i = choose|i: int| 0 <= i < ps.filter(keep).len() && ps.filter(keep)[i] == p;
        assert(keep(ps.filter(keep)[i]));
        kept_is_member(ps, keep, i);
    }
}

proof fn kept_is_member(ps: Seq<ProcessInfo>, keep: spec_fn(ProcessInfo) -> bool, i: int)
    requires
        0 <= i < ps.filter(keep).len(),
    ensures
        ps.contains(ps.filter(keep)[i]),
    decreases ps.len(),
{
    reveal(Seq::filter);
    if ps.len() > 0 {
        let d = ps.drop_last();
        if i < d.filter(keep).len() {
            kept_is_member(d, keep, i);
            let k = choose|k: int| 0 <= k < d.len() && d[k] == d.filter(keep)[i];
            assert(ps[k] == ps.filter(keep)[i]);
        } else {
            assert(ps[ps.len() - 1] == ps.filter(keep)[i]);
        }
    }
}

/// The memory of processes is the sum of theirs.
pub proof fn law_memory_adds_up(ps: Seq<ProcessInfo>, p: ProcessInfo)
    ensures
        memory_of(Seq::empty()) == 0,
        memory_of(ps.push(p)) == memory_of(ps) + p.memory_bytes,
{
    assert(ps.push(p).drop_last() =~= ps);
}

/// Of a reading the first process of each number is kept, and no other.
pub proof fn law_a_reading_keeps_one_of_each(ps: Seq<ProcessInfo>, p: ProcessInfo)
    ensures
        one_of_each(Seq::empty()) == Seq::<ProcessInfo>::empty(),
        (exists|i: int| 0 <= i < one_of_each(ps).len() && (#[trigger] one_of_each(ps)[i]).key.pid
            == p.key.pid) ==> one_of_each(ps.push(p)) == one_of_each(ps),
        (forall|i: int|
            0 <= i < one_of_each(ps).len() ==> (#[trigger] one_of_each(ps)[i]).key.pid
                != p.key.pid) ==> one_of_each(ps.push(p)) == one_of_each(ps).push(p),
{
    assert(ps.push(p).drop_last() =~= ps);
}

/// Whether it is time to read again.
pub open spec fn due(since_last_ms: Option<u64>) -> bool {
    match since_last_ms {
        Some(ms) => ms >= MIN_INTERVAL_MS,
        None => true,
    }
}

/// A reading is due at first, and then half a second after the one before.
pub proof fn law_readings_are_half_a_second_apart(ms: u64)
    ensures
        due(None),
        due(Some(ms)) <==> ms >= 500,
{
}

} // verus!
