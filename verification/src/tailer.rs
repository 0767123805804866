//! Reading append-only line files safely.
//!
//! A line may be half-written when it is read, a single line can be enormous,
//! almost nothing is relevant, and files get truncated or replaced. The cursor
//! is therefore only ever moved to just past a newline, a line that outgrows
//! [`MAX_LINE`] is stepped over without being held, and a cheap test on the
//! first bytes of a line decides whether it is handed on.
use vstd::prelude::*;
use vstd::utf8::encode_utf8;
use vstd::slice::slice_subrange;

use crate::adapters::{holds_marker, UsageAdapter};
use crate::bytes::{occurs, position};
use crate::claude_code::ClaudeCodeAdapter;
use crate::codex::CodexAdapter;
use crate::copilot::CopilotAdapter;
use crate::measurement::clamp_u64;

verus! {

/// Longest line that is held in memory.
pub const MAX_LINE: usize = 8_388_608;

/// Most bytes that are taken at once.
pub const CHUNK: usize = 1_048_576;

/// How much of a line the prefilter sees.
pub const PREFILTER_WINDOW: usize = 4096;

/// Where reading of one file has got to. `byte_offset` always stands just past
/// a newline.
#[derive(Debug, Clone, Copy, PartialEq, Eq, Structural)]
pub struct Cursor {
    pub byte_offset: u64,
    pub line_ordinal: u64,
    pub size_seen: u64,
}

/// Stable file identity across renames and directory moves.
#[derive(Debug, Clone, Copy, PartialEq, Eq, Hash, Structural)]
pub struct FileId {
    pub device: u64,
    pub inode: u64,
}

#[derive(Debug, Clone, Copy, PartialEq, Eq, Structural)]
pub struct ReadStats {
    /// Lines that passed the prefilter and were handed on.
    pub delivered: u64,
    /// Complete lines seen, rejected ones included.
    pub scanned: u64,
    /// Lines longer than [`MAX_LINE`], stepped over.
    pub oversize_skipped: u64,
    /// Those of them that the prefilter would have admitted: real data that was
    /// dropped.
    pub oversize_relevant: u64,
    /// The file shrank or was replaced, so reading restarted from the beginning.
    pub restarted: bool,
}

/// A line handed to the consumer.
#[derive(Debug, Clone, PartialEq, Eq)]
pub struct Line {
    pub ordinal: u64,
    /// Byte offset of the line's first byte.
    pub offset: u64,
    pub bytes: Vec<u8>,
}

/// A [`Line`] as the contracts see it.
pub struct LineView {
    pub ordinal: u64,
    pub offset: u64,
    pub bytes: Seq<u8>,
}

impl View for Line {
    type V = LineView;

    open spec fn view(&self) -> LineView {
        LineView { ordinal: self.ordinal, offset: self.offset, bytes: self.bytes@ }
    }
}

/// The lines of a list, as the contracts see them.
pub open spec fn line_views(v: Seq<Line>) -> Seq<LineView> {
    v.map_values(|l: Line| l@)
}

/// The start of a file.
pub open spec fn file_start() -> Cursor {
    Cursor { byte_offset: 0, line_ordinal: 0, size_seen: 0 }
}

/// Nothing read.
pub open spec fn no_stats() -> ReadStats {
    ReadStats {
        delivered: 0,
        scanned: 0,
        oversize_skipped: 0,
        oversize_relevant: 0,
        restarted: false,
    }
}

impl Default for Cursor {
    fn default() -> (c: Self)
        ensures
            c == file_start(),
    {
        Cursor { byte_offset: 0, line_ordinal: 0, size_seen: 0 }
    }
}

impl Default for ReadStats {
    fn default() -> (s: Self)
        ensures
            s == no_stats(),
    {
        ReadStats {
            delivered: 0,
            scanned: 0,
            oversize_skipped: 0,
            oversize_relevant: 0,
            restarted: false,
        }
    }
}

/// The cheap test that a line has to pass, on its first bytes alone.
pub trait Prefilter {
    spec fn admits(&self, head: Seq<u8>) -> bool;

    fn is_candidate(&self, head: &[u8]) -> (b: bool)
        ensures
            b == self.admits(head@),
    ;
}

impl Prefilter for ClaudeCodeAdapter {
    open spec fn admits(&self, head: Seq<u8>) -> bool {
        holds_marker(head, self.markers())
    }

    fn is_candidate(&self, head: &[u8]) -> (b: bool) {
        self.is_candidate_line(head)
    }
}

impl Prefilter for CodexAdapter {
    open spec fn admits(&self, head: Seq<u8>) -> bool {
        holds_marker(head, self.markers())
    }

    fn is_candidate(&self, head: &[u8]) -> (b: bool) {
        self.is_candidate_line(head)
    }
}

impl Prefilter for CopilotAdapter {
    open spec fn admits(&self, head: Seq<u8>) -> bool {
        holds_marker(head, self.markers())
    }

    fn is_candidate(&self, head: &[u8]) -> (b: bool) {
        self.is_candidate_line(head)
    }
}

/// A filter that admits every line.
#[derive(Debug, Clone, Copy, PartialEq, Eq, Structural)]
pub struct EveryLine;

impl Prefilter for EveryLine {
    open spec fn admits(&self, head: Seq<u8>) -> bool {
        true
    }

    fn is_candidate(&self, head: &[u8]) -> (b: bool) {
        true
    }
}

/// The byte that ends a line.
pub open spec fn newline() -> u8 {
    10
}

/// The complete lines of some bytes, without their newlines.
pub open spec fn complete(b: Seq<u8>) -> Seq<Seq<u8>>
    decreases b.len(),
{
    if b.len() == 0 {
        Seq::empty()
    } else if b.last() == newline() {
        complete(b.drop_last()).push(fragment(b.drop_last()))
    } else {
        complete(b.drop_last())
    }
}

/// What follows the last newline of some bytes.
pub open spec fn fragment(b: Seq<u8>) -> Seq<u8>
    decreases b.len(),
{
    if b.len() == 0 {
        Seq::empty()
    } else if b.last() == newline() {
        Seq::empty()
    } else {
        fragment(b.drop_last()).push(b.last())
    }
}

/// The bytes that lines take in a file, newlines included.
pub open spec fn bytes_of(lines: Seq<Seq<u8>>) -> nat
    decreases lines.len(),
{
    if lines.len() == 0 {
        0
    } else {
        bytes_of(lines.drop_last()) + lines.last().len() + 1
    }
}

/// The bytes a line is judged by.
pub open spec fn window(line: Seq<u8>) -> Seq<u8> {
    if line.len() <= PREFILTER_WINDOW {
        line
    } else {
        line.take(PREFILTER_WINDOW as int)
    }
}

/// The lines that are handed on: admitted, and not too long. Ordinals count
/// every line, and offsets tell where in the file a line begins.
pub open spec fn delivered<A: Prefilter>(
    filter: A,
    lines: Seq<Seq<u8>>,
    offset: nat,
    ordinal: nat,
) -> Seq<LineView>
    decreases lines.len(),
{
    if lines.len() == 0 {
        Seq::empty()
    } else {
        let before = delivered(filter, lines.drop_last(), offset, ordinal);
        let line = lines.last();
        if line.len() <= MAX_LINE && filter.admits(window(line)) {
            before.push(
                LineView {
                    ordinal: clamp_u64(ordinal + lines.len()),
                    offset: clamp_u64(offset + bytes_of(lines.drop_last())),
                    bytes: line,
                },
            )
        } else {
            before
        }
    }
}

/// How many lines are too long to be held.
pub open spec fn oversize(lines: Seq<Seq<u8>>) -> nat
    decreases lines.len(),
{
    if lines.len() == 0 {
        0
    } else {
        oversize(lines.drop_last()) + if lines.last().len() > MAX_LINE {
            1nat
        } else {
            0nat
        }
    }
}

/// How many of the lines that are too long would have been admitted.
pub open spec fn oversize_admitted<A: Prefilter>(filter: A, lines: Seq<Seq<u8>>) -> nat
    decreases lines.len(),
{
    if lines.len() == 0 {
        0
    } else {
        oversize_admitted(filter, lines.drop_last()) + if lines.last().len() > MAX_LINE
            && filter.admits(window(lines.last())) {
            1nat
        } else {
            0nat
        }
    }
}

/// The counts over a run of lines.
pub open spec fn stats_of<A: Prefilter>(
    filter: A,
    lines: Seq<Seq<u8>>,
    offset: nat,
    ordinal: nat,
    restarted: bool,
) -> ReadStats {
    ReadStats {
        delivered: clamp_u64(delivered(filter, lines, offset, ordinal).len()),
        scanned: clamp_u64(lines.len()),
        oversize_skipped: clamp_u64(oversize(lines)),
        oversize_relevant: clamp_u64(oversize_admitted(filter, lines)),
        restarted,
    }
}

/// The cursor after a run of lines: just past the last of their newlines.
pub open spec fn cursor_after(from: Cursor, lines: Seq<Seq<u8>>) -> Cursor {
    Cursor {
        byte_offset: clamp_u64(from.byte_offset as nat + bytes_of(lines)),
        line_ordinal: clamp_u64(from.line_ordinal as nat + lines.len()),
        size_seen: from.size_seen,
    }
}

/// Where a read starts: at the cursor, or at the beginning of a file that has
/// become shorter than the cursor.
pub open spec fn start_of(cursor: Cursor, size: u64) -> Cursor {
    if size < cursor.byte_offset {
        file_start()
    } else {
        cursor
    }
}

/// A read in progress: what has been seen of a file from a cursor on.
pub struct Tailer<A: Prefilter> {
    filter: A,
    cursor: Cursor,
    stats: ReadStats,
    /// The current incomplete line, as long as it is not too long.
    pending: Vec<u8>,
    pending_start: u64,
    position: u64,
    /// The current line is too long, and is only followed to its end.
    skipping: bool,
    skipped_was_relevant: bool,
    from: Ghost<Cursor>,
    fed: Ghost<Seq<u8>>,
}

pub(crate) proof fn no_newline_in(b: Seq<u8>, more: Seq<u8>)
    requires
        forall|i: int| 0 <= i < more.len() ==> more[i] != newline(),
    ensures
        complete(b + more) == complete(b),
        fragment(b + more) == fragment(b) + more,
    decreases more.len(),
{
    if more.len() == 0 {
        assert(b + more =~= b);
        assert(fragment(b) + more =~= fragment(b));
    } else {
        no_newline_in(b, more.drop_last());
        assert((b + more).drop_last() =~= b + more.drop_last());
        assert((b + more).last() == more.last());
        assert(fragment(b + more) =~= fragment(b) + more);
    }
}

pub(crate) proof fn ended_line(b: Seq<u8>, head: Seq<u8>)
    requires
        forall|i: int| 0 <= i < head.len() ==> head[i] != newline(),
    ensures
        complete((b + head).push(newline())) == complete(b).push(fragment(b) + head),
        fragment((b + head).push(newline())) == Seq::<u8>::empty(),
{
    no_newline_in(b, head);
    assert((b + head).push(newline()).drop_last() =~= b + head);
}

proof fn bytes_and_fragment(b: Seq<u8>)
    ensures
        bytes_of(complete(b)) + fragment(b).len() == b.len(),
    decreases b.len(),
{
    if b.len() > 0 {
        bytes_and_fragment(b.drop_last());
        if b.last() == newline() {
            assert(complete(b).drop_last() =~= complete(b.drop_last()));
        }
    }
}

proof fn step_of<A: Prefilter>(
    filter: A,
    lines: Seq<Seq<u8>>,
    line: Seq<u8>,
    offset: nat,
    ordinal: nat,
)
    ensures
        bytes_of(lines.push(line)) == bytes_of(lines) + line.len() + 1,
        oversize(lines.push(line)) == oversize(lines) + if line.len() > MAX_LINE {
            1nat
        } else {
            0nat
        },
        oversize_admitted(filter, lines.push(line)) == oversize_admitted(filter, lines)
            + if line.len() > MAX_LINE && filter.admits(window(line)) {
            1nat
        } else {
            0nat
        },
        delivered(filter, lines.push(line), offset, ordinal) == if line.len() <= MAX_LINE
            && filter.admits(window(line)) {
            delivered(filter, lines, offset, ordinal).push(
                LineView {
                    ordinal: clamp_u64(ordinal + lines.len() + 1),
                    offset: clamp_u64(offset + bytes_of(lines)),
                    bytes: line,
                },
            )
        } else {
            delivered(filter, lines, offset, ordinal)
        },
{
    assert(lines.push(line).drop_last() =~= lines);
}

/// The first bytes of a slice, as many as the prefilter sees.
fn prefilter_window<'a>(pending: &'a [u8], incoming: &'a [u8]) -> (w: &'a [u8])
    ensures
        w@ == window(
            if pending@.len() == 0 {
                incoming@
            } else {
                pending@
            },
        ),
{
    let source = if pending.len() == 0 {
        incoming
    } else {
        pending
    };
    if source.len() <= PREFILTER_WINDOW {
        source
    } else {
        let w = slice_subrange(source, 0, PREFILTER_WINDOW);
        proof {
            assert(w@ =~= source@.take(PREFILTER_WINDOW as int));
        }
        w
    }
}

impl<A: Prefilter> Tailer<A> {
    /// The bytes seen so far.
    pub closed spec fn seen(&self) -> Seq<u8> {
        self.fed@
    }

    /// Where the read began.
    pub closed spec fn began(&self) -> Cursor {
        self.from@
    }

    /// The filter that decides what is handed on.
    pub closed spec fn test(&self) -> A {
        self.filter
    }

    /// The file shrank before the read began.
    pub closed spec fn restarted(&self) -> bool {
        self.stats.restarted
    }

    /// The lines handed on so far.
    pub open spec fn lines(&self) -> Seq<LineView> {
        delivered(
            self.test(),
            complete(self.seen()),
            self.began().byte_offset as nat,
            self.began().line_ordinal as nat,
        )
    }

    /// What is remembered is what the bytes seen so far determine.
    pub closed spec fn wf(&self) -> bool {
        let c = self.fed@;
        let from = self.from@;
        let base = from.byte_offset as nat;
        &&& self.cursor == cursor_after(from, complete(c))
        &&& self.stats == stats_of(
            self.filter,
            complete(c),
            base,
            from.line_ordinal as nat,
            self.stats.restarted,
        )
        &&& self.position == clamp_u64(base + c.len())
        &&& self.pending_start == clamp_u64(base + bytes_of(complete(c)))
        &&& self.skipping == (fragment(c).len() > MAX_LINE)
        &&& self.skipping ==> self.pending@.len() == 0 && self.skipped_was_relevant
            == self.filter.admits(window(fragment(c)))
        &&& !self.skipping ==> self.pending@ == fragment(c) && !self.skipped_was_relevant
    }

    /// Begin to read a file of a given size from a cursor. A file that is
    /// shorter than the cursor was truncated or replaced, and is read from its
    /// beginning.
    pub fn begin(cursor: Cursor, size: u64, filter: A) -> (t: Self)
        ensures
            t.wf(),
            t.seen() == Seq::<u8>::empty(),
            t.began() == start_of(cursor, size),
            t.test() == filter,
            t.restarted() == (size < cursor.byte_offset),
    {
        let restarted = size < cursor.byte_offset;
        let from = if restarted {
            Cursor::default()
        } else {
            cursor
        };
        let mut stats = ReadStats::default();
        stats.restarted = restarted;
        Tailer {
            filter,
            cursor: from,
            stats,
            pending: Vec::new(),
            pending_start: from.byte_offset,
            position: from.byte_offset,
            skipping: false,
            skipped_was_relevant: false,
            from: Ghost(from),
            fed: Ghost(Seq::empty()),
        }
    }

    /// Where in the file the next bytes are to be read.
    pub fn position(&self) -> (n: u64)
        requires
            self.wf(),
        ensures
            n == clamp_u64(self.began().byte_offset as nat + self.seen().len()),
    {
        self.position
    }

    /// A line has ended with `head`.
    fn end_line(&mut self, head: &[u8], found: &mut Vec<Line>)
        requires
            old(self).wf(),
            head@.len() <= CHUNK,
            forall|i: int| 0 <= i < head@.len() ==> head@[i] != newline(),
        ensures
            final(self).wf(),
            final(self).seen() == (old(self).seen() + head@).push(newline()),
            final(self).began() == old(self).began(),
            final(self).test() == old(self).test(),
            final(self).restarted() == old(self).restarted(),
            exists|more: Seq<LineView>|
                line_views(final(found)@) == line_views(old(found)@) + more && #[trigger] (old(
                    self,
                ).lines() + more) == final(self).lines(),
    {
        let ghost c = self.fed@;
        let ghost line = fragment(c) + head@;
        let ghost base = self.from@.byte_offset as nat;
        let ghost ord = self.from@.line_ordinal as nat;
        let ghost before = line_views(found@);
        let ghost more: Seq<LineView> = Seq::empty();
        proof {
            ended_line(c, head@);
            bytes_and_fragment(c);
            step_of(self.filter, complete(c), line, base, ord);
        }
        self.stats.scanned = self.stats.scanned.saturating_add(1);
        self.cursor.line_ordinal = self.cursor.line_ordinal.saturating_add(1);
        if self.skipping {
            self.stats.oversize_skipped = self.stats.oversize_skipped.saturating_add(1);
            if self.skipped_was_relevant {
                self.stats.oversize_relevant = self.stats.oversize_relevant.saturating_add(1);
            }
            self.skipping = false;
            self.skipped_was_relevant = false;
            proof {
                assert(window(line) =~= window(fragment(c)));
            }
        } else if self.pending.len() + head.len() > MAX_LINE {
            self.stats.oversize_skipped = self.stats.oversize_skipped.saturating_add(1);
            let w = prefilter_window(self.pending.as_slice(), head);
            proof {
                assert(w@ =~= window(line));
            }
            if self.filter.is_candidate(w) {
                self.stats.oversize_relevant = self.stats.oversize_relevant.saturating_add(1);
            }
            self.pending = Vec::new();
        } else {
            self.pending.extend_from_slice(head);
            proof {
                assert(self.pending@ =~= line);
            }
            let w = prefilter_window(self.pending.as_slice(), self.pending.as_slice());
            if self.filter.is_candidate(w) {
                self.stats.delivered = self.stats.delivered.saturating_add(1);
                let mut bytes: Vec<u8> = Vec::new();
                bytes.append(&mut self.pending);
                let l = Line {
                    ordinal: self.cursor.line_ordinal,
                    offset: self.pending_start,
                    bytes,
                };
                proof {
                    more = seq![l@];
                }
                found.push(l);
            } else {
                self.pending.clear();
            }
        }
        self.position = self.position.saturating_add(head.len() as u64).saturating_add(1);
        self.pending_start = self.position;
        self.cursor.byte_offset = self.position;
        self.fed = Ghost((c + head@).push(newline()));
        proof {
            let now = complete(self.fed@);
            assert(now == complete(c).push(line));
            bytes_and_fragment(self.fed@);
            if !self.skipping {
                assert(self.pending@ =~= Seq::empty());
            }
            assert(line_views(found@) =~= before + more);
            assert(old(self).lines() + more =~= self.lines());
        }
    }

    /// The last bytes of a chunk, without a newline: a line that goes on.
    fn hold(&mut self, rest: &[u8])
        requires
            old(self).wf(),
            rest@.len() <= CHUNK,
            forall|i: int| 0 <= i < rest@.len() ==> rest@[i] != newline(),
        ensures
            final(self).wf(),
            final(self).seen() == old(self).seen() + rest@,
            final(self).began() == old(self).began(),
            final(self).test() == old(self).test(),
            final(self).restarted() == old(self).restarted(),
            final(self).lines() == old(self).lines(),
    {
        let ghost c = self.fed@;
        proof {
            no_newline_in(c, rest@);
            bytes_and_fragment(c);
            bytes_and_fragment(c + rest@);
        }
        if self.skipping {
            proof {
                assert(window(fragment(c) + rest@) =~= window(fragment(c)));
            }
        } else if self.pending.len() + rest.len() > MAX_LINE {
            let w = prefilter_window(self.pending.as_slice(), rest);
            proof {
                assert(w@ =~= window(fragment(c) + rest@));
            }
            self.skipped_was_relevant = self.filter.is_candidate(w);
            self.skipping = true;
            self.pending = Vec::new();
        } else {
            self.pending.extend_from_slice(rest);
            proof {
                assert(self.pending@ =~= fragment(c) + rest@);
            }
        }
        self.position = self.position.saturating_add(rest.len() as u64);
        self.fed = Ghost(c + rest@);
    }

    /// Take the next bytes of the file, and hand back the lines that they
    /// complete. How the file is cut into chunks makes no difference to what is
    /// handed back over all of them.
    pub fn feed(&mut self, chunk: &[u8]) -> (found: Vec<Line>)
        requires
            old(self).wf(),
            chunk@.len() <= CHUNK,
        ensures
            final(self).wf(),
            final(self).seen() == old(self).seen() + chunk@,
            final(self).began() == old(self).began(),
            final(self).test() == old(self).test(),
            final(self).restarted() == old(self).restarted(),
            final(self).lines() == old(self).lines() + line_views(found@),
    {
        let ghost c0 = self.seen();
        let ghost l0 = self.lines();
        let mut found: Vec<Line> = Vec::new();
        let mut at: usize = 0;
        proof {
            assert(c0 + chunk@.take(0) =~= c0);
            assert(l0 + line_views(found@) =~= l0);
        }
        loop
            invariant_except_break
                self.wf(),
                self.seen() == c0 + chunk@.take(at as int),
                self.lines() == l0 + line_views(found@),
            invariant
                chunk@.len() <= CHUNK,
                at <= chunk@.len(),
                self.began() == old(self).began(),
                self.test() == old(self).test(),
                self.restarted() == old(self).restarted(),
            ensures
                self.wf(),
                self.seen() == c0 + chunk@,
                self.lines() == l0 + line_views(found@),
            decreases chunk@.len() - at,
        {
            let rest = slice_subrange(chunk, at, chunk.len());
            match position(10, rest) {
                Some(nl) => {
                    let head = slice_subrange(rest, 0, nl);
                    let ghost before = line_views(found@);
                    let ghost lines_before = self.lines();
                    self.end_line(head, &mut found);
                    proof {
                        let more = choose|more: Seq<LineView>|
                            line_views(found@) == before + more && #[trigger] (lines_before + more)
                                == self.lines();
                        assert(l0 + before + more =~= l0 + (before + more));
                        assert((c0 + chunk@.take(at as int) + head@).push(newline()) =~= c0
                            + chunk@.take(at + nl + 1));
                    }
                    at = at + nl + 1;
                },
                None => {
                    self.hold(rest);
                    proof {
                        assert(c0 + chunk@.take(at as int) + rest@ =~= c0 + chunk@);
                    }
                    break;
                },
            }
        }
        found
    }

    /// Nothing more to read: where reading has got to, and what it did.
    pub fn finish(self, size: u64) -> (r: (Cursor, ReadStats))
        requires
            self.wf(),
        ensures
            r.0 == (Cursor { size_seen: size, ..cursor_after(
                self.began(),
                complete(self.seen()),
            ) }),
            r.1 == stats_of(
                self.test(),
                complete(self.seen()),
                self.began().byte_offset as nat,
                self.began().line_ordinal as nat,
                self.restarted(),
            ),
    {
        let mut cursor = self.cursor;
        cursor.size_seen = size;
        (cursor, self.stats)
    }
}

/// Read everything in a file from a cursor on: the complete lines that pass the
/// filter, the cursor after them, and the counts. A file that is shorter than
/// the cursor is read from its beginning.
pub fn read_new_lines<A: Prefilter>(contents: &[u8], cursor: Cursor, filter: A) -> (r: (
    Cursor,
    ReadStats,
    Vec<Line>,
))
    ensures
        r.0 == (Cursor {
            size_seen: contents@.len() as u64,
            ..cursor_after(
                start_of(cursor, contents@.len() as u64),
                complete(contents@.skip(start_of(cursor, contents@.len() as u64).byte_offset as int)),
            )
        }),
        r.1 == stats_of(
            filter,
            complete(contents@.skip(start_of(cursor, contents@.len() as u64).byte_offset as int)),
            start_of(cursor, contents@.len() as u64).byte_offset as nat,
            start_of(cursor, contents@.len() as u64).line_ordinal as nat,
            contents@.len() < cursor.byte_offset,
        ),
        line_views(r.2@) == delivered(
            filter,
            complete(contents@.skip(start_of(cursor, contents@.len() as u64).byte_offset as int)),
            start_of(cursor, contents@.len() as u64).byte_offset as nat,
            start_of(cursor, contents@.len() as u64).line_ordinal as nat,
        ),
{
    let size: u64 = contents.len() as u64;
    let mut t = Tailer::begin(cursor, size, filter);
    let ghost from = start_of(cursor, size);
    let mut found: Vec<Line> = Vec::new();
    let mut at: usize = t.position() as usize;
    proof {
        assert(at == from.byte_offset);
        assert(contents@.subrange(at as int, at as int) =~= Seq::empty());
        assert(line_views(found@) =~= Seq::empty());
        assert(complete(Seq::<u8>::empty()) =~= Seq::empty());
    }
    while at < contents.len()
        invariant
            t.wf(),
            t.began() == from,
            t.test() == filter,
            t.restarted() == (size < cursor.byte_offset),
            from.byte_offset <= at <= contents@.len(),
            t.seen() == contents@.subrange(from.byte_offset as int, at as int),
            t.lines() == line_views(found@),
        decreases contents.len() - at,
    {
        let end: usize = if contents.len() - at > CHUNK {
            at + CHUNK
        } else {
            contents.len()
        };
        let chunk = slice_subrange(contents, at, end);
        let mut more = t.feed(chunk);
        let ghost before = found@;
        let ghost extra = more@;
        found.append(&mut more);
        proof {
            assert(contents@.subrange(from.byte_offset as int, at as int) + chunk@
                =~= contents@.subrange(from.byte_offset as int, end as int));
            assert(line_views(found@) =~= line_views(before) + line_views(extra));
        }
        at = end;
    }
    proof {
        assert(contents@.subrange(from.byte_offset as int, at as int) =~= contents@.skip(
            from.byte_offset as int,
        ));
    }
    let (c, s) = t.finish(size);
    (c, s, found)
}

proof fn lines_of_both(a: Seq<u8>, b: Seq<u8>)
    ensures
        complete(a + b) == complete(a) + complete(fragment(a) + b),
        fragment(a + b) == fragment(fragment(a) + b),
    decreases b.len(),
{
    if b.len() == 0 {
        assert(a + b =~= a);
        assert(fragment(a) + b =~= fragment(a));
        fragment_is_one_line(a);
        assert(complete(a) + complete(fragment(a)) =~= complete(a));
    } else {
        lines_of_both(a, b.drop_last());
        assert((a + b).drop_last() =~= a + b.drop_last());
        assert((fragment(a) + b).drop_last() =~= fragment(a) + b.drop_last());
        if b.last() == newline() {
            assert(complete(a + b) =~= complete(a) + complete(fragment(a) + b));
        }
    }
}

proof fn fragment_is_one_line(a: Seq<u8>)
    ensures
        complete(fragment(a)) == Seq::<Seq<u8>>::empty(),
        fragment(fragment(a)) == fragment(a),
    decreases a.len(),
{
    if a.len() > 0 && a.last() != newline() {
        fragment_is_one_line(a.drop_last());
        assert(fragment(a).drop_last() =~= fragment(a.drop_last()));
        assert(fragment(fragment(a)) =~= fragment(a));
    }
}

proof fn delivered_of_both<A: Prefilter>(
    filter: A,
    a: Seq<Seq<u8>>,
    b: Seq<Seq<u8>>,
    offset: nat,
    ordinal: nat,
)
    ensures
        delivered(filter, a + b, offset, ordinal) == delivered(filter, a, offset, ordinal)
            + delivered(filter, b, offset + bytes_of(a), ordinal + a.len()),
        bytes_of(a + b) == bytes_of(a) + bytes_of(b),
    decreases b.len(),
{
    if b.len() == 0 {
        assert(a + b =~= a);
        assert(delivered(filter, a, offset, ordinal) + delivered(
            filter,
            b,
            offset + bytes_of(a),
            ordinal + a.len(),
        ) =~= delivered(filter, a, offset, ordinal));
    } else {
        delivered_of_both(filter, a, b.drop_last(), offset, ordinal);
        assert((a + b).drop_last() =~= a + b.drop_last());
        assert((a + b).last() == b.last());
        assert(delivered(filter, a + b, offset, ordinal) =~= delivered(filter, a, offset, ordinal)
            + delivered(filter, b, offset + bytes_of(a), ordinal + a.len()));
    }
}

/// The cursor after a read stands just past a newline or where it stood, never
/// inside a line: what lies between it and the end holds no newline.
pub proof fn law_cursor_stands_after_a_newline(b: Seq<u8>)
    ensures
        bytes_of(complete(b)) <= b.len(),
        complete(b).len() > 0 ==> bytes_of(complete(b)) > 0 && b[bytes_of(complete(b)) - 1]
            == newline(),
        complete(b).len() == 0 ==> bytes_of(complete(b)) == 0,
        b.skip(bytes_of(complete(b)) as int) == fragment(b),
        forall|i: int| bytes_of(complete(b)) <= i < b.len() ==> b[i] != newline(),
    decreases b.len(),
{
    if b.len() > 0 {
        let d = b.drop_last();
        law_cursor_stands_after_a_newline(d);
        bytes_and_fragment(b);
        bytes_and_fragment(d);
        if b.last() == newline() {
            assert(b.skip(bytes_of(complete(b)) as int) =~= fragment(b));
        } else {
            let k = bytes_of(complete(d)) as int;
            assert(complete(b) == complete(d));
            if complete(b).len() > 0 {
                assert(b[k - 1] == d[k - 1]);
            }
            assert(b.skip(k) =~= d.skip(k).push(b.last()));
            assert forall|i: int| k <= i < b.len() implies b[i] != newline() by {
                if i < d.len() {
                    assert(b[i] == d[i]);
                }
            }
        }
    } else {
        assert(b.skip(0) =~= fragment(b));
    }
}

/// Reading a file while it grows gives what reading it whole does: the lines
/// found in its first part, followed by those found from the cursor on once the
/// rest is there, are the lines of the whole, at the same offsets and ordinals;
/// and the cursor ends in the same place.
pub proof fn law_reading_in_pieces_is_reading_whole<A: Prefilter>(
    filter: A,
    part: Seq<u8>,
    rest: Seq<u8>,
)
    requires
        part.len() + rest.len() <= u64::MAX,
    ensures
        ({
            let whole = part + rest;
            let stop = cursor_after(file_start(), complete(part));
            &&& stop.byte_offset <= part.len()
            &&& delivered(filter, complete(whole), 0, 0) == delivered(
                filter,
                complete(part),
                0,
                0,
            ) + delivered(
                filter,
                complete(whole.skip(stop.byte_offset as int)),
                stop.byte_offset as nat,
                stop.line_ordinal as nat,
            )
            &&& cursor_after(file_start(), complete(whole)) == cursor_after(
                stop,
                complete(whole.skip(stop.byte_offset as int)),
            )
        }),
{
    let whole = part + rest;
    let stop = cursor_after(file_start(), complete(part));
    bytes_and_fragment(part);
    lines_fit(part);
    law_cursor_stands_after_a_newline(part);
    lines_of_both(part, rest);
    let k = bytes_of(complete(part)) as int;
    assert(whole.skip(k) =~= part.skip(k) + rest);
    delivered_of_both(filter, complete(part), complete(fragment(part) + rest), 0, 0);
    bytes_and_fragment(whole);
    lines_fit(whole);
}

proof fn lines_fit(b: Seq<u8>)
    ensures
        complete(b).len() <= b.len(),
    decreases b.len(),
{
    if b.len() > 0 {
        lines_fit(b.drop_last());
    }
}

/// A line without its newline is not consumed: bytes that complete no line
/// leave the cursor where it was and hand nothing on.
pub proof fn law_half_written_line_is_left_alone<A: Prefilter>(
    filter: A,
    from: Cursor,
    b: Seq<u8>,
)
    requires
        forall|i: int| 0 <= i < b.len() ==> b[i] != newline(),
    ensures
        complete(b) == Seq::<Seq<u8>>::empty(),
        cursor_after(from, complete(b)) == from,
        delivered(filter, complete(b), from.byte_offset as nat, from.line_ordinal as nat) == Seq::<
            LineView,
        >::empty(),
{
    no_newline_in(Seq::empty(), b);
    assert(Seq::<u8>::empty() + b =~= b);
}

/// Lines put back together, each with its newline.
pub open spec fn rejoined(lines: Seq<Seq<u8>>) -> Seq<u8>
    decreases lines.len(),
{
    if lines.len() == 0 {
        Seq::empty()
    } else {
        rejoined(lines.drop_last()) + lines.last().push(10u8)
    }
}

/// Nothing of a file is lost or made up: its complete lines, each with its
/// newline, and what follows the last of them are the file again, and no line
/// holds a newline.
pub proof fn law_lines_are_the_file(b: Seq<u8>)
    ensures
        rejoined(complete(b)) + fragment(b) == b,
        forall|i: int, k: int|
            #![trigger complete(b)[i][k]]
            0 <= i < complete(b).len() && 0 <= k < complete(b)[i].len() ==> complete(b)[i][k]
                != 10u8,
        forall|k: int| 0 <= k < fragment(b).len() ==> #[trigger] fragment(b)[k] != 10u8,
    decreases b.len(),
{
    if b.len() == 0 {
        assert(rejoined(complete(b)) + fragment(b) =~= b);
    } else {
        let d = b.drop_last();
        law_lines_are_the_file(d);
        if b.last() == 10u8 {
            let lines = complete(b);
            assert(lines.drop_last() =~= complete(d));
            assert(rejoined(lines) == rejoined(complete(d)) + fragment(d).push(10u8));
            assert(rejoined(lines) + fragment(b) =~= (rejoined(complete(d)) + fragment(d)).push(
                10u8,
            ));
            assert(b =~= d.push(10u8));
            assert forall|i: int, k: int|
                #![trigger lines[i][k]]
                0 <= i < lines.len() && 0 <= k < lines[i].len() implies lines[i][k] != 10u8 by {
                if i < complete(d).len() {
                    assert(lines[i] == complete(d)[i]);
                    assert(complete(d)[i][k] != 10u8);
                } else {
                    assert(lines[i] == fragment(d));
                    assert(fragment(d)[k] != 10u8);
                }
            }
        } else {
            assert(rejoined(complete(b)) + fragment(b) =~= (rejoined(complete(d)) + fragment(
                d,
            )).push(b.last()));
            assert(b =~= d.push(b.last()));
            assert forall|k: int| 0 <= k < fragment(b).len() implies #[trigger] fragment(b)[k]
                != 10u8 by {
                if k < fragment(d).len() {
                    assert(fragment(d)[k] != 10u8);
                }
            }
        }
    }
}

/// A line is handed on exactly where it is no longer than eight mebibytes and its
/// first four kibibytes pass the test; it comes with its number, with where it
/// begins, and whole.
pub proof fn law_a_line_is_handed_on_whole<A: Prefilter>(
    filter: A,
    lines: Seq<Seq<u8>>,
    line: Seq<u8>,
    offset: nat,
    ordinal: nat,
)
    requires
        ordinal + lines.len() + 1 <= u64::MAX,
        offset + rejoined(lines).len() <= u64::MAX,
    ensures
        delivered(filter, Seq::empty(), offset, ordinal).len() == 0,
        line.len() <= 8_388_608 && line.len() <= 4096 && filter.admits(line) ==> delivered(
            filter,
            lines.push(line),
            offset,
            ordinal,
        ) == delivered(filter, lines, offset, ordinal).push(
            LineView {
                ordinal: (ordinal + lines.len() + 1) as u64,
                offset: (offset + rejoined(lines).len()) as u64,
                bytes: line,
            },
        ),
        4096 < line.len() <= 8_388_608 && filter.admits(line.take(4096)) ==> delivered(
            filter,
            lines.push(line),
            offset,
            ordinal,
        ) == delivered(filter, lines, offset, ordinal).push(
            LineView {
                ordinal: (ordinal + lines.len() + 1) as u64,
                offset: (offset + rejoined(lines).len()) as u64,
                bytes: line,
            },
        ),
        line.len() > 8_388_608 || (line.len() <= 4096 && !filter.admits(line)) || (line.len() > 4096
            && !filter.admits(line.take(4096))) ==> delivered(
            filter,
            lines.push(line),
            offset,
            ordinal,
        ) == delivered(filter, lines, offset, ordinal),
{
    assert(lines.push(line).drop_last() =~= lines);
    rejoined_length(lines);
}

proof fn rejoined_length(lines: Seq<Seq<u8>>)
    ensures
        rejoined(lines).len() == bytes_of(lines),
    decreases lines.len(),
{
    if lines.len() > 0 {
        rejoined_length(lines.drop_last());
    }
}

/// Every line is counted, and every line that is too long; one of those that
/// would have passed the test is counted as data that was dropped.
pub proof fn law_long_lines_are_counted<A: Prefilter>(
    filter: A,
    lines: Seq<Seq<u8>>,
    line: Seq<u8>,
)
    ensures
        oversize(Seq::empty()) == 0,
        oversize_admitted(filter, Seq::empty()) == 0,
        oversize(lines.push(line)) == oversize(lines) + if line.len() > 8_388_608 {
            1int
        } else {
            0
        },
        oversize_admitted(filter, lines.push(line)) == oversize_admitted(filter, lines)
            + if line.len() > 8_388_608 && filter.admits(line.take(4096)) {
            1int
        } else {
            0
        },
{
    assert(lines.push(line).drop_last() =~= lines);
}

/// A cursor moves past the lines that were read, byte by byte and line by line,
/// and the counts are those of the lines.
pub proof fn law_a_cursor_moves_past_what_was_read<A: Prefilter>(
    filter: A,
    from: Cursor,
    lines: Seq<Seq<u8>>,
    restarted: bool,
)
    requires
        from.byte_offset + rejoined(lines).len() <= u64::MAX,
        from.line_ordinal + lines.len() <= u64::MAX,
    ensures
        cursor_after(from, lines).byte_offset == from.byte_offset + rejoined(lines).len(),
        cursor_after(from, lines).line_ordinal == from.line_ordinal + lines.len(),
        cursor_after(from, lines).size_seen == from.size_seen,
        lines.len() <= u64::MAX ==> stats_of(
            filter,
            lines,
            from.byte_offset as nat,
            from.line_ordinal as nat,
            restarted,
        ).scanned == lines.len(),
        stats_of(
            filter,
            lines,
            from.byte_offset as nat,
            from.line_ordinal as nat,
            restarted,
        ).restarted == restarted,
{
    rejoined_length(lines);
}

/// A file is read on from the cursor, unless it has become shorter than that.
pub proof fn law_a_shorter_file_is_read_from_its_start(cursor: Cursor, size: u64)
    ensures
        cursor.byte_offset <= size ==> start_of(cursor, size) == cursor,
        size < cursor.byte_offset ==> start_of(cursor, size).byte_offset == 0 && start_of(
            cursor,
            size,
        ).line_ordinal == 0,
{
}

/// A line of an agent's file is read where it holds one of that agent's marks,
/// and every mark of usage is among them.
pub proof fn law_usage_passes_the_test(head: Seq<u8>)
    ensures
        occurs(head, encode_utf8("\"usage\""@)) ==> ClaudeCodeAdapter.admits(head),
        occurs(head, encode_utf8("\"type\":\"assistant\""@)) ==> ClaudeCodeAdapter.admits(head),
        occurs(head, encode_utf8("\"type\":\"system\""@)) ==> ClaudeCodeAdapter.admits(head),
        occurs(head, encode_utf8("\"isApiErrorMessage\""@)) ==> ClaudeCodeAdapter.admits(head),
        occurs(head, encode_utf8("\"token_count\""@)) ==> CodexAdapter.admits(head),
        occurs(head, encode_utf8("\"turn_context\""@)) ==> CodexAdapter.admits(head),
        occurs(head, encode_utf8("\"session_meta\""@)) ==> CodexAdapter.admits(head),
        occurs(head, encode_utf8("\"context_compacted\""@)) ==> CodexAdapter.admits(head),
        occurs(head, encode_utf8("resourceSpans"@)) ==> CopilotAdapter.admits(head),
        occurs(head, encode_utf8("gen_ai.usage."@)) ==> CopilotAdapter.admits(head),
        ClaudeCodeAdapter.admits(head) ==> occurs(head, encode_utf8("\"usage\""@)) || occurs(
            head,
            encode_utf8("\"type\":\"assistant\""@),
        ) || occurs(head, encode_utf8("\"type\":\"system\""@)) || occurs(
            head,
            encode_utf8("\"isApiErrorMessage\""@),
        ),
        CodexAdapter.admits(head) ==> occurs(head, encode_utf8("\"token_count\""@)) || occurs(
            head,
            encode_utf8("\"turn_context\""@),
        ) || occurs(head, encode_utf8("\"session_meta\""@)) || occurs(
            head,
            encode_utf8("\"context_compacted\""@),
        ),
        CopilotAdapter.admits(head) ==> occurs(head, encode_utf8("resourceSpans"@)) || occurs(
            head,
            encode_utf8("gen_ai.usage."@),
        ),
{
    let a = ClaudeCodeAdapter.markers();
    assert(a[0] == "\"usage\""@ && a[1] == "\"type\":\"assistant\""@ && a[2]
        == "\"type\":\"system\""@ && a[3] == "\"isApiErrorMessage\""@);
    let b = CodexAdapter.markers();
    assert(b[0] == "\"token_count\""@ && b[1] == "\"turn_context\""@ && b[2]
        == "\"session_meta\""@ && b[3] == "\"context_compacted\""@);
    let c = CopilotAdapter.markers();
    assert(c[0] == "resourceSpans"@ && c[1] == "gen_ai.usage."@);
}

} // verus!
