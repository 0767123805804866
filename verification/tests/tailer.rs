use aum::claude_code::ClaudeCodeAdapter;
use aum::tailer::{
    read_new_lines, Cursor, EveryLine, ReadStats, Tailer, CHUNK, MAX_LINE, PREFILTER_WINDOW,
};

fn write(file: &mut Vec<u8>, contents: &str) {
    file.clear();
    file.extend_from_slice(contents.as_bytes());
}

fn append(file: &mut Vec<u8>, contents: &str) {
    file.extend_from_slice(contents.as_bytes());
}

fn collect(file: &[u8], cursor: Cursor) -> (Cursor, ReadStats, Vec<String>) {
    let (c, s, lines) = read_new_lines(file, cursor, EveryLine);
    let out = lines
        .iter()
        .map(|l| String::from_utf8_lossy(&l.bytes).into_owned())
        .collect();
    (c, s, out)
}

#[test]
fn reads_complete_lines() {
    let mut p: Vec<u8> = Vec::new();
    write(&mut p, "{\"a\":1}\n{\"a\":2}\n");

    let (cursor, stats, lines) = collect(&p, Cursor::default());
    assert_eq!(lines, vec!["{\"a\":1}", "{\"a\":2}"]);
    assert_eq!(stats.delivered, 2);
    assert_eq!(cursor.byte_offset, 16);
    assert_eq!(cursor.line_ordinal, 2);
}

#[test]
fn a_half_written_line_is_not_consumed_until_it_is_complete() {
    let mut p: Vec<u8> = Vec::new();
    write(&mut p, "{\"a\":1}\n{\"a\":2");

    let (cursor, _, lines) = collect(&p, Cursor::default());
    assert_eq!(lines, vec!["{\"a\":1}"]);
    assert_eq!(cursor.byte_offset, 8);

    append(&mut p, "}\n");
    let (cursor2, _, lines2) = collect(&p, cursor);
    assert_eq!(lines2, vec!["{\"a\":2}"]);
    assert_eq!(cursor2.byte_offset, 16);
}

#[test]
fn resuming_from_a_cursor_does_not_re_deliver_earlier_lines() {
    let mut p: Vec<u8> = Vec::new();
    write(&mut p, "one\ntwo\n");

    let (cursor, _, first) = collect(&p, Cursor::default());
    assert_eq!(first.len(), 2);

    append(&mut p, "three\n");
    let (_, _, second) = collect(&p, cursor);
    assert_eq!(second, vec!["three"]);
}

#[test]
fn a_truncated_file_is_re_read_from_the_start() {
    let mut p: Vec<u8> = Vec::new();
    write(&mut p, "aaa\nbbb\nccc\n");
    let (cursor, _, _) = collect(&p, Cursor::default());
    assert_eq!(cursor.byte_offset, 12);

    write(&mut p, "x\n");
    let (cursor2, stats, lines) = collect(&p, cursor);
    assert!(stats.restarted);
    assert_eq!(lines, vec!["x"]);
    assert_eq!(cursor2.byte_offset, 2);
}

#[test]
fn nothing_new_means_no_work() {
    let mut p: Vec<u8> = Vec::new();
    write(&mut p, "a\n");
    let (cursor, _, _) = collect(&p, Cursor::default());
    let (cursor2, stats, lines) = collect(&p, cursor);
    assert_eq!(cursor2, cursor);
    assert_eq!(stats.delivered, 0);
    assert!(lines.is_empty());
}

#[test]
fn an_oversize_line_is_skipped_without_being_held_in_memory() {
    let mut p: Vec<u8> = Vec::new();

    let mut contents = String::from("small-before\n");
    contents.push_str(&"x".repeat(MAX_LINE + 1_000));
    contents.push('\n');
    contents.push_str("small-after\n");
    write(&mut p, &contents);

    let (cursor, stats, lines) = collect(&p, Cursor::default());
    assert_eq!(lines, vec!["small-before", "small-after"]);
    assert_eq!(stats.oversize_skipped, 1);
    assert_eq!(cursor.byte_offset, contents.len() as u64);
}

#[test]
fn a_line_spanning_many_read_chunks_is_reassembled_whole() {
    let mut p: Vec<u8> = Vec::new();
    let long = "y".repeat(CHUNK * 2 + 123);
    write(&mut p, &format!("{long}\n"));

    let (_, stats, lines) = collect(&p, Cursor::default());
    assert_eq!(stats.delivered, 1);
    assert_eq!(lines.first().map(String::len), Some(long.len()));
}

#[test]
fn reading_the_same_content_twice_from_scratch_is_deterministic() {
    let mut p: Vec<u8> = Vec::new();
    write(&mut p, "a\nb\nc\n");
    let first = collect(&p, Cursor::default());
    let second = collect(&p, Cursor::default());
    assert_eq!(first.0, second.0);
    assert_eq!(first.2, second.2);
}

#[test]
fn a_file_with_no_trailing_newline_yields_nothing_until_it_gets_one() {
    let mut p: Vec<u8> = Vec::new();
    write(&mut p, "incomplete");
    let (cursor, stats, lines) = collect(&p, Cursor::default());
    assert!(lines.is_empty());
    assert_eq!(stats.delivered, 0);
    assert_eq!(cursor.byte_offset, 0);
}

#[test]
fn arbitrary_split_points_yield_the_same_result_as_one_pass() {
    let mut p: Vec<u8> = Vec::new();
    let full = "alpha\nbeta\ngamma\ndelta\nepsilon\n";

    let whole = {
        write(&mut p, full);
        collect(&p, Cursor::default()).2
    };

    for split in 1..full.len() {
        write(&mut p, full.get(..split).unwrap());
        let (cursor, _, mut lines) = collect(&p, Cursor::default());
        append(&mut p, full.get(split..).unwrap());
        let (_, _, rest) = collect(&p, cursor);
        lines.extend(rest);
        assert_eq!(lines, whole, "split at byte {split} diverged");
    }
}

#[test]
fn the_prefilter_runs_before_anything_expensive() {
    let contents =
        "{\"type\":\"assistant\"}\n{\"type\":\"user\"}\n{\"type\":\"assistant\"}\n";
    let (_, stats, delivered) =
        read_new_lines(contents.as_bytes(), Cursor::default(), ClaudeCodeAdapter);

    assert_eq!(stats.scanned, 3);
    assert_eq!(stats.delivered, 2);
    assert_eq!(delivered.len(), 2);
}

#[test]
fn an_oversize_line_that_looked_relevant_is_reported_as_data_loss() {
    let mut contents = String::from("{\"type\":\"assistant\",\"usage\":{");
    contents.push_str(&"x".repeat(MAX_LINE + 1_000));
    contents.push('\n');

    let (_, stats, _) = read_new_lines(contents.as_bytes(), Cursor::default(), ClaudeCodeAdapter);

    assert_eq!(stats.oversize_skipped, 1);
    assert_eq!(stats.oversize_relevant, 1);
}

#[test]
fn line_offsets_point_at_the_start_of_each_line() {
    let (_, _, lines) = read_new_lines(b"aaaa\nbb\ncccccc\n", Cursor::default(), EveryLine);
    let offsets: Vec<u64> = lines.iter().map(|l| l.offset).collect();
    assert_eq!(offsets, vec![0, 5, 8]);
    let ordinals: Vec<u64> = lines.iter().map(|l| l.ordinal).collect();
    assert_eq!(ordinals[1] - ordinals[0], 1);
}

#[test]
fn a_marker_beyond_the_window_does_not_admit_a_line() {
    let mut contents = "x".repeat(PREFILTER_WINDOW);
    contents.push_str("\"usage\"\n\"usage\"\n");
    let (_, stats, lines) =
        read_new_lines(contents.as_bytes(), Cursor::default(), ClaudeCodeAdapter);
    assert_eq!(stats.scanned, 2);
    assert_eq!(lines.len(), 1);
    assert_eq!(lines[0].bytes, b"\"usage\"");
}

#[test]
fn an_empty_line_is_a_line() {
    let (cursor, stats, lines) = collect(b"a\n\nb\n", Cursor::default());
    assert_eq!(lines, vec!["a", "", "b"]);
    assert_eq!(cursor.byte_offset, 5);
    assert_eq!(stats.delivered, 3);
}

#[test]
fn feeding_pieces_gives_what_reading_whole_gives() {
    let full = b"alpha\nbeta\ngamma";
    let (whole_cursor, whole_stats, whole) =
        read_new_lines(full, Cursor::default(), EveryLine);
    for size in 1..full.len() {
        let mut t = Tailer::begin(Cursor::default(), full.len() as u64, EveryLine);
        let mut lines = Vec::new();
        for chunk in full.chunks(size) {
            lines.extend(t.feed(chunk));
        }
        assert_eq!(t.position(), full.len() as u64);
        let (cursor, stats) = t.finish(full.len() as u64);
        assert_eq!(cursor, whole_cursor);
        assert_eq!(stats, whole_stats);
        assert_eq!(lines, whole);
    }
}
