use bettercoding::tail::{
    hash_bytes, read_complete_line_batch, rescan_reason, split_complete_lines, ByteReader,
    LineBatch, ObservedFileState, RescanReason, StoredTailState,
};

#[test]
fn partial_line_never_advances_cursor() {
    let chunk = split_complete_lines(b"one\ntwo\npartial", 40, 7);
    assert_eq!(
        chunk
            .lines
            .iter()
            .map(|line| (&line.raw, line.line_seq))
            .collect::<Vec<_>>(),
        vec![(&"one".to_string(), 7), (&"two".to_string(), 8)]
    );
    assert_eq!(chunk.cursor_offset, 48);
    assert_eq!(chunk.next_line_seq, 9);
    assert_eq!(chunk.trailing_bytes, 7);
    assert_eq!(chunk.last_line_offset, Some(44));
}

#[test]
fn a_chunk_with_only_a_partial_line_preserves_state() {
    let chunk = split_complete_lines(b"partial", 12, 3);
    assert!(chunk.lines.is_empty());
    assert_eq!(chunk.cursor_offset, 12);
    assert_eq!(chunk.next_line_seq, 3);
    assert_eq!(chunk.last_line_offset, None);
    assert_eq!(chunk.last_line_hash, None);
}

#[test]
fn line_reader_bounds_batches_and_leaves_partial_cursor_uncommitted() {
    let mut reader = ByteReader::new(b"one\ntwo\npartial".to_vec());
    let first = read_complete_line_batch(&mut reader, 10, 4, 1);
    assert_eq!(first.lines.len(), 1);
    assert_eq!(first.cursor_offset, 14);
    assert_eq!(first.next_line_seq, 5);

    let second =
        read_complete_line_batch(&mut reader, first.cursor_offset, first.next_line_seq, 2);
    assert_eq!(second.lines.len(), 1);
    assert_eq!(second.lines[0].raw, "two");
    assert_eq!(second.cursor_offset, 18);
    assert_eq!(second.trailing_bytes, 7);
}

#[test]
fn rescan_decisions_cover_identity_truncate_and_equal_size_rewrite() {
    let stored = StoredTailState {
        dev: 1,
        inode: 2,
        cursor_offset: 10,
        last_line_hash: Some("old"),
    };
    assert_eq!(
        rescan_reason(
            stored,
            ObservedFileState {
                dev: 1,
                inode: 3,
                size: 10,
                verified_last_line_hash: Some("old"),
            },
            false,
        ),
        Some(RescanReason::IdentityChanged)
    );
    assert_eq!(
        rescan_reason(
            stored,
            ObservedFileState {
                dev: 1,
                inode: 2,
                size: 9,
                verified_last_line_hash: Some("old"),
            },
            false,
        ),
        Some(RescanReason::Truncated)
    );
    assert_eq!(
        rescan_reason(
            stored,
            ObservedFileState {
                dev: 1,
                inode: 2,
                // Same size, different bytes at the last-line offset.
                size: 10,
                verified_last_line_hash: Some("new"),
            },
            false,
        ),
        Some(RescanReason::LastLineChanged)
    );
}

#[test]
fn an_unchanged_file_is_read_on() {
    let stored = StoredTailState { dev: 1, inode: 2, cursor_offset: 10, last_line_hash: Some("h") };
    let same = ObservedFileState { dev: 1, inode: 2, size: 12, verified_last_line_hash: Some("h") };
    assert_eq!(rescan_reason(stored, same, false), None);
    assert_eq!(rescan_reason(stored, same, true), Some(RescanReason::WatcherError));
    let new = StoredTailState { dev: 1, inode: 2, cursor_offset: 0, last_line_hash: None };
    let unverified = ObservedFileState { dev: 1, inode: 2, size: 0, verified_last_line_hash: None };
    assert_eq!(rescan_reason(new, unverified, false), None);
}

#[test]
fn line_ends_of_other_systems_are_cut_off() {
    let chunk = split_complete_lines(b"a\r\n\r\n\n\xff\n", 0, 0);
    let raw: Vec<&str> = chunk.lines.iter().map(|l| l.raw.as_str()).collect();
    assert_eq!(raw, vec!["a", "", "", "\u{fffd}"]);
    let spans: Vec<(i64, i64)> = chunk.lines.iter().map(|l| (l.start_offset, l.end_offset)).collect();
    assert_eq!(spans, vec![(0, 3), (3, 5), (5, 6), (6, 8)]);
    assert_eq!(chunk.trailing_bytes, 0);
    // The digest covers the line break too.
    assert_eq!(chunk.last_line_hash, Some(hash_bytes(b"\xff\n")));
}

#[test]
fn digests_are_hexadecimal() {
    assert_eq!(
        hash_bytes(b"abc"),
        "ba7816bf8f01cfea414140de5dae2223b00361a396177a9cb410ff61f20015ad"
    );
    assert_eq!(
        hash_bytes(b""),
        "e3b0c44298fc1c149afbf4c8996fb92427ae41e4649b934ca495991b7852b855"
    );
}

#[test]
fn batches_compose_to_the_whole() {
    let bytes = b"1\n2\n3\n4\n5\nrest";
    let whole = split_complete_lines(bytes, 100, 0);
    let mut reader = ByteReader::new(bytes.to_vec());
    let mut lines = vec![];
    let mut cursor = 100;
    let mut seq = 0;
    loop {
        let chunk = read_complete_line_batch(&mut reader, cursor, seq, 2);
        cursor = chunk.cursor_offset;
        seq = chunk.next_line_seq;
        let stop = chunk.lines.is_empty() || chunk.trailing_bytes > 0;
        lines.extend(chunk.lines);
        if stop {
            break;
        }
    }
    assert_eq!(lines, whole.lines);
    assert_eq!((cursor, seq), (whole.cursor_offset, whole.next_line_seq));
}

#[test]
fn lines_can_be_taken_one_by_one() {
    let mut batch = LineBatch::new(5, 1, 2);
    assert!(batch.wants_more());
    batch.take_line(&b"x\n".to_vec());
    batch.take_line(&b"y\n".to_vec());
    assert!(!batch.wants_more());
    let chunk = batch.finish();
    assert_eq!(chunk, split_complete_lines(b"x\ny\n", 5, 1));

    let mut cut = LineBatch::new(0, 0, 9);
    cut.take_line(&b"par".to_vec());
    assert!(!cut.wants_more());
    assert_eq!(cut.finish().trailing_bytes, 3);
}
