use bettercoding::forks::NativeForkView;
use bettercoding::projection::{
    build_projection, has_cyclic_file, EntryChange, NativeBranchMetadata, NativeFeedOrigin,
    NativeIngestHealth, NativeLine, SessionNativeRecord,
};

fn line(uuid: &str, parent: &str, changes: &[(usize, &str)]) -> NativeLine {
    NativeLine {
        uuid: Some(uuid.to_string()),
        parent_uuid: if parent.is_empty() { None } else { Some(parent.to_string()) },
        leaf_uuid: None,
        timestamp: Some("2026-07-20T20:00:00Z".to_string()),
        git_branch: Some("main".to_string()),
        version: Some("1".to_string()),
        changes: changes
            .iter()
            .map(|(index, entry)| EntryChange { index: *index, entry: entry.to_string() })
            .collect(),
    }
}

fn row(seq: i64, file_id: u128, sid: &str, line: Option<NativeLine>) -> SessionNativeRecord {
    SessionNativeRecord {
        file_id,
        claude_session_id: sid.to_string(),
        seq,
        linked_execution_process_id: None,
        bound_coding_agent_turn_id: None,
        bound_turn_execution_process_id: None,
        bound_queued_message_id: None,
        line,
    }
}

#[test]
fn changed_entries_keep_their_place() {
    let rows = vec![
        row(1, 1, "s", Some(line("a", "", &[(0, "first")]))),
        row(2, 1, "s", Some(line("b", "a", &[(1, "second"), (0, "first, revised")]))),
        row(3, 1, "s", None),
        row(4, 2, "t", Some(line("c", "", &[(0, "other conversation")]))),
    ];
    assert!(!has_cyclic_file(&rows));
    let snapshot = build_projection(&rows, 3, 9, NativeIngestHealth::default(), true);
    let shown: Vec<(&str, i64)> =
        snapshot.entries.iter().map(|e| (e.normalized_entry.as_str(), e.seq)).collect();
    assert_eq!(
        shown,
        vec![("first, revised", 1), ("second", 2), ("other conversation", 4)]
    );
    assert_eq!((snapshot.revision, snapshot.seq), (3, 9));
    assert!(snapshot.cli_session_active);
    assert!(snapshot.forks.is_empty());
    // The entry keeps the particulars of the line that started it.
    assert_eq!(snapshot.entries[0].uuid.as_deref(), Some("a"));
    assert_eq!(snapshot.entries[1].parent_uuid.as_deref(), Some("a"));
    assert_eq!(snapshot.entries[0].ts.as_deref(), Some("2026-07-20T20:00:00Z"));
    assert_eq!(snapshot.entries[0].git_branch.as_deref(), Some("main"));
    assert_eq!(snapshot.entries[0].version.as_deref(), Some("1"));
    assert_eq!(snapshot.entries[0].branch, None);
}

#[test]
fn origins_go_by_who_wrote_a_record() {
    let origin = |linked: Option<u128>, turn: Option<u128>, queued: Option<u128>| {
        let mut r = row(1, 1, "s", Some(line("a", "", &[(0, "x")])));
        r.linked_execution_process_id = linked;
        r.bound_coding_agent_turn_id = turn;
        r.bound_turn_execution_process_id = Some(77);
        r.bound_queued_message_id = queued;
        let s = build_projection(&vec![r], 0, 0, NativeIngestHealth::default(), false);
        (s.entries[0].origin, s.entries[0].linked_execution_process_id)
    };
    assert_eq!(origin(Some(5), Some(6), Some(7)), (NativeFeedOrigin::Executor, Some(5)));
    assert_eq!(origin(None, Some(6), None), (NativeFeedOrigin::App, Some(77)));
    assert_eq!(origin(None, None, Some(7)), (NativeFeedOrigin::App, Some(77)));
    assert_eq!(origin(None, None, None), (NativeFeedOrigin::Cli, Some(77)));
}

fn forked_rows() -> Vec<SessionNativeRecord> {
    let mut rows = vec![
        row(1, 1, "s", Some(line("root", "", &[(0, "root")]))),
        row(2, 1, "s", Some(line("x", "root", &[(1, "x")]))),
        row(3, 1, "s", Some(line("y", "root", &[(2, "y")]))),
    ];
    let mut hint = line("h", "y", &[]);
    hint.leaf_uuid = Some("y".to_string());
    rows.push(row(4, 1, "s", Some(hint)));
    rows
}

#[test]
fn entries_say_which_branch_they_are_on() {
    let s = build_projection(&forked_rows(), 0, 0, NativeIngestHealth::default(), false);
    assert_eq!(s.forks.len(), 1);
    assert_eq!((s.forks[0].file_id, s.forks[0].claude_session_id.as_str()), (1, "s"));
    let fork: &NativeForkView = &s.forks[0].fork;
    assert_eq!(fork.fork_parent_uuid, "root");
    assert_eq!(fork.default_branch, Some(1));
    assert_eq!(s.entries[0].branch, None);
    assert_eq!(
        s.entries[1].branch,
        Some(NativeBranchMetadata {
            fork_parent_uuid: "root".to_string(),
            branch_index: 0,
            branch_label: "Branch 1".to_string(),
            is_default: false,
        })
    );
    assert_eq!(
        s.entries[2].branch,
        Some(NativeBranchMetadata {
            fork_parent_uuid: "root".to_string(),
            branch_index: 1,
            branch_label: "Branch 2".to_string(),
            is_default: true,
        })
    );
}

#[test]
fn forks_are_found_in_each_file_alone() {
    // The same edges, but spread over two files: neither has a fork.
    let mut rows = forked_rows();
    rows[2].file_id = 2;
    let s = build_projection(&rows, 0, 0, NativeIngestHealth::default(), false);
    assert!(s.forks.is_empty());
}

#[test]
fn files_with_a_fork_on_a_cycle_are_recognised() {
    let rows = vec![
        row(1, 1, "s", Some(line("a", "b", &[(0, "a")]))),
        row(2, 1, "s", Some(line("b", "a", &[(1, "b")]))),
        row(3, 1, "s", Some(line("c", "a", &[(2, "c")]))),
    ];
    assert!(has_cyclic_file(&rows));
}

#[test]
fn later_records_leave_the_earlier_entries_in_place() {
    let mut rows = forked_rows();
    let before = build_projection(&rows, 0, 0, NativeIngestHealth::default(), false);
    rows.push(row(5, 1, "s", Some(line("z", "y", &[(3, "z")]))));
    let after = build_projection(&rows, 0, 0, NativeIngestHealth::default(), false);
    for (a, b) in before.entries.iter().zip(after.entries.iter()) {
        assert_eq!(a.normalized_entry, b.normalized_entry);
        assert_eq!(a.seq, b.seq);
    }
    assert_eq!(after.entries.len(), before.entries.len() + 1);
}

#[test]
fn lines_that_are_not_understood_change_nothing() {
    let plain = build_projection(&forked_rows(), 3, 9, NativeIngestHealth::default(), true);
    let mut rows = forked_rows();
    rows.insert(0, row(0, 8, "u", None));
    rows.insert(2, row(2, 1, "s", None));
    rows.push(row(9, 1, "s", None));
    let mixed = build_projection(&rows, 3, 9, NativeIngestHealth::default(), true);
    assert_eq!(format!("{plain:?}"), format!("{mixed:?}"));
}
