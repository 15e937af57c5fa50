use bettercoding::cli_collab::{CliPaneBoundVia, ProbeReport, SidEvidence};
use bettercoding::import_run::{note_quarantine, ImportAnswer, ImportPhase, OpenedFile};
use bettercoding::path_set::PathSet;
use bettercoding::ingest::{
    binds_fresh_pane, build_records, claude_project_slug, distinct_files, file_size,
    invalidated_by, is_foreign_writer, is_transcript_name, may_assign, modified_ms,
    parse_native_timestamp, plan_watchers, published_updates, prompt_snippet,
    read_session_preview, tracked_dir, transcript_file_name, transcript_path, unassigned_cwd,
    unassigned_session, verify_range, wakes_publisher, watch_degraded, watch_step, AdaptedLine,
    AfterImport, AssignFacts, BatchStep, CliSessionKind, Directories, ImportingPaths, ClaudeTranscriptIngestError,
    LinkMutation, NativeFeedUpdate, PreviewLine, RecordDisposition, Revisions, SessionPreview,
    StoredFile, TrackedDirectory, UnassignedFile, WatchEvent, Watcher, WriterFacts,
    IMPORT_BATCH_LINE_LIMIT,
};
use bettercoding::tail::{
    hash_bytes, read_complete_line_batch, split_complete_lines, ByteReader, RescanReason,
};

#[test]
fn cli_session_kind_classification_fails_open_to_main() {
    assert_eq!(
        CliSessionKind::from_entrypoint(Some("cli")),
        CliSessionKind::Main
    );
    assert_eq!(CliSessionKind::from_entrypoint(None), CliSessionKind::Main);
    assert_eq!(
        CliSessionKind::from_entrypoint(Some("totally-new-thing")),
        CliSessionKind::Main
    );
    assert_eq!(
        CliSessionKind::from_entrypoint(Some("sdk-cli")),
        CliSessionKind::Subagent
    );
    assert_eq!(
        CliSessionKind::from_entrypoint(Some("sdk-py")),
        CliSessionKind::Subagent
    );
}

fn typed(text: &str) -> Option<PreviewLine> {
    Some(PreviewLine { entrypoint: None, user_text: Some(text.to_string()) })
}

fn bookkeeping(entrypoint: &str) -> Option<PreviewLine> {
    Some(PreviewLine { entrypoint: Some(entrypoint.to_string()), user_text: None })
}

#[test]
fn session_preview_skips_malformed_lines_within_its_scan_bound() {
    let preview = read_session_preview(&vec![None, typed("usable preview")]);
    assert_eq!(
        preview.first_prompt_snippet.as_deref(),
        Some("usable preview")
    );
    assert_eq!(preview.kind, CliSessionKind::Main);
}

#[test]
fn session_preview_reads_entrypoint_from_bookkeeping_before_prompt() {
    let preview = read_session_preview(&vec![bookkeeping("sdk-py"), typed("usable preview")]);
    assert_eq!(preview.kind, CliSessionKind::Subagent);
    assert_eq!(
        preview.first_prompt_snippet.as_deref(),
        Some("usable preview")
    );
}

#[test]
fn session_preview_stops_at_its_bounds() {
    let mut late: Vec<Option<PreviewLine>> = (0..50).map(|_| None).collect();
    late.push(typed("too late"));
    assert_eq!(read_session_preview(&late).first_prompt_snippet, None);
    // What follows the first prompt does not count.
    let after = read_session_preview(&vec![typed("hi"), bookkeeping("sdk-cli")]);
    assert_eq!(after.kind, CliSessionKind::Main);
    // The first entrypoint decides.
    let two = read_session_preview(&vec![bookkeeping("cli"), bookkeeping("sdk-cli"), typed("hi")]);
    assert_eq!(two.kind, CliSessionKind::Main);
    let long: String = "\u{e9}".repeat(161);
    assert_eq!(prompt_snippet(&long), format!("{}\u{2026}", "\u{e9}".repeat(160)));
    assert_eq!(prompt_snippet(&"x".repeat(160)), "x".repeat(160));
}

#[test]
fn slugs_are_single_names() {
    assert_eq!(claude_project_slug("/var/tmp/a_b.c-d"), "-var-tmp-a-b-c-d");
    assert_eq!(claude_project_slug("/\u{e9}"), "--");
}

#[test]
fn transcript_names() {
    assert_eq!(transcript_file_name("abc"), "abc.jsonl");
    assert!(is_transcript_name("abc.jsonl"));
    assert!(!is_transcript_name("agent-abc.jsonl"));
    assert!(!is_transcript_name("abc.json"));
    assert!(!is_transcript_name(".jsonl"));
    let t = transcript_path("/p/q/abc.jsonl").unwrap();
    assert_eq!(
        (t.claude_session_id.as_str(), t.dir_path.as_str(), t.file_name.as_str()),
        ("abc", "/p/q", "abc.jsonl")
    );
    assert!(transcript_path("/").is_none());
}

#[test]
fn ingest_errors_have_wordings() {
    assert_eq!(ClaudeTranscriptIngestError::SessionNotFound(1).message("Agent"), "session 00000000-0000-0000-0000-000000000001 was not found");
    assert_eq!(ClaudeTranscriptIngestError::WorkspaceNotFound.message("Agent"), "Workspace not found");
    assert_eq!(ClaudeTranscriptIngestError::Database("locked".to_string()).message("Agent"), "locked");
    assert_eq!(ClaudeTranscriptIngestError::Io("gone".to_string()).message("Agent"), "gone");
    assert_eq!(
        ClaudeTranscriptIngestError::WorkspacePathMissing(1).message("Agent"),
        "workspace for session 00000000-0000-0000-0000-000000000001 has no local container path"
    );
    assert_eq!(
        ClaudeTranscriptIngestError::NotQuarantined("sid".to_string()).message("Agent"),
        "Agent session sid is not quarantined for this workspace"
    );
}

#[test]
fn sizes_and_times_are_stored_as_far_as_they_can_be() {
    assert_eq!(file_size(7), 7);
    assert_eq!(file_size(u64::MAX), i64::MAX);
    assert_eq!(modified_ms(12), Some(12));
    assert_eq!(modified_ms(u128::MAX), None);
    assert_eq!(parse_native_timestamp("1970-01-01T00:00:01.5Z"), Some((1, 500_000_000)));
    assert_eq!(parse_native_timestamp("1970-01-01T02:00:00+02:00"), Some((0, 0)));
    assert_eq!(parse_native_timestamp("yesterday"), None);
}

fn stored(cursor: i64, last: i64, hash: Option<&str>) -> StoredFile {
    StoredFile {
        dev: 1,
        inode: 2,
        cursor_offset: cursor,
        next_line_seq: 4,
        last_line_offset: last,
        last_line_hash: hash.map(str::to_string),
    }
}

#[test]
fn the_last_line_is_looked_at_again() {
    assert_eq!(verify_range(&stored(10, 6, Some("h")), 10), Some((6, 4)));
    assert_eq!(verify_range(&stored(10, 6, Some("h")), 9), None);
    assert_eq!(verify_range(&stored(10, 6, None), 10), None);
    assert_eq!(verify_range(&stored(0, 0, Some("h")), 10), None);
    // Offsets that nobody stores are still taken as they are.
    assert_eq!(verify_range(&stored(10, -5, Some("h")), 10), Some((-5, 15)));
    let far = verify_range(&stored(i64::MAX, -1, Some("h")), i64::MAX);
    assert_eq!(far, Some((-1, i64::MAX)));
}

#[test]
fn every_line_becomes_a_record() {
    let chunk = split_complete_lines(b"{}\nnot json\n", 0, 5);
    let adapted = vec![
        Some(AdaptedLine {
            disposition: RecordDisposition::Renderable,
            is_unknown: false,
            uuid: Some("u".to_string()),
            parent_uuid: None,
            kind: "user".to_string(),
            timestamp: Some("1970-01-01T00:00:00Z".to_string()),
            user_text: Some("hi".to_string()),
        }),
        None,
    ];
    let (records, unknown) = build_records(&chunk.lines, &adapted, "sid");
    assert_eq!(unknown, 1);
    assert_eq!(records.len(), 2);
    assert_eq!(records[0].line_seq, 5);
    assert_eq!(records[0].kind, "user");
    assert_eq!(records[0].recorded_at, Some((0, 0)));
    assert_eq!(records[0].user_prompt.as_deref(), Some("hi"));
    assert_eq!(records[1].kind, "unknown");
    assert_eq!(records[1].raw, "not json");
    assert_eq!(records[1].claude_session_id, "sid");
    assert_eq!(records[1].disposition, RecordDisposition::Unknown);
    assert_eq!(records[1].recorded_at, None);
}

#[test]
fn event_arriving_during_import_triggers_immediate_path_rescan() {
    let mut paths = ImportingPaths::new();
    assert!(paths.begin("/a", false));
    assert!(!paths.begin("/a", false));
    assert!(!paths.begin("/a", true));
    assert!(paths.begin("/b", false));
    assert_eq!(paths.finish("/a"), AfterImport::Again { force_rescan: true });
    assert_eq!(paths.finish("/a"), AfterImport::Done);
    assert!(paths.begin("/a", false));
    assert_eq!(paths.finish("/b"), AfterImport::Done);
}

#[test]
fn revisions_are_kept_apart() {
    let mut r = Revisions::new();
    assert_eq!(r.revision(1), 0);
    assert_eq!(r.invalidate(1), 1);
    assert_eq!(r.invalidate(2), 1);
    assert_eq!(r.invalidate(1), 2);
    assert_eq!((r.revision(1), r.revision(2), r.revision(3)), (2, 1, 0));
    assert_eq!(
        published_updates(&vec![(1, 10), (3, 4)], &r),
        vec![
            NativeFeedUpdate::RecordsAppended { session_id: 1, seq: 10, revision: 2 },
            NativeFeedUpdate::RecordsAppended { session_id: 3, seq: 4, revision: 0 },
        ]
    );
}

#[test]
fn executor_precedence_repoints_history_and_invalidates_both_feeds() {
    let m = LinkMutation { previous_session_id: Some(1), session_id: 2, republished_outbox: 3 };
    assert_eq!(invalidated_by(m), vec![1, 2]);
    assert!(wakes_publisher(m));
    let first = LinkMutation { previous_session_id: None, session_id: 2, republished_outbox: 0 };
    assert_eq!(invalidated_by(first), vec![2]);
    assert!(!wakes_publisher(first));
    let same = LinkMutation { previous_session_id: Some(2), session_id: 2, republished_outbox: 0 };
    assert_eq!(invalidated_by(same), Vec::<u128>::new());
}

fn assign_facts() -> AssignFacts {
    AssignFacts {
        session_id: 1,
        workspace_id: Some(2),
        workspace_exists: true,
        effective_dir: Some("/w".to_string()),
        found_in: vec![None, Some(2)],
        linked: false,
    }
}

#[test]
fn nonexistent_workspace_is_not_reported_as_a_missing_path() {
    let mut f = assign_facts();
    f.workspace_exists = false;
    f.effective_dir = None;
    assert!(matches!(may_assign(&f, "sid"), Err(ClaudeTranscriptIngestError::WorkspaceNotFound)));
}

#[test]
fn only_unclaimed_conversations_are_assigned() {
    assert_eq!(may_assign(&assign_facts(), "sid").unwrap(), "/w");
    let mut linked = assign_facts();
    linked.linked = true;
    assert!(matches!(may_assign(&linked, "sid"), Err(ClaudeTranscriptIngestError::NotQuarantined(s)) if s == "sid"));
    let mut elsewhere = assign_facts();
    elsewhere.found_in = vec![Some(3)];
    assert!(matches!(may_assign(&elsewhere, "sid"), Err(ClaudeTranscriptIngestError::NotQuarantined(_))));
    let mut no_session = assign_facts();
    no_session.workspace_id = None;
    assert!(matches!(may_assign(&no_session, "sid"), Err(ClaudeTranscriptIngestError::SessionNotFound(1))));
    let mut no_dir = assign_facts();
    no_dir.effective_dir = None;
    assert!(matches!(may_assign(&no_dir, "sid"), Err(ClaudeTranscriptIngestError::WorkspacePathMissing(2))));
}

#[test]
fn unassigned_conversations_are_described() {
    assert_eq!(unassigned_cwd(Some("/s".to_string()), &None), Some("/s".to_string()));
    assert_eq!(unassigned_cwd(None, &Some("/r".to_string())), Some("/r".to_string()));
    assert_eq!(unassigned_cwd(None, &Some(String::new())), None);
    let u = unassigned_session(
        UnassignedFile {
            claude_session_id: "sid".to_string(),
            dir_path: "/d".to_string(),
            file_name: "sid.jsonl".to_string(),
            mtime_ms: Some(3),
        },
        "/w".to_string(),
        SessionPreview { first_prompt_snippet: Some("hi".to_string()), kind: CliSessionKind::Main },
    );
    assert_eq!((u.cwd.as_str(), u.mtime_ms, u.kind), ("/w", Some(3), CliSessionKind::Main));
    assert_eq!(u.first_prompt_snippet.as_deref(), Some("hi"));
    assert_eq!(distinct_files(&vec![3, 1, 3, 2, 1]), vec![3, 1, 2]);
}

#[test]
fn workspaces_that_are_looked_after() {
    let dir = || Some("/w".to_string());
    assert_eq!(tracked_dir(false, false, true, dir()), dir());
    assert_eq!(tracked_dir(true, false, true, dir()), None);
    assert_eq!(tracked_dir(false, true, true, dir()), None);
    assert_eq!(tracked_dir(false, false, false, dir()), None);
    assert_eq!(tracked_dir(false, false, true, None), None);
}

fn report(pane: bool) -> ProbeReport {
    ProbeReport {
        pane_session_exists: pane,
        agent_running: Some(pane),
        sid_evidence: SidEvidence::NoResumeArg,
        only_active_claude_in_cwd: Some(true),
        probe_failed: false,
    }
}

#[test]
fn foreign_writer_is_recorded_and_surfaced_when_no_app_writer_is_live() {
    let f = WriterFacts {
        linked: false,
        bound: false,
        executor_running: Some(false),
        report: report(false),
    };
    assert!(is_foreign_writer(&f));
}

#[test]
fn foreign_writer_classifier_fails_safe_for_executor_pane_and_probe_failure() {
    let facts = |executor: Option<bool>, pane: bool, failed: bool, linked: bool, bound: bool| {
        let mut r = report(pane);
        r.probe_failed = failed;
        WriterFacts { linked, bound, executor_running: executor, report: r }
    };
    assert!(!is_foreign_writer(&facts(Some(true), false, false, false, false)));
    assert!(!is_foreign_writer(&facts(None, false, false, false, false)));
    assert!(!is_foreign_writer(&facts(Some(false), true, false, false, false)));
    assert!(!is_foreign_writer(&facts(Some(false), false, true, false, false)));
    assert!(!is_foreign_writer(&facts(Some(false), false, false, true, false)));
    assert!(!is_foreign_writer(&facts(Some(false), false, false, false, true)));
}

#[test]
fn cli_fresh_file_auto_binds_to_the_only_live_unreleased_pane() {
    assert!(binds_fresh_pane(CliPaneBoundVia::CliFresh, &None, false, &report(true)));
}

#[test]
fn cli_fresh_file_quarantines_for_released_dead_or_nonexclusive_panes() {
    assert!(!binds_fresh_pane(CliPaneBoundVia::CliFresh, &None, true, &report(true)));
    assert!(!binds_fresh_pane(CliPaneBoundVia::CliFresh, &None, false, &report(false)));
    let mut shared = report(true);
    shared.only_active_claude_in_cwd = Some(false);
    assert!(!binds_fresh_pane(CliPaneBoundVia::CliFresh, &None, false, &shared));
    assert!(!binds_fresh_pane(CliPaneBoundVia::CliResume, &None, false, &report(true)));
    assert!(!binds_fresh_pane(
        CliPaneBoundVia::CliFresh,
        &Some("sid".to_string()),
        false,
        &report(true)
    ));
}

fn texts(list: &[&str]) -> Vec<String> {
    list.iter().map(|s| s.to_string()).collect()
}

#[test]
fn reconcile_restarts_finished_native_transcript_watcher() {
    let plan = plan_watchers(
        &texts(&["/a", "/b"]),
        true,
        &vec![
            Watcher { path: "/a".to_string(), finished: true },
            Watcher { path: "/b".to_string(), finished: false },
        ],
        &texts(&["/a", "/b"]),
    );
    assert_eq!(plan.end, texts(&["/a"]));
    assert_eq!(plan.degraded, texts(&["/b"]));
}

#[test]
fn reconcile_removes_watcher_when_workspace_is_archived() {
    let running = || vec![Watcher { path: "/a".to_string(), finished: false }];
    let plan = plan_watchers(&texts(&[]), true, &running(), &texts(&["/a"]));
    assert_eq!(plan.end, texts(&["/a"]));
    assert!(plan.degraded.is_empty());
    // With watchers switched off nothing is wanted.
    let off = plan_watchers(&texts(&["/a"]), false, &running(), &texts(&[]));
    assert_eq!(off.end, texts(&["/a"]));
}

fn directory(path: &str, workspace_id: u128) -> TrackedDirectory {
    TrackedDirectory { path: path.to_string(), workspace_id, cwd: format!("/w{workspace_id}") }
}

#[test]
fn a_directory_is_looked_after_for_one_workspace() {
    let mut dirs = Directories::new();
    dirs.track(directory("/a", 1));
    dirs.track(directory("/b", 2));
    // The later one takes the directory over.
    dirs.track(directory("/a", 3));
    assert_eq!(dirs.entries.len(), 2);
    let found = dirs.find("/a").unwrap();
    assert_eq!((found.workspace_id, found.cwd.as_str()), (3, "/w3"));
    assert_eq!(dirs.find("/b").unwrap().workspace_id, 2);
    assert!(dirs.find("/c").is_none());
}

#[test]
fn watcher_degradation_is_scoped_to_its_workspace() {
    let mut dirs = Directories::new();
    dirs.track(directory("/a", 1));
    dirs.track(directory("/b", 2));
    assert!(watch_degraded(&texts(&["/a"]), &dirs, 1));
    assert!(!watch_degraded(&texts(&["/a"]), &dirs, 2));
    assert!(!watch_degraded(&texts(&["/c"]), &dirs, 1));
}

#[test]
fn watchers_are_listened_to() {
    let failed = watch_step(WatchEvent::Failed);
    assert!(failed.degraded && failed.stop && failed.scan == Some(true));
    let changed = watch_step(WatchEvent::Changed);
    assert!(!changed.degraded && !changed.stop && changed.scan == Some(false));
    assert!(watch_step(WatchEvent::Ended).stop);
    assert!(watch_step(WatchEvent::Unavailable).degraded);
    assert!(!watch_step(WatchEvent::Ready).degraded);
}

fn opened(size: i64) -> OpenedFile {
    OpenedFile { dev: 1, inode: 2, size, mtime_ms: Some(1) }
}

fn link_to(session_id: u128) -> LinkMutation {
    LinkMutation { previous_session_id: None, session_id, republished_outbox: 0 }
}

fn reading(stored_file: StoredFile, size: i64, hash: Option<&str>, force: bool) -> ImportPhase {
    let linked = ImportPhase::start()
        .step(force, ImportAnswer::Opened(Some(opened(size))))
        .step(force, ImportAnswer::Registered(stored_file))
        .step(force, ImportAnswer::Linked(Some(link_to(9))));
    match &linked {
        ImportPhase::Adopt { link, .. } => assert_eq!(*link, Some(link_to(9))),
        other => panic!("unexpected {other:?}"),
    }
    let placed = linked.step(force, ImportAnswer::Carried);
    match (&placed, hash) {
        (ImportPhase::Verify { offset, length, .. }, Some(hash)) => {
            assert_eq!((*offset, *length), (6, 4));
            placed.step(force, ImportAnswer::Verified(hash.to_string()))
        }
        _ => placed,
    }
}

#[test]
fn a_new_file_is_appended() {
    let contents = b"one\ntwo\npart";
    let phase = reading(stored(0, 0, None), 12, None, false);
    let chunk = match &phase {
        ImportPhase::Read { import, .. } => {
            assert_eq!(import.replace, None);
            split_complete_lines(contents, import.cursor_offset, import.next_line_seq)
        }
        other => panic!("unexpected {other:?}"),
    };
    let phase = phase.step(false, ImportAnswer::Batch(chunk));
    match &phase {
        ImportPhase::Store { import, chunk, replace, file, .. } => {
            assert!(!*replace);
            assert_eq!(import.batch_step(chunk), BatchStep::Append);
            let cursor = import.cursor_for(chunk, file.size, file.mtime_ms);
            assert_eq!((cursor.cursor_offset, cursor.last_line_offset), (8, 4));
            assert_eq!(cursor.last_line_hash, Some(hash_bytes(b"two\n")));
            assert_eq!((cursor.observed_size, cursor.observed_mtime_ms), (12, Some(1)));
        }
        other => panic!("unexpected {other:?}"),
    }
    // An incomplete line ends the import.
    assert!(matches!(
        phase.step(false, ImportAnswer::Stored { appended: 0 }),
        ImportPhase::Done(Ok(()))
    ));
}

#[test]
fn stored_records_wake_the_publisher() {
    let phase = reading(stored(0, 0, None), 4, None, false)
        .step(false, ImportAnswer::Batch(split_complete_lines(b"one\n", 0, 0)))
        .step(false, ImportAnswer::Stored { appended: 1 });
    match &phase {
        ImportPhase::Announce { replaced, invalidate, wake, .. } => {
            assert_eq!((*replaced, *invalidate, *wake), (false, None, true));
        }
        other => panic!("unexpected {other:?}"),
    }
}

#[test]
fn staged_truncation_keeps_old_generation_until_replacement_batch_commits() {
    let phase = reading(stored(10, 6, Some("h")), 4, None, false);
    let empty = split_complete_lines(b"", 0, 0);
    match &phase {
        ImportPhase::Read { import, .. } => {
            assert_eq!(import.replace, Some(RescanReason::Truncated));
            assert_eq!((import.cursor_offset, import.next_line_seq), (0, 0));
        }
        other => panic!("unexpected {other:?}"),
    }
    // Nothing complete was read: nothing is replaced.
    assert!(matches!(phase.step(false, ImportAnswer::Batch(empty)), ImportPhase::Done(Ok(()))));

    let phase = reading(stored(10, 6, Some("h")), 4, None, false)
        .step(false, ImportAnswer::Batch(split_complete_lines(b"new\n", 0, 0)));
    assert!(matches!(phase, ImportPhase::Store { replace: true, .. }));
    let phase = phase.step(false, ImportAnswer::Stored { appended: 0 });
    // Only now do the readers learn of it.
    match &phase {
        ImportPhase::Announce { more, import, replaced, invalidate, wake, .. } => {
            assert_eq!((*replaced, *invalidate, *wake), (true, Some(9), false));
            assert!(*more);
            assert_eq!(import.replace, None);
        }
        other => panic!("unexpected {other:?}"),
    }
    assert!(matches!(phase.step(false, ImportAnswer::Carried), ImportPhase::Read { .. }));
}

#[test]
fn a_verified_file_is_read_on() {
    let phase = reading(stored(10, 6, Some("h")), 20, Some("h"), false);
    match phase {
        ImportPhase::Read { import, .. } => {
            assert_eq!(import.replace, None);
            assert_eq!((import.cursor_offset, import.next_line_seq), (10, 4));
        }
        other => panic!("unexpected {other:?}"),
    }
    for (hash, force, reason) in [
        (Some("other"), false, RescanReason::LastLineChanged),
        (Some("h"), true, RescanReason::WatcherError),
    ] {
        match reading(stored(10, 6, Some("h")), 20, hash, force) {
            ImportPhase::Read { import, .. } => assert_eq!(import.replace, Some(reason)),
            other => panic!("unexpected {other:?}"),
        }
    }
}

#[test]
fn unmatched_sid_is_imported_raw_before_manual_assignment() {
    let mut quarantined = PathSet::new();
    note_quarantine(&mut quarantined, "/p/a.jsonl", None);
    note_quarantine(&mut quarantined, "/p/b.jsonl", None);
    note_quarantine(&mut quarantined, "/p/a.jsonl", None);
    assert_eq!(quarantined.len(), 2);
    note_quarantine(&mut quarantined, "/p/a.jsonl", Some(1));
    assert!(!quarantined.contains("/p/a.jsonl"));
    assert!(quarantined.contains("/p/b.jsonl"));
    assert_eq!(quarantined.len(), 1);
    let phase = ImportPhase::start()
        .step(true, ImportAnswer::Opened(Some(opened(4))))
        .step(true, ImportAnswer::Registered(stored(0, 0, None)))
        .step(true, ImportAnswer::Linked(None))
        .step(true, ImportAnswer::Carried)
        .step(true, ImportAnswer::Batch(split_complete_lines(b"one\n", 0, 0)))
        .step(true, ImportAnswer::Stored { appended: 0 });
    // Nobody is told of a file that belongs to nobody, but it is read on.
    assert!(matches!(phase, ImportPhase::Announce { invalidate: None, replaced: true, wake: false, .. }));
    let phase = phase.step(true, ImportAnswer::Carried);
    assert!(matches!(phase, ImportPhase::Read { session: None, .. }));
}

fn failed(text: &str) -> ImportAnswer {
    ImportAnswer::Failed(ClaudeTranscriptIngestError::Io(text.to_string()))
}

#[test]
fn imports_end_with_their_first_error() {
    match ImportPhase::start().step(false, failed("gone")) {
        ImportPhase::Done(Err(e)) => assert_eq!(e.message("Agent"), "gone"),
        other => panic!("unexpected {other:?}"),
    }
    assert!(matches!(
        ImportPhase::start().step(false, ImportAnswer::Opened(None)),
        ImportPhase::Done(Ok(()))
    ));
}

/// Runs an import of a file with these contents, and gives how often something
/// was stored.
fn import_all(contents: &[u8], stored: &mut StoredFile, force: bool) -> usize {
    let size = contents.len() as i64;
    let mut times = 0;
    let mut phase = ImportPhase::start();
    loop {
        let answer = match &phase {
            ImportPhase::Open => ImportAnswer::Opened(Some(opened(size))),
            ImportPhase::Register { .. } => ImportAnswer::Registered(StoredFile {
                last_line_hash: stored.last_line_hash.clone(),
                ..*stored
            }),
            ImportPhase::Link { .. } => ImportAnswer::Linked(Some(link_to(9))),
            ImportPhase::Verify { offset, length, .. } => {
                let from = *offset as usize;
                ImportAnswer::Verified(hash_bytes(&contents[from..from + *length as usize]))
            }
            ImportPhase::Read { import, .. } => {
                let mut reader = ByteReader::new(contents.to_vec());
                reader.position = import.cursor_offset as usize;
                ImportAnswer::Batch(read_complete_line_batch(
                    &mut reader,
                    import.cursor_offset,
                    import.next_line_seq,
                    IMPORT_BATCH_LINE_LIMIT,
                ))
            }
            ImportPhase::Store { import, chunk, file, .. } => {
                times += 1;
                let cursor = import.cursor_for(chunk, file.size, file.mtime_ms);
                *stored = StoredFile {
                    dev: file.dev,
                    inode: file.inode,
                    cursor_offset: cursor.cursor_offset,
                    next_line_seq: cursor.next_line_seq,
                    last_line_offset: cursor.last_line_offset,
                    last_line_hash: cursor.last_line_hash,
                };
                ImportAnswer::Stored { appended: chunk.lines.len() as u64 }
            }
            ImportPhase::Adopt { .. } | ImportPhase::Announce { .. } => ImportAnswer::Carried,
            ImportPhase::Done(result) => {
                assert!(result.is_ok());
                return times;
            }
        };
        phase = phase.step(force, answer);
    }
}

#[test]
fn a_second_import_adds_nothing() {
    let many = "line\n".repeat(IMPORT_BATCH_LINE_LIMIT * 2 + 3);
    for contents in ["", "part", "one\n", "one\r\ntwo\npart", many.as_str()] {
        let mut known = StoredFile { next_line_seq: 0, ..stored(0, 0, None) };
        let first = import_all(contents.as_bytes(), &mut known, false);
        let lines = contents.matches('\n').count();
        assert_eq!(first, lines.div_ceil(IMPORT_BATCH_LINE_LIMIT));
        assert_eq!(known.next_line_seq, lines as i64);
        let before = format!("{known:?}");
        assert_eq!(import_all(contents.as_bytes(), &mut known, false), 0);
        assert_eq!(format!("{known:?}"), before);
        // Even after it was read anew.
        assert_eq!(import_all(contents.as_bytes(), &mut known, true), first);
        assert_eq!(import_all(contents.as_bytes(), &mut known, false), 0);
    }
    // What was rewritten to hold no line is read from the start, for nothing.
    let mut known = StoredFile { next_line_seq: 0, ..stored(0, 0, None) };
    import_all(b"one\ntwo\n", &mut known, false);
    let before = format!("{known:?}");
    assert_eq!(import_all(b"a rewritten file", &mut known, false), 0);
    assert_eq!(import_all(b"a rewritten file", &mut known, false), 0);
    assert_eq!(format!("{known:?}"), before);
}
