use bettercoding::execution_logs::{
    append_failure, jsonl_line, link_step, load_raw_log_messages, log_line, metadata_step,
    migration_progress, needs_database, output_step, session_logs_removed, AppendStage,
    DatabaseLogs, LinkStep, LogAnswer, LogPlaces, LogSearch, MetadataStep, MigrationStep,
    OutputStep, ProcessAnswer, ProcessMigration, Removal,
};
use bettercoding::msg_store::LogMsg;

#[test]
fn lines_end_in_one_break() {
    assert_eq!(log_line("a".to_string()), "a\n");
    assert_eq!(log_line("a\n".to_string()), "a\n");
    assert_eq!(log_line(String::new()), "\n");
    assert_eq!(jsonl_line("{}".to_string()), "{}\n");
}

#[test]
fn progress_is_reported_by_the_hundred() {
    assert_eq!(migration_progress(99, 400), None);
    assert_eq!(migration_progress(100, 400).as_deref(), Some("sqlite-migration:25"));
    assert_eq!(migration_progress(200, 300).as_deref(), Some("sqlite-migration:66"));
    assert_eq!(migration_progress(300, 0).as_deref(), Some("sqlite-migration:?"));
}

#[test]
fn a_migration_runs_through() {
    let s = MigrationStep::Connect.next(Ok(true));
    assert!(matches!(s, MigrationStep::CheckAny));
    assert!(matches!(
        MigrationStep::CheckAny.next(Ok(false)),
        MigrationStep::Done { moved: false }
    ));
    let s = s.next(Ok(true));
    assert!(matches!(s, MigrationStep::MoveAll));
    assert_eq!(s.notices(true).len(), 1);
    assert!(s.notices(true)[0].starts_with("Performing one time database migration"));
    assert!(s.notices(false).is_empty());
    let s = s.next(Ok(true));
    assert_eq!(s.notices(false), ["sqlite-migration:done", "Compacting database..."]);
    assert!(s.notices(true).is_empty());
    let s = s.next(Ok(true));
    assert!(matches!(s, MigrationStep::Compact));
    let s = s.next(Ok(true));
    assert_eq!(s.notices(true), ["Database migration complete."]);
    assert!(MigrationStep::Done { moved: false }.notices(true).is_empty());
}

#[test]
fn a_migration_that_fails_deletes_nothing() {
    match MigrationStep::Connect.next(Err("locked".to_string())) {
        MigrationStep::Failed(e) => assert_eq!(e, "Migration DB pool error: locked"),
        other => panic!("unexpected {other:?}"),
    }
    match MigrationStep::MoveAll.next(Err("disk full".to_string())) {
        MigrationStep::Failed(e) => assert_eq!(e, "disk full"),
        other => panic!("unexpected {other:?}"),
    }
}

/// Migrates one execution with the logs of `logs`, and gives what was written.
fn migrate(logs: &[&str]) -> (String, ProcessMigration) {
    let mut file = String::new();
    let mut s = ProcessMigration::CheckFile.next(ProcessAnswer::FileExists(false)).0;
    s = s.next(ProcessAnswer::Carried).0;
    s = s.next(ProcessAnswer::Carried).0;
    for log in logs {
        let (next, line) = s.next(ProcessAnswer::Log(log.to_string()));
        file.push_str(&line.unwrap());
        s = next;
    }
    (file, s.next(ProcessAnswer::EndOfLogs).0)
}

#[test]
fn published_logs_hold_every_line() {
    let (file, s) = migrate(&["{\"a\":1}", "{\"b\":2}\n"]);
    assert_eq!(file, "{\"a\":1}\n{\"b\":2}\n");
    assert!(matches!(s, ProcessMigration::Sync));
    let s = s.next(ProcessAnswer::Carried).0;
    assert!(matches!(s, ProcessMigration::Rename));
    assert!(matches!(
        s.next(ProcessAnswer::Carried).0,
        ProcessMigration::Done { moved: true }
    ));
}

#[test]
fn empty_and_existing_logs_are_not_published() {
    let (file, s) = migrate(&[]);
    assert_eq!(file, "");
    assert!(matches!(s, ProcessMigration::Discard));
    assert!(matches!(
        s.next(ProcessAnswer::Failed("gone".to_string())).0,
        ProcessMigration::Done { moved: false }
    ));
    assert!(matches!(
        ProcessMigration::CheckFile.next(ProcessAnswer::FileExists(true)).0,
        ProcessMigration::Done { moved: false }
    ));
    match ProcessMigration::Sync.next(ProcessAnswer::Failed("disk full".to_string())).0 {
        ProcessMigration::Failed(e) => assert_eq!(e, "disk full"),
        other => panic!("unexpected {other:?}"),
    }
}

#[test]
fn removed_and_missing_logs_are_gone() {
    assert!(session_logs_removed(Removal::Removed, "/d").is_ok());
    assert!(session_logs_removed(Removal::NotFound, "/d").is_ok());
    let e = session_logs_removed(Removal::Failed("denied".to_string()), "/d").unwrap_err();
    assert_eq!((e.context.as_str(), e.source.as_str()), ("remove session process logs at /d", "denied"));
}

#[test]
fn appending_says_what_failed() {
    let text = |stage| append_failure(stage, 0x0123456789abcdef0123456789abcdef, "x".to_string()).context;
    let id = "01234567-89ab-cdef-0123-456789abcdef";
    assert_eq!(text(AppendStage::CreateWriter), format!("create log writer for execution {id}"));
    assert_eq!(text(AppendStage::Serialize), format!("serialize log message for execution {id}"));
    assert_eq!(text(AppendStage::Append), format!("append log message for execution {id}"));
    assert_eq!(
        uuid::Uuid::from_u128(0x0123456789abcdef0123456789abcdef).to_string(),
        id
    );
}

#[test]
fn messages_come_from_the_file_first() {
    let out = |t: &str| LogMsg::Stdout(t.to_string());
    let file = Some(vec![out("file")]);
    assert!(!needs_database(&file));
    assert!(needs_database(&None) && needs_database(&Some(vec![])));
    let loaded = load_raw_log_messages(file, DatabaseLogs::Unreadable).unwrap();
    assert!(matches!(&loaded[0], LogMsg::Stdout(t) if t == "file"));
    let loaded = load_raw_log_messages(Some(vec![]), DatabaseLogs::Messages(vec![out("db")])).unwrap();
    assert!(matches!(&loaded[0], LogMsg::Stdout(t) if t == "db"));
    for nothing in [DatabaseLogs::Unreadable, DatabaseLogs::Empty, DatabaseLogs::Unparsable] {
        assert!(load_raw_log_messages(None, nothing).is_none());
    }
}

#[test]
fn metadata_is_read_behind_the_end() {
    let messages = [
        LogMsg::Finished,
        LogMsg::NativeUuid("late-after-finished".to_string()),
        LogMsg::SessionId("s".to_string()),
        LogMsg::MessageId("m".to_string()),
        LogMsg::Stderr("e".to_string()),
        LogMsg::Ready,
    ];
    let steps: Vec<MetadataStep> = messages.iter().map(metadata_step).collect();
    assert_eq!(
        steps,
        [
            MetadataStep::Skip,
            MetadataStep::NativeUuid("late-after-finished".to_string()),
            MetadataStep::SessionId("s".to_string()),
            MetadataStep::MessageId("m".to_string()),
            MetadataStep::Skip,
            MetadataStep::Skip,
        ]
    );
    assert_eq!(output_step(&messages[0]), OutputStep::Stop);
    assert_eq!(output_step(&messages[1]), OutputStep::Skip);
    assert_eq!(output_step(&messages[4]), OutputStep::Persist);
    assert_eq!(output_step(&LogMsg::Stdout("o".to_string())), OutputStep::Persist);
}

#[test]
fn links_are_tried_five_times() {
    assert_eq!(link_step(1, true), LinkStep::Persisted);
    let mut attempt = 1;
    while let LinkStep::Retry { attempt: next, wait_ms } = link_step(attempt, false) {
        assert_eq!(wait_ms, 25);
        attempt = next;
    }
    assert_eq!(attempt, 5);
    assert_eq!(link_step(5, false), LinkStep::GaveUp);
}

fn places(development: bool) -> LogPlaces {
    LogPlaces {
        execution_id: 1,
        own: "/own".to_string(),
        installed: Some("/installed".to_string()),
        development,
    }
}

#[test]
fn logs_are_searched_for() {
    let p = places(true);
    let none = LogSearch::FindExecution.next(&p, LogAnswer::Execution(false));
    assert!(matches!(none, LogSearch::Done(Ok(None))));
    let s = LogSearch::FindExecution.next(&p, LogAnswer::Execution(true)).next(&p, LogAnswer::Present);
    assert!(matches!(s, LogSearch::ReadOwn));
    assert!(matches!(
        s.next(&p, LogAnswer::Text("t".to_string())),
        LogSearch::Done(Ok(Some(t))) if t == "t"
    ));
    let s = LogSearch::CheckOwn.next(&p, LogAnswer::Missing);
    assert!(matches!(&s, LogSearch::ReadInstalled { path } if path == "/installed"));
    assert!(matches!(s.next(&p, LogAnswer::Missing), LogSearch::Done(Ok(None))));
    assert!(matches!(
        LogSearch::CheckOwn.next(&places(false), LogAnswer::Missing),
        LogSearch::Done(Ok(None))
    ));
    assert!(matches!(
        LogSearch::FindExecution.next(&p, LogAnswer::Failed("db".to_string())),
        LogSearch::DatabaseFailed(e) if e == "db"
    ));
}

#[test]
fn searches_say_what_failed() {
    let p = places(true);
    let context = |s: LogSearch| match s.next(&p, LogAnswer::Failed("io".to_string())) {
        LogSearch::Done(Err(e)) => {
            assert_eq!(e.source, "io");
            e.context
        }
        other => panic!("unexpected {other:?}"),
    };
    let id = "00000000-0000-0000-0000-000000000001";
    assert_eq!(
        context(LogSearch::CheckOwn),
        format!("check execution log file exists for execution {id} at /own")
    );
    assert_eq!(
        context(LogSearch::ReadOwn),
        format!("read execution log file for execution {id}")
    );
    assert_eq!(
        context(LogSearch::ReadInstalled { path: "/installed".to_string() }),
        format!("read execution log file for execution {id} from /installed")
    );
}
