use bettercoding::error::ApiError;
use bettercoding::ingest::NativeFeedUpdate;
use bettercoding::native_feed::{
    disabled_close_reason, disabled_error, disabled_feed_bootstrap, drain_latest_update,
    resnapshot_reason, snapshot_paths, update_session_id, FeedCursor, FeedMessage, Received,
    CLOSE_NORMAL,
};
use bettercoding::projection::NativeIngestHealth;

#[test]
fn disabled_feed_bootstraps_empty_snapshot_then_ready() {
    let messages = disabled_feed_bootstrap();
    assert_eq!(messages.len(), 2);
    let FeedMessage::Snapshot(snapshot) = &messages[0] else {
        panic!("disabled feed must start with a snapshot patch");
    };
    assert!(matches!(messages[1], FeedMessage::Ready));
    assert_eq!(
        snapshot_paths(),
        vec!["/revision", "/seq", "/entries", "/forks", "/health"]
    );
    assert_eq!(snapshot.revision, 0);
    assert_eq!(snapshot.seq, 0);
    assert!(snapshot.entries.is_empty());
    assert!(snapshot.forks.is_empty());
    assert_eq!(
        snapshot.health,
        NativeIngestHealth {
            unknown_kinds: 0,
            rescans: 0,
            quarantined_files: 0,
            watch_degraded: false,
            foreign_writer_seen_at: None,
            files: vec![],
        }
    );
}

#[test]
fn revision_invalidation_forces_resnapshot_without_sequence_advance() {
    let session_id = 1;
    let reason = resnapshot_reason(
        NativeFeedUpdate::RevisionInvalidated {
            session_id,
            revision: 8,
        },
        session_id,
        42,
        7,
    )
    .expect("newer revision must invalidate a snapshot at the same sequence");

    assert!(!reason.sequence_gap);
    assert!(reason.revision_changed);
    assert!(resnapshot_reason(
        NativeFeedUpdate::RevisionInvalidated {
            session_id,
            revision: 8,
        },
        session_id,
        42,
        8,
    )
    .is_none());
}

#[test]
fn websocket_update_drain_keeps_only_latest_session_update() {
    let session_id = 1;
    let other_session_id = 2;
    let first = NativeFeedUpdate::RecordsAppended {
        session_id,
        seq: 2,
        revision: 0,
    };
    let waiting = vec![
        Received::Update(NativeFeedUpdate::RecordsAppended {
            session_id: other_session_id,
            seq: 99,
            revision: 0,
        }),
        Received::Update(NativeFeedUpdate::RecordsAppended {
            session_id,
            seq: 3,
            revision: 0,
        }),
    ];
    let (latest, lagged) = drain_latest_update(first, &waiting, session_id);
    assert!(!lagged);
    assert_eq!(
        latest,
        Some(NativeFeedUpdate::RecordsAppended {
            session_id,
            seq: 3,
            revision: 0,
        })
    );
}

fn appended(session_id: u128, seq: i64, revision: u64) -> NativeFeedUpdate {
    NativeFeedUpdate::RecordsAppended { session_id, seq, revision }
}

#[test]
fn appended_records_are_weighed() {
    let next = resnapshot_reason(appended(1, 43, 7), 1, 42, 7).unwrap();
    assert!(!next.sequence_gap && !next.revision_changed);
    let gap = resnapshot_reason(appended(1, 50, 7), 1, 42, 7).unwrap();
    assert!(gap.sequence_gap);
    let newer = resnapshot_reason(appended(1, 1, 8), 1, 42, 7).unwrap();
    assert!(newer.revision_changed && newer.sequence_gap);
    assert!(resnapshot_reason(appended(1, 42, 7), 1, 42, 7).is_none());
    assert!(resnapshot_reason(appended(1, 99, 6), 1, 42, 7).is_none());
    assert!(resnapshot_reason(appended(2, 99, 9), 1, 42, 7).is_none());
    assert!(resnapshot_reason(appended(1, i64::MAX, 7), 1, i64::MAX, 7).is_none());
}

#[test]
fn readers_get_snapshots_where_they_need_them() {
    let mut cursor = FeedCursor { session_id: 1, last_seq: 5, revision: 0 };
    assert!(cursor.needs_snapshot(appended(1, 6, 0), &vec![]));
    assert!(!cursor.needs_snapshot(appended(1, 5, 0), &vec![]));
    assert!(!cursor.needs_snapshot(appended(2, 6, 0), &vec![]));
    // Whatever was lost may have been news.
    assert!(cursor.needs_snapshot(appended(2, 6, 0), &vec![Received::Lagged]));
    cursor.sent(6, 2);
    assert_eq!((cursor.last_seq, cursor.revision), (6, 2));
    assert!(!cursor.needs_snapshot(appended(1, 6, 2), &vec![]));
    assert_eq!(update_session_id(appended(9, 0, 0)), 9);
}

#[test]
fn a_feed_that_is_off_says_so() {
    assert_eq!(CLOSE_NORMAL, 1000);
    assert_eq!(disabled_close_reason(), "cli transcript ingest disabled");
    match disabled_error() {
        ApiError::FeatureDisabled(m) => assert_eq!(m, "CLI transcript ingest is disabled"),
        other => panic!("unexpected {other:?}"),
    }
}
