//! The live feed of a session's transcript: when a reader needs a new snapshot,
//! and what a reader is told where the import is switched off.

use vstd::prelude::*;
use vstd::string::*;

use crate::error::ApiError;
use crate::ingest::NativeFeedUpdate;
use crate::projection::{NativeFeedSnapshot, NativeIngestHealth};
use crate::text::texts;

verus! {

/// The status with which a feed that is switched off is closed.
pub const CLOSE_NORMAL: u16 = 1000;

/// What a feed that is switched off is closed with.
pub fn disabled_close_reason() -> (r: String)
    ensures
        r@ == "cli transcript ingest disabled"@,
{
    "cli transcript ingest disabled".to_owned()
}

/// How a request is refused where the import is switched off.
pub fn disabled_error() -> (e: ApiError)
    ensures
        e matches ApiError::FeatureDisabled(m) && m@ == "CLI transcript ingest is disabled"@,
{
    ApiError::FeatureDisabled("CLI transcript ingest is disabled".to_owned())
}

/// What a reader of the feed is sent.
#[derive(Debug)]
pub enum FeedMessage {
    /// Everything, in place of what was sent before.
    Snapshot(NativeFeedSnapshot),
    /// From here on the feed is live.
    Ready,
}

/// The parts of a snapshot that a reader replaces, one by one and in order.
pub open spec fn snapshot_parts() -> Seq<Seq<char>> {
    seq!["/revision"@, "/seq"@, "/entries"@, "/forks"@, "/health"@]
}

/// The parts of a snapshot that a reader replaces, one by one and in order.
pub fn snapshot_paths() -> (out: Vec<String>)
    ensures
        texts(out@) == snapshot_parts(),
{
    let mut out: Vec<String> = Vec::new();
    out.push("/revision".to_owned());
    out.push("/seq".to_owned());
    out.push("/entries".to_owned());
    out.push("/forks".to_owned());
    out.push("/health".to_owned());
    proof {
        assert(texts(out@) =~= snapshot_parts());
    }
    out
}

/// An empty snapshot.
pub open spec fn is_empty_snapshot(s: NativeFeedSnapshot) -> bool {
    &&& s.revision == 0
    &&& s.seq == 0
    &&& s.entries@.len() == 0
    &&& s.forks@.len() == 0
    &&& s.health.unknown_kinds == 0
    &&& s.health.rescans == 0
    &&& s.health.quarantined_files == 0
    &&& !s.health.watch_degraded
    &&& s.health.foreign_writer_seen_at is None
    &&& s.health.files@.len() == 0
    &&& !s.cli_session_active
}

/// What a reader is told where the import is switched off: an empty snapshot,
/// and that it is complete.
pub fn disabled_feed_bootstrap() -> (out: Vec<FeedMessage>)
    ensures
        out@.len() == 2,
        out@[0] is Snapshot && is_empty_snapshot(out@[0]->Snapshot_0),
        out@[1] == FeedMessage::Ready,
{
    let mut out: Vec<FeedMessage> = Vec::new();
    out.push(
        FeedMessage::Snapshot(
            NativeFeedSnapshot {
                revision: 0,
                seq: 0,
                entries: Vec::new(),
                forks: Vec::new(),
                health: NativeIngestHealth::default(),
                cli_session_active: false,
            },
        ),
    );
    out.push(FeedMessage::Ready);
    out
}

/// Why a reader needs a new snapshot.
#[derive(Debug, Clone, Copy, PartialEq, Eq, Structural)]
pub struct ResnapshotReason {
    pub sequence_gap: bool,
    pub revision_changed: bool,
}

/// The session that an update is about.
pub open spec fn session_of(update: NativeFeedUpdate) -> u128 {
    match update {
        NativeFeedUpdate::RecordsAppended { session_id, .. } => session_id,
        NativeFeedUpdate::RevisionInvalidated { session_id, .. } => session_id,
    }
}

/// The revision that an update is about.
pub open spec fn revision_of(update: NativeFeedUpdate) -> u64 {
    match update {
        NativeFeedUpdate::RecordsAppended { revision, .. } => revision,
        NativeFeedUpdate::RevisionInvalidated { revision, .. } => revision,
    }
}

/// Whether an update brings what a snapshot at `last_seq` and `revision` does
/// not hold.
pub open spec fn is_news(update: NativeFeedUpdate, last_seq: i64, revision: u64) -> bool {
    revision_of(update) > revision || (revision_of(update) == revision && match update {
        NativeFeedUpdate::RecordsAppended { seq, .. } => seq > last_seq,
        NativeFeedUpdate::RevisionInvalidated { .. } => false,
    })
}

/// Whether, and why, an update makes a new snapshot necessary.
pub fn resnapshot_reason(
    update: NativeFeedUpdate,
    session_id: u128,
    last_seq: i64,
    revision: u64,
) -> (r: Option<ResnapshotReason>)
    ensures
        r is Some <==> session_of(update) == session_id && is_news(update, last_seq, revision),
        r is Some ==> r->0.revision_changed == (revision_of(update) > revision),
        r is Some ==> r->0.sequence_gap == match update {
            NativeFeedUpdate::RecordsAppended { seq, .. } => seq != last_seq + 1,
            NativeFeedUpdate::RevisionInvalidated { .. } => false,
        },
{
    match update {
        NativeFeedUpdate::RecordsAppended {
            session_id: update_session,
            seq,
            revision: update_revision,
        } => {
            if update_session != session_id || update_revision < revision || (update_revision
                == revision && seq <= last_seq) {
                return None;
            }
            Some(
                ResnapshotReason {
                    sequence_gap: seq as i128 != last_seq as i128 + 1,
                    revision_changed: update_revision > revision,
                },
            )
        },
        NativeFeedUpdate::RevisionInvalidated {
            session_id: update_session,
            revision: update_revision,
        } => {
            if update_session == session_id && update_revision > revision {
                Some(ResnapshotReason { sequence_gap: false, revision_changed: true })
            } else {
                None
            }
        },
    }
}

/// The session that an update is about.
pub fn update_session_id(update: NativeFeedUpdate) -> (id: u128)
    ensures
        id == session_of(update),
{
    match update {
        NativeFeedUpdate::RecordsAppended { session_id, .. } => session_id,
        NativeFeedUpdate::RevisionInvalidated { session_id, .. } => session_id,
    }
}

/// What a reader receives.
#[derive(Debug, Clone, Copy, PartialEq, Eq, Structural)]
pub enum Received {
    Update(NativeFeedUpdate),
    /// The reader fell behind: updates are lost.
    Lagged,
}

/// The last update about a session among what was received.
pub open spec fn latest_about(
    first: NativeFeedUpdate,
    received: Seq<Received>,
    session_id: u128,
) -> Option<NativeFeedUpdate>
    decreases received.len(),
{
    if received.len() == 0 {
        if session_of(first) == session_id {
            Some(first)
        } else {
            None
        }
    } else {
        match received.last() {
            Received::Update(u) => if session_of(u) == session_id {
                Some(u)
            } else {
                latest_about(first, received.drop_last(), session_id)
            },
            Received::Lagged => latest_about(first, received.drop_last(), session_id),
        }
    }
}

/// Sums up what was received: the last update about the session, and whether
/// any was lost.
pub fn drain_latest_update(
    first: NativeFeedUpdate,
    received: &Vec<Received>,
    session_id: u128,
) -> (r: (Option<NativeFeedUpdate>, bool))
    ensures
        r.0 == latest_about(first, received@, session_id),
        r.1 == received@.contains(Received::Lagged),
{
    let mut latest: Option<NativeFeedUpdate> = if update_session_id(first) == session_id {
        Some(first)
    } else {
        None
    };
    let mut lagged = false;
    for i in 0..received.len()
        invariant
            latest == latest_about(first, received@.take(i as int), session_id),
            lagged == exists|j: int| 0 <= j < i && #[trigger] received@[j] == Received::Lagged,
    {
        proof {
            assert(received@.take(i + 1).drop_last() =~= received@.take(i as int));
            assert(received@.take(i + 1).last() == received@[i as int]);
        }
        match received[i] {
            Received::Update(update) => {
                if update_session_id(update) == session_id {
                    latest = Some(update);
                }
            },
            Received::Lagged => {
                proof {
                    assert(received@[i as int] == Received::Lagged);
                }
                lagged = true;
            },
        }
    }
    proof {
        assert(received@.take(received@.len() as int) =~= received@);
    }
    (latest, lagged)
}

/// Where a reader of a feed stands.
#[derive(Debug, Clone, Copy, PartialEq, Eq, Structural)]
pub struct FeedCursor {
    pub session_id: u128,
    pub last_seq: i64,
    pub revision: u64,
}

impl FeedCursor {
    /// Whether a reader needs a new snapshot after what was received: it fell
    /// behind, or the last update about its session is news to it.
    pub open spec fn wants_snapshot(
        self,
        first: NativeFeedUpdate,
        received: Seq<Received>,
    ) -> bool {
        received.contains(Received::Lagged) || match latest_about(
            first,
            received,
            self.session_id,
        ) {
            Some(u) => is_news(u, self.last_seq, self.revision),
            None => false,
        }
    }

    /// Decides whether a reader needs a new snapshot.
    pub fn needs_snapshot(&self, first: NativeFeedUpdate, received: &Vec<Received>) -> (r: bool)
        ensures
            r == self.wants_snapshot(first, received@),
    {
        let (latest, lagged) = drain_latest_update(first, received, self.session_id);
        proof {
            lemma_latest_is_about(first, received@, self.session_id);
        }
        let news = match latest {
            Some(update) => resnapshot_reason(
                update,
                self.session_id,
                self.last_seq,
                self.revision,
            ).is_some(),
            None => false,
        };
        lagged || news
    }

    /// The reader was sent a snapshot.
    pub fn sent(&mut self, seq: i64, revision: u64)
        ensures
            *final(self) == (FeedCursor {
                session_id: old(self).session_id,
                last_seq: seq,
                revision,
            }),
    {
        self.last_seq = seq;
        self.revision = revision;
    }
}

proof fn lemma_latest_is_about(first: NativeFeedUpdate, received: Seq<Received>, id: u128)
    ensures
        latest_about(first, received, id) is Some ==> session_of(
            latest_about(first, received, id)->0,
        ) == id,
    decreases received.len(),
{
    if received.len() > 0 {
        lemma_latest_is_about(first, received.drop_last(), id);
    }
}

/// What a snapshot holds is never sent again for: an update that is not ahead
/// of the reader, and that nothing got lost beside, leads to no snapshot.
pub proof fn law_stale_update_is_skipped(cursor: FeedCursor, update: NativeFeedUpdate)
    requires
        session_of(update) != cursor.session_id || !is_news(
            update,
            cursor.last_seq,
            cursor.revision,
        ),
    ensures
        !cursor.wants_snapshot(update, Seq::empty()),
{
}

/// Nothing that a reader has not seen is passed over: an update that is ahead
/// of the reader leads to a snapshot, and so does every loss.
pub proof fn law_news_leads_to_snapshot(cursor: FeedCursor, update: NativeFeedUpdate)
    requires
        session_of(update) == cursor.session_id,
        is_news(update, cursor.last_seq, cursor.revision),
    ensures
        cursor.wants_snapshot(update, Seq::empty()),
        forall|received: Seq<Received>| #[trigger]
            received.contains(Received::Lagged) ==> cursor.wants_snapshot(update, received),
{
}

/// New records are news where they belong to a later revision, or to the reader's
/// own and come behind what it has; a change of revision is where the revision is
/// later.
pub proof fn law_what_is_news(seen: i64, held: u64, session_id: u128, seq: i64, revision: u64)
    ensures
        ({
            let appended = NativeFeedUpdate::RecordsAppended { session_id, seq, revision };
            let changed = NativeFeedUpdate::RevisionInvalidated { session_id, revision };
            &&& session_of(appended) == session_id && session_of(changed) == session_id
            &&& revision_of(appended) == revision && revision_of(changed) == revision
            &&& is_news(appended, seen, held) <==> revision > held || revision == held && seq > seen
            &&& is_news(changed, seen, held) <==> revision > held
        }),
{
}

/// Whether the update at `k` is about the session; the first one stands at -1.
pub open spec fn is_about(
    first: NativeFeedUpdate,
    received: Seq<Received>,
    session_id: u128,
    k: int,
    u: NativeFeedUpdate,
) -> bool {
    &&& match u {
        NativeFeedUpdate::RecordsAppended { session_id: id, .. } => id == session_id,
        NativeFeedUpdate::RevisionInvalidated { session_id: id, .. } => id == session_id,
    }
    &&& k == -1 && u == first || 0 <= k < received.len() && received[k] == Received::Update(u)
}

/// Of the updates about a session that were received together the last one counts.
pub proof fn law_last_update_counts(
    first: NativeFeedUpdate,
    received: Seq<Received>,
    session_id: u128,
)
    ensures
        latest_about(first, received, session_id) matches Some(u) ==> exists|k: int|
            #![trigger received[k]]
            is_about(first, received, session_id, k, u) && forall|j: int, v: NativeFeedUpdate|
                #[trigger] is_about(first, received, session_id, j, v) ==> j <= k,
        latest_about(first, received, session_id) is None ==> forall|j: int, v: NativeFeedUpdate|
            !#[trigger] is_about(first, received, session_id, j, v),
    decreases received.len(),
{
    if received.len() == 0 {
        if session_of(first) == session_id {
            assert(is_about(first, received, session_id, -1, first));
            assert(received[-1] == received[-1]);
        }
    } else {
        let rest = received.drop_last();
        let n = rest.len() as int;
        law_last_update_counts(first, rest, session_id);
        assert forall|j: int, v: NativeFeedUpdate| j < n implies #[trigger] is_about(
            first,
            received,
            session_id,
            j,
            v,
        ) == is_about(first, rest, session_id, j, v) by {}
        let here = received[n] matches Received::Update(u) && session_of(u) == session_id;
        if here {
            let u = received[n]->Update_0;
            assert(is_about(first, received, session_id, n, u));
        } else {
            assert forall|v: NativeFeedUpdate| !#[trigger] is_about(
                first,
                received,
                session_id,
                n,
                v,
            ) by {}
            if let Some(u) = latest_about(first, rest, session_id) {
                let k = choose|k: int|
                    #![trigger rest[k]]
                    is_about(first, rest, session_id, k, u) && forall|
                        j: int,
                        v: NativeFeedUpdate,
                    | #[trigger] is_about(first, rest, session_id, j, v) ==> j <= k;
                assert(is_about(first, received, session_id, k, u));
                assert forall|j: int, v: NativeFeedUpdate| #[trigger]
                    is_about(first, received, session_id, j, v) implies j <= k by {
                    if j < n {
                        assert(is_about(first, rest, session_id, j, v));
                    }
                }
                assert(received[k] == received[k]);
            } else {
                assert forall|j: int, v: NativeFeedUpdate| !#[trigger] is_about(
                    first,
                    received,
                    session_id,
                    j,
                    v,
                ) by {
                    if j < n {
                        assert(!is_about(first, rest, session_id, j, v));
                    }
                }
            }
        }
    }
}

/// A reader is sent a snapshot exactly where it missed something, or where the last
/// update about its session is ahead of what it has.
pub proof fn law_snapshot_is_sent_for_a_reason(
    cursor: FeedCursor,
    first: NativeFeedUpdate,
    received: Seq<Received>,
)
    ensures
        received.contains(Received::Lagged) ==> cursor.wants_snapshot(first, received),
        !received.contains(Received::Lagged) ==> match latest_about(
            first,
            received,
            cursor.session_id,
        ) {
            None => !cursor.wants_snapshot(first, received),
            Some(NativeFeedUpdate::RecordsAppended { seq, revision, .. }) => cursor.wants_snapshot(
                first,
                received,
            ) <==> revision > cursor.revision || revision == cursor.revision && seq
                > cursor.last_seq,
            Some(NativeFeedUpdate::RevisionInvalidated { revision, .. }) => cursor.wants_snapshot(
                first,
                received,
            ) <==> revision > cursor.revision,
        },
{
}

/// An empty snapshot holds nothing, reports nothing, and stands at the very start.
pub proof fn law_empty_snapshot_holds_nothing(s: NativeFeedSnapshot)
    requires
        is_empty_snapshot(s),
    ensures
        s.revision == 0 && s.seq == 0,
        s.entries@ == Seq::<crate::projection::NativeFeedEntry>::empty(),
        s.forks@ == Seq::<crate::projection::NativeFeedFork>::empty(),
        s.health.unknown_kinds == 0 && s.health.rescans == 0 && s.health.quarantined_files == 0,
        !s.health.watch_degraded && s.health.foreign_writer_seen_at is None,
        s.health.files@.len() == 0,
        !s.cli_session_active,
        forall|session_id: u128, seq: i64|
            seq > 0 ==> #[trigger] is_news(
                NativeFeedUpdate::RecordsAppended { session_id, seq, revision: s.revision },
                s.seq,
                s.revision,
            ),
{
}

} // verus!
