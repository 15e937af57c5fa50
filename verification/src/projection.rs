//! The feed of a session: its transcript records as entries, each with where it
//! came from and which branch of a fork it is on.

use vstd::prelude::*;

use crate::forks::{
    NativeDagRecord, NativeForkView, branch_has, branch_holds, compute_fork_view, continues,
    default_of, first_fork, first_seen, fork_on_cycle, fork_view_is, forks_at, has_cyclic_fork,
    law_no_fork_is_shown_where_there_is_none, lemma_default, lemma_lists, lists, opens_first_with,
    shows_fork,
};
use crate::text::{clone_opt, opt_text};

verus! {

/// Where an entry of the feed came from.
#[derive(Debug, Clone, Copy, PartialEq, Eq, Structural)]
pub enum NativeFeedOrigin {
    /// Typed in the terminal.
    Cli,
    /// Sent by the application through the terminal.
    App,
    /// Written by an executor.
    Executor,
}

/// The branch of a fork that an entry is on.
#[derive(Debug, PartialEq, Eq)]
pub struct NativeBranchMetadata {
    pub fork_parent_uuid: String,
    pub branch_index: usize,
    pub branch_label: String,
    pub is_default: bool,
}

/// An entry that a transcript line adds or replaces: entry number `index` of
/// its conversation.
#[derive(Debug)]
pub struct EntryChange {
    pub index: usize,
    /// The entry, as it is shown.
    pub entry: String,
}

/// A transcript line that was understood.
#[derive(Debug)]
pub struct NativeLine {
    pub uuid: Option<String>,
    pub parent_uuid: Option<String>,
    pub leaf_uuid: Option<String>,
    pub timestamp: Option<String>,
    pub git_branch: Option<String>,
    pub version: Option<String>,
    pub changes: Vec<EntryChange>,
}

/// A stored transcript record.
#[derive(Debug)]
pub struct SessionNativeRecord {
    pub file_id: u128,
    pub claude_session_id: String,
    pub seq: i64,
    /// The execution that wrote the record.
    pub linked_execution_process_id: Option<u128>,
    /// The turn that the record answers to, and its execution.
    pub bound_coding_agent_turn_id: Option<u128>,
    pub bound_turn_execution_process_id: Option<u128>,
    /// The queued message that the record was pasted from.
    pub bound_queued_message_id: Option<u128>,
    /// The line; absent where it is not understood.
    pub line: Option<NativeLine>,
}

/// An entry of the feed.
#[derive(Debug)]
pub struct NativeFeedEntry {
    pub normalized_entry: String,
    pub claude_session_id: String,
    pub uuid: Option<String>,
    pub parent_uuid: Option<String>,
    pub ts: Option<String>,
    pub origin: NativeFeedOrigin,
    pub linked_execution_process_id: Option<u128>,
    pub git_branch: Option<String>,
    pub version: Option<String>,
    pub branch: Option<NativeBranchMetadata>,
    pub seq: i64,
}

/// A fork in one of the session's transcripts.
#[derive(Debug)]
pub struct NativeFeedFork {
    pub claude_session_id: String,
    pub file_id: u128,
    pub fork: NativeForkView,
}

/// How far a transcript was imported.
#[derive(Debug, PartialEq, Eq)]
pub struct NativeFileImportHealth {
    pub claude_session_id: String,
    pub file_name: String,
    pub generation: i64,
    pub last_import_at: Option<String>,
}

/// How the import of transcripts fares.
#[derive(Debug, PartialEq, Eq)]
pub struct NativeIngestHealth {
    pub unknown_kinds: u64,
    pub rescans: u64,
    pub quarantined_files: u64,
    pub watch_degraded: bool,
    /// When someone else was seen writing to the conversation.
    pub foreign_writer_seen_at: Option<String>,
    pub files: Vec<NativeFileImportHealth>,
}

impl Default for NativeIngestHealth {
    fn default() -> (h: Self)
        ensures
            h.unknown_kinds == 0,
            h.rescans == 0,
            h.quarantined_files == 0,
            !h.watch_degraded,
            h.foreign_writer_seen_at is None,
            h.files@.len() == 0,
    {
        NativeIngestHealth {
            unknown_kinds: 0,
            rescans: 0,
            quarantined_files: 0,
            watch_degraded: false,
            foreign_writer_seen_at: None,
            files: Vec::new(),
        }
    }
}

/// The feed of a session at one moment.
#[derive(Debug)]
pub struct NativeFeedSnapshot {
    pub revision: u64,
    pub seq: i64,
    pub entries: Vec<NativeFeedEntry>,
    pub forks: Vec<NativeFeedFork>,
    pub health: NativeIngestHealth,
    /// Whether the terminal seems to be in use.
    pub cli_session_active: bool,
}

/// Where a record came from: an executor wrote it, the application sent it as a
/// turn or as a queued message, or it was typed in the terminal.
pub open spec fn origin_of(row: SessionNativeRecord) -> NativeFeedOrigin {
    if row.linked_execution_process_id is Some {
        NativeFeedOrigin::Executor
    } else if row.bound_coding_agent_turn_id is Some || row.bound_queued_message_id is Some {
        NativeFeedOrigin::App
    } else {
        NativeFeedOrigin::Cli
    }
}

/// The execution that a record belongs to.
pub open spec fn execution_of(row: SessionNativeRecord) -> Option<u128> {
    if row.linked_execution_process_id is Some {
        row.linked_execution_process_id
    } else {
        row.bound_turn_execution_process_id
    }
}

/// An entry and its number in its conversation.
#[derive(Debug)]
pub struct EntrySlot {
    pub index: usize,
    pub entry: NativeFeedEntry,
}

/// The entry that a change of a record's line starts.
pub open spec fn new_entry(
    row: SessionNativeRecord,
    line: NativeLine,
    change: EntryChange,
) -> NativeFeedEntry {
    NativeFeedEntry {
        normalized_entry: change.entry,
        claude_session_id: row.claude_session_id,
        uuid: line.uuid,
        parent_uuid: line.parent_uuid,
        ts: line.timestamp,
        origin: origin_of(row),
        linked_execution_process_id: execution_of(row),
        git_branch: line.git_branch,
        version: line.version,
        branch: None,
        seq: row.seq,
    }
}

/// Whether a slot is entry number `index` of the conversation `sid`.
pub open spec fn slot_is(slot: EntrySlot, sid: Seq<char>, index: usize) -> bool {
    slot.entry.claude_session_id@ == sid && slot.index == index
}

/// Where entry number `index` of the conversation `sid` stands.
pub open spec fn find_slot(slots: Seq<EntrySlot>, sid: Seq<char>, index: usize) -> Option<int>
    decreases slots.len(),
{
    if slots.len() == 0 {
        None
    } else if slot_is(slots.last(), sid, index) {
        Some(slots.len() - 1)
    } else {
        find_slot(slots.drop_last(), sid, index)
    }
}

/// The entries after one change: a known entry keeps its place and everything
/// but its content, an unknown one goes to the end.
pub open spec fn with_change(
    slots: Seq<EntrySlot>,
    row: SessionNativeRecord,
    line: NativeLine,
    change: EntryChange,
) -> Seq<EntrySlot> {
    match find_slot(slots, row.claude_session_id@, change.index) {
        Some(p) => slots.update(
            p,
            EntrySlot {
                index: slots[p].index,
                entry: NativeFeedEntry { normalized_entry: change.entry, ..slots[p].entry },
            },
        ),
        None => slots.push(EntrySlot { index: change.index, entry: new_entry(row, line, change) }),
    }
}

/// The entries after the changes of a line.
pub open spec fn with_changes(
    slots: Seq<EntrySlot>,
    row: SessionNativeRecord,
    line: NativeLine,
    changes: Seq<EntryChange>,
) -> Seq<EntrySlot>
    decreases changes.len(),
{
    if changes.len() == 0 {
        slots
    } else {
        with_change(
            with_changes(slots, row, line, changes.drop_last()),
            row,
            line,
            changes.last(),
        )
    }
}

/// The entries of records, before branches are told apart.
pub open spec fn projected(rows: Seq<SessionNativeRecord>) -> Seq<EntrySlot>
    decreases rows.len(),
{
    if rows.len() == 0 {
        Seq::empty()
    } else {
        let head = projected(rows.drop_last());
        let row = rows.last();
        match row.line {
            Some(line) => with_changes(head, row, line, line.changes@),
            None => head,
        }
    }
}

/// The files that understood records come from, in order.
pub open spec fn file_ids(rows: Seq<SessionNativeRecord>) -> Seq<u128>
    decreases rows.len(),
{
    if rows.len() == 0 {
        Seq::empty()
    } else {
        let head = file_ids(rows.drop_last());
        if rows.last().line is Some && !head.contains(rows.last().file_id) {
            head.push(rows.last().file_id)
        } else {
            head
        }
    }
}

/// The conversation of a file: that of its first understood record.
pub open spec fn file_sid(rows: Seq<SessionNativeRecord>, file: u128) -> Option<String>
    decreases rows.len(),
{
    if rows.len() == 0 {
        None
    } else if file_sid(rows.drop_last(), file) is Some {
        file_sid(rows.drop_last(), file)
    } else if rows.last().line is Some && rows.last().file_id == file {
        Some(rows.last().claude_session_id)
    } else {
        None
    }
}

/// The identified records of a file.
pub open spec fn file_records(rows: Seq<SessionNativeRecord>, file: u128) -> Seq<NativeDagRecord>
    decreases rows.len(),
{
    if rows.len() == 0 {
        Seq::empty()
    } else {
        let head = file_records(rows.drop_last(), file);
        let row = rows.last();
        match row.line {
            Some(line) => if row.file_id == file && line.uuid is Some {
                head.push(
                    NativeDagRecord { uuid: line.uuid->0, parent_uuid: line.parent_uuid },
                )
            } else {
                head
            },
            None => head,
        }
    }
}

/// The last record that a file was left at.
pub open spec fn file_hint(rows: Seq<SessionNativeRecord>, file: u128) -> Option<String>
    decreases rows.len(),
{
    if rows.len() == 0 {
        None
    } else {
        let row = rows.last();
        match row.line {
            Some(line) => if row.file_id == file && line.leaf_uuid is Some {
                line.leaf_uuid
            } else {
                file_hint(rows.drop_last(), file)
            },
            None => file_hint(rows.drop_last(), file),
        }
    }
}

/// Whether the fork of one of the files lies on a cycle; see
/// [`crate::forks::fork_on_cycle`].
pub open spec fn any_fork_on_cycle(rows: Seq<SessionNativeRecord>) -> bool {
    exists|k: int|
        0 <= k < file_ids(rows).len() && fork_on_cycle(
            file_records(rows, #[trigger] file_ids(rows)[k]),
        )
}

/// Whether a file's records fork.
pub open spec fn file_forks(rows: Seq<SessionNativeRecord>, file: u128) -> bool {
    exists|i: int|
        0 <= i < first_seen(file_records(rows, file)).len() && #[trigger] forks_at(
            first_seen(file_records(rows, file)),
            i,
        )
}

/// The first `k` files whose records fork, in order.
pub open spec fn forked_files(rows: Seq<SessionNativeRecord>, k: nat) -> Seq<u128>
    decreases k,
{
    if k == 0 {
        Seq::empty()
    } else {
        let head = forked_files(rows, (k - 1) as nat);
        if file_forks(rows, file_ids(rows)[k - 1]) {
            head.push(file_ids(rows)[k - 1])
        } else {
            head
        }
    }
}

/// Whether `fork` shows the fork of `file`.
pub open spec fn is_fork_of(
    rows: Seq<SessionNativeRecord>,
    file: u128,
    fork: NativeFeedFork,
) -> bool {
    let d = first_seen(file_records(rows, file));
    &&& fork.file_id == file
    &&& Some(fork.claude_session_id) == file_sid(rows, file)
    &&& exists|f: int| #[trigger]
        first_fork(d, f) && shows_fork(d, f, fork.fork) && default_of(
            fork.fork.branches@,
            opt_text(file_hint(rows, file)),
            fork.fork.default_branch,
        )
}

/// The branch among the first `n` of a fork that holds `uuid`; the last where
/// several do.
pub open spec fn branch_in(view: NativeForkView, uuid: Seq<char>, n: nat) -> Option<
    NativeBranchMetadata,
>
    decreases n,
{
    if n == 0 {
        None
    } else {
        let b = view.branches@[n - 1];
        if branch_has(b, uuid) {
            Some(
                NativeBranchMetadata {
                    fork_parent_uuid: view.fork_parent_uuid,
                    branch_index: (n - 1) as usize,
                    branch_label: b.label,
                    is_default: view.default_branch == Some((n - 1) as usize),
                },
            )
        } else {
            branch_in(view, uuid, (n - 1) as nat)
        }
    }
}

/// The branch that holds `uuid`; that of the last fork where several do.
pub open spec fn branch_for(forks: Seq<NativeFeedFork>, uuid: Seq<char>) -> Option<
    NativeBranchMetadata,
>
    decreases forks.len(),
{
    if forks.len() == 0 {
        None
    } else {
        let view = forks.last().fork;
        match branch_in(view, uuid, view.branches@.len()) {
            Some(m) => Some(m),
            None => branch_for(forks.drop_last(), uuid),
        }
    }
}

/// The branch that an entry is on.
pub open spec fn entry_branch(forks: Seq<NativeFeedFork>, entry: NativeFeedEntry) -> Option<
    NativeBranchMetadata,
> {
    match entry.uuid {
        Some(uuid) => branch_for(forks, uuid@),
        None => None,
    }
}

fn locate(slots: &Vec<EntrySlot>, sid: &String, index: usize) -> (r: Option<usize>)
    ensures
        match r {
            Some(p) => p < slots@.len() && find_slot(slots@, sid@, index) == Some(p as int),
            None => find_slot(slots@, sid@, index) is None,
        },
{
    let mut n: usize = slots.len();
    proof {
        assert(slots@.take(n as int) =~= slots@);
    }
    while n > 0
        invariant
            n <= slots@.len(),
            find_slot(slots@, sid@, index) == find_slot(slots@.take(n as int), sid@, index),
        decreases n,
    {
        proof {
            assert(slots@.take(n as int).last() == slots@[n - 1]);
            assert(slots@.take(n as int).drop_last() =~= slots@.take(n - 1));
        }
        if slots[n - 1].index == index && slots[n - 1].entry.claude_session_id == *sid {
            return Some(n - 1);
        }
        n = n - 1;
    }
    None
}

fn origin(row: &SessionNativeRecord) -> (o: NativeFeedOrigin)
    ensures
        o == origin_of(*row),
{
    if row.linked_execution_process_id.is_some() {
        NativeFeedOrigin::Executor
    } else if row.bound_coding_agent_turn_id.is_some() || row.bound_queued_message_id.is_some() {
        NativeFeedOrigin::App
    } else {
        NativeFeedOrigin::Cli
    }
}

fn apply_change(
    slots: &mut Vec<EntrySlot>,
    row: &SessionNativeRecord,
    line: &NativeLine,
    change: &EntryChange,
)
    ensures
        final(slots)@ == with_change(old(slots)@, *row, *line, *change),
{
    match locate(slots, &row.claude_session_id, change.index) {
        Some(p) => {
            slots[p].entry.normalized_entry = change.entry.clone();
        },
        None => {
            let linked = if row.linked_execution_process_id.is_some() {
                row.linked_execution_process_id
            } else {
                row.bound_turn_execution_process_id
            };
            slots.push(
                EntrySlot {
                    index: change.index,
                    entry: NativeFeedEntry {
                        normalized_entry: change.entry.clone(),
                        claude_session_id: row.claude_session_id.clone(),
                        uuid: clone_opt(&line.uuid),
                        parent_uuid: clone_opt(&line.parent_uuid),
                        ts: clone_opt(&line.timestamp),
                        origin: origin(row),
                        linked_execution_process_id: linked,
                        git_branch: clone_opt(&line.git_branch),
                        version: clone_opt(&line.version),
                        branch: None,
                        seq: row.seq,
                    },
                },
            );
        },
    }
}

fn project_entries(rows: &Vec<SessionNativeRecord>) -> (slots: Vec<EntrySlot>)
    ensures
        slots@ == projected(rows@),
{
    let mut slots: Vec<EntrySlot> = Vec::new();
    for i in 0..rows.len()
        invariant
            slots@ == projected(rows@.take(i as int)),
    {
        proof {
            assert(rows@.take(i + 1).drop_last() =~= rows@.take(i as int));
            assert(rows@.take(i + 1).last() == rows@[i as int]);
        }
        let row = &rows[i];
        if let Some(line) = &row.line {
            let ghost head = slots@;
            for k in 0..line.changes.len()
                invariant
                    slots@ == with_changes(head, *row, *line, line.changes@.take(k as int)),
            {
                proof {
                    assert(line.changes@.take(k + 1).drop_last() =~= line.changes@.take(k as int));
                }
                apply_change(&mut slots, row, line, &line.changes[k]);
            }
            proof {
                assert(line.changes@.take(line.changes@.len() as int) =~= line.changes@);
            }
        }
    }
    proof {
        assert(rows@.take(rows@.len() as int) =~= rows@);
    }
    slots
}

/// What one file holds.
struct FileDag {
    file_id: u128,
    claude_session_id: String,
    records: Vec<NativeDagRecord>,
    leaf_hint: Option<String>,
}

spec fn dag_of(rows: Seq<SessionNativeRecord>, dag: FileDag) -> bool {
    &&& Some(dag.claude_session_id) == file_sid(rows, dag.file_id)
    &&& dag.records@ == file_records(rows, dag.file_id)
    &&& dag.leaf_hint == file_hint(rows, dag.file_id)
}

proof fn lemma_unlisted_file(rows: Seq<SessionNativeRecord>, file: u128)
    requires
        !file_ids(rows).contains(file),
    ensures
        file_sid(rows, file) is None,
        file_records(rows, file) == Seq::<NativeDagRecord>::empty(),
        file_hint(rows, file) is None,
    decreases rows.len(),
{
    if rows.len() > 0 {
        let head = file_ids(rows.drop_last());
        if head.contains(file) {
            let k = choose|k: int| 0 <= k < head.len() && head[k] == file;
            assert(file_ids(rows)[k] == file);
        }
        if rows.last().line is Some && rows.last().file_id == file {
            assert(file_ids(rows)[file_ids(rows).len() - 1] == file);
        }
        lemma_unlisted_file(rows.drop_last(), file);
    }
}

proof fn lemma_file_ids_distinct(rows: Seq<SessionNativeRecord>)
    ensures
        file_ids(rows).no_duplicates(),
    decreases rows.len(),
{
    if rows.len() > 0 {
        lemma_file_ids_distinct(rows.drop_last());
    }
}

fn collect_dags(rows: &Vec<SessionNativeRecord>) -> (dags: Vec<FileDag>)
    ensures
        dags@.len() == file_ids(rows@).len(),
        forall|k: int|
            0 <= k < dags@.len() ==> (#[trigger] dags@[k]).file_id == file_ids(rows@)[k] && dag_of(
                rows@,
                dags@[k],
            ),
{
    let mut dags: Vec<FileDag> = Vec::new();
    for i in 0..rows.len()
        invariant
            dags@.len() == file_ids(rows@.take(i as int)).len(),
            forall|k: int|
                0 <= k < dags@.len() ==> (#[trigger] dags@[k]).file_id == file_ids(
                    rows@.take(i as int),
                )[k] && dag_of(rows@.take(i as int), dags@[k]),
    {
        let ghost before = rows@.take(i as int);
        let ghost now = rows@.take(i + 1);
        proof {
            assert(now.drop_last() =~= before);
            assert(now.last() == rows@[i as int]);
            lemma_file_ids_distinct(before);
        }
        let row = &rows[i];
        if let Some(line) = &row.line {
            let mut at: Option<usize> = None;
            for k in 0..dags.len()
                invariant
                    at is None ==> forall|j: int|
                        0 <= j < k ==> (#[trigger] dags@[j]).file_id != row.file_id,
                    at is Some ==> at->0 < dags@.len() && dags@[at->0 as int].file_id
                        == row.file_id,
            {
                if dags[k].file_id == row.file_id {
                    at = Some(k);
                }
            }
            let ghost dags0 = dags@;
            let pos: usize = match at {
                Some(p) => {
                    proof {
                        assert(file_ids(before)[p as int] == row.file_id);
                        assert(file_ids(before).contains(row.file_id));
                    }
                    p
                },
                None => {
                    proof {
                        assert(!file_ids(before).contains(row.file_id)) by {
                            if file_ids(before).contains(row.file_id) {
                                let k = choose|k: int|
                                    0 <= k < file_ids(before).len() && file_ids(before)[k]
                                        == row.file_id;
                                assert(dags@[k].file_id == row.file_id);
                            }
                        }
                        lemma_unlisted_file(before, row.file_id);
                    }
                    dags.push(
                        FileDag {
                            file_id: row.file_id,
                            claude_session_id: row.claude_session_id.clone(),
                            records: Vec::new(),
                            leaf_hint: None,
                        },
                    );
                    dags.len() - 1
                },
            };
            let ghost dags1 = dags@;
            if let Some(uuid) = &line.uuid {
                dags[pos].records.push(
                    NativeDagRecord {
                        uuid: uuid.clone(),
                        parent_uuid: clone_opt(&line.parent_uuid),
                    },
                );
            }
            if let Some(hint) = &line.leaf_uuid {
                dags[pos].leaf_hint = Some(hint.clone());
            }
            proof {
                assert forall|k: int| 0 <= k < dags@.len() implies (#[trigger] dags@[k]).file_id
                    == file_ids(now)[k] && dag_of(now, dags@[k]) by {
                    if k != pos {
                        assert(dags@[k] == dags1[k]);
                        assert(dags1[k] == dags0[k]);
                        assert(dags0[k].file_id == file_ids(before)[k]);
                        if at is Some {
                            assert(file_ids(before)[k] != file_ids(before)[pos as int]);
                        } else {
                            assert(file_ids(before).contains(file_ids(before)[k]));
                        }
                    } else if at is Some {
                        assert(dag_of(before, dags0[k]));
                    }
                }
            }
        }
    }
    proof {
        assert(rows@.take(rows@.len() as int) =~= rows@);
    }
    dags
}

/// Whether the fork of one of the files lies on a cycle.
pub fn has_cyclic_file(rows: &Vec<SessionNativeRecord>) -> (r: bool)
    ensures
        r == any_fork_on_cycle(rows@),
{
    let dags = collect_dags(rows);
    for k in 0..dags.len()
        invariant
            dags@.len() == file_ids(rows@).len(),
            forall|k: int|
                0 <= k < dags@.len() ==> (#[trigger] dags@[k]).file_id == file_ids(rows@)[k]
                    && dag_of(rows@, dags@[k]),
            forall|j: int|
                0 <= j < k ==> !fork_on_cycle(file_records(rows@, #[trigger] file_ids(rows@)[j])),
    {
        if has_cyclic_fork(dags[k].records.as_slice()) {
            proof {
                assert(dags@[k as int].file_id == file_ids(rows@)[k as int]);
            }
            return true;
        }
        proof {
            assert(dags@[k as int].file_id == file_ids(rows@)[k as int]);
        }
    }
    false
}

fn find_branch(view: &NativeForkView, uuid: &str) -> (m: Option<NativeBranchMetadata>)
    ensures
        m == branch_in(*view, uuid@, view.branches@.len()),
{
    let mut n: usize = view.branches.len();
    while n > 0
        invariant
            n <= view.branches@.len(),
            branch_in(*view, uuid@, view.branches@.len()) == branch_in(*view, uuid@, n as nat),
        decreases n,
    {
        if branch_holds(&view.branches[n - 1], uuid) {
            let is_default = match view.default_branch {
                Some(d) => d == n - 1,
                None => false,
            };
            return Some(
                NativeBranchMetadata {
                    fork_parent_uuid: view.fork_parent_uuid.clone(),
                    branch_index: n - 1,
                    branch_label: view.branches[n - 1].label.clone(),
                    is_default,
                },
            );
        }
        n = n - 1;
    }
    None
}

fn find_entry_branch(forks: &Vec<NativeFeedFork>, uuid: &Option<String>) -> (m: Option<
    NativeBranchMetadata,
>)
    ensures
        m == match *uuid {
            Some(u) => branch_for(forks@, u@),
            None => None,
        },
{
    let wanted = match uuid {
        Some(u) => u,
        None => return None,
    };
    let mut n: usize = forks.len();
    proof {
        assert(forks@.take(n as int) =~= forks@);
    }
    while n > 0
        invariant
            n <= forks@.len(),
            *uuid == Some(*wanted),
            branch_for(forks@, wanted@) == branch_for(forks@.take(n as int), wanted@),
        decreases n,
    {
        proof {
            assert(forks@.take(n as int).last() == forks@[n - 1]);
            assert(forks@.take(n as int).drop_last() =~= forks@.take(n - 1));
        }
        match find_branch(&forks[n - 1].fork, wanted.as_str()) {
            Some(m) => return Some(m),
            None => {},
        }
        n = n - 1;
    }
    None
}

/// Whether `snapshot` is the feed of a session with these records.
pub open spec fn feed_is(
    rows: Seq<SessionNativeRecord>,
    revision: u64,
    seq: i64,
    health: NativeIngestHealth,
    cli_session_active: bool,
    snapshot: NativeFeedSnapshot,
) -> bool {
    let forked = forked_files(rows, file_ids(rows).len());
    let slots = projected(rows);
    &&& snapshot.revision == revision
    &&& snapshot.seq == seq
    &&& snapshot.health == health
    &&& snapshot.cli_session_active == cli_session_active
    &&& snapshot.forks@.len() == forked.len()
    &&& forall|k: int|
        0 <= k < snapshot.forks@.len() ==> is_fork_of(
            rows,
            forked[k],
            #[trigger] snapshot.forks@[k],
        )
    &&& snapshot.entries@.len() == slots.len()
    &&& forall|i: int|
        0 <= i < snapshot.entries@.len() ==> #[trigger] snapshot.entries@[i] == (NativeFeedEntry {
            branch: entry_branch(snapshot.forks@, slots[i].entry),
            ..slots[i].entry
        })
}

/// Builds the feed of a session from its transcript records.
///
/// An entry that a later line changes keeps its place and takes the new
/// content. Every file's first fork is shown, and each entry says which branch
/// it is on.
pub fn build_projection(
    rows: &Vec<SessionNativeRecord>,
    revision: u64,
    seq: i64,
    health: NativeIngestHealth,
    cli_session_active: bool,
) -> (snapshot: NativeFeedSnapshot)
    requires
        !any_fork_on_cycle(rows@),
    ensures
        feed_is(rows@, revision, seq, health, cli_session_active, snapshot),
{
    let slots = project_entries(rows);
    let dags = collect_dags(rows);
    let mut forks: Vec<NativeFeedFork> = Vec::new();
    for k in 0..dags.len()
        invariant
            !any_fork_on_cycle(rows@),
            dags@.len() == file_ids(rows@).len(),
            forall|k: int|
                0 <= k < dags@.len() ==> (#[trigger] dags@[k]).file_id == file_ids(rows@)[k]
                    && dag_of(rows@, dags@[k]),
            forks@.len() == forked_files(rows@, k as nat).len(),
            forall|j: int|
                0 <= j < forks@.len() ==> is_fork_of(
                    rows@,
                    forked_files(rows@, k as nat)[j],
                    #[trigger] forks@[j],
                ),
    {
        let dag = &dags[k];
        let ghost file = file_ids(rows@)[k as int];
        proof {
            assert(dags@[k as int].file_id == file);
            assert(!fork_on_cycle(file_records(rows@, file_ids(rows@)[k as int])));
        }
        let hint: Option<&str> = match &dag.leaf_hint {
            Some(h) => Some(h.as_str()),
            None => None,
        };
        match compute_fork_view(dag.records.as_slice(), hint) {
            Some(fork) => {
                proof {
                    let d = first_seen(file_records(rows@, file));
                    let f = choose|f: int| #[trigger]
                        first_fork(d, f) && shows_fork(d, f, fork) && default_of(
                            fork.branches@,
                            opt_text(dag.leaf_hint),
                            fork.default_branch,
                        );
                    assert(forks_at(d, f));
                }
                forks.push(
                    NativeFeedFork {
                        claude_session_id: dag.claude_session_id.clone(),
                        file_id: dag.file_id,
                        fork,
                    },
                );
            },
            None => {},
        }
    }
    let mut entries: Vec<NativeFeedEntry> = Vec::new();
    for i in 0..slots.len()
        invariant
            slots@ == projected(rows@),
            entries@.len() == i,
            forall|j: int|
                0 <= j < i ==> #[trigger] entries@[j] == (NativeFeedEntry {
                    branch: entry_branch(forks@, projected(rows@)[j].entry),
                    ..projected(rows@)[j].entry
                }),
    {
        let e = &slots[i].entry;
        entries.push(
            NativeFeedEntry {
                normalized_entry: e.normalized_entry.clone(),
                claude_session_id: e.claude_session_id.clone(),
                uuid: clone_opt(&e.uuid),
                parent_uuid: clone_opt(&e.parent_uuid),
                ts: clone_opt(&e.ts),
                origin: e.origin,
                linked_execution_process_id: e.linked_execution_process_id,
                git_branch: clone_opt(&e.git_branch),
                version: clone_opt(&e.version),
                branch: find_entry_branch(&forks, &e.uuid),
                seq: e.seq,
            },
        );
    }
    NativeFeedSnapshot { revision, seq, entries, forks, health, cli_session_active }
}

/// Whether no two slots are the same entry of a conversation.
pub open spec fn slots_distinct(slots: Seq<EntrySlot>) -> bool {
    forall|i: int, j: int|
        0 <= i < j < slots.len() ==> !(#[trigger] slots[i].entry.claude_session_id@
            == #[trigger] slots[j].entry.claude_session_id@ && slots[i].index == slots[j].index)
}

proof fn lemma_find_slot(slots: Seq<EntrySlot>, sid: Seq<char>, index: usize)
    ensures
        match find_slot(slots, sid, index) {
            Some(p) => 0 <= p < slots.len() && slot_is(slots[p], sid, index),
            None => forall|i: int| 0 <= i < slots.len() ==> !slot_is(#[trigger] slots[i], sid, index),
        },
    decreases slots.len(),
{
    if slots.len() > 0 {
        lemma_find_slot(slots.drop_last(), sid, index);
        assert forall|i: int| 0 <= i < slots.len() - 1 implies slots.drop_last()[i]
            == #[trigger] slots[i] by {}
    }
}

proof fn lemma_changes_keep(
    slots: Seq<EntrySlot>,
    row: SessionNativeRecord,
    line: NativeLine,
    changes: Seq<EntryChange>,
)
    requires
        slots_distinct(slots),
    ensures
        slots_distinct(with_changes(slots, row, line, changes)),
        slots.len() <= with_changes(slots, row, line, changes).len(),
        forall|i: int|
            0 <= i < slots.len() ==> keeps_identity(
                #[trigger] slots[i],
                with_changes(slots, row, line, changes)[i],
            ),
    decreases changes.len(),
{
    if changes.len() > 0 {
        lemma_changes_keep(slots, row, line, changes.drop_last());
        let mid = with_changes(slots, row, line, changes.drop_last());
        lemma_find_slot(mid, row.claude_session_id@, changes.last().index);
        let done = with_changes(slots, row, line, changes);
        assert forall|i: int, j: int| 0 <= i < j < done.len() implies !(
        #[trigger] done[i].entry.claude_session_id@ == #[trigger] done[j].entry.claude_session_id@
            && done[i].index == done[j].index) by {
            if j < mid.len() {
                assert(done[i].entry.claude_session_id == mid[i].entry.claude_session_id);
                assert(done[j].entry.claude_session_id == mid[j].entry.claude_session_id);
            } else {
                assert(done[i] == mid[i]);
                assert(!slot_is(mid[i], row.claude_session_id@, changes.last().index));
            }
        }
        assert forall|i: int| 0 <= i < slots.len() implies keeps_identity(
            #[trigger] slots[i],
            done[i],
        ) by {
            assert(keeps_identity(slots[i], mid[i]));
        }
    }
}

/// Whether two slots are the same entry, their content aside.
pub open spec fn keeps_identity(a: EntrySlot, b: EntrySlot) -> bool {
    &&& a.index == b.index
    &&& b.entry == (NativeFeedEntry { normalized_entry: b.entry.normalized_entry, ..a.entry })
}

/// The feed only grows at its end: whatever records follow, an entry keeps its
/// place, its origin and its number, and no entry is shown twice.
pub proof fn law_entries_keep_their_place(rows: Seq<SessionNativeRecord>, more: SessionNativeRecord)
    ensures
        slots_distinct(projected(rows)),
        projected(rows).len() <= projected(rows.push(more)).len(),
        forall|i: int|
            0 <= i < projected(rows).len() ==> keeps_identity(
                #[trigger] projected(rows)[i],
                projected(rows.push(more))[i],
            ),
    decreases rows.len(),
{
    if rows.len() > 0 {
        law_entries_keep_their_place(rows.drop_last(), rows.last());
        assert(rows.drop_last().push(rows.last()) =~= rows);
        let head = projected(rows.drop_last());
        match rows.last().line {
            Some(line) => lemma_changes_keep(head, rows.last(), line, line.changes@),
            None => {},
        }
    }
    assert(rows.push(more).drop_last() =~= rows);
    assert(rows.push(more).last() == more);
    match more.line {
        Some(line) => lemma_changes_keep(projected(rows), more, line, line.changes@),
        None => {},
    }
}

/// What an executor wrote is never shown as typed by the user or sent by the
/// application, and only what nobody claims is shown as typed in the terminal.
pub proof fn law_origin_priority(row: SessionNativeRecord)
    ensures
        origin_of(row) is Executor <==> row.linked_execution_process_id is Some,
        origin_of(row) is Cli <==> row.linked_execution_process_id is None
            && row.bound_coding_agent_turn_id is None && row.bound_queued_message_id is None,
{
}

/// The records whose line was understood, in order.
pub open spec fn understood(rows: Seq<SessionNativeRecord>) -> Seq<SessionNativeRecord>
    decreases rows.len(),
{
    if rows.len() == 0 {
        Seq::empty()
    } else if rows.last().line is Some {
        understood(rows.drop_last()).push(rows.last())
    } else {
        understood(rows.drop_last())
    }
}

proof fn lemma_understood_entries(rows: Seq<SessionNativeRecord>)
    ensures
        projected(understood(rows)) == projected(rows),
        file_ids(understood(rows)) == file_ids(rows),
    decreases rows.len(),
{
    if rows.len() > 0 {
        let head = understood(rows.drop_last());
        lemma_understood_entries(rows.drop_last());
        if rows.last().line is Some {
            assert(head.push(rows.last()).drop_last() =~= head);
        }
    }
}

proof fn lemma_understood_file(rows: Seq<SessionNativeRecord>, file: u128)
    ensures
        file_sid(understood(rows), file) == file_sid(rows, file),
        file_records(understood(rows), file) == file_records(rows, file),
        file_hint(understood(rows), file) == file_hint(rows, file),
    decreases rows.len(),
{
    if rows.len() > 0 {
        let head = understood(rows.drop_last());
        lemma_understood_file(rows.drop_last(), file);
        if rows.last().line is Some {
            assert(head.push(rows.last()).drop_last() =~= head);
        }
    }
}

proof fn lemma_understood_forks(rows: Seq<SessionNativeRecord>, k: nat)
    requires
        k <= file_ids(rows).len(),
    ensures
        forked_files(understood(rows), k) == forked_files(rows, k),
    decreases k,
{
    if k > 0 {
        lemma_understood_forks(rows, (k - 1) as nat);
        lemma_understood_entries(rows);
        lemma_understood_file(rows, file_ids(rows)[k - 1]);
    }
}

/// A record that was not understood adds nothing and stops nothing: the feed is
/// the same without it, and can be built exactly where it could be with it.
pub proof fn law_unknown_lines_change_nothing(
    rows: Seq<SessionNativeRecord>,
    revision: u64,
    seq: i64,
    health: NativeIngestHealth,
    cli_session_active: bool,
    snapshot: NativeFeedSnapshot,
)
    ensures
        any_fork_on_cycle(understood(rows)) == any_fork_on_cycle(rows),
        feed_is(understood(rows), revision, seq, health, cli_session_active, snapshot) == feed_is(
            rows,
            revision,
            seq,
            health,
            cli_session_active,
            snapshot,
        ),
{
    let kept = understood(rows);
    lemma_understood_entries(rows);
    lemma_understood_forks(rows, file_ids(rows).len());
    assert forall|file: u128|
        fork_on_cycle(#[trigger] file_records(kept, file)) == fork_on_cycle(
            file_records(rows, file),
        ) by {
        lemma_understood_file(rows, file);
    }
    if any_fork_on_cycle(rows) {
        let k = choose|k: int|
            0 <= k < file_ids(rows).len() && fork_on_cycle(
                file_records(rows, #[trigger] file_ids(rows)[k]),
            );
        assert(fork_on_cycle(file_records(kept, file_ids(kept)[k])));
    }
    if any_fork_on_cycle(kept) {
        let k = choose|k: int|
            0 <= k < file_ids(kept).len() && fork_on_cycle(
                file_records(kept, #[trigger] file_ids(kept)[k]),
            );
        assert(fork_on_cycle(file_records(rows, file_ids(rows)[k])));
    }
    assert forall|file: u128, fork: NativeFeedFork| #[trigger]
        is_fork_of(kept, file, fork) == is_fork_of(rows, file, fork) by {
        lemma_understood_file(rows, file);
    }
}

/// Whether change number `c` of record `i` is one of entry number `index` of the
/// conversation `sid`.
pub open spec fn changes_entry(
    rows: Seq<SessionNativeRecord>,
    i: int,
    c: int,
    sid: Seq<char>,
    index: usize,
) -> bool {
    &&& 0 <= i < rows.len()
    &&& rows[i].line is Some
    &&& 0 <= c < rows[i].line->0.changes@.len()
    &&& rows[i].claude_session_id@ == sid
    &&& rows[i].line->0.changes@[c].index == index
}

/// Whether change `a.1` of record `a.0` comes before change `b.1` of record `b.0`.
pub open spec fn sooner(a: (int, int), b: (int, int)) -> bool {
    a.0 < b.0 || a.0 == b.0 && a.1 < b.1
}

/// Whether a slot was started by its entry's first change, at `first`, and shows
/// the content of its last one before `end`, at `last`.
pub open spec fn slot_told(
    rows: Seq<SessionNativeRecord>,
    end: (int, int),
    slot: EntrySlot,
    first: (int, int),
    last: (int, int),
) -> bool {
    let sid = slot.entry.claude_session_id@;
    let row = rows[first.0];
    &&& changes_entry(rows, first.0, first.1, sid, slot.index)
    &&& sooner(first, end)
    &&& forall|i: int, c: int| #[trigger]
        changes_entry(rows, i, c, sid, slot.index) ==> !sooner((i, c), first)
    &&& changes_entry(rows, last.0, last.1, sid, slot.index)
    &&& sooner(last, end)
    &&& forall|i: int, c: int| #[trigger]
        changes_entry(rows, i, c, sid, slot.index) && sooner((i, c), end) ==> !sooner(last, (i, c))
    &&& slot.entry.normalized_entry == rows[last.0].line->0.changes@[last.1].entry
    &&& slot.entry.claude_session_id == row.claude_session_id
    &&& slot.entry.uuid == row.line->0.uuid
    &&& slot.entry.parent_uuid == row.line->0.parent_uuid
    &&& slot.entry.ts == row.line->0.timestamp
    &&& slot.entry.git_branch == row.line->0.git_branch
    &&& slot.entry.version == row.line->0.version
    &&& slot.entry.seq == row.seq
    &&& slot.entry.branch is None
    &&& if row.linked_execution_process_id is Some {
        &&& slot.entry.origin is Executor
        &&& slot.entry.linked_execution_process_id == row.linked_execution_process_id
    } else {
        &&& slot.entry.linked_execution_process_id == row.bound_turn_execution_process_id
        &&& slot.entry.origin is Cli <==> row.bound_coding_agent_turn_id is None
            && row.bound_queued_message_id is None
        &&& !(slot.entry.origin is Executor)
    }
}

/// Whether `slots` are the entries of the changes before `end`, in the order in
/// which they were started.
pub open spec fn slots_told(
    rows: Seq<SessionNativeRecord>,
    end: (int, int),
    slots: Seq<EntrySlot>,
    firsts: Seq<(int, int)>,
    lasts: Seq<(int, int)>,
) -> bool {
    &&& firsts.len() == slots.len()
    &&& lasts.len() == slots.len()
    &&& forall|s: int|
        0 <= s < slots.len() ==> slot_told(
            rows,
            end,
            #[trigger] slots[s],
            firsts[s],
            lasts[s],
        )
    &&& forall|s: int, t: int|
        0 <= s < t < slots.len() ==> sooner(#[trigger] firsts[s], #[trigger] firsts[t])
    &&& forall|i: int, c: int, sid: Seq<char>, index: usize| #[trigger]
        changes_entry(rows, i, c, sid, index) && sooner((i, c), end) ==> exists|s: int|
            0 <= s < slots.len() && slot_is(#[trigger] slots[s], sid, index)
}

proof fn lemma_slots_told_on(
    rows: Seq<SessionNativeRecord>,
    n: int,
    k: int,
    slots: Seq<EntrySlot>,
    firsts: Seq<(int, int)>,
    lasts: Seq<(int, int)>,
) -> (r: (Seq<(int, int)>, Seq<(int, int)>))
    requires
        slots_told(rows, (n, k), slots, firsts, lasts),
        0 <= n < rows.len(),
        rows[n].line is Some,
        0 <= k < rows[n].line->0.changes@.len(),
    ensures
        slots_told(
            rows,
            (n, k + 1),
            with_change(slots, rows[n], rows[n].line->0, rows[n].line->0.changes@[k]),
            r.0,
            r.1,
        ),
{
    let row = rows[n];
    let line = row.line->0;
    let change = line.changes@[k];
    let sid = row.claude_session_id@;
    let index = change.index;
    let done = with_change(slots, row, line, change);
    let end = (n, k + 1);
    assert(changes_entry(rows, n, k, sid, index));
    lemma_find_slot(slots, sid, index);
    match find_slot(slots, sid, index) {
        Some(p) => {
            let l = lasts.update(p, (n, k));
            assert forall|s: int| 0 <= s < done.len() implies slot_told(
                rows,
                end,
                #[trigger] done[s],
                firsts[s],
                l[s],
            ) by {
                assert(slot_told(rows, (n, k), slots[s], firsts[s], lasts[s]));
                if s != p {
                    assert(firsts[s] != firsts[p]) by {
                        assert(sooner(firsts[s], firsts[p]) || sooner(firsts[p], firsts[s]));
                    }
                    assert(slot_told(rows, (n, k), slots[p], firsts[p], lasts[p]));
                    assert(!slot_is(slots[s], sid, index));
                }
            }
            assert forall|i: int, c: int, t: Seq<char>, x: usize| #[trigger]
                changes_entry(rows, i, c, t, x) && sooner((i, c), end) implies exists|s: int|
                0 <= s < done.len() && slot_is(#[trigger] done[s], t, x) by {
                if i == n && c == k {
                    assert(slot_is(done[p], t, x));
                } else {
                    assert(sooner((i, c), (n, k)));
                    let s = choose|s: int| 0 <= s < slots.len() && slot_is(#[trigger] slots[s], t, x);
                    assert(slot_is(done[s], t, x));
                }
            }
            (firsts, l)
        },
        None => {
            let f = firsts.push((n, k));
            let l = lasts.push((n, k));
            assert forall|s: int| 0 <= s < done.len() implies slot_told(
                rows,
                end,
                #[trigger] done[s],
                f[s],
                l[s],
            ) by {
                if s < slots.len() {
                    assert(slot_told(rows, (n, k), slots[s], firsts[s], lasts[s]));
                    assert(!slot_is(slots[s], sid, index));
                } else {
                    assert forall|i: int, c: int| #[trigger]
                        changes_entry(rows, i, c, sid, index) implies !sooner((i, c), (n, k)) by {
                        if sooner((i, c), (n, k)) {
                            let s = choose|s: int|
                                0 <= s < slots.len() && slot_is(#[trigger] slots[s], sid, index);
                            assert(false);
                        }
                    }
                }
            }
            assert forall|s: int, t: int| 0 <= s < t < done.len() implies sooner(
                #[trigger] f[s],
                #[trigger] f[t],
            ) by {
                assert(slot_told(rows, (n, k), slots[s], firsts[s], lasts[s]));
            }
            assert forall|i: int, c: int, t: Seq<char>, x: usize| #[trigger]
                changes_entry(rows, i, c, t, x) && sooner((i, c), end) implies exists|s: int|
                0 <= s < done.len() && slot_is(#[trigger] done[s], t, x) by {
                if i == n && c == k {
                    assert(slot_is(done[slots.len() as int], t, x));
                } else {
                    assert(sooner((i, c), (n, k)));
                    let s = choose|s: int| 0 <= s < slots.len() && slot_is(#[trigger] slots[s], t, x);
                    assert(done[s] == slots[s]);
                }
            }
            (f, l)
        },
    }
}

proof fn lemma_slots_told_line(rows: Seq<SessionNativeRecord>, n: int, k: int) -> (r: (
    Seq<(int, int)>,
    Seq<(int, int)>,
))
    requires
        0 <= n < rows.len(),
        rows[n].line is Some,
        0 <= k <= rows[n].line->0.changes@.len(),
    ensures
        slots_told(
            rows,
            (n, k),
            with_changes(
                projected(rows.take(n)),
                rows[n],
                rows[n].line->0,
                rows[n].line->0.changes@.take(k),
            ),
            r.0,
            r.1,
        ),
    decreases n, k + 1,
{
    let changes = rows[n].line->0.changes@;
    if k == 0 {
        assert(changes.take(0) =~= Seq::empty());
        lemma_slots_told(rows, n)
    } else {
        let (f, l) = lemma_slots_told_line(rows, n, k - 1);
        assert(changes.take(k).drop_last() =~= changes.take(k - 1));
        assert(changes.take(k).last() == changes[k - 1]);
        lemma_slots_told_on(
            rows,
            n,
            k - 1,
            with_changes(projected(rows.take(n)), rows[n], rows[n].line->0, changes.take(k - 1)),
            f,
            l,
        )
    }
}

proof fn lemma_slots_told(rows: Seq<SessionNativeRecord>, n: int) -> (r: (
    Seq<(int, int)>,
    Seq<(int, int)>,
))
    requires
        0 <= n <= rows.len(),
    ensures
        slots_told(rows, (n, 0), projected(rows.take(n)), r.0, r.1),
    decreases n, 0int,
{
    let slots = projected(rows.take(n));
    if n == 0 {
        (Seq::empty(), Seq::empty())
    } else {
        assert(rows.take(n).drop_last() =~= rows.take(n - 1));
        let row = rows[n - 1];
        assert(rows.take(n).last() == row);
        let (f, l) = match row.line {
            Some(line) => {
                assert(line.changes@.take(line.changes@.len() as int) =~= line.changes@);
                lemma_slots_told_line(rows, n - 1, line.changes@.len() as int)
            },
            None => lemma_slots_told(rows, n - 1),
        };
        let before = match row.line {
            Some(line) => (n - 1, line.changes@.len() as int),
            None => (n - 1, 0int),
        };
        assert(slots_told(rows, before, slots, f, l));
        assert forall|i: int, c: int, sid: Seq<char>, index: usize| #[trigger]
            changes_entry(rows, i, c, sid, index) && sooner((i, c), (n, 0)) implies sooner(
            (i, c),
            before,
        ) by {}
        assert forall|s: int| 0 <= s < slots.len() implies slot_told(
            rows,
            (n, 0),
            #[trigger] slots[s],
            f[s],
            l[s],
        ) by {
            assert(slot_told(rows, before, slots[s], f[s], l[s]));
        }
        (f, l)
    }
}

/// The feed shows one entry for every number of a conversation that a record
/// changes, in the order in which they are first changed. All that an entry says
/// of its record it has from the first that changes it, and its content from the
/// last.
pub proof fn law_entries_start_first_and_show_last(rows: Seq<SessionNativeRecord>)
    ensures
        exists|firsts: Seq<(int, int)>, lasts: Seq<(int, int)>| #[trigger]
            slots_told(rows, (rows.len() as int, 0), projected(rows), firsts, lasts),
{
    let (f, l) = lemma_slots_told(rows, rows.len() as int);
    assert(rows.take(rows.len() as int) =~= rows);
    assert(slots_told(rows, (rows.len() as int, 0), projected(rows), f, l));
}

/// Whether record `i` is understood and of `file`.
pub open spec fn line_of(rows: Seq<SessionNativeRecord>, i: int, file: u128) -> bool {
    0 <= i < rows.len() && rows[i].line is Some && rows[i].file_id == file
}

/// Whether record `i` is the last of `file` that says where the conversation was
/// left.
pub open spec fn last_left_at(rows: Seq<SessionNativeRecord>, i: int, file: u128) -> bool {
    &&& line_of(rows, i, file)
    &&& rows[i].line->0.leaf_uuid is Some
    &&& forall|j: int|
        i < j && #[trigger] line_of(rows, j, file) ==> rows[j].line->0.leaf_uuid is None
}

proof fn lemma_hint(rows: Seq<SessionNativeRecord>, file: u128)
    ensures
        forall|i: int| #[trigger]
            last_left_at(rows, i, file) ==> file_hint(rows, file) == rows[i].line->0.leaf_uuid,
        (forall|i: int| #[trigger] line_of(rows, i, file) ==> rows[i].line->0.leaf_uuid is None)
            ==> file_hint(rows, file) is None,
    decreases rows.len(),
{
    if rows.len() > 0 {
        let rest = rows.drop_last();
        let n = rest.len() as int;
        lemma_hint(rest, file);
        assert forall|i: int| 0 <= i < n implies #[trigger] line_of(rest, i, file) == line_of(
            rows,
            i,
            file,
        ) && rest[i] == rows[i] by {}
        assert forall|i: int| #[trigger] last_left_at(rows, i, file) implies file_hint(rows, file)
            == rows[i].line->0.leaf_uuid by {
            if i < n {
                assert forall|j: int| i < j && #[trigger] line_of(
                    rest,
                    j,
                    file,
                ) implies rest[j].line->0.leaf_uuid is None by {
                    assert(line_of(rows, j, file));
                }
                assert(last_left_at(rest, i, file));
                if line_of(rows, n, file) {
                    assert(rows[n].line->0.leaf_uuid is None);
                }
            }
        }
        if forall|i: int| #[trigger] line_of(rows, i, file) ==> rows[i].line->0.leaf_uuid is None {
            assert(line_of(rows, n, file) ==> rows[n].line->0.leaf_uuid is None);
            assert forall|i: int| #[trigger]
                line_of(rest, i, file) implies rest[i].line->0.leaf_uuid is None by {
                assert(line_of(rows, i, file));
            }
        }
    }
}

/// Of the records of a file that say where the conversation was left, the last
/// one decides which branch of the file's fork is open by default: the first that
/// holds the record it names. Where none says so, no branch is.
pub proof fn law_latest_leaf_opens_its_branch(
    rows: Seq<SessionNativeRecord>,
    revision: u64,
    seq: i64,
    health: NativeIngestHealth,
    cli_session_active: bool,
    snapshot: NativeFeedSnapshot,
    k: int,
)
    requires
        feed_is(rows, revision, seq, health, cli_session_active, snapshot),
        0 <= k < snapshot.forks@.len(),
    ensures
        ({
            let fork = snapshot.forks@[k];
            &&& forall|i: int| #[trigger]
                last_left_at(rows, i, fork.file_id) ==> opens_first_with(
                    fork.fork,
                    Some(rows[i].line->0.leaf_uuid->0@),
                )
            &&& (forall|i: int| #[trigger]
                line_of(rows, i, fork.file_id) ==> rows[i].line->0.leaf_uuid is None)
                ==> fork.fork.default_branch is None
        }),
{
    let file = forked_files(rows, file_ids(rows).len())[k];
    let fork = snapshot.forks@[k];
    assert(is_fork_of(rows, file, fork));
    lemma_hint(rows, file);
    let d = first_seen(file_records(rows, file));
    let f = choose|f: int| #[trigger]
        first_fork(d, f) && shows_fork(d, f, fork.fork) && default_of(
            fork.fork.branches@,
            opt_text(file_hint(rows, file)),
            fork.fork.default_branch,
        );
    lemma_default(fork.fork, opt_text(file_hint(rows, file)));
}

/// Whether `lines` are the records of `file` that are understood and identified,
/// in order.
pub open spec fn identified(rows: Seq<SessionNativeRecord>, file: u128, lines: Seq<int>) -> bool {
    &&& forall|j: int|
        0 <= j < lines.len() ==> line_of(rows, #[trigger] lines[j], file)
            && rows[lines[j]].line->0.uuid is Some
    &&& forall|i: int, j: int| 0 <= i < j < lines.len() ==> #[trigger] lines[i] < #[trigger] lines[j]
    &&& forall|i: int| #[trigger]
        line_of(rows, i, file) && rows[i].line->0.uuid is Some ==> lines.contains(i)
}

/// The records among which a file's fork is sought are those of its lines that
/// have an identifier, in order, each with the one that it continues.
pub proof fn law_fork_is_sought_in_one_file(rows: Seq<SessionNativeRecord>, file: u128)
    ensures
        exists|lines: Seq<int>| #[trigger]
            identified(rows, file, lines) && lines.len() == file_records(rows, file).len()
                && forall|j: int|
                0 <= j < lines.len() ==> (#[trigger] file_records(rows, file)[j]).uuid
                    == rows[lines[j]].line->0.uuid->0 && file_records(rows, file)[j].parent_uuid
                    == rows[lines[j]].line->0.parent_uuid,
    decreases rows.len(),
{
    let records = file_records(rows, file);
    if rows.len() == 0 {
        let lines = Seq::<int>::empty();
        assert(identified(rows, file, lines));
    } else {
        let rest = rows.drop_last();
        let n = rest.len() as int;
        law_fork_is_sought_in_one_file(rest, file);
        let head = file_records(rest, file);
        let before = choose|lines: Seq<int>| #[trigger]
            identified(rest, file, lines) && lines.len() == head.len() && forall|j: int|
                0 <= j < lines.len() ==> (#[trigger] head[j]).uuid == rest[lines[j]].line->0.uuid->0
                    && head[j].parent_uuid == rest[lines[j]].line->0.parent_uuid;
        let more = line_of(rows, n, file) && rows[n].line->0.uuid is Some;
        let lines = if more {
            before.push(n)
        } else {
            before
        };
        assert forall|j: int| 0 <= j < lines.len() implies line_of(rows, #[trigger] lines[j], file)
            && rows[lines[j]].line->0.uuid is Some by {
            if j < before.len() {
                assert(lines[j] == before[j]);
                assert(line_of(rest, before[j], file));
                assert(rest[before[j]] == rows[before[j]]);
            }
        }
        assert forall|i: int, j: int| 0 <= i < j < lines.len() implies #[trigger] lines[i]
            < #[trigger] lines[j] by {
            assert(lines[i] == before[i]);
            assert(line_of(rest, before[i], file));
            assert(j < before.len() ==> lines[j] == before[j]);
        }
        assert forall|i: int| #[trigger]
            line_of(rows, i, file) && rows[i].line->0.uuid is Some implies lines.contains(i) by {
            if i < n {
                assert(rest[i] == rows[i]);
                assert(line_of(rest, i, file));
                let j = choose|j: int| 0 <= j < before.len() && before[j] == i;
                assert(lines[j] == i);
            } else {
                assert(lines[lines.len() - 1] == n);
            }
        }
        assert(identified(rows, file, lines));
        assert forall|j: int| 0 <= j < lines.len() implies (#[trigger] records[j]).uuid
            == rows[lines[j]].line->0.uuid->0 && records[j].parent_uuid
            == rows[lines[j]].line->0.parent_uuid by {
            if j < before.len() {
                assert(records[j] == head[j]);
                assert(line_of(rest, before[j], file));
                assert(rest[before[j]] == rows[before[j]]);
            }
        }
    }
}

/// Whether record `s` is understood and the first such of its file.
pub open spec fn starts_file(rows: Seq<SessionNativeRecord>, s: int) -> bool {
    &&& 0 <= s < rows.len()
    &&& rows[s].line is Some
    &&& forall|j: int|
        0 <= j < s && (#[trigger] rows[j]).line is Some ==> rows[j].file_id != rows[s].file_id
}

/// Whether `starts` are the first understood records of the files `ids`, in
/// order, and there are no other files.
pub open spec fn file_starts(
    rows: Seq<SessionNativeRecord>,
    ids: Seq<u128>,
    starts: Seq<int>,
) -> bool {
    &&& starts.len() == ids.len()
    &&& forall|k: int|
        0 <= k < starts.len() ==> starts_file(rows, #[trigger] starts[k])
            && rows[starts[k]].file_id == ids[k]
    &&& forall|i: int, j: int|
        0 <= i < j < starts.len() ==> #[trigger] starts[i] < #[trigger] starts[j]
    &&& forall|i: int|
        0 <= i < rows.len() && (#[trigger] rows[i]).line is Some ==> ids.contains(rows[i].file_id)
}

/// A file counts from its first understood record on: the files come in that
/// order, and its conversation is the one which that record names.
pub proof fn law_file_starts_with_its_first_line(rows: Seq<SessionNativeRecord>)
    ensures
        exists|starts: Seq<int>| #[trigger] file_starts(rows, file_ids(rows), starts),
        forall|s: int| #[trigger]
            starts_file(rows, s) ==> file_sid(rows, rows[s].file_id) == Some(
                rows[s].claude_session_id,
            ),
    decreases rows.len(),
{
    let ids = file_ids(rows);
    if rows.len() == 0 {
        let starts = Seq::<int>::empty();
        assert(file_starts(rows, ids, starts));
    } else {
        let rest = rows.drop_last();
        let n = rest.len() as int;
        law_file_starts_with_its_first_line(rest);
        let head = file_ids(rest);
        let before = choose|starts: Seq<int>| #[trigger] file_starts(rest, head, starts);
        let file = rows[n].file_id;
        let more = rows[n].line is Some && !head.contains(file);
        let starts = if more {
            before.push(n)
        } else {
            before
        };
        assert forall|s: int| 0 <= s < n implies #[trigger] starts_file(rest, s) == starts_file(
            rows,
            s,
        ) && rest[s] == rows[s] by {
            assert(forall|j: int| 0 <= j < n ==> rest[j] == #[trigger] rows[j]);
        }
        assert(starts_file(rows, n) ==> more) by {
            if starts_file(rows, n) && head.contains(file) {
                let k = choose|k: int| 0 <= k < head.len() && head[k] == file;
                assert(starts_file(rest, before[k]));
                assert(rows[before[k]].line is Some);
            }
        }
        if more {
            lemma_unlisted_file(rest, file);
            assert forall|j: int| 0 <= j < n && (#[trigger] rows[j]).line is Some implies rows[j].file_id
                != file by {
                assert(rest[j] == rows[j]);
            }
            assert(starts_file(rows, n));
        }
        assert forall|k: int| 0 <= k < starts.len() implies starts_file(rows, #[trigger] starts[k])
            && rows[starts[k]].file_id == ids[k] by {
            if k < before.len() {
                assert(starts[k] == before[k]);
                assert(starts_file(rest, before[k]));
                assert(ids[k] == head[k]);
            }
        }
        assert forall|i: int, j: int| 0 <= i < j < starts.len() implies #[trigger] starts[i]
            < #[trigger] starts[j] by {
            assert(starts[i] == before[i]);
            assert(starts_file(rest, before[i]));
            assert(j < before.len() ==> starts[j] == before[j]);
        }
        assert forall|i: int|
            0 <= i < rows.len() && (#[trigger] rows[i]).line is Some implies ids.contains(
            rows[i].file_id) by {
            if i < n {
                assert(rest[i] == rows[i]);
                let k = choose|k: int| 0 <= k < head.len() && head[k] == rows[i].file_id;
                assert(ids[k] == head[k]);
            } else if more {
                assert(ids[ids.len() - 1] == file);
            }
        }
        assert(file_starts(rows, ids, starts));
        assert forall|s: int| #[trigger] starts_file(rows, s) implies file_sid(
            rows,
            rows[s].file_id,
        ) == Some(rows[s].claude_session_id) by {
            if s < n {
                assert(starts_file(rest, s));
            }
        }
    }
}

/// Whether branch `n` of fork `k` holds `uuid`.
pub open spec fn held_in(forks: Seq<NativeFeedFork>, k: int, n: int, uuid: Seq<char>) -> bool {
    &&& 0 <= k < forks.len()
    &&& 0 <= n < forks[k].fork.branches@.len()
    &&& lists(forks[k].fork.branches@[n].node_uuids@, uuid)
}

/// Whether `r` says which branch holds `uuid`: the last branch of the last fork
/// among those that do.
pub open spec fn tells_branch(
    forks: Seq<NativeFeedFork>,
    uuid: Seq<char>,
    r: Option<NativeBranchMetadata>,
) -> bool {
    match r {
        None => forall|k: int, n: int| !#[trigger] held_in(forks, k, n, uuid),
        Some(m) => exists|k: int| {
            let view = (#[trigger] forks[k]).fork;
            &&& held_in(forks, k, m.branch_index as int, uuid)
            &&& m.fork_parent_uuid == view.fork_parent_uuid
            &&& m.branch_label == view.branches@[m.branch_index as int].label
            &&& m.is_default == (view.default_branch == Some(m.branch_index))
            &&& forall|j: int, n: int| #[trigger]
                held_in(forks, j, n, uuid) ==> j < k || j == k && n <= m.branch_index
        },
    }
}

proof fn lemma_branch_in(view: NativeForkView, uuid: Seq<char>, n: nat)
    requires
        n <= view.branches@.len(),
        view.branches@.len() <= usize::MAX,
    ensures
        match branch_in(view, uuid, n) {
            None => forall|i: int|
                0 <= i < n ==> !lists((#[trigger] view.branches@[i]).node_uuids@, uuid),
            Some(m) => {
                &&& m.branch_index < n
                &&& lists(view.branches@[m.branch_index as int].node_uuids@, uuid)
                &&& forall|i: int|
                    m.branch_index < i < n ==> !lists(
                        (#[trigger] view.branches@[i]).node_uuids@,
                        uuid,
                    )
                &&& m.fork_parent_uuid == view.fork_parent_uuid
                &&& m.branch_label == view.branches@[m.branch_index as int].label
                &&& m.is_default == (view.default_branch == Some(m.branch_index))
            },
        },
    decreases n,
{
    if n > 0 {
        lemma_lists(view.branches@[n - 1].node_uuids@, uuid);
        lemma_branch_in(view, uuid, (n - 1) as nat);
    }
}

/// An entry says that it is on the branch that holds its record, with the branch's
/// number, its label and the record that the fork is at, and whether the branch is
/// the one that is open; the last branch of the last fork where several hold it.
/// An entry that no branch holds is on none.
pub proof fn law_entry_names_its_branch(forks: Seq<NativeFeedFork>, uuid: Seq<char>)
    requires
        forall|k: int|
            0 <= k < forks.len() ==> (#[trigger] forks[k]).fork.branches@.len() <= usize::MAX,
    ensures
        tells_branch(forks, uuid, branch_for(forks, uuid)),
    decreases forks.len(),
{
    if forks.len() > 0 {
        let rest = forks.drop_last();
        let last = forks.len() - 1;
        law_entry_names_its_branch(rest, uuid);
        let view = forks[last].fork;
        lemma_branch_in(view, uuid, view.branches@.len());
        assert forall|k: int, n: int| 0 <= k < last implies #[trigger] held_in(forks, k, n, uuid)
            == held_in(rest, k, n, uuid) by {}
        match branch_in(view, uuid, view.branches@.len()) {
            Some(m) => {
                assert(held_in(forks, last, m.branch_index as int, uuid));
                assert(forks[last].fork == view);
            },
            None => {
                assert forall|n: int| !#[trigger] held_in(forks, last, n, uuid) by {}
                match branch_for(rest, uuid) {
                    Some(m) => {
                        let k = choose|k: int| {
                            let view = (#[trigger] rest[k]).fork;
                            &&& held_in(rest, k, m.branch_index as int, uuid)
                            &&& m.fork_parent_uuid == view.fork_parent_uuid
                            &&& m.branch_label == view.branches@[m.branch_index as int].label
                            &&& m.is_default == (view.default_branch == Some(m.branch_index))
                            &&& forall|j: int, n: int| #[trigger]
                                held_in(rest, j, n, uuid) ==> j < k || j == k && n
                                    <= m.branch_index
                        };
                        assert(rest[k] == forks[k]);
                        assert(held_in(forks, k, m.branch_index as int, uuid));
                    },
                    None => {
                        assert forall|k: int, n: int| !#[trigger] held_in(forks, k, n, uuid) by {
                            assert(!held_in(rest, k, n, uuid));
                        }
                    },
                }
            },
        }
    }
}

proof fn lemma_forked_files(rows: Seq<SessionNativeRecord>, k: nat)
    requires
        k <= file_ids(rows).len(),
    ensures
        forall|n: int|
            0 <= n < forked_files(rows, k).len() ==> file_forks(
                rows,
                #[trigger] forked_files(rows, k)[n],
            ) && exists|i: int| 0 <= i < k && #[trigger] file_ids(rows)[i] == forked_files(rows, k)[n],
        forall|i: int|
            0 <= i < k && file_forks(rows, #[trigger] file_ids(rows)[i]) ==> forked_files(
                rows,
                k,
            ).contains(file_ids(rows)[i]),
    decreases k,
{
    if k > 0 {
        lemma_forked_files(rows, (k - 1) as nat);
        let head = forked_files(rows, (k - 1) as nat);
        let all = forked_files(rows, k);
        let ids = file_ids(rows);
        assert forall|n: int| 0 <= n < all.len() implies file_forks(rows, #[trigger] all[n])
            && exists|i: int| 0 <= i < k && #[trigger] ids[i] == all[n] by {
            if n < head.len() {
                assert(all[n] == head[n]);
                let i = choose|i: int| 0 <= i < k - 1 && #[trigger] ids[i] == head[n];
                assert(ids[i] == all[n]);
            } else {
                assert(ids[k - 1] == all[n]);
            }
        }
        assert forall|i: int| 0 <= i < k && file_forks(
            rows,
            #[trigger] ids[i],
        ) implies all.contains(ids[i]) by {
            if i < k - 1 {
                let n = choose|n: int| 0 <= n < head.len() && head[n] == ids[i];
                assert(all[n] == ids[i]);
            } else {
                assert(all[all.len() - 1] == ids[i]);
            }
        }
    }
}

/// The feed shows a fork for every file in whose records there is one, for no
/// other, and under the file's own conversation; its branch metadata is what its
/// entries are told by.
pub proof fn law_every_fork_is_shown(
    rows: Seq<SessionNativeRecord>,
    revision: u64,
    seq: i64,
    health: NativeIngestHealth,
    cli_session_active: bool,
    snapshot: NativeFeedSnapshot,
)
    requires
        feed_is(rows, revision, seq, health, cli_session_active, snapshot),
    ensures
        snapshot.revision == revision && snapshot.seq == seq && snapshot.health == health
            && snapshot.cli_session_active == cli_session_active,
        forall|k: int|
            0 <= k < snapshot.forks@.len() ==> {
                let fork = #[trigger] snapshot.forks@[k];
                &&& Some(fork.claude_session_id) == file_sid(rows, fork.file_id)
                &&& fork_view_is(
                    file_records(rows, fork.file_id),
                    opt_text(file_hint(rows, fork.file_id)),
                    Some(fork.fork),
                )
            },
        forall|i: int, p: int, a: int, b: int|
            0 <= i < rows.len() && (#[trigger] rows[i]).line is Some && a != b
                && #[trigger] continues(file_records(rows, rows[i].file_id), a, p)
                && #[trigger] continues(file_records(rows, rows[i].file_id), b, p) ==> exists|k: int|
                0 <= k < snapshot.forks@.len() && (#[trigger] snapshot.forks@[k]).file_id
                    == rows[i].file_id,
{
    let ids = file_ids(rows);
    let forked = forked_files(rows, ids.len());
    lemma_forked_files(rows, ids.len());
    assert forall|k: int| 0 <= k < snapshot.forks@.len() implies {
        let fork = #[trigger] snapshot.forks@[k];
        &&& Some(fork.claude_session_id) == file_sid(rows, fork.file_id)
        &&& fork_view_is(
            file_records(rows, fork.file_id),
            opt_text(file_hint(rows, fork.file_id)),
            Some(fork.fork),
        )
    } by {
        assert(is_fork_of(rows, forked[k], snapshot.forks@[k]));
    }
    assert forall|i: int, p: int, a: int, b: int|
        0 <= i < rows.len() && (#[trigger] rows[i]).line is Some && a != b && #[trigger] continues(
            file_records(rows, rows[i].file_id),
            a,
            p,
        ) && #[trigger] continues(file_records(rows, rows[i].file_id), b, p) implies exists|k: int|
        0 <= k < snapshot.forks@.len() && (#[trigger] snapshot.forks@[k]).file_id
            == rows[i].file_id by {
        let file = rows[i].file_id;
        let records = file_records(rows, file);
        let d = first_seen(records);
        if !file_forks(rows, file) {
            assert forall|j: int| 0 <= j < d.len() implies !#[trigger] forks_at(d, j) by {}
            law_no_fork_is_shown_where_there_is_none(records, None, None);
        }
        law_file_starts_with_its_first_line(rows);
        let starts = choose|starts: Seq<int>| #[trigger] file_starts(rows, ids, starts);
        let x = choose|x: int| 0 <= x < ids.len() && ids[x] == file;
        assert(ids[x] == file);
        let k = choose|k: int| 0 <= k < forked.len() && forked[k] == file;
        assert(is_fork_of(rows, forked[k], snapshot.forks@[k]));
        assert(snapshot.forks@[k].file_id == file);
    }
}

/// The feed shows the entries of the records, all of them and in their order, each as
/// it is but for the branch: the one that holds its record, where it is identified
/// and one does.
pub proof fn law_feed_shows_every_entry(
    rows: Seq<SessionNativeRecord>,
    revision: u64,
    seq: i64,
    health: NativeIngestHealth,
    cli_session_active: bool,
    snapshot: NativeFeedSnapshot,
    i: int,
)
    requires
        feed_is(rows, revision, seq, health, cli_session_active, snapshot),
        forall|k: int|
            0 <= k < snapshot.forks@.len() ==> (
            #[trigger] snapshot.forks@[k]).fork.branches@.len() <= usize::MAX,
        0 <= i < snapshot.entries@.len(),
    ensures
        snapshot.entries@.len() == projected(rows).len(),
        ({
            let e = snapshot.entries@[i];
            let was = projected(rows)[i].entry;
            &&& e.normalized_entry == was.normalized_entry
            &&& e.claude_session_id == was.claude_session_id
            &&& e.uuid == was.uuid
            &&& e.parent_uuid == was.parent_uuid
            &&& e.ts == was.ts
            &&& e.origin == was.origin
            &&& e.linked_execution_process_id == was.linked_execution_process_id
            &&& e.git_branch == was.git_branch
            &&& e.version == was.version
            &&& e.seq == was.seq
            &&& e.uuid is None ==> e.branch is None
            &&& e.uuid matches Some(u) ==> tells_branch(snapshot.forks@, u@, e.branch)
        }),
{
    if let Some(u) = snapshot.entries@[i].uuid {
        law_entry_names_its_branch(snapshot.forks@, u@);
    }
}

} // verus!
