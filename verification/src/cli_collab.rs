//! Who may write to a session's conversation: the headless executor, the agent
//! in the terminal, or nobody for the moment.
//!
//! The lease is derived anew each time from what can be observed. Whatever
//! cannot be observed counts as busy, so that two writers never meet.

use vstd::prelude::*;
use vstd::string::*;

use crate::foreign::{uuid_chars, uuid_text};
use crate::id_set::IdSet;
use crate::queued_message::QueuedMessageError;
use crate::text::concat3;

verus! {

/// What the command line of the agent in the pane says of its conversation.
#[derive(Debug)]
pub enum SidEvidence {
    /// It resumes this conversation.
    ConfirmedResume(String),
    /// It resumes none.
    NoResumeArg,
    Ambiguous,
    Unknown,
}

/// What a look at the pane showed.
#[derive(Debug)]
pub struct ProbeReport {
    pub pane_session_exists: bool,
    /// Absent where it could not be seen.
    pub agent_running: Option<bool>,
    pub sid_evidence: SidEvidence,
    /// Whether any part of the look failed.
    pub probe_failed: bool,
    /// Whether exactly one agent works in the directory; absent where that was
    /// not looked at or could not be seen.
    pub only_active_claude_in_cwd: Option<bool>,
}

impl ProbeReport {
    /// The report of a look that failed.
    pub fn failed() -> (r: ProbeReport)
        ensures
            r == (ProbeReport {
                pane_session_exists: false,
                agent_running: None,
                sid_evidence: SidEvidence::Unknown,
                probe_failed: true,
                only_active_claude_in_cwd: None,
            }),
    {
        ProbeReport {
            pane_session_exists: false,
            agent_running: None,
            sid_evidence: SidEvidence::Unknown,
            probe_failed: true,
            only_active_claude_in_cwd: None,
        }
    }
}

/// How a pane came to be bound to a session.
#[derive(Debug, Clone, Copy, PartialEq, Eq, Structural)]
pub enum CliPaneBoundVia {
    /// Launched to resume a conversation.
    CliResume,
    /// Launched fresh; its conversation is found out later.
    CliFresh,
}

/// The record that a pane belongs to a session.
#[derive(Debug)]
pub struct CliPaneBinding {
    pub id: u128,
    pub session_id: u128,
    pub claude_session_id: Option<String>,
    pub bound_via: CliPaneBoundVia,
    /// Nanoseconds since the epoch.
    pub created_at: i128,
}

/// The circumstances of a retry.
#[derive(Debug)]
pub struct RetryDispatchContext {
    pub process_id: u128,
    pub force_when_dirty: bool,
    pub perform_git_reset: bool,
    pub reset_to_message_id: Option<String>,
}

/// Who may write to a session's conversation.
#[derive(Debug)]
pub enum WriterLease {
    /// The headless executor is writing.
    Executor,
    /// The agent in the terminal holds this conversation; absent where it has
    /// not started one yet.
    Cli { claude_session_id: Option<String> },
    /// An agent is in the terminal, but nobody knows with which conversation.
    CliAmbiguous,
    /// Nobody writes.
    Free,
    /// It cannot be told.
    Busy,
}

/// Why a message could not be dispatched, drained or handed over.
#[derive(Debug)]
pub enum CliCollabError {
    /// The database failed, with this text.
    Database(String),
    Queue(QueuedMessageError),
    /// A value could not be written as JSON, with this text.
    Serialize(String),
    /// This session has no workspace.
    WorkspaceMissing(u128),
    /// This message was dispatched, but its claim had ended.
    ExecutorClaimLost(u128),
    /// This message was pasted, but its claim had ended.
    PasteClaimLost(u128),
    /// The terminal of a workspace could not be reached.
    Transport { workspace_id: u128, source: String },
}

impl CliCollabError {
    /// The wording.
    pub open spec fn wording(self) -> Seq<char> {
        match self {
            CliCollabError::Database(text) => text@,
            CliCollabError::Queue(e) => e.wording(),
            CliCollabError::Serialize(text) => text@,
            CliCollabError::WorkspaceMissing(id) => "session "@ + uuid_chars(id)
                + " has no workspace"@,
            CliCollabError::ExecutorClaimLost(id) => "queued message "@ + uuid_chars(id)
                + " lost its executor dispatch claim"@,
            CliCollabError::PasteClaimLost(id) => "queued message "@ + uuid_chars(id)
                + " lost its CLI paste claim"@,
            CliCollabError::Transport { workspace_id, source } => "CLI transport failed for workspace "@
                + uuid_chars(workspace_id) + ": "@ + source@,
        }
    }

    pub fn message(&self) -> (m: String)
        ensures
            m@ == self.wording(),
    {
        match self {
            CliCollabError::Database(text) => text.clone(),
            CliCollabError::Queue(e) => e.message(),
            CliCollabError::Serialize(text) => text.clone(),
            CliCollabError::WorkspaceMissing(id) => concat3(
                "session ",
                uuid_text(*id).as_str(),
                " has no workspace",
            ),
            CliCollabError::ExecutorClaimLost(id) => concat3(
                "queued message ",
                uuid_text(*id).as_str(),
                " lost its executor dispatch claim",
            ),
            CliCollabError::PasteClaimLost(id) => concat3(
                "queued message ",
                uuid_text(*id).as_str(),
                " lost its CLI paste claim",
            ),
            CliCollabError::Transport { workspace_id, source } => {
                let mut m = concat3(
                    "CLI transport failed for workspace ",
                    uuid_text(*workspace_id).as_str(),
                    ": ",
                );
                m.append(source.as_str());
                m
            },
        }
    }
}

/// The conversation that a session continues: that of its latest turn, else the
/// one that was last linked to it.
pub open spec fn continued_sid(turn: Option<String>, link: Option<String>) -> Option<String> {
    if turn is Some {
        turn
    } else {
        link
    }
}

/// The conversation that a session continues.
pub fn expected_sid(turn: Option<String>, link: Option<String>) -> (sid: Option<String>)
    ensures
        sid == continued_sid(turn, link),
{
    match turn {
        Some(s) => Some(s),
        None => link,
    }
}

/// What the derivation of a lease is told. A field that is absent could not be
/// read.
#[derive(Debug)]
pub struct LeaseFacts {
    pub session_id: u128,
    /// Whether an executor is running the session.
    pub executor_running: Option<bool>,
    /// The active binding of the workspace's pane, if there is one.
    pub binding: Option<Option<CliPaneBinding>>,
    /// The directory that the session works in.
    pub effective_dir: Option<String>,
    /// The conversation that the session continues, if it has one.
    pub expected_sid: Option<Option<String>>,
    pub report: ProbeReport,
}

impl LeaseFacts {
    /// Everything that is read before the pane is looked at could be read, and
    /// no executor is running.
    pub open spec fn readable(self) -> bool {
        &&& self.executor_running == Some(false)
        &&& self.binding is Some
        &&& self.effective_dir is Some
        &&& self.expected_sid is Some
    }

    /// A look at the pane that succeeded and found an agent in it.
    pub open spec fn sees_agent(self) -> bool {
        &&& self.readable()
        &&& !self.report.probe_failed
        &&& self.report.pane_session_exists
        &&& self.report.agent_running == Some(true)
    }

    /// The binding of the pane.
    pub open spec fn bound(self) -> Option<CliPaneBinding> {
        match self.binding {
            Some(b) => b,
            None => None,
        }
    }

    /// Whether the agent in the pane demonstrably holds the session's own
    /// conversation.
    pub open spec fn proves_own_conversation(self) -> bool {
        self.bound() is Some && self.bound()->0.session_id == self.session_id && match (
            self.expected_sid->0,
            self.report.sid_evidence,
        ) {
            (Some(expected), SidEvidence::ConfirmedResume(observed)) => expected@ == observed@,
            (None, SidEvidence::NoResumeArg) => self.bound()->0.claude_session_id is None,
            _ => false,
        }
    }

    /// The lease that the facts amount to, where `signaled` holds the bindings
    /// whose pane was told to resume and has not come up yet.
    pub open spec fn lease(self, signaled: Set<u128>) -> WriterLease {
        if self.executor_running == Some(true) {
            WriterLease::Executor
        } else if !self.readable() || self.report.probe_failed {
            WriterLease::Busy
        } else if !self.report.pane_session_exists {
            WriterLease::Free
        } else {
            match self.report.agent_running {
                None => WriterLease::Busy,
                Some(false) => if self.bound() is Some && signaled.contains(self.bound()->0.id) {
                    WriterLease::CliAmbiguous
                } else {
                    WriterLease::Free
                },
                Some(true) => if self.proves_own_conversation() {
                    WriterLease::Cli { claude_session_id: self.expected_sid->0 }
                } else {
                    WriterLease::CliAmbiguous
                },
            }
        }
    }

    /// The bindings that still wait for their pane: one whose agent was seen
    /// waits no longer.
    pub open spec fn still_signaled(self, signaled: Set<u128>) -> Set<u128> {
        if self.sees_agent() && self.bound() is Some {
            signaled.remove(self.bound()->0.id)
        } else {
            signaled
        }
    }
}

/// Derives who may write to a session's conversation.
pub fn derive_lease(facts: &LeaseFacts, signaled: &mut IdSet) -> (lease: WriterLease)
    ensures
        lease == facts.lease(old(signaled)@),
        final(signaled)@ == facts.still_signaled(old(signaled)@),
{
    match facts.executor_running {
        Some(true) => return WriterLease::Executor,
        Some(false) => {},
        None => return WriterLease::Busy,
    }
    let binding = match &facts.binding {
        Some(b) => b,
        None => return WriterLease::Busy,
    };
    if facts.effective_dir.is_none() {
        return WriterLease::Busy;
    }
    let expected = match &facts.expected_sid {
        Some(sid) => sid,
        None => return WriterLease::Busy,
    };
    if facts.report.probe_failed {
        return WriterLease::Busy;
    }
    if !facts.report.pane_session_exists {
        return WriterLease::Free;
    }
    match facts.report.agent_running {
        None => return WriterLease::Busy,
        Some(false) => {
            let handoff_pending = match binding {
                Some(b) => signaled.contains(b.id),
                None => false,
            };
            return if handoff_pending {
                WriterLease::CliAmbiguous
            } else {
                WriterLease::Free
            };
        },
        Some(true) => {
            if let Some(b) = binding {
                signaled.remove(b.id);
            }
        },
    }
    let own = match binding {
        Some(b) => {
            if b.session_id != facts.session_id {
                return WriterLease::CliAmbiguous;
            }
            b
        },
        None => return WriterLease::CliAmbiguous,
    };
    match (expected, &facts.report.sid_evidence) {
        (Some(sid), SidEvidence::ConfirmedResume(observed)) => {
            if *sid == *observed {
                WriterLease::Cli { claude_session_id: Some(sid.clone()) }
            } else {
                WriterLease::CliAmbiguous
            }
        },
        (None, SidEvidence::NoResumeArg) => {
            if own.claude_session_id.is_none() {
                WriterLease::Cli { claude_session_id: None }
            } else {
                WriterLease::CliAmbiguous
            }
        },
        _ => WriterLease::CliAmbiguous,
    }
}

/// The lease fails closed: it is free only where it was seen that no executor
/// runs and that no agent is in the pane, and nothing unreadable is ever taken
/// for free or for a known writer in the terminal.
pub proof fn law_lease_fails_closed(facts: LeaseFacts, signaled: Set<u128>)
    ensures
        facts.lease(signaled) is Free ==> facts.readable() && !facts.report.probe_failed && (
        !facts.report.pane_session_exists || facts.report.agent_running == Some(false)),
        facts.lease(signaled) is Cli ==> facts.sees_agent() && facts.proves_own_conversation(),
        facts.executor_running is None || facts.executor_running == Some(false) && (
        facts.binding is None || facts.effective_dir is None || facts.expected_sid is None
            || facts.report.probe_failed) ==> facts.lease(signaled) is Busy,
{
}

/// A running executor holds the lease, whatever else is seen.
pub proof fn law_executor_holds_lease(facts: LeaseFacts, signaled: Set<u128>)
    requires
        facts.executor_running == Some(true),
    ensures
        facts.lease(signaled) is Executor,
        facts.still_signaled(signaled) == signaled,
{
}

/// A pane that was told to resume keeps everybody else out until its agent is
/// seen: the lease is not free in between.
pub proof fn law_handoff_blocks_dispatch(facts: LeaseFacts, signaled: Set<u128>)
    requires
        facts.bound() is Some,
        signaled.contains(facts.bound()->0.id),
        facts.report.pane_session_exists,
    ensures
        !(facts.lease(signaled) is Free),
        !facts.sees_agent() ==> facts.still_signaled(signaled).contains(facts.bound()->0.id),
{
}

/// The directory that a session works in: what the session makes of the
/// workspace's root, where the workspace and its root are there at all.
pub fn effective_dir_for_session(root: &Option<String>, below_root: Option<String>) -> (dir: Option<
    String,
>)
    ensures
        dir == if root is Some {
            below_root
        } else {
            None
        },
{
    if root.is_some() {
        below_root
    } else {
        None
    }
}

/// Whether everything that the derivation reads before it looks at the pane was
/// read, no executor is running, and the pane could be looked at.
pub open spec fn pane_was_seen(facts: LeaseFacts) -> bool {
    &&& facts.executor_running == Some(false)
    &&& facts.binding is Some
    &&& facts.effective_dir is Some
    &&& facts.expected_sid is Some
    &&& !facts.report.probe_failed
}

/// Who may write follows from what was read, case by case. The executor may
/// while it runs. Otherwise the agent in the pane may where it is bound to the
/// session and runs the conversation that the session continues, or a new one
/// where neither the session nor the pane has one; nobody writes where there is no
/// pane, or no agent in it and none is awaited. An agent that cannot be placed,
/// or is awaited, makes it ambiguous, and what was not read leaves it open.
pub proof fn law_lease_follows_from_what_was_read(facts: LeaseFacts, signaled: Set<u128>)
    ensures
        ({
            let lease = facts.lease(signaled);
            let seen = pane_was_seen(facts);
            let there = facts.report.pane_session_exists;
            let agent = facts.report.agent_running;
            let awaited = facts.binding matches Some(Some(b)) && signaled.contains(b.id);
            let bound = facts.binding matches Some(Some(b)) && b.session_id == facts.session_id;
            let resumed = facts.expected_sid matches Some(Some(sid))
                && facts.report.sid_evidence matches SidEvidence::ConfirmedResume(other) && sid@
                == other@;
            let new = facts.expected_sid == Some(None::<String>)
                && facts.report.sid_evidence is NoResumeArg && (facts.binding matches Some(Some(b))
                && b.claude_session_id is None);
            &&& lease is Executor <==> facts.executor_running == Some(true)
            &&& lease is Free <==> seen && (!there || agent == Some(false) && !awaited)
            &&& lease is Cli <==> seen && there && agent == Some(true) && bound && (resumed || new)
            &&& lease is CliAmbiguous <==> seen && there && (agent == Some(false) && awaited
                || agent == Some(true) && !(bound && (resumed || new)))
            &&& lease is Busy <==> facts.executor_running != Some(true) && (!seen || there
                && agent is None)
            &&& lease matches WriterLease::Cli { claude_session_id } ==> facts.expected_sid == Some(
                claude_session_id,
            )
        }),
{
}

/// A pane is awaited until an agent is seen in it, and no look at one pane ends
/// the wait for another.
pub proof fn law_wait_ends_when_the_agent_is_seen(
    facts: LeaseFacts,
    signaled: Set<u128>,
    id: u128,
)
    ensures
        facts.still_signaled(signaled).contains(id) <==> signaled.contains(id) && !(pane_was_seen(
            facts,
        ) && facts.report.pane_session_exists && facts.report.agent_running == Some(true) && (
        facts.binding matches Some(Some(b)) && b.id == id)),
{
}

/// The conversation of the latest turn goes before the one that was linked last,
/// and there is one where either is there.
pub proof fn law_latest_turn_goes_first(turn: Option<String>, link: Option<String>)
    ensures
        turn matches Some(sid) ==> continued_sid(turn, link) == Some(sid),
        turn is None ==> continued_sid(turn, link) == link,
{
}

} // verus!
