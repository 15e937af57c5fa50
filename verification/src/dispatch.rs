//! The dispatch gate: what happens to a message that a session is sent.
//!
//! A message goes to exactly one place. It is pasted into the terminal where
//! the agent there demonstrably holds the conversation, it starts an executor
//! where nobody writes, and it waits in the session's slot otherwise. The dispatcher
//! is a state machine: [`GateState::ask`] says what has to be done next, and
//! [`GateState::step`] takes what came of it.

use vstd::prelude::*;

use crate::cli_collab::{CliCollabError, WriterLease};
use crate::queued_message::{
    QueueStatus, QueuedMessageError, QueuedMessageState, SessionQueuedMessage, row_status,
    status_from_row,
};
use crate::text::clone_opt;

verus! {

/// What the dispatcher is set to for one message.
#[derive(Debug, Clone, Copy, PartialEq, Eq, Structural)]
pub struct GateSettings {
    /// Whether a message that waits in the slot may be replaced.
    pub replace: bool,
    /// Whether the message is a retry, which only an executor can run.
    pub is_retry: bool,
    /// Whether nothing may be pasted into terminals.
    pub routing_disabled: bool,
}

/// The slot's row, as far as the dispatcher reads it.
#[derive(Debug)]
pub struct SlotRow {
    pub id: u128,
    pub state: QueuedMessageState,
    /// How it is shown, or why it cannot be.
    pub shown: Result<QueueStatus, QueuedMessageError>,
}

impl SlotRow {
    /// What the dispatcher reads of a stored message. `config_error` says what
    /// is wrong with its stored executor configuration, if anything is.
    pub fn of(row: SessionQueuedMessage, config_error: Option<String>) -> (r: SlotRow)
        ensures
            r == (SlotRow { id: row.id, state: row.state, shown: row_status(row, config_error) }),
    {
        let id: u128 = row.id;
        let state = row.state;
        SlotRow { id, state, shown: status_from_row(row, config_error) }
    }
}

/// What became of a message.
#[derive(Debug)]
pub enum DispatchOutcome {
    /// This execution was started for it.
    Started { execution_process: u128 },
    Queued { status: QueueStatus },
    RoutedToCli { delivery: QueueStatus },
    /// The slot was taken; the status shows by what.
    Conflict { status: QueueStatus },
}

/// What is reported together with the slot's status.
#[derive(Debug, Clone, Copy, PartialEq, Eq, Structural)]
pub enum Report {
    Queued,
    Routed,
    Conflict,
}

impl Report {
    /// The outcome that a report with a status is.
    pub open spec fn with(self, status: QueueStatus) -> DispatchOutcome {
        match self {
            Report::Queued => DispatchOutcome::Queued { status },
            Report::Routed => DispatchOutcome::RoutedToCli { delivery: status },
            Report::Conflict => DispatchOutcome::Conflict { status },
        }
    }

    /// What a report comes to where the status was read as `shown`.
    pub open spec fn of(self, shown: Result<QueueStatus, QueuedMessageError>) -> Result<
        DispatchOutcome,
        CliCollabError,
    > {
        match shown {
            Ok(status) => Ok(self.with(status)),
            Err(e) => Err(CliCollabError::Queue(e)),
        }
    }

    fn report(self, shown: Result<QueueStatus, QueuedMessageError>) -> (r: Result<
        DispatchOutcome,
        CliCollabError,
    >)
        ensures
            r == self.of(shown),
    {
        match shown {
            Ok(status) => Ok(
                match self {
                    Report::Queued => DispatchOutcome::Queued { status },
                    Report::Routed => DispatchOutcome::RoutedToCli { delivery: status },
                    Report::Conflict => DispatchOutcome::Conflict { status },
                },
            ),
            Err(e) => Err(CliCollabError::Queue(e)),
        }
    }
}

/// Where a message stands on its way through the dispatcher.
#[derive(Debug)]
pub enum GateState {
    /// Is the slot taken?
    Looking,
    /// The message takes the place of the one that waits.
    Replacing,
    /// Who may write? `slot` is the stored message, if it is stored yet.
    Leasing { slot: Option<SlotRow> },
    /// The message is stored, to wait.
    StoringToWait,
    /// The message is stored, to be pasted.
    StoringToPaste { sid: Option<String> },
    ClaimingPaste { id: u128, sid: Option<String> },
    Pasting { id: u128 },
    MarkingPasted { id: u128 },
    RequeueingPaste { id: u128 },
    Reserving { slot: Option<SlotRow> },
    ClaimingExecutor { id: u128 },
    /// The claim was not won: the reservation goes back.
    ReleasingUnclaimed,
    Dispatching { claimed: Option<u128> },
    /// The reservation goes back after a dispatch; `started` is the execution
    /// that it started, if it did.
    Releasing { claimed: Option<u128>, started: Option<u128> },
    MarkingConsumed { id: u128, process: u128 },
    RequeueingStart { id: u128 },
    /// The slot is read again, to report what it holds now.
    ReadingSlot { report: Report },
    Done(Result<DispatchOutcome, CliCollabError>),
}

/// What the dispatcher needs done.
#[derive(Debug)]
pub enum GateAsk {
    FindActive,
    /// Store the message; `replace` says whether it may replace what waits, and
    /// `with_context` whether the circumstances of a retry go with it. What the
    /// slot holds then is the answer, whether it was stored or was there.
    Store { replace: bool, with_context: bool },
    DeriveLease,
    ClaimPaste { id: u128, sid: Option<String> },
    Paste { id: u128 },
    MarkPasted { id: u128 },
    /// Put the message back, with the reason.
    Requeue { id: u128, reason: RequeueReason },
    Reserve,
    ClaimExecutor { id: u128 },
    Release,
    Dispatch,
    MarkConsumed { id: u128 },
    ReadSlot,
    /// The outcome is there.
    Finish,
}

/// Why a message goes back into the queue.
#[derive(Debug, Clone, Copy, PartialEq, Eq, Structural)]
pub enum RequeueReason {
    PasteFailed,
    StartFailed,
}

impl RequeueReason {
    /// The stored wording.
    pub fn text(self) -> (t: String)
        ensures
            t@ == match self {
                RequeueReason::PasteFailed => "CLI paste failed; queued for retry"@,
                RequeueReason::StartFailed => "executor start failed; queued for retry"@,
            },
    {
        match self {
            RequeueReason::PasteFailed => "CLI paste failed; queued for retry".to_owned(),
            RequeueReason::StartFailed => "executor start failed; queued for retry".to_owned(),
        }
    }
}

/// What came of it.
#[derive(Debug)]
pub enum GateAnswer {
    Active(Option<SlotRow>),
    Stored(SlotRow),
    Lease(WriterLease),
    /// A claim, a mark, a reservation or a paste went through, or did not.
    Went(bool),
    /// The execution that was started, if one was.
    Dispatched(Option<u128>),
    /// What the slot holds now.
    Slot(Result<QueueStatus, QueuedMessageError>),
    Failed(CliCollabError),
}

/// The state in which the message waits, stored or still to be stored.
pub open spec fn to_wait(slot: Option<SlotRow>) -> GateState {
    match slot {
        Some(row) => GateState::Done(Report::Queued.of(row.shown)),
        None => GateState::StoringToWait,
    }
}

/// The state that a lease leads to.
pub open spec fn leased(slot: Option<SlotRow>, lease: WriterLease, g: GateSettings) -> GateState {
    match lease {
        WriterLease::Free => GateState::Reserving { slot },
        WriterLease::Cli { claude_session_id } => if g.is_retry || g.routing_disabled {
            to_wait(slot)
        } else {
            match slot {
                Some(row) => GateState::ClaimingPaste { id: row.id, sid: claude_session_id },
                None => GateState::StoringToPaste { sid: claude_session_id },
            }
        },
        _ => to_wait(slot),
    }
}

/// The state after the reservation went back.
pub open spec fn released(claimed: Option<u128>, started: Option<u128>) -> GateState {
    match (claimed, started) {
        (Some(id), Some(process)) => GateState::MarkingConsumed { id, process },
        (Some(id), None) => GateState::RequeueingStart { id },
        (None, Some(execution_process)) => GateState::Done(
            Ok(DispatchOutcome::Started { execution_process }),
        ),
        (None, None) => GateState::StoringToWait,
    }
}

impl GateState {
    /// The state after an answer. An answer to another question than the one
    /// that was asked changes nothing.
    pub open spec fn after(self, g: GateSettings, answer: GateAnswer) -> GateState {
        match (self, answer) {
            (GateState::Looking, GateAnswer::Active(None)) => GateState::Leasing { slot: None },
            (GateState::Looking, GateAnswer::Active(Some(row))) => if g.replace && row.state
                == QueuedMessageState::Queued {
                GateState::Replacing
            } else {
                GateState::Done(Report::Conflict.of(row.shown))
            },
            (GateState::Replacing, GateAnswer::Stored(row)) => GateState::Leasing {
                slot: Some(row),
            },
            (GateState::Leasing { slot }, GateAnswer::Lease(lease)) => leased(slot, lease, g),
            (GateState::StoringToWait, GateAnswer::Stored(row)) => GateState::Done(
                Report::Queued.of(row.shown),
            ),
            (GateState::StoringToPaste { sid }, GateAnswer::Stored(row)) => {
                GateState::ClaimingPaste { id: row.id, sid }
            },
            (GateState::ClaimingPaste { id, .. }, GateAnswer::Went(won)) => if won {
                GateState::Pasting { id }
            } else {
                GateState::ReadingSlot { report: Report::Conflict }
            },
            (GateState::Pasting { id }, GateAnswer::Went(pasted)) => if pasted {
                GateState::MarkingPasted { id }
            } else {
                GateState::RequeueingPaste { id }
            },
            (GateState::MarkingPasted { id }, GateAnswer::Went(marked)) => if marked {
                GateState::ReadingSlot { report: Report::Routed }
            } else {
                GateState::Done(Err(CliCollabError::PasteClaimLost(id)))
            },
            (GateState::RequeueingPaste { .. }, GateAnswer::Went(_)) => GateState::ReadingSlot {
                report: Report::Queued,
            },
            // A reservation that could not be made counts as one that was not won.
            (GateState::Reserving { slot }, GateAnswer::Failed(_)) => to_wait(slot),
            (GateState::Reserving { slot }, GateAnswer::Went(won)) => if !won {
                to_wait(slot)
            } else {
                match slot {
                    Some(row) => GateState::ClaimingExecutor { id: row.id },
                    None => GateState::Dispatching { claimed: None },
                }
            },
            (GateState::ClaimingExecutor { id }, GateAnswer::Went(won)) => if won {
                GateState::Dispatching { claimed: Some(id) }
            } else {
                GateState::ReleasingUnclaimed
            },
            // The release is best effort: whatever comes of it, the dispatcher goes on.
            (GateState::ReleasingUnclaimed, GateAnswer::Went(_)) => GateState::ReadingSlot {
                report: Report::Conflict,
            },
            (GateState::ReleasingUnclaimed, GateAnswer::Failed(_)) => GateState::ReadingSlot {
                report: Report::Conflict,
            },
            (GateState::Dispatching { claimed }, GateAnswer::Dispatched(started)) => {
                GateState::Releasing { claimed, started }
            },
            (GateState::Releasing { claimed, started }, GateAnswer::Went(_)) => released(
                claimed,
                started,
            ),
            (GateState::Releasing { claimed, started }, GateAnswer::Failed(_)) => released(
                claimed,
                started,
            ),
            (GateState::MarkingConsumed { id, process }, GateAnswer::Went(marked)) => if marked {
                GateState::Done(Ok(DispatchOutcome::Started { execution_process: process }))
            } else {
                GateState::Done(Err(CliCollabError::ExecutorClaimLost(id)))
            },
            (GateState::RequeueingStart { .. }, GateAnswer::Went(_)) => GateState::ReadingSlot {
                report: Report::Queued,
            },
            (GateState::ReadingSlot { report }, GateAnswer::Slot(shown)) => GateState::Done(
                report.of(shown),
            ),
            (GateState::Pasting { .. }, GateAnswer::Failed(_)) => self,
            (GateState::Dispatching { .. }, GateAnswer::Failed(_)) => self,
            (GateState::Leasing { .. }, GateAnswer::Failed(_)) => self,
            (GateState::Done(_), GateAnswer::Failed(_)) => self,
            (_, GateAnswer::Failed(e)) => GateState::Done(Err(e)),
            _ => self,
        }
    }

    /// Whether `answer` answers what the state asks.
    pub open spec fn answered_by(self, answer: GateAnswer) -> bool {
        match self {
            GateState::Looking => answer is Active || answer is Failed,
            GateState::Replacing => answer is Stored || answer is Failed,
            GateState::StoringToWait => answer is Stored || answer is Failed,
            GateState::StoringToPaste { .. } => answer is Stored || answer is Failed,
            GateState::Leasing { .. } => answer is Lease,
            GateState::Pasting { .. } => answer is Went,
            GateState::Dispatching { .. } => answer is Dispatched,
            GateState::ReadingSlot { .. } => answer is Slot || answer is Failed,
            GateState::Done(_) => false,
            _ => answer is Went || answer is Failed,
        }
    }

    /// How many answers the dispatcher can still take.
    pub open spec fn budget(self) -> int {
        match self {
            GateState::Looking => 13,
            GateState::Replacing => 12,
            GateState::Leasing { .. } => 11,
            GateState::StoringToWait => 1,
            GateState::StoringToPaste { .. } => 9,
            GateState::ClaimingPaste { .. } => 8,
            GateState::Pasting { .. } => 7,
            GateState::MarkingPasted { .. } => 6,
            GateState::RequeueingPaste { .. } => 6,
            GateState::Reserving { .. } => 10,
            GateState::ClaimingExecutor { .. } => 9,
            GateState::ReleasingUnclaimed => 2,
            GateState::Dispatching { .. } => 5,
            GateState::Releasing { .. } => 4,
            GateState::MarkingConsumed { .. } => 3,
            GateState::RequeueingStart { .. } => 3,
            GateState::ReadingSlot { .. } => 1,
            GateState::Done(_) => 0,
        }
    }

    /// What has to be done next.
    pub open spec fn asks(self, g: GateSettings) -> GateAsk {
        match self {
            GateState::Looking => GateAsk::FindActive,
            GateState::Replacing => GateAsk::Store { replace: true, with_context: g.is_retry },
            GateState::Leasing { .. } => GateAsk::DeriveLease,
            GateState::StoringToWait => GateAsk::Store { replace: false, with_context: g.is_retry },
            GateState::StoringToPaste { .. } => GateAsk::Store {
                replace: false,
                with_context: false,
            },
            GateState::ClaimingPaste { id, sid } => GateAsk::ClaimPaste { id, sid },
            GateState::Pasting { id } => GateAsk::Paste { id },
            GateState::MarkingPasted { id } => GateAsk::MarkPasted { id },
            GateState::RequeueingPaste { id } => GateAsk::Requeue {
                id,
                reason: RequeueReason::PasteFailed,
            },
            GateState::Reserving { .. } => GateAsk::Reserve,
            GateState::ClaimingExecutor { id } => GateAsk::ClaimExecutor { id },
            GateState::ReleasingUnclaimed => GateAsk::Release,
            GateState::Dispatching { .. } => GateAsk::Dispatch,
            GateState::Releasing { .. } => GateAsk::Release,
            GateState::MarkingConsumed { id, .. } => GateAsk::MarkConsumed { id },
            GateState::RequeueingStart { id } => GateAsk::Requeue {
                id,
                reason: RequeueReason::StartFailed,
            },
            GateState::ReadingSlot { .. } => GateAsk::ReadSlot,
            GateState::Done(_) => GateAsk::Finish,
        }
    }

    /// A message arrives at the dispatcher.
    pub fn start() -> (s: GateState)
        ensures
            s == GateState::Looking,
    {
        GateState::Looking
    }

    /// What has to be done next.
    pub fn ask(&self, g: GateSettings) -> (a: GateAsk)
        ensures
            a == self.asks(g),
    {
        match self {
            GateState::Looking => GateAsk::FindActive,
            GateState::Replacing => GateAsk::Store { replace: true, with_context: g.is_retry },
            GateState::Leasing { .. } => GateAsk::DeriveLease,
            GateState::StoringToWait => GateAsk::Store { replace: false, with_context: g.is_retry },
            GateState::StoringToPaste { .. } => GateAsk::Store {
                replace: false,
                with_context: false,
            },
            GateState::ClaimingPaste { id, sid } => GateAsk::ClaimPaste {
                id: *id,
                sid: clone_opt(sid),
            },
            GateState::Pasting { id } => GateAsk::Paste { id: *id },
            GateState::MarkingPasted { id } => GateAsk::MarkPasted { id: *id },
            GateState::RequeueingPaste { id } => GateAsk::Requeue {
                id: *id,
                reason: RequeueReason::PasteFailed,
            },
            GateState::Reserving { .. } => GateAsk::Reserve,
            GateState::ClaimingExecutor { id } => GateAsk::ClaimExecutor { id: *id },
            GateState::ReleasingUnclaimed => GateAsk::Release,
            GateState::Dispatching { .. } => GateAsk::Dispatch,
            GateState::Releasing { .. } => GateAsk::Release,
            GateState::MarkingConsumed { id, .. } => GateAsk::MarkConsumed { id: *id },
            GateState::RequeueingStart { id } => GateAsk::Requeue {
                id: *id,
                reason: RequeueReason::StartFailed,
            },
            GateState::ReadingSlot { .. } => GateAsk::ReadSlot,
            GateState::Done(_) => GateAsk::Finish,
        }
    }

    fn wait(slot: Option<SlotRow>) -> (s: GateState)
        ensures
            s == to_wait(slot),
    {
        match slot {
            Some(row) => GateState::Done(Report::Queued.report(row.shown)),
            None => GateState::StoringToWait,
        }
    }

    fn take_lease(slot: Option<SlotRow>, lease: WriterLease, g: GateSettings) -> (s: GateState)
        ensures
            s == leased(slot, lease, g),
    {
        match lease {
            WriterLease::Free => GateState::Reserving { slot },
            WriterLease::Cli { claude_session_id } => {
                if g.is_retry || g.routing_disabled {
                    GateState::wait(slot)
                } else {
                    match slot {
                        Some(row) => GateState::ClaimingPaste {
                            id: row.id,
                            sid: claude_session_id,
                        },
                        None => GateState::StoringToPaste { sid: claude_session_id },
                    }
                }
            },
            WriterLease::Executor => GateState::wait(slot),
            WriterLease::CliAmbiguous => GateState::wait(slot),
            WriterLease::Busy => GateState::wait(slot),
        }
    }

    fn release(claimed: Option<u128>, started: Option<u128>) -> (s: GateState)
        ensures
            s == released(claimed, started),
    {
        match (claimed, started) {
            (Some(id), Some(process)) => GateState::MarkingConsumed { id, process },
            (Some(id), None) => GateState::RequeueingStart { id },
            (None, Some(execution_process)) => GateState::Done(
                Ok(DispatchOutcome::Started { execution_process }),
            ),
            (None, None) => GateState::StoringToWait,
        }
    }

    /// Takes what came of what was asked.
    pub fn step(self, g: GateSettings, answer: GateAnswer) -> (next: GateState)
        ensures
            next == self.after(g, answer),
    {
        match (self, answer) {
            (GateState::Looking, GateAnswer::Active(found)) => match found {
                None => GateState::Leasing { slot: None },
                Some(row) => {
                    if g.replace && row.state == QueuedMessageState::Queued {
                        GateState::Replacing
                    } else {
                        GateState::Done(Report::Conflict.report(row.shown))
                    }
                },
            },
            (GateState::Replacing, GateAnswer::Stored(row)) => GateState::Leasing {
                slot: Some(row),
            },
            (GateState::Leasing { slot }, GateAnswer::Lease(lease)) => GateState::take_lease(
                slot,
                lease,
                g,
            ),
            (GateState::StoringToWait, GateAnswer::Stored(row)) => GateState::Done(
                Report::Queued.report(row.shown),
            ),
            (GateState::StoringToPaste { sid }, GateAnswer::Stored(row)) => {
                GateState::ClaimingPaste { id: row.id, sid }
            },
            (GateState::ClaimingPaste { id, .. }, GateAnswer::Went(won)) => {
                if won {
                    GateState::Pasting { id }
                } else {
                    GateState::ReadingSlot { report: Report::Conflict }
                }
            },
            (GateState::Pasting { id }, GateAnswer::Went(pasted)) => {
                if pasted {
                    GateState::MarkingPasted { id }
                } else {
                    GateState::RequeueingPaste { id }
                }
            },
            (GateState::MarkingPasted { id }, GateAnswer::Went(marked)) => {
                if marked {
                    GateState::ReadingSlot { report: Report::Routed }
                } else {
                    GateState::Done(Err(CliCollabError::PasteClaimLost(id)))
                }
            },
            (GateState::RequeueingPaste { .. }, GateAnswer::Went(_)) => GateState::ReadingSlot {
                report: Report::Queued,
            },
            (GateState::Reserving { slot }, GateAnswer::Failed(_)) => GateState::wait(slot),
            (GateState::Reserving { slot }, GateAnswer::Went(won)) => {
                if !won {
                    GateState::wait(slot)
                } else {
                    match slot {
                        Some(row) => GateState::ClaimingExecutor { id: row.id },
                        None => GateState::Dispatching { claimed: None },
                    }
                }
            },
            (GateState::ClaimingExecutor { id }, GateAnswer::Went(won)) => {
                if won {
                    GateState::Dispatching { claimed: Some(id) }
                } else {
                    GateState::ReleasingUnclaimed
                }
            },
            (GateState::ReleasingUnclaimed, GateAnswer::Went(_)) => GateState::ReadingSlot {
                report: Report::Conflict,
            },
            (GateState::ReleasingUnclaimed, GateAnswer::Failed(_)) => GateState::ReadingSlot {
                report: Report::Conflict,
            },
            (GateState::Dispatching { claimed }, GateAnswer::Dispatched(started)) => {
                GateState::Releasing { claimed, started }
            },
            (GateState::Releasing { claimed, started }, GateAnswer::Went(_)) => GateState::release(
                claimed,
                started,
            ),
            (GateState::Releasing { claimed, started }, GateAnswer::Failed(_)) => {
                GateState::release(claimed, started)
            },
            (GateState::MarkingConsumed { id, process }, GateAnswer::Went(marked)) => {
                if marked {
                    GateState::Done(Ok(DispatchOutcome::Started { execution_process: process }))
                } else {
                    GateState::Done(Err(CliCollabError::ExecutorClaimLost(id)))
                }
            },
            (GateState::RequeueingStart { .. }, GateAnswer::Went(_)) => GateState::ReadingSlot {
                report: Report::Queued,
            },
            (GateState::ReadingSlot { report }, GateAnswer::Slot(shown)) => GateState::Done(
                report.report(shown),
            ),
            (GateState::Pasting { id }, GateAnswer::Failed(_)) => GateState::Pasting { id },
            (GateState::Dispatching { claimed }, GateAnswer::Failed(_)) => {
                GateState::Dispatching { claimed }
            },
            (GateState::Leasing { slot }, GateAnswer::Failed(_)) => GateState::Leasing { slot },
            (GateState::Done(outcome), GateAnswer::Failed(_)) => GateState::Done(outcome),
            (_, GateAnswer::Failed(e)) => GateState::Done(Err(e)),
            (same, _) => same,
        }
    }
}

/// Whether the drain has to be woken up after an outcome: a message waits.
pub fn wakes_drain(outcome: &DispatchOutcome) -> (r: bool)
    ensures
        r == (*outcome is Queued),
{
    match outcome {
        DispatchOutcome::Queued { .. } => true,
        _ => false,
    }
}

/// Whether draining a message got it on its way.
pub fn drained(outcome: &DispatchOutcome) -> (r: bool)
    ensures
        r == (*outcome is Started || *outcome is RoutedToCli),
{
    match outcome {
        DispatchOutcome::Started { .. } => true,
        DispatchOutcome::RoutedToCli { .. } => true,
        _ => false,
    }
}

/// How an outcome is answered: 409 where the slot was taken, 200 otherwise.
pub fn dispatch_response(outcome: &DispatchOutcome) -> (status: u16)
    ensures
        status == if *outcome is Conflict {
            409u16
        } else {
            200u16
        },
{
    match outcome {
        DispatchOutcome::Conflict { .. } => 409,
        _ => 200,
    }
}

/// Every answer leaves less to be asked: a message gets through the dispatcher.
pub proof fn law_gate_ends(s: GateState, g: GateSettings, answer: GateAnswer)
    requires
        s.answered_by(answer),
    ensures
        0 <= s.after(g, answer).budget() < s.budget(),
{
}

/// Where a message stands after the answers so far.
pub open spec fn gate_run(g: GateSettings, answers: Seq<GateAnswer>) -> GateState
    decreases answers.len(),
{
    if answers.len() == 0 {
        GateState::Looking
    } else {
        gate_run(g, answers.drop_last()).after(g, answers.last())
    }
}

/// A lease under which a message may be pasted.
pub open spec fn pasting_lease(a: GateAnswer) -> bool {
    a is Lease && a->Lease_0 is Cli
}

/// A lease under which an executor may be started.
pub open spec fn starting_lease(a: GateAnswer) -> bool {
    a is Lease && a->Lease_0 is Free
}

/// What the dispatcher has learned by the time it is in a state: under which lease it
/// pastes, under which it dispatches, and that the reservation was won.
pub open spec fn grounded(s: GateState, g: GateSettings, answers: Seq<GateAnswer>) -> bool {
    let pastes = !g.is_retry && !g.routing_disabled && exists|i: int|
        0 <= i < answers.len() && pasting_lease(#[trigger] answers[i]);
    let starts = exists|i: int| 0 <= i < answers.len() && starting_lease(#[trigger] answers[i]);
    let reserved = starts && exists|i: int|
        0 <= i < answers.len() && #[trigger] answers[i] == GateAnswer::Went(true);
    match s {
        GateState::StoringToPaste { .. } => pastes,
        GateState::ClaimingPaste { .. } => pastes,
        GateState::Pasting { .. } => pastes,
        GateState::MarkingPasted { .. } => pastes,
        GateState::Reserving { .. } => starts,
        GateState::ClaimingExecutor { .. } => reserved,
        GateState::Dispatching { .. } => reserved,
        GateState::Releasing { .. } => reserved,
        GateState::MarkingConsumed { .. } => reserved,
        GateState::ReadingSlot { report } => report == Report::Routed ==> pastes,
        GateState::Done(Ok(DispatchOutcome::Started { .. })) => reserved,
        GateState::Done(Ok(DispatchOutcome::RoutedToCli { .. })) => pastes,
        _ => true,
    }
}

/// A message is only pasted where the agent in the terminal demonstrably holds
/// the conversation, the message is no retry and routing is on; and an executor
/// is only started where nobody writes and the workspace was reserved for it.
pub proof fn law_gate_is_grounded(g: GateSettings, answers: Seq<GateAnswer>)
    ensures
        grounded(gate_run(g, answers), g, answers),
    decreases answers.len(),
{
    if answers.len() > 0 {
        let before = answers.drop_last();
        law_gate_is_grounded(g, before);
        let s = gate_run(g, before);
        let last = answers.last();
        assert(answers[answers.len() - 1] == last);
        assert forall|i: int| 0 <= i < before.len() implies #[trigger] before[i] == answers[i] by {}
        if exists|i: int| 0 <= i < before.len() && pasting_lease(#[trigger] before[i]) {
            let i = choose|i: int| 0 <= i < before.len() && pasting_lease(#[trigger] before[i]);
            assert(pasting_lease(answers[i]));
        }
        if exists|i: int| 0 <= i < before.len() && starting_lease(#[trigger] before[i]) {
            let i = choose|i: int| 0 <= i < before.len() && starting_lease(#[trigger] before[i]);
            assert(starting_lease(answers[i]));
        }
        if exists|i: int| 0 <= i < before.len() && #[trigger] before[i] == GateAnswer::Went(true) {
            let i = choose|i: int|
                0 <= i < before.len() && #[trigger] before[i] == GateAnswer::Went(true);
            assert(answers[i] == GateAnswer::Went(true));
        }
        assert(pasting_lease(last) || !pasting_lease(last));
        assert(starting_lease(last) || !starting_lease(last));
    }
}

/// A taken slot ends the matter: the message is refused before anything is
/// stored, pasted or started.
pub proof fn law_taken_slot_refuses(g: GateSettings, row: SlotRow)
    requires
        !g.replace || row.state != QueuedMessageState::Queued,
    ensures
        GateState::Looking.after(g, GateAnswer::Active(Some(row))) == GateState::Done(
            Report::Conflict.of(row.shown),
        ),
{
}

/// A retry is never pasted: only an executor can run it.
pub proof fn law_retry_is_never_pasted(g: GateSettings, answers: Seq<GateAnswer>)
    requires
        g.is_retry,
    ensures
        !(gate_run(g, answers) is ClaimingPaste),
        !(gate_run(g, answers) is Pasting),
        gate_run(g, answers) matches GateState::Done(Ok(outcome)) ==> !(outcome is RoutedToCli),
{
    law_gate_is_grounded(g, answers);
}

/// A delivery whose claim was lost is never reported as made.
pub proof fn law_lost_claim_is_reported(g: GateSettings, id: u128, process: u128)
    ensures
        (GateState::MarkingConsumed { id, process }).after(g, GateAnswer::Went(false))
            == GateState::Done(Err(CliCollabError::ExecutorClaimLost(id))),
        (GateState::MarkingPasted { id }).after(g, GateAnswer::Went(false)) == GateState::Done(
            Err(CliCollabError::PasteClaimLost(id)),
        ),
{
}

/// A message whose dispatch failed goes back to the queue: it is put back where
/// it was claimed, and stored where it was not stored yet.
pub proof fn law_failed_start_keeps_message(g: GateSettings, claimed: Option<u128>, a: GateAnswer)
    requires
        a is Went || a is Failed,
    ensures
        ({
            let next = (GateState::Releasing { claimed, started: None }).after(g, a);
            match claimed {
                Some(id) => next == (GateState::RequeueingStart { id }),
                None => next == GateState::StoringToWait,
            }
        }),
{
}

/// A steady outside: what the slot holds, who may write, and what comes of each
/// attempt. A request that does not fit the message at hand fails.
pub ghost struct GateWorld {
    /// What the slot holds at first.
    pub active: Option<SlotRow>,
    /// What it holds once the message was stored.
    pub stored: SlotRow,
    pub lease: WriterLease,
    /// Whether a claim is won.
    pub claims: bool,
    /// Whether a paste goes through.
    pub pastes: bool,
    /// Whether the claim is still held when the delivery is noted.
    pub marks: bool,
    pub reserves: bool,
    /// The execution that a start gives.
    pub starts: Option<u128>,
    /// What the slot shows when it is read again.
    pub shown: Result<QueueStatus, QueuedMessageError>,
}

impl GateWorld {
    /// What comes of a request.
    pub open spec fn answer(self, g: GateSettings, ask: GateAsk) -> GateAnswer {
        let lost = GateAnswer::Failed(CliCollabError::WorkspaceMissing(0));
        let id = self.stored.id;
        match ask {
            GateAsk::FindActive => GateAnswer::Active(self.active),
            GateAsk::Store { replace, with_context } => if with_context == g.is_retry && replace
                == (self.active is Some) {
                GateAnswer::Stored(self.stored)
            } else {
                lost
            },
            GateAsk::DeriveLease => GateAnswer::Lease(self.lease),
            GateAsk::ClaimPaste { id: i, sid } => if i == id && self.lease == (WriterLease::Cli {
                claude_session_id: sid,
            }) {
                GateAnswer::Went(self.claims)
            } else {
                lost
            },
            GateAsk::Paste { id: i } => GateAnswer::Went(i == id && self.pastes),
            GateAsk::MarkPasted { id: i } => GateAnswer::Went(i == id && self.marks),
            GateAsk::Requeue { id: i, reason } => if i == id && (reason
                == RequeueReason::PasteFailed) == (self.lease is Cli) {
                GateAnswer::Went(true)
            } else {
                lost
            },
            GateAsk::Reserve => GateAnswer::Went(self.reserves),
            GateAsk::ClaimExecutor { id: i } => if i == id && self.reserves {
                GateAnswer::Went(self.claims)
            } else {
                lost
            },
            GateAsk::Release => GateAnswer::Went(true),
            GateAsk::Dispatch => GateAnswer::Dispatched(
                if self.reserves {
                    self.starts
                } else {
                    None
                },
            ),
            GateAsk::MarkConsumed { id: i } => GateAnswer::Went(i == id && self.marks),
            GateAsk::ReadSlot => GateAnswer::Slot(self.shown),
            GateAsk::Finish => lost,
        }
    }

    /// Where a message stands after `n` more requests were answered.
    pub open spec fn serve(self, g: GateSettings, s: GateState, n: nat) -> GateState
        decreases n,
    {
        if n == 0 {
            s
        } else {
            self.serve(g, s.after(g, self.answer(g, s.asks(g))), (n - 1) as nat)
        }
    }

    /// What becomes of a message.
    pub open spec fn outcome(self, g: GateSettings) -> GateState {
        self.serve(g, GateState::Looking, 14)
    }

    /// Whether the slot is taken by a message that may not be replaced.
    pub open spec fn refuses(self, g: GateSettings) -> bool {
        self.active is Some && !(g.replace && self.active->0.state == QueuedMessageState::Queued)
    }
}

/// An outcome with the status that was read, or the error where it could not be.
pub open spec fn told(
    shown: Result<QueueStatus, QueuedMessageError>,
    outcome: DispatchOutcome,
) -> GateState {
    match shown {
        Ok(_) => GateState::Done(Ok(outcome)),
        Err(e) => GateState::Done(Err(CliCollabError::Queue(e))),
    }
}

/// What is in the slot and may not be replaced stays, and the message is refused
/// with what is there.
pub proof fn law_refused_message_is_a_conflict(w: GateWorld, g: GateSettings)
    requires
        w.refuses(g),
    ensures
        w.outcome(g) == told(
            w.active->0.shown,
            DispatchOutcome::Conflict { status: w.active->0.shown->Ok_0 },
        ),
{
    reveal_with_fuel(GateWorld::serve, 15);
}

/// Where somebody else writes, or nobody can tell who does, the message waits
/// and is reported as waiting, whether it replaced another one or not. So it is
/// where only the terminal could take it and it may not be pasted.
pub proof fn law_message_waits_for_the_writer(w: GateWorld, g: GateSettings)
    requires
        !w.refuses(g),
        w.lease is Executor || w.lease is CliAmbiguous || w.lease is Busy || (w.lease is Cli && (
        g.is_retry || g.routing_disabled)) || (w.lease is Free && !w.reserves),
    ensures
        w.outcome(g) == told(
            w.stored.shown,
            DispatchOutcome::Queued { status: w.stored.shown->Ok_0 },
        ),
{
    reveal_with_fuel(GateWorld::serve, 15);
}

/// Where the agent in the terminal holds the conversation, the message is pasted
/// there. A claim that was not won is a conflict, a paste that failed leaves the
/// message waiting, and a claim that got lost meanwhile is an error.
pub proof fn law_message_goes_to_the_terminal(w: GateWorld, g: GateSettings)
    requires
        !w.refuses(g),
        w.lease is Cli,
        !g.is_retry,
        !g.routing_disabled,
    ensures
        w.claims && w.pastes && w.marks ==> w.outcome(g) == told(
            w.shown,
            DispatchOutcome::RoutedToCli { delivery: w.shown->Ok_0 },
        ),
        w.claims && w.pastes && !w.marks ==> w.outcome(g) == GateState::Done(
            Err(CliCollabError::PasteClaimLost(w.stored.id)),
        ),
        w.claims && !w.pastes ==> w.outcome(g) == told(
            w.shown,
            DispatchOutcome::Queued { status: w.shown->Ok_0 },
        ),
        !w.claims ==> w.outcome(g) == told(
            w.shown,
            DispatchOutcome::Conflict { status: w.shown->Ok_0 },
        ),
{
    reveal_with_fuel(GateWorld::serve, 15);
}

/// Where nobody writes and the workspace could be reserved, a message that is
/// not stored yet starts an executor at once; where that fails it is stored, to
/// wait.
pub proof fn law_new_message_starts_an_executor(w: GateWorld, g: GateSettings)
    requires
        w.active is None,
        w.lease is Free,
        w.reserves,
    ensures
        match w.starts {
            Some(execution_process) => w.outcome(g) == GateState::Done(
                Ok(DispatchOutcome::Started { execution_process }),
            ),
            None => w.outcome(g) == told(
                w.stored.shown,
                DispatchOutcome::Queued { status: w.stored.shown->Ok_0 },
            ),
        },
{
    reveal_with_fuel(GateWorld::serve, 15);
}

/// A message that replaced a waiting one is claimed before it starts an
/// executor. Without the claim it is a conflict, a failed start puts it back, and
/// a claim that got lost meanwhile is an error.
pub proof fn law_replacement_starts_an_executor(w: GateWorld, g: GateSettings)
    requires
        w.active is Some,
        !w.refuses(g),
        w.lease is Free,
        w.reserves,
    ensures
        !w.claims ==> w.outcome(g) == told(
            w.shown,
            DispatchOutcome::Conflict { status: w.shown->Ok_0 },
        ),
        w.claims && w.starts is None ==> w.outcome(g) == told(
            w.shown,
            DispatchOutcome::Queued { status: w.shown->Ok_0 },
        ),
        w.claims && w.starts is Some && w.marks ==> w.outcome(g) == GateState::Done(
            Ok(DispatchOutcome::Started { execution_process: w.starts->0 }),
        ),
        w.claims && w.starts is Some && !w.marks ==> w.outcome(g) == GateState::Done(
            Err(CliCollabError::ExecutorClaimLost(w.stored.id)),
        ),
{
    reveal_with_fuel(GateWorld::serve, 15);
}

/// A failure to look, to store, to claim, to note or to put back is reported as
/// it is. A reservation that failed counts as one that was not won, and whether
/// a reservation could be given back does not matter.
pub proof fn law_failures_are_reported(s: GateState, g: GateSettings, e: CliCollabError)
    ensures
        ({
            let a = s.asks(g);
            &&& a is FindActive || a is Store || a is ClaimPaste || a is MarkPasted || a is Requeue
                || a is ClaimExecutor || a is MarkConsumed || a is ReadSlot ==> s.after(
                g,
                GateAnswer::Failed(e),
            ) == GateState::Done(Err(e))
            &&& a is Reserve ==> s.after(g, GateAnswer::Failed(e)) == s.after(
                g,
                GateAnswer::Went(false),
            )
            &&& a is Release ==> s.after(g, GateAnswer::Failed(e)) == s.after(
                g,
                GateAnswer::Went(true),
            ) && s.after(g, GateAnswer::Went(false)) == s.after(g, GateAnswer::Went(true))
        }),
{
}

/// A message is only ever refused because the slot was taken or a claim was not
/// won.
pub proof fn law_conflict_has_a_cause(g: GateSettings, answers: Seq<GateAnswer>)
    ensures
        gate_run(g, answers) matches GateState::Done(Ok(DispatchOutcome::Conflict { .. })) || (
        gate_run(g, answers) matches GateState::ReadingSlot { report } && report == Report::Conflict)
            || gate_run(g, answers) is ReleasingUnclaimed ==> exists|i: int|
            0 <= i < answers.len() && ((#[trigger] answers[i]) == GateAnswer::Went(false) || (
            answers[i] matches GateAnswer::Active(Some(row)) && !(g.replace && row.state
                == QueuedMessageState::Queued))),
    decreases answers.len(),
{
    if answers.len() > 0 {
        let before = answers.drop_last();
        law_conflict_has_a_cause(g, before);
        assert(answers[answers.len() - 1] == answers.last());
        assert forall|i: int| 0 <= i < before.len() implies #[trigger] before[i] == answers[i] by {}
    }
}

} // verus!
