//! Handing a session back and forth between the executor and the terminal:
//! what happens when an executor is done, how a waiting pane is told to resume,
//! and how messages that wait or were pasted are looked after.

use vstd::prelude::*;

use crate::cli_collab::{CliCollabError, CliPaneBinding, CliPaneBoundVia, ProbeReport, WriterLease};
use crate::dispatch::{
    DispatchOutcome, GateAnswer, GateSettings, GateState, Report, SlotRow, drained, law_gate_ends,
};
use crate::id_set::IdSet;
use crate::queued_message::{QueuedMessageState, SessionQueuedMessage};
use crate::text::{opt_text, same_text};

verus! {

/// How often a pane is told to resume before it is given up.
pub const RESUME_SIGNAL_ATTEMPTS: u32 = 3;

/// The pause between two attempts.
pub const RESUME_SIGNAL_RETRY_DELAY_MS: u64 = 100;

/// How often waiting messages are looked after.
pub const DRAIN_INTERVAL_MS: u64 = 1000;

/// How long a paste that was under way may still be, before its message is
/// queued again.
pub const PASTING_STARTUP_GRACE_MS: u64 = 5000;

/// How long a pasted message may stay unread, before it is queued again.
pub const PASTE_ACK_HARD_CAP_MS: u64 = 900000;

/// What becomes of the note that a pane was told to resume.
#[derive(Debug, Clone, Copy, PartialEq, Eq, Structural)]
pub enum SignalNote {
    Keep,
    Add,
    Drop,
}

/// What the pane's binding says of its conversation.
#[derive(Debug)]
pub struct BoundPane {
    pub workspace_id: u128,
    pub bound_via: CliPaneBoundVia,
    pub claude_session_id: Option<String>,
    /// Whether the pane was told to resume already.
    pub signaled: bool,
}

/// How far the hand-off to a bound pane has come.
#[derive(Debug)]
pub enum HoldState {
    /// Is the pane there?
    Pane,
    /// It is not: its binding ends.
    Releasing,
    /// Is an agent in it?
    Agent,
    /// There is none: which conversation is it to resume?
    FindingSid,
    /// The conversation is recorded with the binding.
    BindingSid { sid: String },
    /// The pane is told to resume.
    Signaling { sid: String, attempt: u32 },
    /// `Ok(true)` where the pane keeps the session, `Ok(false)` where it is
    /// gone.
    Done(Result<bool, CliCollabError>),
}

/// What the hand-off needs done.
#[derive(Debug)]
pub enum HoldAsk {
    PaneAlive,
    ReleaseBinding,
    AgentRunning,
    ExpectedSid,
    BindSid { sid: String },
    /// Wait, then tell the pane to resume.
    Signal { sid: String, wait_ms: u64 },
    /// The outcome is there.
    Finish,
}

/// What came of it.
#[derive(Debug)]
pub enum HoldAnswer {
    /// Or why the terminal could not be reached.
    Pane(Result<bool, String>),
    Released,
    /// Absent where it could not be seen.
    Agent(Option<bool>),
    Sid(Option<String>),
    /// Whether the binding took the conversation.
    Bound(bool),
    /// The pane was told, or why it could not be.
    Signaled(Result<(), String>),
    Failed(CliCollabError),
}

/// The state in which a known conversation is handed over.
pub open spec fn with_sid(pane: BoundPane, sid: String) -> HoldState {
    if pane.bound_via == CliPaneBoundVia::CliFresh && pane.claude_session_id is None {
        HoldState::BindingSid { sid }
    } else {
        HoldState::Signaling { sid, attempt: 1 }
    }
}

/// The error of a pane that could not be reached.
pub open spec fn unreachable_pane(pane: BoundPane, source: String) -> CliCollabError {
    CliCollabError::Transport { workspace_id: pane.workspace_id, source }
}

impl HoldState {
    /// The state after an answer, and what becomes of the note. An answer to
    /// another question than the one that was asked changes nothing.
    pub open spec fn after(self, pane: BoundPane, answer: HoldAnswer) -> (HoldState, SignalNote) {
        match (self, answer) {
            (HoldState::Pane, HoldAnswer::Pane(Err(source))) => (
                HoldState::Done(Err(unreachable_pane(pane, source))),
                SignalNote::Keep,
            ),
            (HoldState::Pane, HoldAnswer::Pane(Ok(alive))) => if alive {
                (HoldState::Agent, SignalNote::Keep)
            } else {
                (HoldState::Releasing, SignalNote::Keep)
            },
            (HoldState::Releasing, HoldAnswer::Released) => (
                HoldState::Done(Ok(false)),
                SignalNote::Drop,
            ),
            (HoldState::Agent, HoldAnswer::Agent(Some(true))) => (
                HoldState::Done(Ok(true)),
                SignalNote::Drop,
            ),
            (HoldState::Agent, HoldAnswer::Agent(None)) => (
                HoldState::Done(Ok(true)),
                SignalNote::Keep,
            ),
            (HoldState::Agent, HoldAnswer::Agent(Some(false))) => if pane.signaled {
                (HoldState::Done(Ok(true)), SignalNote::Keep)
            } else {
                match pane.claude_session_id {
                    Some(sid) => (with_sid(pane, sid), SignalNote::Keep),
                    None => (HoldState::FindingSid, SignalNote::Keep),
                }
            },
            (HoldState::FindingSid, HoldAnswer::Sid(None)) => (
                HoldState::Done(Ok(true)),
                SignalNote::Keep,
            ),
            (HoldState::FindingSid, HoldAnswer::Sid(Some(sid))) => (
                with_sid(pane, sid),
                SignalNote::Keep,
            ),
            (HoldState::BindingSid { sid }, HoldAnswer::Bound(bound)) => if bound {
                (HoldState::Signaling { sid, attempt: 1 }, SignalNote::Keep)
            } else {
                (HoldState::Done(Ok(true)), SignalNote::Keep)
            },
            (HoldState::Signaling { .. }, HoldAnswer::Signaled(Ok(_))) => (
                HoldState::Done(Ok(true)),
                SignalNote::Add,
            ),
            (HoldState::Signaling { sid, attempt }, HoldAnswer::Signaled(Err(source))) => if attempt
                < RESUME_SIGNAL_ATTEMPTS {
                (HoldState::Signaling { sid, attempt: (attempt + 1) as u32 }, SignalNote::Keep)
            } else {
                (HoldState::Done(Err(unreachable_pane(pane, source))), SignalNote::Keep)
            },
            (HoldState::Releasing, HoldAnswer::Failed(e)) => (
                HoldState::Done(Err(e)),
                SignalNote::Keep,
            ),
            (HoldState::FindingSid, HoldAnswer::Failed(e)) => (
                HoldState::Done(Err(e)),
                SignalNote::Keep,
            ),
            (HoldState::BindingSid { .. }, HoldAnswer::Failed(e)) => (
                HoldState::Done(Err(e)),
                SignalNote::Keep,
            ),
            _ => (self, SignalNote::Keep),
        }
    }

    pub fn start() -> (s: HoldState)
        ensures
            s == HoldState::Pane,
    {
        HoldState::Pane
    }

    /// What has to be done next.
    pub fn ask(&self) -> (a: HoldAsk)
        ensures
            a == match *self {
                HoldState::Pane => HoldAsk::PaneAlive,
                HoldState::Releasing => HoldAsk::ReleaseBinding,
                HoldState::Agent => HoldAsk::AgentRunning,
                HoldState::FindingSid => HoldAsk::ExpectedSid,
                HoldState::BindingSid { sid } => HoldAsk::BindSid { sid },
                HoldState::Signaling { sid, attempt } => HoldAsk::Signal {
                    sid,
                    wait_ms: if attempt > 1 {
                        RESUME_SIGNAL_RETRY_DELAY_MS
                    } else {
                        0
                    },
                },
                HoldState::Done(_) => HoldAsk::Finish,
            },
    {
        match self {
            HoldState::Pane => HoldAsk::PaneAlive,
            HoldState::Releasing => HoldAsk::ReleaseBinding,
            HoldState::Agent => HoldAsk::AgentRunning,
            HoldState::FindingSid => HoldAsk::ExpectedSid,
            HoldState::BindingSid { sid } => HoldAsk::BindSid { sid: sid.clone() },
            HoldState::Signaling { sid, attempt } => HoldAsk::Signal {
                sid: sid.clone(),
                wait_ms: if *attempt > 1 {
                    RESUME_SIGNAL_RETRY_DELAY_MS
                } else {
                    0
                },
            },
            HoldState::Done(_) => HoldAsk::Finish,
        }
    }

    fn hand_over(pane: &BoundPane, sid: String) -> (s: HoldState)
        ensures
            s == with_sid(*pane, sid),
    {
        if pane.bound_via == CliPaneBoundVia::CliFresh && pane.claude_session_id.is_none() {
            HoldState::BindingSid { sid }
        } else {
            HoldState::Signaling { sid, attempt: 1 }
        }
    }

    fn no_pane(pane: &BoundPane, source: String) -> (s: HoldState)
        ensures
            s == HoldState::Done(Err(unreachable_pane(*pane, source))),
    {
        HoldState::Done(Err(CliCollabError::Transport { workspace_id: pane.workspace_id, source }))
    }

    /// Takes what came of what was asked.
    pub fn step(self, pane: &BoundPane, answer: HoldAnswer) -> (r: (HoldState, SignalNote))
        ensures
            r == self.after(*pane, answer),
    {
        match (self, answer) {
            (HoldState::Pane, HoldAnswer::Pane(seen)) => match seen {
                Err(source) => (HoldState::no_pane(pane, source), SignalNote::Keep),
                Ok(true) => (HoldState::Agent, SignalNote::Keep),
                Ok(false) => (HoldState::Releasing, SignalNote::Keep),
            },
            (HoldState::Releasing, HoldAnswer::Released) => (
                HoldState::Done(Ok(false)),
                SignalNote::Drop,
            ),
            (HoldState::Agent, HoldAnswer::Agent(seen)) => match seen {
                Some(true) => (HoldState::Done(Ok(true)), SignalNote::Drop),
                None => (HoldState::Done(Ok(true)), SignalNote::Keep),
                Some(false) => {
                    if pane.signaled {
                        (HoldState::Done(Ok(true)), SignalNote::Keep)
                    } else {
                        match &pane.claude_session_id {
                            Some(sid) => (
                                HoldState::hand_over(pane, sid.clone()),
                                SignalNote::Keep,
                            ),
                            None => (HoldState::FindingSid, SignalNote::Keep),
                        }
                    }
                },
            },
            (HoldState::FindingSid, HoldAnswer::Sid(found)) => match found {
                None => (HoldState::Done(Ok(true)), SignalNote::Keep),
                Some(sid) => (HoldState::hand_over(pane, sid), SignalNote::Keep),
            },
            (HoldState::BindingSid { sid }, HoldAnswer::Bound(bound)) => {
                if bound {
                    (HoldState::Signaling { sid, attempt: 1 }, SignalNote::Keep)
                } else {
                    (HoldState::Done(Ok(true)), SignalNote::Keep)
                }
            },
            (HoldState::Signaling { sid, attempt }, HoldAnswer::Signaled(told)) => match told {
                Ok(_) => (HoldState::Done(Ok(true)), SignalNote::Add),
                Err(source) => {
                    if attempt < RESUME_SIGNAL_ATTEMPTS {
                        (HoldState::Signaling { sid, attempt: attempt + 1 }, SignalNote::Keep)
                    } else {
                        (HoldState::no_pane(pane, source), SignalNote::Keep)
                    }
                },
            },
            (HoldState::Releasing, HoldAnswer::Failed(e)) => (
                HoldState::Done(Err(e)),
                SignalNote::Keep,
            ),
            (HoldState::FindingSid, HoldAnswer::Failed(e)) => (
                HoldState::Done(Err(e)),
                SignalNote::Keep,
            ),
            (HoldState::BindingSid { .. }, HoldAnswer::Failed(e)) => (
                HoldState::Done(Err(e)),
                SignalNote::Keep,
            ),
            (same, _) => (same, SignalNote::Keep),
        }
    }

    /// Whether `answer` answers what the state asks.
    pub open spec fn answered_by(self, answer: HoldAnswer) -> bool {
        match self {
            HoldState::Pane => answer is Pane,
            HoldState::Releasing => answer is Released || answer is Failed,
            HoldState::Agent => answer is Agent,
            HoldState::FindingSid => answer is Sid || answer is Failed,
            HoldState::BindingSid { .. } => answer is Bound || answer is Failed,
            HoldState::Signaling { .. } => answer is Signaled,
            HoldState::Done(_) => false,
        }
    }

    /// How many answers the hand-off can still take.
    pub open spec fn budget(self) -> int {
        match self {
            HoldState::Pane => 8,
            HoldState::Releasing => 1,
            HoldState::Agent => 7,
            HoldState::FindingSid => 6,
            HoldState::BindingSid { .. } => 5,
            HoldState::Signaling { attempt, .. } => if attempt <= RESUME_SIGNAL_ATTEMPTS {
                RESUME_SIGNAL_ATTEMPTS - attempt + 1
            } else {
                1
            },
            HoldState::Done(_) => 0,
        }
    }
}

/// A hand-off ends: every answer leaves less to be asked.
pub proof fn law_handoff_ends(s: HoldState, pane: BoundPane, answer: HoldAnswer)
    requires
        s.answered_by(answer),
        s is Signaling ==> s->Signaling_attempt >= 1,
    ensures
        0 <= s.after(pane, answer).0.budget() < s.budget(),
        s.after(pane, answer).0 is Signaling ==> 1
            <= s.after(pane, answer).0->Signaling_attempt <= RESUME_SIGNAL_ATTEMPTS
            || s->Signaling_attempt > RESUME_SIGNAL_ATTEMPTS,
{
}

/// A pane is noted as told to resume only where it was told, and the session is
/// given up only where the pane is gone. A pane that was told already is not
/// told again, and one that runs an agent is not told at all.
pub proof fn law_handoff_outcomes(s: HoldState, pane: BoundPane, answer: HoldAnswer)
    ensures
        s.after(pane, answer).1 is Add ==> s is Signaling && answer is Signaled
            && answer->Signaled_0 is Ok,
        !(s is Done) && s.after(pane, answer).0 == HoldState::Done(Ok(false)) ==> s is Releasing,
        s is Agent && (pane.signaled || answer == HoldAnswer::Agent(Some(true)) || answer
            == HoldAnswer::Agent(None)) ==> !(s.after(pane, answer).0 is Signaling),
{
}

/// Applies what becomes of the note.
pub fn apply_note(signaled: &mut IdSet, binding_id: u128, note: SignalNote)
    ensures
        final(signaled)@ == match note {
            SignalNote::Keep => old(signaled)@,
            SignalNote::Add => old(signaled)@.insert(binding_id),
            SignalNote::Drop => old(signaled)@.remove(binding_id),
        },
{
    match note {
        SignalNote::Keep => {},
        SignalNote::Add => signaled.insert(binding_id),
        SignalNote::Drop => signaled.remove(binding_id),
    }
}

/// How an execution ended.
#[derive(Debug, Clone, Copy, PartialEq, Eq, Structural)]
pub enum ExecutionProcessStatus {
    Running,
    Completed,
    Failed,
    Killed,
}

/// How far the handling of a finished executor has come.
#[derive(Debug)]
pub enum FinishState {
    /// It ended badly: does a message wait?
    FindingRow,
    /// One does: it is held back.
    Holding,
    FindingSession,
    CheckingExecutor,
    FindingBinding,
    /// The session's pane takes over, if it is still there.
    HandingOver,
    /// The waiting message is sent on its way.
    Draining,
    /// `notify` says whether the drain has to be woken up.
    Done { result: Result<bool, CliCollabError>, notify: bool },
}

/// What came of a step.
#[derive(Debug)]
pub enum FinishAnswer {
    /// The state of the message in the slot, if there is one.
    Row(Option<QueuedMessageState>),
    /// The message was held back, or needed not be.
    Held,
    /// Whether the session exists.
    Session(bool),
    /// Whether another executor is running.
    Executor(bool),
    /// Whether the session has an active pane.
    Binding(bool),
    HandedOver(Result<bool, CliCollabError>),
    Drained(Result<bool, CliCollabError>),
    Failed(CliCollabError),
}

impl FinishState {
    pub open spec fn first(status: ExecutionProcessStatus, releases_writer: bool) -> FinishState {
        if !releases_writer {
            FinishState::Done { result: Ok(false), notify: false }
        } else if status is Failed || status is Killed {
            FinishState::FindingRow
        } else {
            FinishState::FindingSession
        }
    }

    /// The state after an answer, for the session `session_id`. An answer to
    /// another question than the one that was asked changes nothing.
    pub open spec fn after(self, session_id: u128, answer: FinishAnswer) -> FinishState {
        match (self, answer) {
            (FinishState::FindingRow, FinishAnswer::Row(state)) => if state == Some(
                QueuedMessageState::Queued,
            ) {
                FinishState::Holding
            } else {
                FinishState::Done { result: Ok(false), notify: true }
            },
            (FinishState::Holding, FinishAnswer::Held) => FinishState::Done {
                result: Ok(false),
                notify: true,
            },
            (FinishState::FindingSession, FinishAnswer::Session(exists)) => if exists {
                FinishState::CheckingExecutor
            } else {
                FinishState::Done { result: Err(CliCollabError::WorkspaceMissing(session_id)), notify: false }
            },
            (FinishState::CheckingExecutor, FinishAnswer::Executor(running)) => if running {
                FinishState::Done { result: Ok(false), notify: false }
            } else {
                FinishState::FindingBinding
            },
            (FinishState::FindingBinding, FinishAnswer::Binding(bound)) => if bound {
                FinishState::HandingOver
            } else {
                FinishState::Draining
            },
            (FinishState::HandingOver, FinishAnswer::HandedOver(r)) => match r {
                Ok(true) => FinishState::Done { result: Ok(false), notify: true },
                Ok(false) => FinishState::Draining,
                Err(e) => FinishState::Done { result: Err(e), notify: false },
            },
            (FinishState::Draining, FinishAnswer::Drained(r)) => FinishState::Done {
                result: r,
                notify: r is Ok,
            },
            (FinishState::HandingOver, FinishAnswer::Failed(_)) => self,
            (FinishState::Draining, FinishAnswer::Failed(_)) => self,
            (FinishState::Done { .. }, FinishAnswer::Failed(_)) => self,
            (_, FinishAnswer::Failed(e)) => FinishState::Done {
                result: Err(e),
                notify: false,
            },
            _ => self,
        }
    }

    /// An executor of a session ended.
    pub fn start(status: ExecutionProcessStatus, releases_writer: bool) -> (s: FinishState)
        ensures
            s == FinishState::first(status, releases_writer),
    {
        if !releases_writer {
            FinishState::Done { result: Ok(false), notify: false }
        } else {
            match status {
                ExecutionProcessStatus::Failed => FinishState::FindingRow,
                ExecutionProcessStatus::Killed => FinishState::FindingRow,
                _ => FinishState::FindingSession,
            }
        }
    }

    /// Takes what came of the step that the state stands for.
    pub fn step(self, session_id: u128, answer: FinishAnswer) -> (next: FinishState)
        ensures
            next == self.after(session_id, answer),
    {
        match (self, answer) {
            (FinishState::FindingRow, FinishAnswer::Row(state)) => match state {
                Some(QueuedMessageState::Queued) => FinishState::Holding,
                _ => FinishState::Done { result: Ok(false), notify: true },
            },
            (FinishState::Holding, FinishAnswer::Held) => FinishState::Done {
                result: Ok(false),
                notify: true,
            },
            (FinishState::FindingSession, FinishAnswer::Session(exists)) => {
                if exists {
                    FinishState::CheckingExecutor
                } else {
                    FinishState::Done { result: Err(CliCollabError::WorkspaceMissing(session_id)), notify: false }
                }
            },
            (FinishState::CheckingExecutor, FinishAnswer::Executor(running)) => {
                if running {
                    FinishState::Done { result: Ok(false), notify: false }
                } else {
                    FinishState::FindingBinding
                }
            },
            (FinishState::FindingBinding, FinishAnswer::Binding(bound)) => {
                if bound {
                    FinishState::HandingOver
                } else {
                    FinishState::Draining
                }
            },
            (FinishState::HandingOver, FinishAnswer::HandedOver(r)) => match r {
                Ok(true) => FinishState::Done { result: Ok(false), notify: true },
                Ok(false) => FinishState::Draining,
                Err(e) => FinishState::Done { result: Err(e), notify: false },
            },
            (FinishState::Draining, FinishAnswer::Drained(r)) => {
                let notify = r.is_ok();
                FinishState::Done { result: r, notify }
            },
            (FinishState::HandingOver, FinishAnswer::Failed(_)) => FinishState::HandingOver,
            (FinishState::Draining, FinishAnswer::Failed(_)) => FinishState::Draining,
            (FinishState::Done { result, notify }, FinishAnswer::Failed(_)) => FinishState::Done {
                result,
                notify,
            },
            (_, FinishAnswer::Failed(e)) => FinishState::Done {
                result: Err(e),
                notify: false,
            },
            (same, _) => same,
        }
    }
}

/// Where the handling of a finished executor stands after the answers so far.
pub open spec fn finish_run(
    status: ExecutionProcessStatus,
    releases_writer: bool,
    session_id: u128,
    answers: Seq<FinishAnswer>,
) -> FinishState
    decreases answers.len(),
{
    if answers.len() == 0 {
        FinishState::first(status, releases_writer)
    } else {
        finish_run(status, releases_writer, session_id, answers.drop_last()).after(
            session_id,
            answers.last(),
        )
    }
}

/// An executor that failed or was killed never sets a waiting message in
/// motion: the user has to confirm it.
pub proof fn law_abnormal_end_never_drains(
    status: ExecutionProcessStatus,
    releases_writer: bool,
    session_id: u128,
    answers: Seq<FinishAnswer>,
)
    requires
        status is Failed || status is Killed,
    ensures
        ({
            let s = finish_run(status, releases_writer, session_id, answers);
            &&& !(s is Draining)
            &&& !(s is HandingOver)
            &&& s is Done ==> s->result != Ok::<bool, CliCollabError>(true)
        }),
{
    lemma_abnormal_end_stays(status, releases_writer, session_id, answers);
}

proof fn lemma_abnormal_end_stays(
    status: ExecutionProcessStatus,
    releases_writer: bool,
    session_id: u128,
    answers: Seq<FinishAnswer>,
)
    requires
        status is Failed || status is Killed,
    ensures
        ({
            let s = finish_run(status, releases_writer, session_id, answers);
            s is FindingRow || s is Holding || (s is Done && s->result != Ok::<bool, CliCollabError>(
                true,
            ))
        }),
    decreases answers.len(),
{
    if answers.len() > 0 {
        lemma_abnormal_end_stays(status, releases_writer, session_id, answers.drop_last());
    }
}

/// The note on a message that is held back after its executor ended badly.
pub fn abnormal_hold_text() -> (t: String)
    ensures
        t@
            == "previous agent failed or was killed; confirm Send again to run this message"@,
{
    "previous agent failed or was killed; confirm Send again to run this message".to_owned()
}

/// Whether a message is held back already.
pub fn is_held(failure_reason: &Option<String>) -> (r: bool)
    ensures
        r == (opt_text(*failure_reason) == Some(
            "previous agent failed or was killed; confirm Send again to run this message"@,
        )),
{
    match failure_reason {
        Some(reason) => same_text(
            reason.as_str(),
            "previous agent failed or was killed; confirm Send again to run this message",
        ),
        None => false,
    }
}

/// What holding a message back takes.
#[derive(Debug, Clone, Copy, PartialEq, Eq, Structural)]
pub enum HoldBack {
    /// It is held back.
    Held,
    /// Nothing ended badly since it was queued.
    NotHeld,
    /// Look whether an executor of the session ended badly since then.
    LookForAbnormalEnd,
    /// Store the note; the message is held back where that went through.
    StoreNote,
}

/// The first step of holding a message back.
pub fn hold_back_first(failure_reason: &Option<String>) -> (step: HoldBack)
    ensures
        step == if opt_text(*failure_reason) == Some(
            "previous agent failed or was killed; confirm Send again to run this message"@,
        ) {
            HoldBack::Held
        } else {
            HoldBack::LookForAbnormalEnd
        },
{
    if is_held(failure_reason) {
        HoldBack::Held
    } else {
        HoldBack::LookForAbnormalEnd
    }
}

/// The step after one that came out as `yes` says.
pub fn hold_back_next(step: HoldBack, yes: bool) -> (next: HoldBack)
    ensures
        next == match step {
            HoldBack::LookForAbnormalEnd => if yes {
                HoldBack::StoreNote
            } else {
                HoldBack::NotHeld
            },
            HoldBack::StoreNote => if yes {
                HoldBack::Held
            } else {
                HoldBack::NotHeld
            },
            _ => step,
        },
{
    match step {
        HoldBack::LookForAbnormalEnd => {
            if yes {
                HoldBack::StoreNote
            } else {
                HoldBack::NotHeld
            }
        },
        HoldBack::StoreNote => {
            if yes {
                HoldBack::Held
            } else {
                HoldBack::NotHeld
            }
        },
        _ => step,
    }
}

/// What a stored value turned out to be.
#[derive(Debug, Clone, Copy, PartialEq, Eq, Structural)]
pub enum Stored {
    Missing,
    Valid,
    Invalid,
}

/// Why a waiting message cannot be sent.
#[derive(Debug, Clone, Copy, PartialEq, Eq, Structural)]
pub enum DrainFailure {
    NoConfig,
    BadConfig,
    BadContext,
}

impl DrainFailure {
    /// The stored wording.
    pub fn text(self) -> (t: String)
        ensures
            t@ == match self {
                DrainFailure::NoConfig => "queued message has no executor configuration"@,
                DrainFailure::BadConfig => "queued message has invalid executor configuration"@,
                DrainFailure::BadContext => "queued message has invalid dispatch context"@,
            },
    {
        match self {
            DrainFailure::NoConfig => "queued message has no executor configuration".to_owned(),
            DrainFailure::BadConfig => {
                "queued message has invalid executor configuration".to_owned()
            },
            DrainFailure::BadContext => "queued message has invalid dispatch context".to_owned(),
        }
    }
}

/// How far the draining of a session's waiting message has come.
#[derive(Debug)]
pub enum DrainState {
    /// Does a message wait?
    FindingRow,
    /// It is held back where an executor ended badly since it was queued.
    HoldingBack { row: SlotRow },
    FindingSession { row: SlotRow },
    /// What was stored with it is read.
    ReadingMessage { row: SlotRow },
    /// It cannot be sent: that is noted with it.
    Noting { id: u128, failure: DrainFailure },
    /// Who may write?
    Leasing { row: SlotRow, is_retry: bool },
    /// The terminal may: can an earlier paste still be answered there?
    CheckingPaste { row: SlotRow, sid: Option<String> },
    /// It is on its way through the dispatcher.
    Sending { gate: GateState, is_retry: bool },
    /// Whether the message got on its way.
    Done(Result<bool, CliCollabError>),
}

/// What came of a step.
#[derive(Debug)]
pub enum DrainAnswer {
    Row(Option<SlotRow>),
    /// Whether the message is held back.
    Held(bool),
    /// Whether the session exists.
    Session(bool),
    /// What the executor configuration and the circumstances of a retry turned
    /// out to be.
    Read { config: Stored, context: Stored },
    Noted,
    Lease(WriterLease),
    /// Whether the pane of an earlier paste is still the session's.
    Outstanding(bool),
    /// What came of what the dispatcher asked.
    Gate(GateAnswer),
    Failed(CliCollabError),
}

/// What the dispatcher is set to for a message that waits already.
pub open spec fn drain_settings(is_retry: bool) -> GateSettings {
    GateSettings { replace: false, is_retry, routing_disabled: false }
}

impl DrainState {
    pub open spec fn first(routing_disabled: bool) -> DrainState {
        if routing_disabled {
            DrainState::Done(Ok(false))
        } else {
            DrainState::FindingRow
        }
    }

    /// The state once a message's configuration and circumstances were read.
    pub open spec fn having_read(row: SlotRow, config: Stored, context: Stored) -> DrainState {
        match (config, context) {
            (Stored::Missing, _) => DrainState::Noting {
                id: row.id,
                failure: DrainFailure::NoConfig,
            },
            (Stored::Invalid, _) => DrainState::Noting {
                id: row.id,
                failure: DrainFailure::BadConfig,
            },
            (Stored::Valid, Stored::Invalid) => DrainState::Noting {
                id: row.id,
                failure: DrainFailure::BadContext,
            },
            (Stored::Valid, Stored::Valid) => DrainState::Leasing { row, is_retry: true },
            (Stored::Valid, Stored::Missing) => DrainState::Leasing { row, is_retry: false },
        }
    }

    /// The state that a lease leads to.
    pub open spec fn having_leased(row: SlotRow, is_retry: bool, lease: WriterLease) -> DrainState {
        match lease {
            WriterLease::Free => DrainState::Sending {
                gate: GateState::Reserving { slot: Some(row) },
                is_retry,
            },
            WriterLease::Cli { claude_session_id } => if is_retry {
                DrainState::Done(Ok(false))
            } else {
                DrainState::CheckingPaste { row, sid: claude_session_id }
            },
            _ => DrainState::Done(Ok(false)),
        }
    }

    /// The state while the dispatcher is in `gate`.
    pub open spec fn having_sent(gate: GateState, is_retry: bool) -> DrainState {
        match gate {
            GateState::Done(Ok(outcome)) => DrainState::Done(
                Ok(outcome is Started || outcome is RoutedToCli),
            ),
            GateState::Done(Err(e)) => DrainState::Done(Err(e)),
            _ => DrainState::Sending { gate, is_retry },
        }
    }

    /// The state after an answer, for the session `session_id`. An answer to
    /// another question than the one that was asked changes nothing.
    pub open spec fn after(self, session_id: u128, answer: DrainAnswer) -> DrainState {
        match (self, answer) {
            (DrainState::FindingRow, DrainAnswer::Row(None)) => DrainState::Done(Ok(false)),
            (DrainState::FindingRow, DrainAnswer::Row(Some(row))) => if row.state
                == QueuedMessageState::Queued {
                DrainState::HoldingBack { row }
            } else {
                DrainState::Done(Ok(false))
            },
            (DrainState::HoldingBack { row }, DrainAnswer::Held(held)) => if held {
                DrainState::Done(Ok(false))
            } else {
                DrainState::FindingSession { row }
            },
            (DrainState::FindingSession { row }, DrainAnswer::Session(exists)) => if exists {
                DrainState::ReadingMessage { row }
            } else {
                DrainState::Done(Err(CliCollabError::WorkspaceMissing(session_id)))
            },
            (DrainState::ReadingMessage { row }, DrainAnswer::Read { config, context }) => {
                DrainState::having_read(row, config, context)
            },
            (DrainState::Noting { .. }, DrainAnswer::Noted) => DrainState::Done(Ok(false)),
            (DrainState::Leasing { row, is_retry }, DrainAnswer::Lease(lease)) => {
                DrainState::having_leased(row, is_retry, lease)
            },
            (DrainState::CheckingPaste { row, sid }, DrainAnswer::Outstanding(outstanding)) => {
                if outstanding {
                    DrainState::Done(Ok(false))
                } else {
                    DrainState::Sending {
                        gate: GateState::ClaimingPaste { id: row.id, sid },
                        is_retry: false,
                    }
                }
            },
            (DrainState::Sending { gate, is_retry }, DrainAnswer::Gate(a)) => {
                DrainState::having_sent(gate.after(drain_settings(is_retry), a), is_retry)
            },
            (DrainState::ReadingMessage { .. }, DrainAnswer::Failed(_)) => self,
            (DrainState::Leasing { .. }, DrainAnswer::Failed(_)) => self,
            (DrainState::Sending { .. }, DrainAnswer::Failed(_)) => self,
            (DrainState::Done(_), DrainAnswer::Failed(_)) => self,
            (_, DrainAnswer::Failed(e)) => DrainState::Done(Err(e)),
            _ => self,
        }
    }

    /// Starts to drain a session.
    pub fn start(routing_disabled: bool) -> (s: DrainState)
        ensures
            s == DrainState::first(routing_disabled),
    {
        if routing_disabled {
            DrainState::Done(Ok(false))
        } else {
            DrainState::FindingRow
        }
    }

    fn read(row: SlotRow, config: Stored, context: Stored) -> (s: DrainState)
        ensures
            s == DrainState::having_read(row, config, context),
    {
        match config {
            Stored::Missing => DrainState::Noting { id: row.id, failure: DrainFailure::NoConfig },
            Stored::Invalid => DrainState::Noting { id: row.id, failure: DrainFailure::BadConfig },
            Stored::Valid => match context {
                Stored::Invalid => DrainState::Noting {
                    id: row.id,
                    failure: DrainFailure::BadContext,
                },
                Stored::Valid => DrainState::Leasing { row, is_retry: true },
                Stored::Missing => DrainState::Leasing { row, is_retry: false },
            },
        }
    }

    fn lease(row: SlotRow, is_retry: bool, lease: WriterLease) -> (s: DrainState)
        ensures
            s == DrainState::having_leased(row, is_retry, lease),
    {
        match lease {
            WriterLease::Free => DrainState::Sending {
                gate: GateState::Reserving { slot: Some(row) },
                is_retry,
            },
            WriterLease::Cli { claude_session_id } => {
                if is_retry {
                    DrainState::Done(Ok(false))
                } else {
                    DrainState::CheckingPaste { row, sid: claude_session_id }
                }
            },
            WriterLease::Executor => DrainState::Done(Ok(false)),
            WriterLease::CliAmbiguous => DrainState::Done(Ok(false)),
            WriterLease::Busy => DrainState::Done(Ok(false)),
        }
    }

    fn send(gate: GateState, is_retry: bool) -> (s: DrainState)
        ensures
            s == DrainState::having_sent(gate, is_retry),
    {
        match gate {
            GateState::Done(Ok(outcome)) => DrainState::Done(Ok(drained(&outcome))),
            GateState::Done(Err(e)) => DrainState::Done(Err(e)),
            gate => DrainState::Sending { gate, is_retry },
        }
    }

    /// Takes what came of the step that the state stands for.
    pub fn step(self, session_id: u128, answer: DrainAnswer) -> (next: DrainState)
        ensures
            next == self.after(session_id, answer),
    {
        match (self, answer) {
            (DrainState::FindingRow, DrainAnswer::Row(found)) => match found {
                None => DrainState::Done(Ok(false)),
                Some(row) => {
                    if row.state == QueuedMessageState::Queued {
                        DrainState::HoldingBack { row }
                    } else {
                        DrainState::Done(Ok(false))
                    }
                },
            },
            (DrainState::HoldingBack { row }, DrainAnswer::Held(held)) => {
                if held {
                    DrainState::Done(Ok(false))
                } else {
                    DrainState::FindingSession { row }
                }
            },
            (DrainState::FindingSession { row }, DrainAnswer::Session(exists)) => {
                if exists {
                    DrainState::ReadingMessage { row }
                } else {
                    DrainState::Done(Err(CliCollabError::WorkspaceMissing(session_id)))
                }
            },
            (DrainState::ReadingMessage { row }, DrainAnswer::Read { config, context }) => {
                DrainState::read(row, config, context)
            },
            (DrainState::Noting { .. }, DrainAnswer::Noted) => DrainState::Done(Ok(false)),
            (DrainState::Leasing { row, is_retry }, DrainAnswer::Lease(lease)) => {
                DrainState::lease(row, is_retry, lease)
            },
            (DrainState::CheckingPaste { row, sid }, DrainAnswer::Outstanding(outstanding)) => {
                if outstanding {
                    DrainState::Done(Ok(false))
                } else {
                    DrainState::Sending {
                        gate: GateState::ClaimingPaste { id: row.id, sid },
                        is_retry: false,
                    }
                }
            },
            (DrainState::Sending { gate, is_retry }, DrainAnswer::Gate(a)) => {
                let g = GateSettings { replace: false, is_retry, routing_disabled: false };
                DrainState::send(gate.step(g, a), is_retry)
            },
            (DrainState::ReadingMessage { row }, DrainAnswer::Failed(_)) => {
                DrainState::ReadingMessage { row }
            },
            (DrainState::Leasing { row, is_retry }, DrainAnswer::Failed(_)) => {
                DrainState::Leasing { row, is_retry }
            },
            (DrainState::Sending { gate, is_retry }, DrainAnswer::Failed(_)) => {
                DrainState::Sending { gate, is_retry }
            },
            (DrainState::Done(outcome), DrainAnswer::Failed(_)) => DrainState::Done(outcome),
            (_, DrainAnswer::Failed(e)) => DrainState::Done(Err(e)),
            (same, _) => same,
        }
    }

    /// Whether `answer` answers what the state asks.
    pub open spec fn answered_by(self, answer: DrainAnswer) -> bool {
        match self {
            DrainState::FindingRow => answer is Row || answer is Failed,
            DrainState::HoldingBack { .. } => answer is Held || answer is Failed,
            DrainState::FindingSession { .. } => answer is Session || answer is Failed,
            DrainState::ReadingMessage { .. } => answer is Read,
            DrainState::Noting { .. } => answer is Noted || answer is Failed,
            DrainState::Leasing { .. } => answer is Lease,
            DrainState::CheckingPaste { .. } => answer is Outstanding || answer is Failed,
            DrainState::Sending { gate, .. } => answer matches DrainAnswer::Gate(a)
                && gate.answered_by(a),
            DrainState::Done(_) => false,
        }
    }

    /// How many answers the draining can still take.
    pub open spec fn budget(self) -> int {
        match self {
            DrainState::FindingRow => 20,
            DrainState::HoldingBack { .. } => 19,
            DrainState::FindingSession { .. } => 18,
            DrainState::ReadingMessage { .. } => 17,
            DrainState::Noting { .. } => 1,
            DrainState::Leasing { .. } => 16,
            DrainState::CheckingPaste { .. } => 15,
            DrainState::Sending { gate, .. } => gate.budget() + 1,
            DrainState::Done(_) => 0,
        }
    }
}

/// Draining ends: every answer leaves less to be asked.
pub proof fn law_drain_ends(s: DrainState, session_id: u128, answer: DrainAnswer)
    requires
        s.answered_by(answer),
    ensures
        0 <= s.after(session_id, answer).budget() < s.budget(),
{
    if let DrainState::Sending { gate, is_retry } = s {
        if let DrainAnswer::Gate(a) = answer {
            law_gate_ends(gate, drain_settings(is_retry), a);
        }
    }
}

/// Where draining a session stands after the answers so far.
pub open spec fn drain_run(
    routing_disabled: bool,
    session_id: u128,
    answers: Seq<DrainAnswer>,
) -> DrainState
    decreases answers.len(),
{
    if answers.len() == 0 {
        DrainState::first(routing_disabled)
    } else {
        drain_run(routing_disabled, session_id, answers.drop_last()).after(
            session_id,
            answers.last(),
        )
    }
}

/// The dispatcher states that lead to a paste.
pub open spec fn pastes(gate: GateState) -> bool {
    gate is ClaimingPaste || gate is Pasting || gate is MarkingPasted || gate is StoringToPaste
        || (gate matches GateState::ReadingSlot { report } && report == Report::Routed)
}

/// The dispatcher states of a message that is in the slot already.
pub open spec fn stored_already(gate: GateState) -> bool {
    match gate {
        GateState::Looking => false,
        GateState::Replacing => false,
        GateState::Leasing { .. } => false,
        GateState::StoringToWait => false,
        GateState::StoringToPaste { .. } => false,
        GateState::Reserving { slot } => slot is Some,
        GateState::Dispatching { claimed } => claimed is Some,
        GateState::Releasing { claimed, .. } => claimed is Some,
        _ => true,
    }
}

/// Whether it was answered that the message is not held back.
pub open spec fn not_held(answers: Seq<DrainAnswer>) -> bool {
    exists|i: int| 0 <= i < answers.len() && #[trigger] answers[i] == DrainAnswer::Held(false)
}

/// A message is only sent where routing is on and it is not held back. Draining
/// stores nothing, and never pastes a retry: only an executor can run it.
pub proof fn law_drain_is_grounded(
    routing_disabled: bool,
    session_id: u128,
    answers: Seq<DrainAnswer>,
)
    ensures
        ({
            let s = drain_run(routing_disabled, session_id, answers);
            &&& routing_disabled ==> s == DrainState::Done(Ok(false))
            &&& s is Sending ==> not_held(answers) && stored_already(s->gate) && (
            s->Sending_is_retry ==> !pastes(s->gate))
            &&& s == DrainState::Done(Ok(true)) ==> not_held(answers)
        }),
{
    lemma_drain_is_grounded(routing_disabled, session_id, answers);
}

proof fn lemma_drain_is_grounded(
    routing_disabled: bool,
    session_id: u128,
    answers: Seq<DrainAnswer>,
)
    ensures
        ({
            let s = drain_run(routing_disabled, session_id, answers);
            let late = s is FindingSession || s is ReadingMessage || s is Noting || s is Leasing
                || s is CheckingPaste || s is Sending || s == DrainState::Done(Ok(true));
            &&& routing_disabled ==> s == DrainState::Done(Ok(false))
            &&& late ==> not_held(answers)
            &&& s is Sending ==> stored_already(s->gate) && (s->Sending_is_retry ==> !pastes(
                s->gate,
            ))
        }),
    decreases answers.len(),
{
    if answers.len() > 0 {
        let before = answers.drop_last();
        lemma_drain_is_grounded(routing_disabled, session_id, before);
        assert(answers[answers.len() - 1] == answers.last());
        if not_held(before) {
            let i = choose|i: int|
                0 <= i < before.len() && #[trigger] before[i] == DrainAnswer::Held(false);
            assert(answers[i] == DrainAnswer::Held(false));
        }
    }
}

/// Whether the pane that a message was pasted into is still the session's: then
/// the paste may still be answered, and must not be repeated.
pub fn original_paste_binding_is_active(
    requeued_from_pasted: bool,
    pasted_at: Option<i128>,
    binding_created_at: Option<i128>,
) -> (r: bool)
    ensures
        r == (requeued_from_pasted && pasted_at is Some && binding_created_at is Some
            && binding_created_at->0 <= pasted_at->0),
{
    if !requeued_from_pasted {
        return false;
    }
    match (pasted_at, binding_created_at) {
        (Some(pasted), Some(created)) => created <= pasted,
        _ => false,
    }
}

/// What is known of a pasted message.
#[derive(Debug)]
pub struct PastedFacts {
    pub session_id: u128,
    /// The state of the message now, if it is still there.
    pub state: Option<QueuedMessageState>,
    pub session_exists: bool,
    pub pasted_at: Option<i128>,
    /// When the session's active pane was bound, if it has one.
    pub binding_created_at: Option<i128>,
    pub workspace_exists: bool,
    /// Whether it is known where the session works.
    pub has_effective_dir: bool,
    pub report: ProbeReport,
}

/// What is done about a pasted message.
#[derive(Debug, Clone, Copy, PartialEq, Eq, Structural)]
pub enum PastedVerdict {
    /// The paste may still be answered.
    Keep,
    /// The pane that it was pasted into is gone: it waits again.
    Requeue,
    /// The same, and the pane's binding ends.
    ReleaseAndRequeue,
}

impl PastedFacts {
    /// The pane that the message was pasted into is no longer the session's.
    pub open spec fn pane_replaced(self) -> bool {
        self.binding_created_at is None || (self.pasted_at is Some && self.binding_created_at->0
            > self.pasted_at->0)
    }

    /// Nothing certain was seen of the pane.
    pub open spec fn unseen(self) -> bool {
        !self.has_effective_dir || self.report.probe_failed || self.report.agent_running is None
    }

    /// What is done about the message.
    pub open spec fn verdict(self) -> Result<PastedVerdict, CliCollabError> {
        if self.state != Some(QueuedMessageState::Pasted) {
            Ok(PastedVerdict::Keep)
        } else if !self.session_exists {
            Err(CliCollabError::WorkspaceMissing(self.session_id))
        } else if self.pane_replaced() {
            Ok(PastedVerdict::Requeue)
        } else if !self.workspace_exists {
            Err(CliCollabError::WorkspaceMissing(self.session_id))
        } else if self.unseen() {
            Ok(PastedVerdict::Keep)
        } else if !self.report.pane_session_exists {
            Ok(PastedVerdict::ReleaseAndRequeue)
        } else if self.report.agent_running == Some(false) {
            Ok(PastedVerdict::Requeue)
        } else {
            Ok(PastedVerdict::Keep)
        }
    }
}

/// Decides what is done about a pasted message. A paste is only taken back
/// where its pane or its agent is known to be gone.
pub fn reconcile_pasted_delivery(f: &PastedFacts) -> (v: Result<PastedVerdict, CliCollabError>)
    ensures
        v == f.verdict(),
{
    match f.state {
        Some(QueuedMessageState::Pasted) => {},
        _ => return Ok(PastedVerdict::Keep),
    }
    if !f.session_exists {
        return Err(CliCollabError::WorkspaceMissing(f.session_id));
    }
    let created: i128 = match f.binding_created_at {
        Some(c) => c,
        None => return Ok(PastedVerdict::Requeue),
    };
    if let Some(pasted) = f.pasted_at {
        if created > pasted {
            return Ok(PastedVerdict::Requeue);
        }
    }
    if !f.workspace_exists {
        return Err(CliCollabError::WorkspaceMissing(f.session_id));
    }
    if !f.has_effective_dir || f.report.probe_failed {
        return Ok(PastedVerdict::Keep);
    }
    match f.report.agent_running {
        None => Ok(PastedVerdict::Keep),
        Some(running) => {
            if !f.report.pane_session_exists {
                Ok(PastedVerdict::ReleaseAndRequeue)
            } else if !running {
                Ok(PastedVerdict::Requeue)
            } else {
                Ok(PastedVerdict::Keep)
            }
        },
    }
}

/// Whether a waiting pane is to be looked after: it is still bound as it was
/// seen, no executor runs, one has let go since the pane was bound, and the
/// session exists. A field that is absent could not be read.
pub fn should_reconcile_pane(
    observed: u128,
    bound_now: Option<Option<u128>>,
    executor_running: Option<bool>,
    writer_released: Option<bool>,
    session_exists: Option<bool>,
) -> (r: bool)
    ensures
        r == (bound_now == Some(Some(observed)) && executor_running == Some(false)
            && writer_released == Some(true) && session_exists == Some(true)),
{
    let same = match bound_now {
        Some(Some(id)) => id == observed,
        _ => false,
    };
    let idle = match executor_running {
        Some(false) => true,
        _ => false,
    };
    let released = match writer_released {
        Some(true) => true,
        _ => false,
    };
    let exists = match session_exists {
        Some(true) => true,
        _ => false,
    };
    same && idle && released && exists
}

/// The identifiers of bindings.
pub open spec fn binding_ids(bindings: Seq<CliPaneBinding>) -> Set<u128> {
    bindings.map_values(|b: CliPaneBinding| b.id).to_set()
}

/// The messages that were pasted, by identifier, in order.
pub open spec fn pasted_ids(rows: Seq<SessionQueuedMessage>) -> Seq<u128>
    decreases rows.len(),
{
    if rows.len() == 0 {
        Seq::empty()
    } else {
        let head = pasted_ids(rows.drop_last());
        if rows.last().state is Pasted {
            head.push(rows.last().id)
        } else {
            head
        }
    }
}

/// The sessions whose message waits, in order.
pub open spec fn waiting_sessions(rows: Seq<SessionQueuedMessage>) -> Seq<u128>
    decreases rows.len(),
{
    if rows.len() == 0 {
        Seq::empty()
    } else {
        let head = waiting_sessions(rows.drop_last());
        if rows.last().state is Queued {
            head.push(rows.last().session_id)
        } else {
            head
        }
    }
}

/// What one round of looking after messages and panes has to do.
#[derive(Debug)]
pub struct DrainPlan {
    /// Whether there is nothing to look after at all.
    pub idle: bool,
    /// The pasted messages to look after.
    pub pasted: Vec<u128>,
    /// The sessions to drain.
    pub sessions: Vec<u128>,
}

/// Whether `plan` is that of one round, which leaves the panes `after` noted.
pub open spec fn plan_is(
    bindings: Seq<CliPaneBinding>,
    rows: Seq<SessionQueuedMessage>,
    routing_disabled: bool,
    before: Set<u128>,
    plan: DrainPlan,
    after: Set<u128>,
) -> bool {
    &&& plan.idle == (bindings.len() == 0 && rows.len() == 0)
    &&& plan.pasted@ == pasted_ids(rows)
    &&& plan.sessions@ == if routing_disabled {
        Seq::empty()
    } else {
        waiting_sessions(rows)
    }
    &&& after == before.intersect(binding_ids(bindings))
}

/// Plans one round. Panes that are no longer bound are forgotten.
pub fn plan_drain(
    bindings: &Vec<CliPaneBinding>,
    rows: &Vec<SessionQueuedMessage>,
    routing_disabled: bool,
    signaled: &mut IdSet,
) -> (plan: DrainPlan)
    ensures
        plan_is(bindings@, rows@, routing_disabled, old(signaled)@, plan, final(signaled)@),
{
    let mut ids = IdSet::new();
    for i in 0..bindings.len()
        invariant
            ids@ == binding_ids(bindings@.take(i as int)),
    {
        proof {
            let longer = bindings@.take(i + 1).map_values(|b: CliPaneBinding| b.id);
            let shorter = bindings@.take(i as int).map_values(|b: CliPaneBinding| b.id);
            assert(longer =~= shorter.push(bindings@[i as int].id));
            assert forall|x: u128| #[trigger]
                longer.to_set().contains(x) == shorter.to_set().insert(
                    bindings@[i as int].id,
                ).contains(x) by {
                if shorter.contains(x) {
                    let k = choose|k: int| 0 <= k < shorter.len() && shorter[k] == x;
                    assert(longer[k] == x);
                }
                if x == bindings@[i as int].id {
                    assert(longer[i as int] == x);
                }
            }
            assert(longer.to_set() =~= shorter.to_set().insert(bindings@[i as int].id));
        }
        ids.insert(bindings[i].id);
    }
    proof {
        assert(bindings@.take(bindings@.len() as int) =~= bindings@);
        assert(binding_ids(bindings@.take(0)) =~= Set::<u128>::empty());
    }
    signaled.retain(&ids);
    let mut pasted: Vec<u128> = Vec::new();
    let mut sessions: Vec<u128> = Vec::new();
    for i in 0..rows.len()
        invariant
            pasted@ == pasted_ids(rows@.take(i as int)),
            sessions@ == if routing_disabled {
                Seq::empty()
            } else {
                waiting_sessions(rows@.take(i as int))
            },
    {
        proof {
            assert(rows@.take(i + 1).drop_last() =~= rows@.take(i as int));
            assert(rows@.take(i + 1).last() == rows@[i as int]);
        }
        match rows[i].state {
            QueuedMessageState::Pasted => pasted.push(rows[i].id),
            QueuedMessageState::Queued => {
                if !routing_disabled {
                    sessions.push(rows[i].session_id);
                }
            },
            _ => {},
        }
    }
    proof {
        assert(rows@.take(rows@.len() as int) =~= rows@);
    }
    DrainPlan { idle: bindings.len() == 0 && rows.len() == 0, pasted, sessions }
}

/// What the hand-off to a pane meets outside: whether the pane is there, what
/// comes of releasing its binding, whether an agent is in it, which conversation
/// the session continues, whether the binding takes it, and what comes of each
/// attempt to tell the pane.
pub ghost struct HoldWorld {
    pub alive: Result<bool, String>,
    pub released: Option<CliCollabError>,
    pub agent: Option<bool>,
    pub sid: Result<Option<String>, CliCollabError>,
    pub bound: Result<bool, CliCollabError>,
    pub told: Seq<Result<(), String>>,
}

impl HoldWorld {
    /// The conversation that the pane is to resume: its own, or the session's.
    pub open spec fn wanted(self, pane: BoundPane) -> Option<String> {
        if pane.claude_session_id is Some {
            pane.claude_session_id
        } else if self.sid is Ok {
            self.sid->Ok_0
        } else {
            None
        }
    }

    /// What is answered in a state. Whatever concerns another conversation is
    /// refused.
    pub open spec fn answer(self, pane: BoundPane, s: HoldState) -> HoldAnswer {
        match s {
            HoldState::Pane => HoldAnswer::Pane(self.alive),
            HoldState::Releasing => match self.released {
                None => HoldAnswer::Released,
                Some(e) => HoldAnswer::Failed(e),
            },
            HoldState::Agent => HoldAnswer::Agent(self.agent),
            HoldState::FindingSid => match self.sid {
                Ok(sid) => HoldAnswer::Sid(sid),
                Err(e) => HoldAnswer::Failed(e),
            },
            HoldState::BindingSid { sid } => match self.bound {
                Ok(bound) => HoldAnswer::Bound(bound && Some(sid) == self.wanted(pane)),
                Err(e) => HoldAnswer::Failed(e),
            },
            HoldState::Signaling { sid, attempt } => HoldAnswer::Signaled(
                if Some(sid) == self.wanted(pane) {
                    self.told[attempt - 1]
                } else {
                    Err(sid)
                },
            ),
            HoldState::Done(_) => HoldAnswer::Released,
        }
    }

    /// Where the hand-off comes to in `fuel` steps, and the note of the last one.
    pub open spec fn serve(
        self,
        pane: BoundPane,
        s: HoldState,
        note: SignalNote,
        fuel: nat,
    ) -> (HoldState, SignalNote)
        decreases fuel,
    {
        if fuel == 0 || s is Done {
            (s, note)
        } else {
            let (next, now) = s.after(pane, self.answer(pane, s));
            self.serve(pane, next, now, (fuel - 1) as nat)
        }
    }

    /// What comes of the hand-off.
    pub open spec fn outcome(self, pane: BoundPane) -> (HoldState, SignalNote) {
        self.serve(pane, HoldState::Pane, SignalNote::Keep, 9)
    }
}

/// A pane that is gone gives the session up, and its binding ends; one that
/// cannot be reached keeps everything as it is.
pub proof fn law_missing_pane_gives_the_session_up(w: HoldWorld, pane: BoundPane)
    ensures
        w.alive matches Err(source) ==> w.outcome(pane) == (
            HoldState::Done(
                Err(CliCollabError::Transport { workspace_id: pane.workspace_id, source }),
            ),
            SignalNote::Keep,
        ),
        w.alive == Ok::<bool, String>(false) ==> match w.released {
            None => w.outcome(pane) == (HoldState::Done(Ok(false)), SignalNote::Drop),
            Some(e) => w.outcome(pane) == (HoldState::Done(Err(e)), SignalNote::Keep),
        },
{
    reveal_with_fuel(HoldWorld::serve, 10);
}

/// A pane that is there keeps the session. Where its agent runs it is awaited no
/// longer; where that cannot be seen, or it was told before, nothing is done.
pub proof fn law_present_pane_keeps_the_session(w: HoldWorld, pane: BoundPane)
    requires
        w.alive == Ok::<bool, String>(true),
        w.agent != Some(false) || pane.signaled,
    ensures
        w.outcome(pane).0 == HoldState::Done(Ok(true)),
        w.agent == Some(true) ==> w.outcome(pane).1 is Drop,
        w.agent != Some(true) ==> w.outcome(pane).1 is Keep,
{
    reveal_with_fuel(HoldWorld::serve, 10);
}

/// A pane without an agent is told to resume the conversation that it is bound to,
/// or else the one that the session continues, which a fresh pane is bound to
/// first. Three attempts are made; the first that succeeds is noted, and the last
/// failure is the outcome.
pub proof fn law_idle_pane_is_told_to_resume(w: HoldWorld, pane: BoundPane)
    requires
        w.alive == Ok::<bool, String>(true),
        w.agent == Some(false),
        !pane.signaled,
        w.told.len() == 3,
    ensures
        ({
            let kept = (HoldState::Done(Ok(true)), SignalNote::Keep);
            let told = (HoldState::Done(Ok(true)), SignalNote::Add);
            let unbound = pane.claude_session_id is None;
            let fresh = unbound && pane.bound_via == CliPaneBoundVia::CliFresh;
            &&& unbound && w.sid == Ok::<Option<String>, CliCollabError>(None) ==> w.outcome(pane)
                == kept
            &&& unbound ==> (w.sid matches Err(e) ==> w.outcome(pane) == (
                HoldState::Done(Err(e)),
                SignalNote::Keep,
            ))
            &&& w.wanted(pane) is Some && fresh ==> {
                &&& w.bound matches Err(e) ==> w.outcome(pane) == (
                    HoldState::Done(Err(e)),
                    SignalNote::Keep,
                )
                &&& w.bound == Ok::<bool, CliCollabError>(false) ==> w.outcome(pane) == kept
            }
            &&& w.wanted(pane) is Some && (fresh ==> w.bound == Ok::<bool, CliCollabError>(true))
                ==> {
                &&& w.told[0] is Ok || w.told[1] is Ok || w.told[2] is Ok ==> w.outcome(pane)
                    == told
                &&& w.told[0] is Err && w.told[1] is Err ==> (w.told[2] matches Err(source)
                    ==> w.outcome(pane) == (
                    HoldState::Done(
                        Err(CliCollabError::Transport { workspace_id: pane.workspace_id, source }),
                    ),
                    SignalNote::Keep,
                ))
            }
        }),
{
    reveal_with_fuel(HoldWorld::serve, 10);
}

/// What the handling of a finished executor meets outside.
pub ghost struct FinishWorld {
    pub row: Result<Option<QueuedMessageState>, CliCollabError>,
    pub held: Option<CliCollabError>,
    pub session: Result<bool, CliCollabError>,
    pub executor: Result<bool, CliCollabError>,
    pub binding: Result<bool, CliCollabError>,
    pub handed: Result<bool, CliCollabError>,
    pub drained: Result<bool, CliCollabError>,
}

/// An answer, or the failure of the question.
pub open spec fn or_failed<T>(
    r: Result<T, CliCollabError>,
    answer: spec_fn(T) -> FinishAnswer,
) -> FinishAnswer {
    match r {
        Ok(t) => answer(t),
        Err(e) => FinishAnswer::Failed(e),
    }
}

impl FinishWorld {
    /// What is answered in a state.
    pub open spec fn answer(self, s: FinishState) -> FinishAnswer {
        match s {
            FinishState::FindingRow => or_failed(self.row, |r| FinishAnswer::Row(r)),
            FinishState::Holding => match self.held {
                None => FinishAnswer::Held,
                Some(e) => FinishAnswer::Failed(e),
            },
            FinishState::FindingSession => or_failed(self.session, |b| FinishAnswer::Session(b)),
            FinishState::CheckingExecutor => or_failed(
                self.executor,
                |b| FinishAnswer::Executor(b),
            ),
            FinishState::FindingBinding => or_failed(self.binding, |b| FinishAnswer::Binding(b)),
            FinishState::HandingOver => FinishAnswer::HandedOver(self.handed),
            FinishState::Draining => FinishAnswer::Drained(self.drained),
            FinishState::Done { .. } => FinishAnswer::Held,
        }
    }

    /// Where the handling comes to in `fuel` steps.
    pub open spec fn serve(self, session_id: u128, s: FinishState, fuel: nat) -> FinishState
        decreases fuel,
    {
        if fuel == 0 || s is Done {
            s
        } else {
            self.serve(session_id, s.after(session_id, self.answer(s)), (fuel - 1) as nat)
        }
    }

    /// What comes of the end of an executor.
    pub open spec fn outcome(
        self,
        status: ExecutionProcessStatus,
        releases_writer: bool,
        session_id: u128,
    ) -> FinishState {
        self.serve(session_id, FinishState::first(status, releases_writer), 7)
    }
}

/// Whether the handling ended well, with this result, and wakes up the drain.
pub open spec fn ended(s: FinishState, sent: bool, notify: bool) -> bool {
    s == (FinishState::Done { result: Ok(sent), notify })
}

/// Whether the handling failed with `e`.
pub open spec fn ended_by(s: FinishState, e: CliCollabError) -> bool {
    s == (FinishState::Done { result: Err(e), notify: false })
}

/// The end of an execution that does not let go of the session changes nothing.
pub proof fn law_only_writers_let_go(
    w: FinishWorld,
    status: ExecutionProcessStatus,
    session_id: u128,
)
    ensures
        ended(w.outcome(status, false, session_id), false, false),
{
    reveal_with_fuel(FinishWorld::serve, 8);
}

/// After an executor that failed or was killed, the message that waits is held
/// back, and only one that waits is; nothing is sent, and the drain is woken up.
pub proof fn law_bad_end_holds_the_message_back(
    w: FinishWorld,
    status: ExecutionProcessStatus,
    session_id: u128,
)
    requires
        status is Failed || status is Killed,
    ensures
        ({
            let r = w.outcome(status, true, session_id);
            match w.row {
                Err(e) => ended_by(r, e),
                Ok(state) => if state == Some(QueuedMessageState::Queued) {
                    match w.held {
                        None => ended(r, false, true),
                        Some(e) => ended_by(r, e),
                    }
                } else {
                    ended(r, false, true)
                },
            }
        }),
{
    reveal_with_fuel(FinishWorld::serve, 8);
}

/// After an executor that ended well, the session's pane takes over where it is
/// still there. Otherwise the message that waits is sent, unless another executor
/// runs already.
pub proof fn law_good_end_passes_the_session_on(
    w: FinishWorld,
    status: ExecutionProcessStatus,
    session_id: u128,
)
    requires
        !(status is Failed || status is Killed),
    ensures
        ({
            let r = w.outcome(status, true, session_id);
            let yes = Ok::<bool, CliCollabError>(true);
            let no = Ok::<bool, CliCollabError>(false);
            &&& w.session matches Err(e) ==> ended_by(r, e)
            &&& w.session == no ==> ended_by(r, CliCollabError::WorkspaceMissing(session_id))
            &&& w.session == yes ==> {
                &&& w.executor matches Err(e) ==> ended_by(r, e)
                &&& w.executor == yes ==> ended(r, false, false)
                &&& w.executor == no ==> {
                    &&& w.binding matches Err(e) ==> ended_by(r, e)
                    &&& w.binding == yes && w.handed == yes ==> ended(r, false, true)
                    &&& w.binding == yes ==> (w.handed matches Err(e) ==> ended_by(r, e))
                    &&& w.binding == no || w.binding == yes && w.handed == no ==> {
                        &&& w.drained matches Ok(sent) ==> ended(r, sent, true)
                        &&& w.drained matches Err(e) ==> ended_by(r, e)
                    }
                }
            }
        }),
{
    reveal_with_fuel(FinishWorld::serve, 8);
}

/// What draining a session meets outside, up to where the dispatcher takes over.
pub ghost struct DrainWorld {
    pub row: Result<Option<SlotRow>, CliCollabError>,
    pub held: Result<bool, CliCollabError>,
    pub session: Result<bool, CliCollabError>,
    pub config: Stored,
    pub context: Stored,
    pub lease: WriterLease,
    pub outstanding: Result<bool, CliCollabError>,
}

impl DrainWorld {
    /// What is answered in a state.
    pub open spec fn answer(self, s: DrainState) -> DrainAnswer {
        match s {
            DrainState::FindingRow => match self.row {
                Ok(row) => DrainAnswer::Row(row),
                Err(e) => DrainAnswer::Failed(e),
            },
            DrainState::HoldingBack { .. } => match self.held {
                Ok(held) => DrainAnswer::Held(held),
                Err(e) => DrainAnswer::Failed(e),
            },
            DrainState::FindingSession { .. } => match self.session {
                Ok(exists) => DrainAnswer::Session(exists),
                Err(e) => DrainAnswer::Failed(e),
            },
            DrainState::ReadingMessage { .. } => DrainAnswer::Read {
                config: self.config,
                context: self.context,
            },
            DrainState::Leasing { .. } => DrainAnswer::Lease(self.lease),
            DrainState::CheckingPaste { .. } => match self.outstanding {
                Ok(b) => DrainAnswer::Outstanding(b),
                Err(e) => DrainAnswer::Failed(e),
            },
            _ => DrainAnswer::Noted,
        }
    }

    /// Where draining comes to in `fuel` steps: to its end, to a failure that is
    /// noted, or to the dispatcher.
    pub open spec fn serve(self, session_id: u128, s: DrainState, fuel: nat) -> DrainState
        decreases fuel,
    {
        if fuel == 0 || s is Done || s is Noting || s is Sending {
            s
        } else {
            self.serve(session_id, s.after(session_id, self.answer(s)), (fuel - 1) as nat)
        }
    }

    /// What comes of draining a session.
    pub open spec fn outcome(self, routing_disabled: bool, session_id: u128) -> DrainState {
        self.serve(session_id, DrainState::first(routing_disabled), 8)
    }
}

/// Nothing is sent where routing is off, where no message waits, where the one that
/// waits is held back, or where its session is gone.
pub proof fn law_nothing_is_sent_without_a_waiting_message(
    w: DrainWorld,
    routing_disabled: bool,
    session_id: u128,
)
    ensures
        ({
            let r = w.outcome(routing_disabled, session_id);
            let nothing = r == DrainState::Done(Ok(false));
            &&& routing_disabled ==> nothing
            &&& !routing_disabled ==> {
                &&& w.row matches Err(e) ==> r == DrainState::Done(Err(e))
                &&& w.row matches Ok(None) ==> nothing
                &&& w.row matches Ok(Some(row)) ==> {
                    &&& !(row.state is Queued) ==> nothing
                    &&& row.state is Queued ==> {
                        &&& w.held matches Err(e) ==> r == DrainState::Done(Err(e))
                        &&& w.held == Ok::<bool, CliCollabError>(true) ==> nothing
                        &&& w.held == Ok::<bool, CliCollabError>(false) ==> {
                            &&& w.session matches Err(e) ==> r == DrainState::Done(Err(e))
                            &&& w.session == Ok::<bool, CliCollabError>(false) ==> r
                                == DrainState::Done(
                                Err(CliCollabError::WorkspaceMissing(session_id)),
                            )
                        }
                    }
                }
            }
        }),
{
    reveal_with_fuel(DrainWorld::serve, 9);
}

/// A message that waits and is not held back goes where its writer is: to a new
/// executor where nobody writes, and into the terminal where the agent there holds
/// the conversation, unless it is a retry or an earlier paste may still be
/// answered. Where it cannot be read, that is noted with this very message.
pub proof fn law_waiting_message_goes_to_the_writer(w: DrainWorld, session_id: u128, row: SlotRow)
    requires
        w.row == Ok::<Option<SlotRow>, CliCollabError>(Some(row)),
        row.state is Queued,
        w.held == Ok::<bool, CliCollabError>(false),
        w.session == Ok::<bool, CliCollabError>(true),
    ensures
        ({
            let r = w.outcome(false, session_id);
            let nothing = r == DrainState::Done(Ok(false));
            &&& w.config is Missing ==> r == (DrainState::Noting {
                id: row.id,
                failure: DrainFailure::NoConfig,
            })
            &&& w.config is Invalid ==> r == (DrainState::Noting {
                id: row.id,
                failure: DrainFailure::BadConfig,
            })
            &&& w.config is Valid && w.context is Invalid ==> r == (DrainState::Noting {
                id: row.id,
                failure: DrainFailure::BadContext,
            })
            &&& w.config is Valid && !(w.context is Invalid) ==> {
                let is_retry = w.context is Valid;
                match w.lease {
                    WriterLease::Free => r == (DrainState::Sending {
                        gate: GateState::Reserving { slot: Some(row) },
                        is_retry,
                    }),
                    WriterLease::Cli { claude_session_id } => if is_retry {
                        nothing
                    } else {
                        match w.outstanding {
                            Err(e) => r == DrainState::Done(Err(e)),
                            Ok(true) => nothing,
                            Ok(false) => r == (DrainState::Sending {
                                gate: GateState::ClaimingPaste {
                                    id: row.id,
                                    sid: claude_session_id,
                                },
                                is_retry: false,
                            }),
                        }
                    },
                    _ => nothing,
                }
            }
        }),
{
    reveal_with_fuel(DrainWorld::serve, 9);
}

/// What the dispatcher makes of a message is what draining comes to: the message
/// got on its way where an executor was started with it or the terminal got it.
/// A failure that was noted ends it.
pub proof fn law_drain_reports_what_the_dispatcher_did(
    session_id: u128,
    gate: GateState,
    is_retry: bool,
    a: GateAnswer,
    id: u128,
    failure: DrainFailure,
    e: CliCollabError,
)
    ensures
        ({
            let on = gate.after(
                GateSettings { replace: false, is_retry, routing_disabled: false },
                a,
            );
            let r = (DrainState::Sending { gate, is_retry }).after(
                session_id,
                DrainAnswer::Gate(a),
            );
            &&& !(on is Done) ==> r == (DrainState::Sending { gate: on, is_retry })
            &&& on matches GateState::Done(Err(e)) ==> r == DrainState::Done(Err(e))
            &&& on matches GateState::Done(Ok(outcome)) ==> match outcome {
                DispatchOutcome::Started { .. } => r == DrainState::Done(Ok(true)),
                DispatchOutcome::RoutedToCli { .. } => r == DrainState::Done(Ok(true)),
                DispatchOutcome::Queued { .. } => r == DrainState::Done(Ok(false)),
                DispatchOutcome::Conflict { .. } => r == DrainState::Done(Ok(false)),
            }
        }),
        ({
            let noting = DrainState::Noting { id, failure };
            &&& noting.after(session_id, DrainAnswer::Noted) == DrainState::Done(Ok(false))
            &&& noting.after(session_id, DrainAnswer::Failed(e)) == DrainState::Done(Err(e))
        }),
{
}

/// A pasted message is taken back where the session has no pane, or a newer one
/// than at the paste, where the pane has no agent any more, and, with its binding,
/// where the pane is gone. What was not seen is left as it is.
pub proof fn law_paste_is_taken_back_only_where_its_agent_is_gone(f: PastedFacts)
    ensures
        ({
            let pasted = f.state == Some(QueuedMessageState::Pasted);
            let same_pane = f.binding_created_at matches Some(created) && (f.pasted_at matches Some(
                at,
            ) ==> created <= at);
            let seen = f.has_effective_dir && !f.report.probe_failed && f.report.agent_running is Some;
            let gone = !f.report.pane_session_exists;
            let v = f.verdict();
            &&& v == Ok::<PastedVerdict, CliCollabError>(PastedVerdict::ReleaseAndRequeue) <==> pasted
                && f.session_exists && same_pane && f.workspace_exists && seen && gone
            &&& v == Ok::<PastedVerdict, CliCollabError>(PastedVerdict::Requeue) <==> pasted
                && f.session_exists && (!same_pane || f.workspace_exists && seen && !gone
                && f.report.agent_running == Some(false))
            &&& v is Err <==> pasted && (!f.session_exists || same_pane && !f.workspace_exists)
            &&& v matches Err(e) ==> e == CliCollabError::WorkspaceMissing(f.session_id)
        }),
{
}

proof fn lemma_ids_of_messages(rows: Seq<SessionQueuedMessage>)
    ensures
        pasted_ids(rows) == rows.filter(|r: SessionQueuedMessage| r.state is Pasted).map_values(
            |r: SessionQueuedMessage| r.id,
        ),
        waiting_sessions(rows) == rows.filter(
            |r: SessionQueuedMessage| r.state is Queued,
        ).map_values(|r: SessionQueuedMessage| r.session_id),
    decreases rows.len(),
{
    reveal(Seq::filter);
    if rows.len() > 0 {
        lemma_ids_of_messages(rows.drop_last());
    }
    assert(pasted_ids(rows) =~= rows.filter(
        |r: SessionQueuedMessage| r.state is Pasted,
    ).map_values(|r: SessionQueuedMessage| r.id));
    assert(waiting_sessions(rows) =~= rows.filter(
        |r: SessionQueuedMessage| r.state is Queued,
    ).map_values(|r: SessionQueuedMessage| r.session_id));
}

/// A round looks after every pasted message and drains every session whose message
/// waits, in order and no others; without routing nothing is drained. A pane is
/// forgotten exactly where it is no longer bound.
pub proof fn law_round_looks_after_everything(
    bindings: Seq<CliPaneBinding>,
    rows: Seq<SessionQueuedMessage>,
    routing_disabled: bool,
    before: Set<u128>,
    plan: DrainPlan,
    signaled: Set<u128>,
)
    requires
        plan_is(bindings, rows, routing_disabled, before, plan, signaled),
    ensures
        plan.pasted@ == rows.filter(|r: SessionQueuedMessage| r.state is Pasted).map_values(
            |r: SessionQueuedMessage| r.id,
        ),
        routing_disabled ==> plan.sessions@.len() == 0,
        !routing_disabled ==> plan.sessions@ == rows.filter(
            |r: SessionQueuedMessage| r.state is Queued,
        ).map_values(|r: SessionQueuedMessage| r.session_id),
        plan.idle <==> bindings.len() == 0 && rows.len() == 0,
        forall|id: u128| #[trigger]
            signaled.contains(id) <==> before.contains(id) && exists|i: int|
                0 <= i < bindings.len() && (#[trigger] bindings[i]).id == id,
{
    lemma_ids_of_messages(rows);
    let ids = bindings.map_values(|b: CliPaneBinding| b.id);
    assert forall|id: u128| #[trigger]
        signaled.contains(id) <==> before.contains(id) && exists|i: int|
            0 <= i < bindings.len() && (#[trigger] bindings[i]).id == id by {
        if exists|i: int| 0 <= i < bindings.len() && (#[trigger] bindings[i]).id == id {
            let i = choose|i: int| 0 <= i < bindings.len() && (#[trigger] bindings[i]).id == id;
            assert(ids[i] == id);
        }
        if ids.contains(id) {
            let i = choose|i: int| 0 <= i < ids.len() && ids[i] == id;
            assert(bindings[i].id == id);
        }
    }
}

} // verus!
