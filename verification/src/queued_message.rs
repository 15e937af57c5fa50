//! The one message that a session can hold back for its writer, and the states
//! it passes through.

use vstd::prelude::*;
use vstd::string::*;

use crate::foreign::{uuid_chars, uuid_text};
use crate::text::concat3;

verus! {

/// Who queued a message.
#[derive(Debug, Clone, Copy, PartialEq, Eq, Structural)]
pub enum QueuedMessageSource {
    Ui,
    Recovery,
}

/// How far the delivery of a queued message has come.
#[derive(Debug, Clone, Copy, PartialEq, Eq, Structural)]
pub enum QueuedMessageState {
    /// Waiting for a writer.
    Queued,
    /// Being pasted into the terminal.
    Pasting,
    /// Pasted, but not yet seen in the transcript.
    Pasted,
    /// Seen in the transcript.
    Imported,
    Failed,
    /// Handed to an executor.
    Consumed,
    Cancelled,
}

impl QueuedMessageState {
    /// Whether a message in this state still occupies the slot.
    pub open spec fn active(self) -> bool {
        self is Queued || self is Pasting || self is Pasted
    }
}

/// A stored message. Times are in nanoseconds since the epoch.
#[derive(Debug)]
pub struct SessionQueuedMessage {
    pub id: u128,
    pub session_id: u128,
    pub prompt: String,
    /// The executor configuration, as it was stored.
    pub executor_config: Option<String>,
    /// The circumstances of a retry, as they were stored.
    pub dispatch_context: Option<String>,
    pub source: QueuedMessageSource,
    pub state: QueuedMessageState,
    pub failure_reason: Option<String>,
    pub claude_session_id: Option<String>,
    pub pasted_at: Option<i128>,
    pub acked_at: Option<i128>,
    pub created_at: i128,
    pub updated_at: i128,
}

/// A message and the executor configuration to run it with.
#[derive(Debug)]
pub struct DraftFollowUpData {
    pub message: String,
    pub executor_config: String,
}

/// A queued message, as clients see it.
#[derive(Debug)]
pub struct QueuedMessage {
    pub id: u128,
    pub session_id: u128,
    pub data: DraftFollowUpData,
    pub source: QueuedMessageSource,
    pub state: QueuedMessageState,
    pub failure_reason: Option<String>,
    pub claude_session_id: Option<String>,
    pub pasted_at: Option<i128>,
    pub acked_at: Option<i128>,
    pub queued_at: i128,
    pub updated_at: i128,
}

/// Why a stored message cannot be read, shown or taken.
#[derive(Debug)]
pub enum QueuedMessageError {
    /// The database failed, with this text.
    Database(String),
    MissingExecutorConfig(u128),
    InvalidExecutorConfig { id: u128, source: String },
    ExecutorClaimLost(u128),
}

impl QueuedMessageError {
    /// The wording.
    pub open spec fn wording(self) -> Seq<char> {
        match self {
            QueuedMessageError::Database(text) => text@,
            QueuedMessageError::MissingExecutorConfig(id) => "queued message "@ + uuid_chars(id)
                + " has no executor configuration"@,
            QueuedMessageError::InvalidExecutorConfig { id, source } => "queued message "@
                + uuid_chars(id) + " has invalid executor configuration: "@ + source@,
            QueuedMessageError::ExecutorClaimLost(id) => "queued message "@ + uuid_chars(id)
                + " lost its executor claim before consumption"@,
        }
    }

    pub fn message(&self) -> (m: String)
        ensures
            m@ == self.wording(),
    {
        match self {
            QueuedMessageError::Database(text) => text.clone(),
            QueuedMessageError::MissingExecutorConfig(id) => concat3(
                "queued message ",
                uuid_text(*id).as_str(),
                " has no executor configuration",
            ),
            QueuedMessageError::InvalidExecutorConfig { id, source } => {
                let mut m = concat3(
                    "queued message ",
                    uuid_text(*id).as_str(),
                    " has invalid executor configuration: ",
                );
                m.append(source.as_str());
                m
            },
            QueuedMessageError::ExecutorClaimLost(id) => concat3(
                "queued message ",
                uuid_text(*id).as_str(),
                " lost its executor claim before consumption",
            ),
        }
    }
}

impl QueuedMessage {
    /// How a stored message with an executor configuration is shown.
    pub open spec fn of_row(row: SessionQueuedMessage) -> QueuedMessage {
        QueuedMessage {
            id: row.id,
            session_id: row.session_id,
            data: DraftFollowUpData {
                message: row.prompt,
                executor_config: row.executor_config->0,
            },
            source: row.source,
            state: row.state,
            failure_reason: row.failure_reason,
            claude_session_id: row.claude_session_id,
            pasted_at: row.pasted_at,
            acked_at: row.acked_at,
            queued_at: row.created_at,
            updated_at: row.updated_at,
        }
    }

    /// How a stored message is shown, or why it cannot be. `config_error` says
    /// what is wrong with its stored executor configuration, if anything is.
    pub open spec fn shown(row: SessionQueuedMessage, config_error: Option<String>) -> Result<
        QueuedMessage,
        QueuedMessageError,
    > {
        match (row.executor_config, config_error) {
            (None, _) => Err(QueuedMessageError::MissingExecutorConfig(row.id)),
            (Some(_), Some(source)) => Err(
                QueuedMessageError::InvalidExecutorConfig { id: row.id, source },
            ),
            (Some(_), None) => Ok(QueuedMessage::of_row(row)),
        }
    }

    /// Shows a stored message.
    pub fn try_from(row: SessionQueuedMessage, config_error: Option<String>) -> (r: Result<
        QueuedMessage,
        QueuedMessageError,
    >)
        ensures
            r == QueuedMessage::shown(row, config_error),
    {
        let executor_config = match row.executor_config {
            Some(c) => c,
            None => return Err(QueuedMessageError::MissingExecutorConfig(row.id)),
        };
        if let Some(source) = config_error {
            return Err(QueuedMessageError::InvalidExecutorConfig { id: row.id, source });
        }
        Ok(
            QueuedMessage {
                id: row.id,
                session_id: row.session_id,
                data: DraftFollowUpData { message: row.prompt, executor_config },
                source: row.source,
                state: row.state,
                failure_reason: row.failure_reason,
                claude_session_id: row.claude_session_id,
                pasted_at: row.pasted_at,
                acked_at: row.acked_at,
                queued_at: row.created_at,
                updated_at: row.updated_at,
            },
        )
    }
}

/// What a session's slot holds, as clients see it.
#[derive(Debug)]
pub enum QueueStatus {
    Empty,
    Queued { message: QueuedMessage },
    Pasting { message: QueuedMessage },
    Pasted { message: QueuedMessage },
}

impl QueueStatus {
    /// The status of a slot that holds `message`.
    pub open spec fn holding(message: QueuedMessage) -> QueueStatus {
        match message.state {
            QueuedMessageState::Queued => QueueStatus::Queued { message },
            QueuedMessageState::Pasting => QueueStatus::Pasting { message },
            QueuedMessageState::Pasted => QueueStatus::Pasted { message },
            _ => QueueStatus::Empty,
        }
    }

    /// The message that a status speaks of.
    pub open spec fn held(self) -> Option<QueuedMessage> {
        match self {
            QueueStatus::Empty => None,
            QueueStatus::Queued { message } => Some(message),
            QueueStatus::Pasting { message } => Some(message),
            QueueStatus::Pasted { message } => Some(message),
        }
    }

    pub fn from_message(message: QueuedMessage) -> (status: QueueStatus)
        ensures
            status == QueueStatus::holding(message),
    {
        match message.state {
            QueuedMessageState::Queued => QueueStatus::Queued { message },
            QueuedMessageState::Pasting => QueueStatus::Pasting { message },
            QueuedMessageState::Pasted => QueueStatus::Pasted { message },
            QueuedMessageState::Imported => QueueStatus::Empty,
            QueuedMessageState::Failed => QueueStatus::Empty,
            QueuedMessageState::Consumed => QueueStatus::Empty,
            QueuedMessageState::Cancelled => QueueStatus::Empty,
        }
    }

    pub fn message(&self) -> (message: Option<&QueuedMessage>)
        ensures
            match message {
                Some(m) => self.held() == Some(*m),
                None => self.held() is None,
            },
    {
        match self {
            QueueStatus::Empty => None,
            QueueStatus::Queued { message } => Some(message),
            QueueStatus::Pasting { message } => Some(message),
            QueueStatus::Pasted { message } => Some(message),
        }
    }

    /// The status of a slot that was read as `message`.
    pub fn of_slot(message: Option<QueuedMessage>) -> (status: QueueStatus)
        ensures
            status == match message {
                Some(m) => QueueStatus::holding(m),
                None => QueueStatus::Empty,
            },
    {
        match message {
            Some(m) => QueueStatus::from_message(m),
            None => QueueStatus::Empty,
        }
    }
}

/// The status of a slot whose row is `row`, or why it cannot be shown.
pub open spec fn row_status(row: SessionQueuedMessage, config_error: Option<String>) -> Result<
    QueueStatus,
    QueuedMessageError,
> {
    match QueuedMessage::shown(row, config_error) {
        Ok(message) => Ok(QueueStatus::holding(message)),
        Err(e) => Err(e),
    }
}

/// The status of a slot whose row is `row`.
pub fn status_from_row(row: SessionQueuedMessage, config_error: Option<String>) -> (r: Result<
    QueueStatus,
    QueuedMessageError,
>)
    ensures
        r == row_status(row, config_error),
{
    match QueuedMessage::try_from(row, config_error) {
        Ok(message) => Ok(QueueStatus::from_message(message)),
        Err(e) => Err(e),
    }
}

/// A status keeps the message of an occupied slot, and shows a finished message
/// as an empty slot.
pub proof fn law_status_keeps_active_message(message: QueuedMessage)
    ensures
        message.state.active() ==> QueueStatus::holding(message).held() == Some(message),
        !message.state.active() ==> QueueStatus::holding(message) == QueueStatus::Empty,
{
}

/// What a change of the slot came to.
#[derive(Debug)]
pub enum QueueMutation {
    Stored(QueueStatus),
    /// The slot was taken; the status shows by what.
    Conflict(QueueStatus),
}

/// What taking a queued message came to.
#[derive(Debug, Clone, Copy, PartialEq, Eq, Structural)]
pub enum TakeStep {
    /// Nothing is there to take.
    Nothing,
    /// Claim the message for an executor.
    Claim,
    /// Mark the claimed message as consumed.
    MarkConsumed,
    /// The message is taken.
    Taken,
    /// Someone else ended the claim first.
    ClaimLost,
}

/// The first step of taking the message of a slot.
pub fn take_first(state: Option<QueuedMessageState>) -> (step: TakeStep)
    ensures
        step == if state == Some(QueuedMessageState::Queued) {
            TakeStep::Claim
        } else {
            TakeStep::Nothing
        },
{
    match state {
        Some(QueuedMessageState::Queued) => TakeStep::Claim,
        _ => TakeStep::Nothing,
    }
}

/// The step after a claim or a mark that went as `ok` says.
pub fn take_next(step: TakeStep, ok: bool) -> (next: TakeStep)
    ensures
        next == match step {
            TakeStep::Claim => if ok {
                TakeStep::MarkConsumed
            } else {
                TakeStep::Nothing
            },
            TakeStep::MarkConsumed => if ok {
                TakeStep::Taken
            } else {
                TakeStep::ClaimLost
            },
            _ => step,
        },
{
    match step {
        TakeStep::Claim => {
            if ok {
                TakeStep::MarkConsumed
            } else {
                TakeStep::Nothing
            }
        },
        TakeStep::MarkConsumed => {
            if ok {
                TakeStep::Taken
            } else {
                TakeStep::ClaimLost
            }
        },
        _ => step,
    }
}

/// How a change of the slot is answered: the HTTP status and the body.
#[derive(Debug)]
pub struct MutationResponse {
    pub status: u16,
    pub body: QueueStatus,
}

/// Answers a change of the slot: 200 where it was stored, 409 where the slot
/// was taken, with the slot's status in either case.
pub fn mutation_response(mutation: QueueMutation) -> (r: MutationResponse)
    ensures
        match mutation {
            QueueMutation::Stored(status) => r == (MutationResponse { status: 200, body: status }),
            QueueMutation::Conflict(status) => r == (MutationResponse {
                status: 409,
                body: status,
            }),
        },
{
    match mutation {
        QueueMutation::Stored(status) => MutationResponse { status: 200, body: status },
        QueueMutation::Conflict(status) => MutationResponse { status: 409, body: status },
    }
}

/// What storing a message in the slot came to.
#[derive(Debug)]
pub enum StoreQueuedMessageResult {
    Stored(QueuedMessage),
    /// The slot was taken by this message.
    Conflict(QueuedMessage),
}

/// The change of the slot that storing a message amounts to, and whether the
/// drain has to be woken up.
pub fn stored_mutation(result: StoreQueuedMessageResult) -> (r: (QueueMutation, bool))
    ensures
        match result {
            StoreQueuedMessageResult::Stored(m) => r == (
                QueueMutation::Stored(QueueStatus::holding(m)),
                true,
            ),
            StoreQueuedMessageResult::Conflict(m) => r == (
                QueueMutation::Conflict(QueueStatus::holding(m)),
                false,
            ),
        },
{
    match result {
        StoreQueuedMessageResult::Stored(m) => (
            QueueMutation::Stored(QueueStatus::from_message(m)),
            true,
        ),
        StoreQueuedMessageResult::Conflict(m) => (
            QueueMutation::Conflict(QueueStatus::from_message(m)),
            false,
        ),
    }
}

/// What cancelling the message of a slot came to.
#[derive(Debug)]
pub enum CancelQueuedMessageResult {
    /// There was none.
    Empty,
    Cancelled,
    /// It is on its way already.
    Conflict(QueuedMessage),
}

/// The change of the slot that cancelling its message amounts to.
pub fn cancelled_mutation(result: CancelQueuedMessageResult) -> (r: QueueMutation)
    ensures
        r == match result {
            CancelQueuedMessageResult::Conflict(m) => QueueMutation::Conflict(
                QueueStatus::holding(m),
            ),
            _ => QueueMutation::Stored(QueueStatus::Empty),
        },
{
    match result {
        CancelQueuedMessageResult::Conflict(m) => QueueMutation::Conflict(
            QueueStatus::from_message(m),
        ),
        CancelQueuedMessageResult::Empty => QueueMutation::Stored(QueueStatus::Empty),
        CancelQueuedMessageResult::Cancelled => QueueMutation::Stored(QueueStatus::Empty),
    }
}

/// A stored message is shown with all that is stored of it, under the state it is
/// in; it cannot be shown without a readable executor configuration, and one that
/// is done with leaves the slot empty.
pub proof fn law_slot_shows_what_is_stored(row: SessionQueuedMessage, config_error: Option<String>)
    ensures
        row.executor_config is None ==> row_status(row, config_error) == Err::<QueueStatus, _>(
            QueuedMessageError::MissingExecutorConfig(row.id),
        ),
        row.executor_config is Some ==> (config_error matches Some(source) ==> row_status(
            row,
            config_error,
        ) == Err::<QueueStatus, _>(QueuedMessageError::InvalidExecutorConfig { id: row.id, source })),
        row.executor_config is Some && config_error is None ==> {
            &&& row_status(row, config_error) is Ok
            &&& match row_status(row, config_error)->Ok_0 {
                QueueStatus::Queued { message } => row.state is Queued && shows_row(row, message),
                QueueStatus::Pasting { message } => row.state is Pasting && shows_row(row, message),
                QueueStatus::Pasted { message } => row.state is Pasted && shows_row(row, message),
                QueueStatus::Empty => !(row.state is Queued || row.state is Pasting
                    || row.state is Pasted),
            }
        },
{
}

/// Whether `m` shows the stored message `row`.
pub open spec fn shows_row(row: SessionQueuedMessage, m: QueuedMessage) -> bool {
    &&& m.id == row.id
    &&& m.session_id == row.session_id
    &&& m.data.message == row.prompt
    &&& Some(m.data.executor_config) == row.executor_config
    &&& m.source == row.source
    &&& m.state == row.state
    &&& m.failure_reason == row.failure_reason
    &&& m.claude_session_id == row.claude_session_id
    &&& m.pasted_at == row.pasted_at
    &&& m.acked_at == row.acked_at
    &&& m.queued_at == row.created_at
    &&& m.updated_at == row.updated_at
}

/// A slot is occupied while its message waits, is pasted, or was pasted.
pub proof fn law_slot_is_occupied_until_the_message_is_done(state: QueuedMessageState)
    ensures
        state.active() <==> !(state is Imported || state is Failed || state is Consumed
            || state is Cancelled),
{
}

} // verus!
