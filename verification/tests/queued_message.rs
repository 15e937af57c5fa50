use bettercoding::queued_message::{
    cancelled_mutation, mutation_response, stored_mutation, take_first, take_next,
    CancelQueuedMessageResult, QueueMutation, QueueStatus, QueuedMessage, QueuedMessageError,
    QueuedMessageSource, QueuedMessageState, SessionQueuedMessage, StoreQueuedMessageResult,
    TakeStep,
};

fn row(state: QueuedMessageState, config: Option<&str>) -> SessionQueuedMessage {
    SessionQueuedMessage {
        id: 5,
        session_id: 6,
        prompt: "hi".to_string(),
        executor_config: config.map(str::to_string),
        dispatch_context: None,
        source: QueuedMessageSource::Ui,
        state,
        failure_reason: None,
        claude_session_id: None,
        pasted_at: Some(3),
        acked_at: None,
        created_at: 1,
        updated_at: 2,
    }
}

fn message(state: QueuedMessageState) -> QueuedMessage {
    QueuedMessage::try_from(row(state, Some("{}")), None).unwrap()
}

#[test]
fn replace_conflict_returns_409_with_slot_status_body() {
    let response = mutation_response(QueueMutation::Conflict(QueueStatus::Empty));
    assert_eq!(response.status, 409);
    assert!(matches!(response.body, QueueStatus::Empty));

    let stored = mutation_response(QueueMutation::Stored(QueueStatus::Empty));
    assert_eq!(stored.status, 200);
}

#[test]
fn stored_messages_are_shown() {
    let m = message(QueuedMessageState::Queued);
    assert_eq!((m.id, m.session_id, m.queued_at, m.updated_at), (5, 6, 1, 2));
    assert_eq!(m.data.message, "hi");
    assert_eq!(m.data.executor_config, "{}");
    assert_eq!(m.pasted_at, Some(3));

    let missing = QueuedMessage::try_from(row(QueuedMessageState::Queued, None), None).unwrap_err();
    assert!(matches!(missing, QueuedMessageError::MissingExecutorConfig(5)));
    assert_eq!(missing.message(), "queued message 00000000-0000-0000-0000-000000000005 has no executor configuration");
    let invalid = QueuedMessage::try_from(
        row(QueuedMessageState::Queued, Some("{")),
        Some("unexpected end".to_string()),
    )
    .unwrap_err();
    assert_eq!(
        invalid.message(),
        "queued message 00000000-0000-0000-0000-000000000005 has invalid executor configuration: unexpected end"
    );
    assert_eq!(
        QueuedMessageError::ExecutorClaimLost(5).message(),
        "queued message 00000000-0000-0000-0000-000000000005 lost its executor claim before consumption"
    );
}

#[test]
fn a_status_keeps_the_active_message() {
    for state in [
        QueuedMessageState::Queued,
        QueuedMessageState::Pasting,
        QueuedMessageState::Pasted,
    ] {
        let status = QueueStatus::from_message(message(state));
        assert_eq!(status.message().unwrap().state, state);
    }
    for state in [
        QueuedMessageState::Imported,
        QueuedMessageState::Failed,
        QueuedMessageState::Consumed,
        QueuedMessageState::Cancelled,
    ] {
        assert!(QueueStatus::from_message(message(state)).message().is_none());
    }
    assert!(matches!(QueueStatus::of_slot(None), QueueStatus::Empty));
    assert!(matches!(
        QueueStatus::of_slot(Some(message(QueuedMessageState::Pasted))),
        QueueStatus::Pasted { .. }
    ));
}

#[test]
fn changes_of_the_slot() {
    let (stored, wake) =
        stored_mutation(StoreQueuedMessageResult::Stored(message(QueuedMessageState::Queued)));
    assert!(wake);
    assert!(matches!(stored, QueueMutation::Stored(QueueStatus::Queued { .. })));
    let (taken, wake) =
        stored_mutation(StoreQueuedMessageResult::Conflict(message(QueuedMessageState::Pasting)));
    assert!(!wake);
    assert!(matches!(taken, QueueMutation::Conflict(QueueStatus::Pasting { .. })));
    assert!(matches!(
        cancelled_mutation(CancelQueuedMessageResult::Cancelled),
        QueueMutation::Stored(QueueStatus::Empty)
    ));
    assert!(matches!(
        cancelled_mutation(CancelQueuedMessageResult::Empty),
        QueueMutation::Stored(QueueStatus::Empty)
    ));
    assert!(matches!(
        cancelled_mutation(CancelQueuedMessageResult::Conflict(message(QueuedMessageState::Pasted))),
        QueueMutation::Conflict(QueueStatus::Pasted { .. })
    ));
}

#[test]
fn a_message_is_taken_once() {
    assert_eq!(take_first(None), TakeStep::Nothing);
    assert_eq!(take_first(Some(QueuedMessageState::Pasting)), TakeStep::Nothing);
    let claim = take_first(Some(QueuedMessageState::Queued));
    assert_eq!(claim, TakeStep::Claim);
    assert_eq!(take_next(claim, false), TakeStep::Nothing);
    let mark = take_next(claim, true);
    assert_eq!(mark, TakeStep::MarkConsumed);
    assert_eq!(take_next(mark, true), TakeStep::Taken);
    assert_eq!(take_next(mark, false), TakeStep::ClaimLost);
}
