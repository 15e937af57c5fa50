use bettercoding::error::ApiError;
use bettercoding::sessions::{
    check_follow_up, latest_executor_config, recovery_prompt, reset_options, retry_context,
    setup_step, undispatched, BranchRecord, ExecutorChoice, ForkRecoveryRequest, SessionError,
    SetupStep,
};

fn s(t: &str) -> Option<String> {
    Some(t.to_string())
}

#[test]
fn follow_ups_keep_the_executor() {
    let agent = "AGENT_A".to_string();
    assert_eq!(check_follow_up(true, &None, &None, &agent).unwrap(), true);
    assert_eq!(check_follow_up(true, &s("AGENT_A"), &None, &agent).unwrap(), true);
    assert_eq!(check_follow_up(true, &None, &s("AGENT_A"), &agent).unwrap(), false);
    // The latest execution counts for more than what was stored.
    assert_eq!(check_follow_up(true, &s("AGENT_A"), &s("AGENT_B"), &agent).unwrap(), false);
    match check_follow_up(true, &s("AGENT_B"), &s("AGENT_A"), &agent) {
        Err(SessionError::ExecutorMismatch { expected, actual }) => {
            assert_eq!((expected.as_str(), actual.as_str()), ("AGENT_B", "AGENT_A"));
        }
        other => panic!("unexpected {other:?}"),
    }
    assert!(matches!(
        check_follow_up(false, &None, &None, &agent),
        Err(SessionError::WorkspaceNotFound)
    ));
}

#[test]
fn retries_reset_unless_declined() {
    assert!(retry_context(None, Some(true), None, None).is_none());
    let r = retry_context(Some(9), None, None, s("m")).unwrap();
    assert_eq!((r.process_id, r.force_when_dirty, r.perform_git_reset), (9, false, true));
    assert_eq!(r.reset_to_message_id.as_deref(), Some("m"));
    assert_eq!(reset_options(Some(true), Some(false)), (true, false));
    assert_eq!(reset_options(None, None), (false, true));
}

#[test]
fn unverified_writers_stop_a_message() {
    let text = |e: ApiError| match e {
        ApiError::Conflict(m) => m,
        other => panic!("unexpected {other:?}"),
    };
    assert_eq!(
        text(undispatched(false)),
        "Writer state could not be verified; the message was not dispatched"
    );
    assert_eq!(
        text(undispatched(true)),
        "Writer state could not be verified; recovery was not dispatched"
    );
}

fn record(uuid: &str, kind: &str, text: Option<&str>) -> BranchRecord {
    BranchRecord {
        uuid: s(uuid),
        kind: kind.to_string(),
        user_text: text.map(str::to_string),
    }
}

fn recover(path: Option<Vec<BranchRecord>>) -> Result<String, String> {
    let request = ForkRecoveryRequest {
        fork_parent_uuid: "fork".to_string(),
        branch_leaf_uuid: "leaf".to_string(),
    };
    recovery_prompt(&path, &request).map_err(|e| match e {
        ApiError::BadRequest(m) => m,
        other => panic!("unexpected {other:?}"),
    })
}

#[test]
fn branches_are_recovered() {
    let one = vec![
        record("fork", "user", Some("before")),
        record("a", "user", Some("lost")),
        record("b", "assistant", Some("reply")),
        record("leaf", "user", None),
    ];
    assert_eq!(recover(Some(one)).unwrap(), "lost");
    let two = vec![record("a", "user", Some("x")), record("b", "user", Some("y"))];
    assert_eq!(
        recover(Some(two)).unwrap(),
        "Recovered messages from an alternate CLI branch:\n\nx\n\n--- recovered message ---\n\ny"
    );
    assert_eq!(
        recover(Some(vec![record("fork", "user", Some("before"))])).unwrap_err(),
        "The requested fork branch has no recoverable user messages"
    );
    assert_eq!(recover(None).unwrap_err(), "The requested fork branch was not found");
}

#[test]
fn the_latest_configuration_is_used() {
    match latest_executor_config(&vec![s("old"), s("new"), None], &s("AGENT")).unwrap() {
        ExecutorChoice::Stored(c) => assert_eq!(c, "new"),
        other => panic!("unexpected {other:?}"),
    }
    match latest_executor_config(&vec![None], &s("AGENT")).unwrap() {
        ExecutorChoice::DefaultOf(e) => assert_eq!(e, "AGENT"),
        other => panic!("unexpected {other:?}"),
    }
    match latest_executor_config(&vec![], &None) {
        Err(ApiError::BadRequest(m)) => {
            assert_eq!(m, "No executor configuration exists for this session")
        }
        other => panic!("unexpected {other:?}"),
    }
}

#[test]
fn set_up_scripts_run_alone() {
    assert_eq!(setup_step(false, true, true), SetupStep::WorkspaceNotFound);
    assert_eq!(setup_step(true, true, false), SetupStep::ProcessAlreadyRunning);
    assert_eq!(setup_step(true, false, false), SetupStep::NoScriptConfigured);
    assert_eq!(setup_step(true, false, true), SetupStep::Start);
}
