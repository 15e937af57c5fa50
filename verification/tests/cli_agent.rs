use bettercoding::cli_agent::{
    agent_status, check_restart, cli_context, restarted, AgentPresence, CliRestartBlocker,
    LaunchFacts, PaneFacts,
};
use bettercoding::containers::{container_lookup, lookup_status, ContainerLookup};
use bettercoding::error::ApiError;
use bettercoding::loop_automation::{
    create_wakeup, upsert_policy, UpsertLoopAutomationRequest,
};
use bettercoding::terminal::{TerminalSession, TerminalWorkspace};

fn pane(presence: AgentPresence) -> PaneFacts {
    PaneFacts { tmux_available: true, presence, executor_active: false, legacy_session: false }
}

#[test]
fn a_dead_agent_can_be_restarted() {
    let s = agent_status(pane(AgentPresence::Absent), "agent".to_string());
    assert_eq!(s.agent_alive, Some(false));
    assert!(s.session_present && s.restartable);
    assert_eq!(s.blocker, None);
    assert!(check_restart(pane(AgentPresence::Absent), true).is_ok());
    assert!(restarted(&Some("sid".to_string())).resumed);
    assert!(!restarted(&None).resumed);
}

#[test]
fn what_speaks_against_a_restart() {
    let mut busy = pane(AgentPresence::Absent);
    busy.executor_active = true;
    busy.legacy_session = true;
    let s = agent_status(busy, "agent".to_string());
    assert_eq!(s.blocker, Some(CliRestartBlocker::ExecutorRunning));
    assert!(!s.restartable);
    let mut legacy = pane(AgentPresence::Absent);
    legacy.legacy_session = true;
    assert_eq!(
        agent_status(legacy, "agent".to_string()).blocker,
        Some(CliRestartBlocker::LegacySession)
    );
    let none = agent_status(pane(AgentPresence::NoSession), "agent".to_string());
    assert_eq!((none.agent_alive, none.blocker), (None, Some(CliRestartBlocker::NoSession)));
    let alive = agent_status(pane(AgentPresence::Alive), "agent".to_string());
    assert_eq!((alive.agent_alive, alive.blocker, alive.restartable), (Some(true), None, false));
    let mut down = pane(AgentPresence::Absent);
    down.tmux_available = false;
    let down = agent_status(down, "agent".to_string());
    assert_eq!((down.agent_alive, down.blocker), (None, Some(CliRestartBlocker::Unknown)));
    assert!(!down.session_present);
}

#[test]
fn refused_restarts_say_why() {
    let text = |f: PaneFacts, claimed: bool| match check_restart(f, claimed) {
        Err(ApiError::Conflict(m)) => m,
        Err(ApiError::BadRequest(m)) => m,
        other => panic!("unexpected {other:?}"),
    };
    let mut busy = pane(AgentPresence::Absent);
    busy.executor_active = true;
    assert_eq!(
        text(busy, true),
        "A headless run still owns this conversation; wait for it to finish before restarting"
    );
    let mut legacy = pane(AgentPresence::Absent);
    legacy.legacy_session = true;
    assert_eq!(
        text(legacy, true),
        "This is a legacy session and cannot be restarted in place; reopen the workspace"
    );
    assert_eq!(
        text(pane(AgentPresence::Alive), true),
        "The agent is already running in this workspace"
    );
    assert_eq!(
        text(pane(AgentPresence::NoSession), true),
        "No CLI session exists for this workspace; open the terminal to start one"
    );
    assert_eq!(
        text(pane(AgentPresence::Unknown), true),
        "Could not determine whether an agent is running; nothing was restarted. Please retry"
    );
    assert_eq!(
        text(pane(AgentPresence::Absent), false),
        "A restart is already in progress for this workspace"
    );
}

fn launch() -> LaunchFacts {
    LaunchFacts {
        workspace: Some(TerminalWorkspace { container_ref: Some("/ws".to_string()) }),
        base_exists: true,
        session: Some(TerminalSession {
            id: 1,
            workspace_id: 7,
            executor: None,
            agent_working_dir: Some("repo".to_string()),
        }),
        agent_dir_exists: true,
        executor_running: Some(false),
        latest_turn: None,
        latest_link: Some("linked".to_string()),
    }
}

#[test]
fn a_restart_lands_where_the_launch_was() {
    let c = cli_context(&launch()).unwrap();
    assert_eq!(c.working_dir, "/ws/repo");
    assert_eq!(c.resume_session_id.as_deref(), Some("linked"));
    assert!(!c.executor_active);
    let mut turn = launch();
    turn.latest_turn = Some("turn".to_string());
    turn.agent_dir_exists = false;
    let c = cli_context(&turn).unwrap();
    assert_eq!(c.working_dir, "/ws");
    assert_eq!(c.resume_session_id.as_deref(), Some("turn"));
    // What cannot be read counts as running.
    let mut unreadable = launch();
    unreadable.executor_running = None;
    let c = cli_context(&unreadable).unwrap();
    assert!(c.executor_active);
    assert_eq!(c.resume_session_id, None);
    let mut no_session = launch();
    no_session.session = None;
    no_session.executor_running = None;
    let c = cli_context(&no_session).unwrap();
    assert!(!c.executor_active && c.resume_session_id.is_none());
}

#[test]
fn launches_need_a_workspace_directory() {
    let text = |f: &LaunchFacts| match cli_context(f) {
        Err(ApiError::BadRequest(m)) => m,
        other => panic!("unexpected {other:?}"),
    };
    let mut f = launch();
    f.base_exists = false;
    assert_eq!(text(&f), "Workspace directory does not exist");
    f.workspace = Some(TerminalWorkspace { container_ref: None });
    assert_eq!(text(&f), "Workspace has no directory");
    f.workspace = None;
    assert_eq!(text(&f), "Workspace not found");
}

#[test]
fn a_directory_outside_every_workspace_answers_not_found() {
    let status = lookup_status(container_lookup(Ok(None)));
    assert_eq!(status, 404);
    assert!(!(500..600).contains(&status));

    assert_eq!(lookup_status(container_lookup(Err(()))), 500);
    assert_eq!(
        container_lookup(Ok(Some(3))),
        ContainerLookup::Found { workspace_id: 3 }
    );
    assert_eq!(lookup_status(container_lookup(Ok(Some(3)))), 200);
}

#[test]
fn policies_have_defaults_and_bounds() {
    let p = upsert_policy(UpsertLoopAutomationRequest {
        enabled: true,
        retry_interval_secs: None,
        continuation_prompt: Some("  ".to_string()),
        max_attempts: None,
    });
    assert_eq!((p.retry_interval_secs, p.max_attempts), (600, 50));
    assert_eq!(p.continuation_prompt, "Continue.");
    assert!(p.enabled && !p.clears_pending);
    let p = upsert_policy(UpsertLoopAutomationRequest {
        enabled: false,
        retry_interval_secs: Some(5),
        continuation_prompt: Some(" go on ".to_string()),
        max_attempts: Some(-3),
    });
    assert_eq!((p.retry_interval_secs, p.max_attempts), (60, 0));
    assert_eq!(p.continuation_prompt, " go on ");
    assert!(p.clears_pending);
    let w = create_wakeup(9, Some("\n".to_string()));
    assert_eq!((w.fire_at, w.prompt, w.attempt), (9, None, 1));
}
