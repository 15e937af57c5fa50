//! The agent in a workspace's terminal: whether it is alive, and whether it may
//! be restarted.

use vstd::prelude::*;
use vstd::string::*;

use crate::cli_collab::{continued_sid, expected_sid};
use crate::error::{ApiError, bad_request, conflict};
use crate::terminal::{TerminalSession, TerminalWorkspace, agent_dir, agent_dir_candidate};
use crate::text::clone_opt;

verus! {

/// Why the agent cannot be restarted right now.
#[derive(Debug, Clone, Copy, PartialEq, Eq, Structural)]
pub enum CliRestartBlocker {
    /// There is no terminal session, so there is nothing to repair.
    NoSession,
    /// A headless executor holds the conversation.
    ExecutorRunning,
    /// The session is of an old kind that cannot be restarted in place.
    LegacySession,
    /// It cannot be told whether the agent is alive.
    Unknown,
}

/// What a look at the pane showed.
#[derive(Debug, Clone, Copy, PartialEq, Eq, Structural)]
pub enum AgentPresence {
    Alive,
    Absent,
    NoSession,
    Unknown,
}

/// The state of the agent, as clients see it.
#[derive(Debug)]
pub struct CliAgentStatus {
    /// Absent where it cannot be told.
    pub agent_alive: Option<bool>,
    pub session_present: bool,
    pub restartable: bool,
    pub blocker: Option<CliRestartBlocker>,
    pub program: String,
}

/// What a restart came to.
#[derive(Debug, Clone, Copy, PartialEq, Eq, Structural)]
pub struct CliRestartResponse {
    pub restarted: bool,
    /// Whether a known conversation was resumed.
    pub resumed: bool,
}

/// What is known of the workspace's terminal.
#[derive(Debug, Clone, Copy, PartialEq, Eq, Structural)]
pub struct PaneFacts {
    pub tmux_available: bool,
    pub presence: AgentPresence,
    pub executor_active: bool,
    pub legacy_session: bool,
}

impl PaneFacts {
    /// Whether the agent is alive, where that can be told.
    pub open spec fn alive(self) -> Option<bool> {
        if !self.tmux_available {
            None
        } else {
            match self.presence {
                AgentPresence::Alive => Some(true),
                AgentPresence::Absent => Some(false),
                _ => None,
            }
        }
    }

    /// Why the agent cannot be restarted.
    pub open spec fn blocker(self) -> Option<CliRestartBlocker> {
        if !self.tmux_available {
            Some(CliRestartBlocker::Unknown)
        } else {
            match self.presence {
                AgentPresence::Alive => None,
                AgentPresence::NoSession => Some(CliRestartBlocker::NoSession),
                AgentPresence::Unknown => Some(CliRestartBlocker::Unknown),
                AgentPresence::Absent => if self.executor_active {
                    Some(CliRestartBlocker::ExecutorRunning)
                } else if self.legacy_session {
                    Some(CliRestartBlocker::LegacySession)
                } else {
                    None
                },
            }
        }
    }
}

impl PaneFacts {
    /// Whether the agent may be restarted by the request that claimed it.
    pub open spec fn may_restart(self) -> bool {
        !self.executor_active && !self.legacy_session && self.presence == AgentPresence::Absent
    }
}

/// The state of the agent. A restart is offered only where it was seen that the
/// agent is gone and nothing speaks against it.
pub fn agent_status(f: PaneFacts, program: String) -> (s: CliAgentStatus)
    ensures
        s.agent_alive == f.alive(),
        s.session_present == (f.tmux_available && (f.presence == AgentPresence::Alive
            || f.presence == AgentPresence::Absent)),
        s.blocker == f.blocker(),
        s.restartable == (f.alive() == Some(false) && f.blocker() is None),
        s.program == program,
{
    if !f.tmux_available {
        return CliAgentStatus {
            agent_alive: None,
            session_present: false,
            restartable: false,
            blocker: Some(CliRestartBlocker::Unknown),
            program,
        };
    }
    let (agent_alive, session_present, blocker) = match f.presence {
        AgentPresence::Alive => (Some(true), true, None),
        AgentPresence::Absent => {
            let blocker = if f.executor_active {
                Some(CliRestartBlocker::ExecutorRunning)
            } else if f.legacy_session {
                Some(CliRestartBlocker::LegacySession)
            } else {
                None
            };
            (Some(false), true, blocker)
        },
        AgentPresence::NoSession => (None, false, Some(CliRestartBlocker::NoSession)),
        AgentPresence::Unknown => (None, false, Some(CliRestartBlocker::Unknown)),
    };
    let dead = match agent_alive {
        Some(false) => true,
        _ => false,
    };
    CliAgentStatus {
        agent_alive,
        session_present,
        restartable: dead && blocker.is_none(),
        blocker,
        program,
    }
}

/// Whether the agent may be restarted. `claimed` says whether this request is
/// the one that restarts it.
pub fn check_restart(f: PaneFacts, claimed: bool) -> (r: Result<(), ApiError>)
    ensures
        r is Ok <==> f.may_restart() && claimed,
        if f.executor_active {
            r is Err && conflict(
                r->Err_0,
                "A headless run still owns this conversation; wait for it to finish before restarting"@,
            )
        } else if f.legacy_session {
            r is Err && bad_request(
                r->Err_0,
                "This is a legacy session and cannot be restarted in place; reopen the workspace"@,
            )
        } else {
            match f.presence {
                AgentPresence::Alive => r is Err && conflict(
                    r->Err_0,
                    "The agent is already running in this workspace"@,
                ),
                AgentPresence::NoSession => r is Err && bad_request(
                    r->Err_0,
                    "No CLI session exists for this workspace; open the terminal to start one"@,
                ),
                AgentPresence::Unknown => r is Err && conflict(
                    r->Err_0,
                    "Could not determine whether an agent is running; nothing was restarted. Please retry"@,
                ),
                AgentPresence::Absent => if claimed {
                    r is Ok
                } else {
                    r is Err && conflict(
                        r->Err_0,
                        "A restart is already in progress for this workspace"@,
                    )
                },
            }
        },
{
    if f.executor_active {
        return Err(
            ApiError::Conflict(
                "A headless run still owns this conversation; wait for it to finish before restarting".to_owned(),
            ),
        );
    }
    if f.legacy_session {
        return Err(
            ApiError::BadRequest(
                "This is a legacy session and cannot be restarted in place; reopen the workspace".to_owned(),
            ),
        );
    }
    match f.presence {
        AgentPresence::Alive => Err(
            ApiError::Conflict("The agent is already running in this workspace".to_owned()),
        ),
        AgentPresence::NoSession => Err(
            ApiError::BadRequest(
                "No CLI session exists for this workspace; open the terminal to start one".to_owned(),
            ),
        ),
        AgentPresence::Unknown => Err(
            ApiError::Conflict(
                "Could not determine whether an agent is running; nothing was restarted. Please retry".to_owned(),
            ),
        ),
        AgentPresence::Absent => {
            if claimed {
                Ok(())
            } else {
                Err(
                    ApiError::Conflict(
                        "A restart is already in progress for this workspace".to_owned(),
                    ),
                )
            }
        },
    }
}

/// A restart that was offered is only refused where another one is under way;
/// and what was not offered is refused.
pub proof fn law_offer_and_restart_agree(f: PaneFacts)
    requires
        f.tmux_available,
    ensures
        (f.alive() == Some(false) && f.blocker() is None) <==> f.may_restart(),
{
}

/// What a restart reports.
pub fn restarted(resume_session_id: &Option<String>) -> (r: CliRestartResponse)
    ensures
        r.restarted,
        r.resumed == (resume_session_id is Some),
{
    CliRestartResponse { restarted: true, resumed: resume_session_id.is_some() }
}

/// What is known of a workspace's launch.
#[derive(Debug)]
pub struct LaunchFacts {
    pub workspace: Option<TerminalWorkspace>,
    pub base_exists: bool,
    /// The workspace's latest session.
    pub session: Option<TerminalSession>,
    pub agent_dir_exists: bool,
    /// Whether an executor is running the session; absent where that could not
    /// be read.
    pub executor_running: Option<bool>,
    /// The conversation of the session's latest turn.
    pub latest_turn: Option<String>,
    /// The conversation that was last linked to the session.
    pub latest_link: Option<String>,
}

/// How a workspace's agent is launched.
#[derive(Debug)]
pub struct CliContext {
    pub working_dir: String,
    pub resume_session_id: Option<String>,
    pub executor_active: bool,
}

impl LaunchFacts {
    /// Whether an executor counts as running the session. What could not be
    /// read counts as running.
    pub open spec fn executor_active(self) -> bool {
        self.session is Some && self.executor_running != Some(false)
    }

    /// The conversation to resume.
    pub open spec fn resumes(self) -> Option<String> {
        if self.session is Some && !self.executor_active() {
            continued_sid(self.latest_turn, self.latest_link)
        } else {
            None
        }
    }
}

/// Finds out how a workspace's agent is launched.
pub fn cli_context(f: &LaunchFacts) -> (r: Result<CliContext, ApiError>)
    ensures
        match f.workspace {
            None => r is Err && bad_request(r->Err_0, "Workspace not found"@),
            Some(w) => match w.container_ref {
                None => r is Err && bad_request(r->Err_0, "Workspace has no directory"@),
                Some(base) => if !f.base_exists {
                    r is Err && bad_request(r->Err_0, "Workspace directory does not exist"@)
                } else {
                    &&& r is Ok
                    &&& r->Ok_0.working_dir@ == agent_dir(base@, f.session, f.agent_dir_exists)
                    &&& r->Ok_0.executor_active == f.executor_active()
                    &&& r->Ok_0.resume_session_id == f.resumes()
                },
            },
        },
{
    let base = match &f.workspace {
        None => return Err(ApiError::BadRequest("Workspace not found".to_owned())),
        Some(w) => match &w.container_ref {
            None => return Err(ApiError::BadRequest("Workspace has no directory".to_owned())),
            Some(dir) => dir,
        },
    };
    if !f.base_exists {
        return Err(ApiError::BadRequest("Workspace directory does not exist".to_owned()));
    }
    let working_dir = match agent_dir_candidate(base.as_str(), &f.session) {
        Some(dir) => {
            if f.agent_dir_exists {
                dir
            } else {
                base.clone()
            }
        },
        None => base.clone(),
    };
    let executor_active = if f.session.is_some() {
        match f.executor_running {
            Some(false) => false,
            _ => true,
        }
    } else {
        false
    };
    let resume_session_id = if f.session.is_some() && !executor_active {
        expected_sid(clone_opt(&f.latest_turn), clone_opt(&f.latest_link))
    } else {
        None
    };
    Ok(CliContext { working_dir, resume_session_id, executor_active })
}

/// The agent counts as alive, or as gone, only where the terminal could be looked
/// at and it was seen; a restart is blocked by whatever speaks against it, the
/// first of which is told, and by nothing where the agent is gone.
pub proof fn law_restart_is_offered_where_the_agent_is_gone(f: PaneFacts)
    ensures
        f.alive() == Some(true) <==> f.tmux_available && f.presence is Alive,
        f.alive() == Some(false) <==> f.tmux_available && f.presence is Absent,
        f.blocker() is None <==> f.tmux_available && (f.presence is Alive || f.presence is Absent
            && !f.executor_active && !f.legacy_session),
        f.blocker() == Some(CliRestartBlocker::ExecutorRunning) <==> f.tmux_available
            && f.presence is Absent && f.executor_active,
        f.blocker() == Some(CliRestartBlocker::LegacySession) <==> f.tmux_available
            && f.presence is Absent && !f.executor_active && f.legacy_session,
        f.blocker() == Some(CliRestartBlocker::NoSession) <==> f.tmux_available
            && f.presence is NoSession,
        f.blocker() == Some(CliRestartBlocker::Unknown) <==> !f.tmux_available
            || f.presence is Unknown,
        f.may_restart() <==> f.presence is Absent && !f.executor_active && !f.legacy_session,
{
}

/// A launched agent resumes the conversation of the session's latest turn, or else
/// the one that was linked last; but none while an executor may be at it, and none
/// without a session.
pub proof fn law_launch_resumes_the_conversation(f: LaunchFacts)
    ensures
        f.executor_active() <==> f.session is Some && (f.executor_running matches Some(
            running,
        ) ==> running),
        f.session is None ==> f.resumes() is None,
        (f.executor_running matches Some(running) ==> running) ==> f.resumes() is None,
        f.session is Some && f.executor_running == Some(false) ==> {
            &&& f.latest_turn is Some ==> f.resumes() == f.latest_turn
            &&& f.latest_turn is None ==> f.resumes() == f.latest_link
        },
{
    if let Some(running) = f.executor_running {
        assert(running || f.executor_running == Some(false));
    }
}

} // verus!
