//! Terminal attaches: where a terminal opens, how a parked prompt travels into
//! the agent's pane, when its delivery counts as confirmed, and the bounded log
//! of what a client types right after attaching.

use vstd::prelude::*;
use vstd::string::*;

use crate::error::{ApiError, bad_request};
use crate::foreign::{
    base64_bytes, base64_text, decode_base64, encode_base64, parse_uuid, uuid_parsed,
};
use crate::path_text::{join, joined_path};
use crate::text::{clone_opt, hex_pair, joined, opt_text, push_hex};

verus! {

/// What a terminal runs.
#[derive(Debug, Clone, Copy, PartialEq, Eq, Structural)]
pub enum TerminalMode {
    /// A plain interactive shell.
    Shell,
    /// The persistent session of the interactive agent.
    Cli,
}

impl Default for TerminalMode {
    fn default() -> (mode: Self)
        ensures
            mode == TerminalMode::Shell,
    {
        TerminalMode::Shell
    }
}

/// What a client asks for when it attaches.
#[derive(Debug)]
pub struct TerminalQuery {
    pub workspace_id: u128,
    /// Absent where the client did not measure its pane.
    pub cols: Option<u16>,
    pub rows: Option<u16>,
    pub mode: TerminalMode,
    /// The session whose conversation the terminal should join.
    pub session_id: Option<u128>,
    /// Whether the client attaches from a hidden page.
    pub hidden: bool,
}

pub const DEFAULT_COLS: u16 = 80;

pub const DEFAULT_ROWS: u16 = 24;

/// A session row, as far as an attach reads it.
#[derive(Debug)]
pub struct TerminalSession {
    pub id: u128,
    pub workspace_id: u128,
    pub executor: Option<String>,
    pub agent_working_dir: Option<String>,
}

/// A workspace row, as far as an attach reads it.
#[derive(Debug)]
pub struct TerminalWorkspace {
    pub container_ref: Option<String>,
}

/// The prompt that is parked for a workspace.
#[derive(Debug)]
pub enum ParkedPrompt {
    /// `prompt` waits on the row of `session_id`.
    Waiting { session_id: u128, prompt: String },
    /// Nothing is parked.
    Empty,
    /// The database could not be read; whatever is parked stays parked.
    Unreadable,
}

/// How a parked prompt can travel, given its size and the agent's launch.
#[derive(Debug)]
pub enum PromptRoute {
    /// The prompt is blank: nothing can be delivered.
    Blank,
    /// It rides along with the launch.
    Baked(String),
    /// It is pasted once the agent owns the pane.
    Deferred(String),
}

/// Everything that an attach learns from outside.
#[derive(Debug)]
pub struct TerminalFacts {
    pub workspace: Option<TerminalWorkspace>,
    /// Whether the workspace's directory exists.
    pub base_exists: bool,
    /// The row of the session that the client named, if it could be read.
    pub requested: Option<TerminalSession>,
    /// The row of the workspace's latest session, if it could be read.
    pub latest: Option<TerminalSession>,
    /// Whether the directory that the session works in exists.
    pub agent_dir_exists: bool,
    /// Whether a headless executor is running the session.
    pub executor_active: bool,
    /// The conversation that the session's latest turn belongs to.
    pub latest_turn: Option<String>,
    pub tmux_available: bool,
    /// Whether this attach won the exclusive claim to deliver the prompt.
    pub claimed: bool,
    pub parked: ParkedPrompt,
    /// Whether the workspace's terminal session is up already.
    pub session_live: bool,
    /// How the parked prompt travels where the agent is launched for it.
    pub initial_route: PromptRoute,
    /// How it travels into an agent that runs, or that resumes a conversation.
    pub followup_route: PromptRoute,
    /// The agent's program.
    pub program: String,
    /// The names of the workspace's repositories, if they could be read.
    pub repos: Option<Vec<String>>,
    /// Whether the directory of the only repository exists.
    pub repo_dir_exists: bool,
}

/// What is needed to confirm the delivery of a prompt and to clear it.
#[derive(Debug)]
pub struct PromptDelivery {
    pub workspace_id: u128,
    /// The session whose parked prompt is cleared.
    pub clear_session_id: u128,
    /// The exact text that was parked: the clear only takes this one away.
    pub peeked: String,
    /// The text to paste; absent where the prompt rides along with the launch.
    pub deferred: Option<String>,
    /// The process that has to own the pane.
    pub program: String,
}

/// A parked prompt to take away at once.
#[derive(Debug)]
pub struct ParkedClear {
    pub session_id: u128,
    pub peeked: String,
}

/// What the terminal is to run.
#[derive(Debug)]
pub enum PtyCommand {
    Shell,
    TmuxCli {
        workspace_id: u128,
        resume_session_id: Option<String>,
        initial_prompt: Option<String>,
        deferred_prompt_pending: bool,
        connect_hidden: bool,
    },
}

/// A decided attach.
#[derive(Debug)]
pub struct TerminalPlan {
    pub working_dir: String,
    pub cols: u16,
    pub rows: u16,
    pub command: PtyCommand,
    /// The delivery that this attach has to see through.
    pub delivery: Option<PromptDelivery>,
    /// The blank prompt that this attach takes away.
    pub clear_blank: Option<ParkedClear>,
}

/// The directory that the workspace lives in, or why there is none.
pub fn workspace_dir(workspace: &Option<TerminalWorkspace>, exists: bool) -> (r: Result<
    String,
    ApiError,
>)
    ensures
        match *workspace {
            None => r is Err && bad_request(r->Err_0, "Attempt not found"@),
            Some(w) => match w.container_ref {
                None => r is Err && bad_request(
                    r->Err_0,
                    "Attempt has no workspace directory"@,
                ),
                Some(dir) => if exists {
                    r is Ok && r->Ok_0@ == dir@
                } else {
                    r is Err && bad_request(r->Err_0, "Workspace directory does not exist"@)
                },
            },
        },
{
    match workspace {
        None => Err(ApiError::BadRequest("Attempt not found".to_owned())),
        Some(w) => match &w.container_ref {
            None => Err(ApiError::BadRequest("Attempt has no workspace directory".to_owned())),
            Some(dir) => {
                if exists {
                    Ok(dir.clone())
                } else {
                    Err(ApiError::BadRequest("Workspace directory does not exist".to_owned()))
                }
            },
        },
    }
}

/// The session that drives an attach: the one that the client named where it
/// belongs to the workspace, else the workspace's latest.
pub open spec fn driving_session(
    requested: Option<TerminalSession>,
    latest: Option<TerminalSession>,
    workspace_id: u128,
) -> Option<TerminalSession> {
    if requested is Some && requested->0.workspace_id == workspace_id {
        requested
    } else {
        latest
    }
}

/// Picks the session that drives an attach. A session of another workspace is
/// never resumed, whoever names it.
pub fn select_session<'a>(
    requested: &'a Option<TerminalSession>,
    latest: &'a Option<TerminalSession>,
    workspace_id: u128,
) -> (session: &'a Option<TerminalSession>)
    ensures
        *session == driving_session(*requested, *latest, workspace_id),
{
    match requested {
        Some(s) => {
            if s.workspace_id == workspace_id {
                requested
            } else {
                latest
            }
        },
        None => latest,
    }
}

/// The directory below the workspace that the session's agent works in.
pub open spec fn relative_agent_dir(session: Option<TerminalSession>) -> Option<Seq<char>> {
    match session {
        Some(s) => match s.agent_working_dir {
            Some(d) => if d@.len() > 0 {
                Some(d@)
            } else {
                None
            },
            None => None,
        },
        None => None,
    }
}

/// Where the agent of a session works: below the workspace, where the session
/// says so and the directory exists, else at its root.
pub open spec fn agent_dir(base: Seq<char>, session: Option<TerminalSession>, exists: bool) -> Seq<
    char,
> {
    match relative_agent_dir(session) {
        Some(rel) => if exists {
            joined_path(base, rel)
        } else {
            base
        },
        None => base,
    }
}

/// The directory that a session's agent would work in below the workspace; the
/// caller looks whether it exists.
pub fn agent_dir_candidate(base: &str, session: &Option<TerminalSession>) -> (out: Option<String>)
    ensures
        opt_text(out) == match relative_agent_dir(*session) {
            Some(rel) => Some(joined_path(base@, rel)),
            None => None,
        },
{
    match session {
        Some(s) => match &s.agent_working_dir {
            Some(d) => {
                if d.as_str().is_empty() {
                    None
                } else {
                    Some(join(base, d.as_str()))
                }
            },
            None => None,
        },
        None => None,
    }
}

/// The conversation that an attach resumes: that of the session's latest turn,
/// unless an executor is writing to it at this moment.
pub open spec fn resumed_conversation(
    session: Option<TerminalSession>,
    executor_active: bool,
    latest_turn: Option<String>,
) -> Option<String> {
    if session is Some && !executor_active {
        latest_turn
    } else {
        None
    }
}

/// Whether the launch will really resume `conversation`: it only does so for a
/// UUID.
pub open spec fn resume_applies(conversation: Option<String>) -> bool {
    conversation is Some && uuid_parsed(conversation->0@) is Some
}

/// Whether the launch will really resume `conversation`.
pub fn resume_will_apply(conversation: &Option<String>) -> (r: bool)
    ensures
        r == resume_applies(*conversation),
{
    match conversation {
        Some(id) => parse_uuid(id.as_str()).is_some(),
        None => false,
    }
}

/// Whether this attach launches the agent for the first time, with nothing to
/// resume.
pub fn is_fresh_launch(conversation: &Option<String>, session_live: bool) -> (r: bool)
    ensures
        r == (!resume_applies(*conversation) && !session_live),
{
    !resume_will_apply(conversation) && !session_live
}

/// The parked prompt that an attach carries: it needs a terminal that can run
/// the agent, the exclusive claim, and a prompt that could be read.
pub open spec fn carried(facts: TerminalFacts) -> Option<(u128, String)> {
    match facts.parked {
        ParkedPrompt::Waiting { session_id, prompt } => if facts.tmux_available && facts.claimed {
            Some((session_id, prompt))
        } else {
            None
        },
        _ => None,
    }
}

/// How the parked prompt travels: with the launch only where the agent starts
/// for the first time, with nothing to resume.
pub open spec fn chosen_route(query: TerminalQuery, facts: TerminalFacts) -> PromptRoute {
    let session = driving_session(facts.requested, facts.latest, query.workspace_id);
    let resume = resumed_conversation(session, facts.executor_active, facts.latest_turn);
    if !resume_applies(resume) && !facts.session_live {
        facts.initial_route
    } else {
        facts.followup_route
    }
}

/// The delivery that a plan has to see through: that of the carried prompt, by
/// the route that was chosen for it.
pub open spec fn planned_delivery(query: TerminalQuery, facts: TerminalFacts) -> Option<
    PromptDelivery,
> {
    match carried(facts) {
        None => None,
        Some((session_id, peeked)) => match chosen_route(query, facts) {
            PromptRoute::Blank => None,
            PromptRoute::Baked(_) => Some(
                PromptDelivery {
                    workspace_id: query.workspace_id,
                    clear_session_id: session_id,
                    peeked,
                    deferred: None,
                    program: facts.program,
                },
            ),
            PromptRoute::Deferred(text) => Some(
                PromptDelivery {
                    workspace_id: query.workspace_id,
                    clear_session_id: session_id,
                    peeked,
                    deferred: Some(text),
                    program: facts.program,
                },
            ),
        },
    }
}

/// The blank prompt that is taken away at once.
pub open spec fn planned_clear(query: TerminalQuery, facts: TerminalFacts) -> Option<ParkedClear> {
    match carried(facts) {
        Some((session_id, peeked)) => if chosen_route(query, facts) is Blank {
            Some(ParkedClear { session_id, peeked })
        } else {
            None
        },
        None => None,
    }
}

/// What a terminal that joins the agent runs.
pub open spec fn planned_cli(query: TerminalQuery, facts: TerminalFacts) -> PtyCommand {
    let session = driving_session(facts.requested, facts.latest, query.workspace_id);
    let resume = resumed_conversation(session, facts.executor_active, facts.latest_turn);
    PtyCommand::TmuxCli {
        workspace_id: query.workspace_id,
        resume_session_id: resume,
        initial_prompt: if carried(facts) is Some {
            match chosen_route(query, facts) {
                PromptRoute::Baked(text) => Some(text),
                _ => None,
            }
        } else {
            None
        },
        deferred_prompt_pending: carried(facts) is Some && chosen_route(query, facts) is Deferred
            && !resume_applies(resume),
        connect_hidden: query.hidden,
    }
}

/// Where a plain shell opens: in the repository of a workspace that has only
/// one, where its directory exists, else at the workspace's root.
pub open spec fn shell_dir(base: Seq<char>, repos: Option<Vec<String>>, exists: bool) -> Seq<char> {
    if repos is Some && repos->0@.len() == 1 && exists {
        joined_path(base, repos->0@[0]@)
    } else {
        base
    }
}

/// The directory of the only repository; the caller looks whether it exists.
pub fn shell_dir_candidate(base: &str, repos: &Option<Vec<String>>) -> (out: Option<String>)
    ensures
        opt_text(out) == if repos is Some && repos->0@.len() == 1 {
            Some(joined_path(base@, repos->0@[0]@))
        } else {
            None
        },
{
    match repos {
        Some(names) => {
            if names.len() == 1 {
                Some(join(base, names[0].as_str()))
            } else {
                None
            }
        },
        None => None,
    }
}

/// Whether an attach lacks the size of its pane.
pub fn attaches_unmeasured(query: &TerminalQuery) -> (r: bool)
    ensures
        r == (query.mode == TerminalMode::Cli && (query.cols is None || query.rows is None)),
{
    match query.mode {
        TerminalMode::Cli => query.cols.is_none() || query.rows.is_none(),
        TerminalMode::Shell => false,
    }
}

/// Whether an attach is answered by `r`.
pub open spec fn plan_is(
    query: TerminalQuery,
    facts: TerminalFacts,
    r: Result<TerminalPlan, ApiError>,
) -> bool {
    match facts.workspace {
        None => r is Err && bad_request(r->Err_0, "Attempt not found"@),
        Some(w) => match w.container_ref {
            None => r is Err && bad_request(r->Err_0, "Attempt has no workspace directory"@),
            Some(base) => if !facts.base_exists {
                r is Err && bad_request(r->Err_0, "Workspace directory does not exist"@)
            } else {
                &&& r is Ok
                &&& r->Ok_0.cols == (if query.cols is Some {
                    query.cols->0
                } else {
                    DEFAULT_COLS
                })
                &&& r->Ok_0.rows == (if query.rows is Some {
                    query.rows->0
                } else {
                    DEFAULT_ROWS
                })
                &&& match query.mode {
                    TerminalMode::Shell => {
                        &&& r->Ok_0.working_dir@ == shell_dir(
                            base@,
                            facts.repos,
                            facts.repo_dir_exists,
                        )
                        &&& r->Ok_0.command == PtyCommand::Shell
                        &&& r->Ok_0.delivery is None
                        &&& r->Ok_0.clear_blank is None
                    },
                    TerminalMode::Cli => {
                        &&& r->Ok_0.working_dir@ == agent_dir(
                            base@,
                            driving_session(
                                facts.requested,
                                facts.latest,
                                query.workspace_id,
                            ),
                            facts.agent_dir_exists,
                        )
                        &&& r->Ok_0.command == planned_cli(query, facts)
                        &&& r->Ok_0.delivery == planned_delivery(query, facts)
                        &&& r->Ok_0.clear_blank == planned_clear(query, facts)
                    },
                }
            },
        },
    }
}

/// Decides an attach from what was asked and what was found.
///
/// A client can only join a conversation of its own workspace, a conversation
/// that an executor is writing to is never resumed, and a prompt is only ever
/// carried by the one attach that holds the claim.
pub fn plan_attach(query: &TerminalQuery, facts: &TerminalFacts) -> (r: Result<
    TerminalPlan,
    ApiError,
>)
    ensures
        plan_is(*query, *facts, r),
{
    let base = match workspace_dir(&facts.workspace, facts.base_exists) {
        Ok(dir) => dir,
        Err(e) => return Err(e),
    };
    let cols: u16 = match query.cols {
        Some(c) => c,
        None => DEFAULT_COLS,
    };
    let rows: u16 = match query.rows {
        Some(r) => r,
        None => DEFAULT_ROWS,
    };
    match query.mode {
        TerminalMode::Shell => {
            let working_dir = match shell_dir_candidate(base.as_str(), &facts.repos) {
                Some(dir) => {
                    if facts.repo_dir_exists {
                        dir
                    } else {
                        base
                    }
                },
                None => base,
            };
            Ok(
                TerminalPlan {
                    working_dir,
                    cols,
                    rows,
                    command: PtyCommand::Shell,
                    delivery: None,
                    clear_blank: None,
                },
            )
        },
        TerminalMode::Cli => {
            let session = select_session(&facts.requested, &facts.latest, query.workspace_id);
            let working_dir = match agent_dir_candidate(base.as_str(), session) {
                Some(dir) => {
                    if facts.agent_dir_exists {
                        dir
                    } else {
                        base
                    }
                },
                None => base,
            };
            let resume_session_id = if session.is_some() && !facts.executor_active {
                clone_opt(&facts.latest_turn)
            } else {
                None
            };
            let route = if is_fresh_launch(&resume_session_id, facts.session_live) {
                &facts.initial_route
            } else {
                &facts.followup_route
            };
            let mut initial_prompt: Option<String> = None;
            let mut deferred_prompt_pending = false;
            let mut delivery: Option<PromptDelivery> = None;
            let mut clear_blank: Option<ParkedClear> = None;
            if facts.tmux_available && facts.claimed {
                match &facts.parked {
                    ParkedPrompt::Waiting { session_id, prompt } => match route {
                        PromptRoute::Blank => {
                            clear_blank =
                            Some(ParkedClear { session_id: *session_id, peeked: prompt.clone() });
                        },
                        PromptRoute::Baked(text) => {
                            initial_prompt = Some(text.clone());
                            delivery =
                            Some(
                                PromptDelivery {
                                    workspace_id: query.workspace_id,
                                    clear_session_id: *session_id,
                                    peeked: prompt.clone(),
                                    deferred: None,
                                    program: facts.program.clone(),
                                },
                            );
                        },
                        PromptRoute::Deferred(text) => {
                            deferred_prompt_pending = !resume_will_apply(&resume_session_id);
                            delivery =
                            Some(
                                PromptDelivery {
                                    workspace_id: query.workspace_id,
                                    clear_session_id: *session_id,
                                    peeked: prompt.clone(),
                                    deferred: Some(text.clone()),
                                    program: facts.program.clone(),
                                },
                            );
                        },
                    },
                    _ => {},
                }
            }
            Ok(
                TerminalPlan {
                    working_dir,
                    cols,
                    rows,
                    command: PtyCommand::TmuxCli {
                        workspace_id: query.workspace_id,
                        resume_session_id,
                        initial_prompt,
                        deferred_prompt_pending,
                        connect_hidden: query.hidden,
                    },
                    delivery,
                    clear_blank,
                },
            )
        },
    }
}

/// A run of a session, as far as its agent's configuration is concerned.
#[derive(Debug)]
pub enum AgentRun {
    /// A run of a coding agent, first or follow-up.
    CodingAgent { model_id: Option<String>, reasoning_id: Option<String> },
    /// Any other run, or one whose action cannot be read.
    Other,
}

/// The configuration of the latest coding-agent run; `runs` is oldest first.
pub open spec fn latest_run_config(runs: Seq<AgentRun>) -> (Option<String>, Option<String>)
    decreases runs.len(),
{
    if runs.len() == 0 {
        (None, None)
    } else {
        match runs.last() {
            AgentRun::CodingAgent { model_id, reasoning_id } => (model_id, reasoning_id),
            AgentRun::Other => latest_run_config(runs.drop_last()),
        }
    }
}

fn last_config(list: &Vec<AgentRun>) -> (r: (Option<String>, Option<String>))
    ensures
        r == latest_run_config(list@),
{
    let mut n: usize = list.len();
    proof {
        assert(list@.take(n as int) =~= list@);
    }
    while n > 0
        invariant
            n <= list@.len(),
            latest_run_config(list@) == latest_run_config(list@.take(n as int)),
        decreases n,
    {
        proof {
            assert(list@.take(n as int).drop_last() =~= list@.take(n - 1));
            assert(list@.take(n as int).last() == list@[n - 1]);
        }
        match &list[n - 1] {
            AgentRun::CodingAgent { model_id, reasoning_id } => {
                return (clone_opt(model_id), clone_opt(reasoning_id));
            },
            AgentRun::Other => {},
        }
        n = n - 1;
    }
    (None, None)
}

/// Whether a stored pair of model and effort says anything.
pub open spec fn is_stored_choice(stored: (Option<String>, Option<String>)) -> bool {
    stored.0 is Some || stored.1 is Some
}

/// The model and the reasoning effort that an agent is launched with.
pub open spec fn chosen_model_effort(
    has_session: bool,
    stored: Option<(Option<String>, Option<String>)>,
    runs: Option<Vec<AgentRun>>,
) -> (Option<String>, Option<String>) {
    if !has_session {
        (None, None)
    } else if stored is Some && is_stored_choice(stored->0) {
        stored->0
    } else if runs is Some {
        latest_run_config(runs->0@)
    } else {
        (None, None)
    }
}

/// The model and the reasoning effort that an agent is launched with: what was
/// stored with the session, else what its latest coding-agent run used.
///
/// `stored` and `runs` are absent where they could not be read.
pub fn resolve_cli_model_effort(
    has_session: bool,
    stored: &Option<(Option<String>, Option<String>)>,
    runs: &Option<Vec<AgentRun>>,
) -> (r: (Option<String>, Option<String>))
    ensures
        r == chosen_model_effort(has_session, *stored, *runs),
{
    if !has_session {
        return (None, None);
    }
    if let Some(pair) = stored {
        if pair.0.is_some() || pair.1.is_some() {
            return (clone_opt(&pair.0), clone_opt(&pair.1));
        }
    }
    match runs {
        Some(list) => last_config(list),
        None => (None, None),
    }
}

/// The launch that is asked of the executors' profiles.
#[derive(Debug)]
pub struct LaunchRequest {
    /// The agent; absent for the default one.
    pub agent: Option<String>,
    /// What replaces the profile's model and effort, where it is present.
    pub model_id: Option<String>,
    pub reasoning_id: Option<String>,
}

/// The agent that a session asks for: the one that it names, where that is an
/// agent at all.
pub open spec fn session_agent(session: Option<TerminalSession>, known: bool) -> Option<String> {
    if session is Some && known {
        session->0.executor
    } else {
        None
    }
}

/// How the agent of a session is launched: the one that it names, where that is
/// known, with the chosen model and effort. An agent that has no interactive
/// launch gives way to a plain launch of the default one.
pub fn resolve_cli_launch_spec(
    session: &Option<TerminalSession>,
    known: bool,
    model_id: Option<String>,
    reasoning_id: Option<String>,
    interactive: bool,
) -> (request: LaunchRequest)
    ensures
        request == if interactive {
            LaunchRequest { agent: session_agent(*session, known), model_id, reasoning_id }
        } else {
            LaunchRequest { agent: None, model_id: None, reasoning_id: None }
        },
{
    if !interactive {
        return LaunchRequest { agent: None, model_id: None, reasoning_id: None };
    }
    let agent = match session {
        Some(s) => {
            if known {
                clone_opt(&s.executor)
            } else {
                None
            }
        },
        None => None,
    };
    LaunchRequest { agent, model_id, reasoning_id }
}

/// What to do once the terminal's process was started, or could not be.
#[derive(Debug, Clone, Copy, PartialEq, Eq, Structural)]
pub enum AfterSpawn {
    /// Report the failure and stop. A staged prompt file goes away; the parked
    /// prompt stays.
    SpawnFailed { remove_prompt_file: bool },
    /// Stream the terminal.
    Stream,
    /// Stream the terminal, and confirm the delivery beside it.
    StreamAndConfirm,
    /// The session never came up: remove the staged prompt file, tell the user
    /// that the prompt is still parked, and close the terminal.
    TearDown,
}

/// Decides how an attach goes on after the spawn.
pub fn after_spawn(spawned: bool, carries_prompt: bool, session_came_up: bool) -> (r: AfterSpawn)
    ensures
        r == if !spawned {
            AfterSpawn::SpawnFailed { remove_prompt_file: carries_prompt }
        } else if !carries_prompt {
            AfterSpawn::Stream
        } else if session_came_up {
            AfterSpawn::StreamAndConfirm
        } else {
            AfterSpawn::TearDown
        },
{
    if !spawned {
        AfterSpawn::SpawnFailed { remove_prompt_file: carries_prompt }
    } else if !carries_prompt {
        AfterSpawn::Stream
    } else if session_came_up {
        AfterSpawn::StreamAndConfirm
    } else {
        AfterSpawn::TearDown
    }
}

/// The parked prompt that is cleared after a delivery: the very one that was
/// delivered, and only where the delivery was confirmed.
pub fn clear_after_delivery(delivery: &PromptDelivery, delivered: bool) -> (r: Option<ParkedClear>)
    ensures
        r == if delivered {
            Some(ParkedClear { session_id: delivery.clear_session_id, peeked: delivery.peeked })
        } else {
            None
        },
{
    if delivered {
        Some(
            ParkedClear {
                session_id: delivery.clear_session_id,
                peeked: delivery.peeked.clone(),
            },
        )
    } else {
        None
    }
}

/// A command that a client sends.
#[derive(Debug)]
pub enum TerminalCommand {
    /// Typed bytes, in base64.
    Input { data: String },
    Resize { cols: u16, rows: u16 },
    Presence { visible: bool },
}

/// What arrives on the client's socket.
#[derive(Debug)]
pub enum Inbound {
    /// A text frame; absent where it is no command.
    Text(Option<TerminalCommand>),
    Close,
    /// A frame of another kind.
    Other,
    /// The stream ended.
    End,
    /// The stream failed.
    Failed,
}

/// What is done about it.
#[derive(Debug)]
pub enum InboundStep {
    /// Show the bytes to the tripwire and write them to the terminal.
    Write(Vec<u8>),
    Resize { cols: u16, rows: u16 },
    Presence { visible: bool },
    /// Nothing.
    Skip,
    /// Leave the loop.
    Stop,
}

/// Decides what is done about what a client sends.
pub fn inbound_step(inbound: Inbound) -> (step: InboundStep)
    ensures
        match inbound {
            Inbound::Text(Some(TerminalCommand::Input { data })) => match base64_bytes(data@) {
                Some(bytes) => step is Write && step->Write_0@ == bytes,
                None => step == InboundStep::Skip,
            },
            Inbound::Text(Some(TerminalCommand::Resize { cols, rows })) => step
                == (InboundStep::Resize { cols, rows }),
            Inbound::Text(Some(TerminalCommand::Presence { visible })) => step
                == (InboundStep::Presence { visible }),
            Inbound::Text(None) => step == InboundStep::Skip,
            Inbound::Other => step == InboundStep::Skip,
            Inbound::Close => step == InboundStep::Stop,
            Inbound::End => step == InboundStep::Stop,
            Inbound::Failed => step == InboundStep::Stop,
        },
{
    match inbound {
        Inbound::Text(Some(command)) => match command {
            TerminalCommand::Input { data } => match decode_base64(data.as_str()) {
                Some(bytes) => InboundStep::Write(bytes),
                None => InboundStep::Skip,
            },
            TerminalCommand::Resize { cols, rows } => InboundStep::Resize { cols, rows },
            TerminalCommand::Presence { visible } => InboundStep::Presence { visible },
        },
        Inbound::Text(None) => InboundStep::Skip,
        Inbound::Other => InboundStep::Skip,
        Inbound::Close => InboundStep::Stop,
        Inbound::End => InboundStep::Stop,
        Inbound::Failed => InboundStep::Stop,
    }
}

/// The payload that carries output bytes to a client.
pub fn output_data(bytes: &[u8]) -> (data: String)
    ensures
        data@ == base64_text(bytes@),
        base64_bytes(data@) == Some(bytes@),
{
    encode_base64(bytes)
}

/// How often a terminal session is looked for after a spawn.
pub const SESSION_POLLS: u32 = 10;

/// How often a baked prompt is looked after.
pub const BAKED_POLLS: u32 = 30;

/// How often the pane is looked at before a deferred prompt is given up.
pub const DEFERRED_POLLS: u32 = 60;

/// The pause between two looks.
pub const POLL_PAUSE_MS: u64 = 250;

/// What one look leads to.
#[derive(Debug, Clone, Copy, PartialEq, Eq, Structural)]
pub enum PollStep {
    Confirmed,
    /// Look again after a pause.
    Again { wait_ms: u64 },
    /// All looks are used: pause once more and give up.
    GaveUp { wait_ms: u64 },
}

/// A bounded number of looks for one condition.
#[derive(Debug, Clone, Copy, PartialEq, Eq, Structural)]
pub struct Poll {
    pub used: u32,
    pub limit: u32,
    /// The pause behind the last look.
    pub last_wait_ms: u64,
}

impl Poll {
    /// The looks for a terminal session after a spawn.
    pub fn for_session() -> (p: Poll)
        ensures
            p == (Poll { used: 0, limit: SESSION_POLLS, last_wait_ms: 0 }),
    {
        Poll { used: 0, limit: SESSION_POLLS, last_wait_ms: 0 }
    }

    /// The looks for a baked prompt to be consumed.
    pub fn for_baked_prompt() -> (p: Poll)
        ensures
            p == (Poll { used: 0, limit: BAKED_POLLS, last_wait_ms: POLL_PAUSE_MS }),
    {
        Poll { used: 0, limit: BAKED_POLLS, last_wait_ms: POLL_PAUSE_MS }
    }

    /// The state after one look.
    pub open spec fn after(self, seen: bool) -> (Poll, PollStep) {
        let next = Poll { used: (self.used + 1) as u32, ..self };
        if seen {
            (next, PollStep::Confirmed)
        } else if next.used < next.limit {
            (next, PollStep::Again { wait_ms: POLL_PAUSE_MS })
        } else {
            (next, PollStep::GaveUp { wait_ms: self.last_wait_ms })
        }
    }

    /// Takes the outcome of one look.
    pub fn look(self, seen: bool) -> (r: (Poll, PollStep))
        requires
            self.used < self.limit,
        ensures
            r == self.after(seen),
    {
        let next = Poll {
            used: self.used + 1,
            limit: self.limit,
            last_wait_ms: self.last_wait_ms,
        };
        if seen {
            (next, PollStep::Confirmed)
        } else if next.used < next.limit {
            (next, PollStep::Again { wait_ms: POLL_PAUSE_MS })
        } else {
            (next, PollStep::GaveUp { wait_ms: self.last_wait_ms })
        }
    }
}

/// Where a series of looks that all saw what `seen` says ends.
pub open spec fn poll_outcome(p: Poll, seen: Seq<bool>) -> PollStep
    decreases seen.len(),
{
    if seen.len() == 0 {
        PollStep::Again { wait_ms: POLL_PAUSE_MS }
    } else {
        let (next, step) = p.after(seen[0]);
        match step {
            PollStep::Again { wait_ms } => poll_outcome(next, seen.skip(1)),
            _ => step,
        }
    }
}

/// A series of looks is confirmed exactly where one of the allowed looks saw
/// the condition, and is given up exactly where all of them were used and none
/// did.
pub proof fn law_poll_outcome(p: Poll, seen: Seq<bool>)
    requires
        p.used < p.limit,
    ensures
        poll_outcome(p, seen) is Confirmed <==> exists|i: int|
            0 <= i < seen.len() && i < p.limit - p.used && #[trigger] seen[i],
        poll_outcome(p, seen) is GaveUp <==> seen.len() >= p.limit - p.used && forall|i: int|
            0 <= i < p.limit - p.used ==> !#[trigger] seen[i],
    decreases seen.len(),
{
    if seen.len() > 0 {
        let (next, step) = p.after(seen[0]);
        if step is Again {
            let rest = seen.skip(1);
            law_poll_outcome(next, rest);
            assert(forall|i: int| 0 <= i < rest.len() ==> #[trigger] rest[i] == seen[i + 1]);
            if exists|i: int| 0 <= i < seen.len() && i < p.limit - p.used && #[trigger] seen[i] {
                let i = choose|i: int|
                    0 <= i < seen.len() && i < p.limit - p.used && #[trigger] seen[i];
                assert(rest[i - 1]);
            }
            if seen.len() >= p.limit - p.used && forall|i: int|
                0 <= i < p.limit - p.used ==> !#[trigger] seen[i] {
                assert forall|i: int| 0 <= i < next.limit - next.used implies !#[trigger] rest[i] by {
                    assert(rest[i] == seen[i + 1]);
                }
            }
            if seen.len() >= p.limit - p.used && forall|i: int|
                0 <= i < next.limit - next.used ==> !#[trigger] rest[i] {
                assert forall|i: int| 0 <= i < p.limit - p.used implies !#[trigger] seen[i] by {
                    if i > 0 {
                        assert(rest[i - 1] == seen[i]);
                    }
                }
            }
        } else if seen[0] {
            assert(seen[0]);
        }
    }
}

/// Whether a baked prompt counts as handed over: its file is gone and the
/// agent owns the pane. Either alone is not enough.
pub fn baked_prompt_consumed(prompt_file_exists: bool, agent_running: Option<bool>) -> (r: bool)
    ensures
        r == (!prompt_file_exists && agent_running == Some(true)),
{
    match agent_running {
        Some(true) => !prompt_file_exists,
        _ => false,
    }
}

/// How far the delivery of a deferred prompt has come.
#[derive(Debug, Clone, Copy, PartialEq, Eq, Structural)]
pub enum PasteState {
    /// Waiting for the agent to own the pane on two looks in a row. `polls`
    /// counts the looks, this one included.
    Polling { polls: u32, stable: u32, wait_ms: u64 },
    /// The pane could not be read: is the session still there?
    Checking { polls: u32 },
    /// The agent was seen twice; it is looked at once more before the paste.
    Grace { polls: u32 },
    /// The prompt is being pasted.
    Pasting,
    /// The prompt was pasted; the agent has to survive it.
    Settling,
    /// Over, after a last pause.
    Done { delivered: bool, wait_ms: u64 },
}

/// What the delivery needs next.
#[derive(Debug, Clone, Copy, PartialEq, Eq, Structural)]
pub enum PasteAsk {
    /// Wait, then see whether the agent owns the pane.
    Agent { wait_ms: u64 },
    /// See whether the terminal session exists.
    Session,
    /// Paste the prompt.
    Paste,
    /// Pause, and end.
    Finish { delivered: bool, wait_ms: u64 },
}

/// What came back.
#[derive(Debug, Clone, Copy, PartialEq, Eq, Structural)]
pub enum PasteAnswer {
    /// Whether the agent owns the pane; absent where the pane is unreadable.
    Agent(Option<bool>),
    Session(bool),
    Pasted(bool),
}

/// The next look, or the end where all looks are used.
pub open spec fn next_poll(polls: u32, stable: u32, wait_ms: u64) -> PasteState {
    if polls >= DEFERRED_POLLS {
        PasteState::Done { delivered: false, wait_ms }
    } else {
        PasteState::Polling { polls: (polls + 1) as u32, stable, wait_ms }
    }
}

impl PasteState {
    /// The first look.
    pub open spec fn first() -> PasteState {
        PasteState::Polling { polls: 1, stable: 0, wait_ms: 0 }
    }

    /// The states that a delivery can be in.
    pub open spec fn valid(self) -> bool {
        match self {
            PasteState::Polling { polls, stable, .. } => 1 <= polls <= DEFERRED_POLLS && stable
                <= 1,
            PasteState::Checking { polls } => 1 <= polls <= DEFERRED_POLLS,
            PasteState::Grace { polls } => 1 <= polls <= DEFERRED_POLLS,
            _ => true,
        }
    }

    /// The state after an answer. An answer to another question than the one
    /// that was asked changes nothing.
    pub open spec fn after(self, answer: PasteAnswer) -> PasteState {
        match (self, answer) {
            (PasteState::Polling { polls, stable, .. }, PasteAnswer::Agent(Some(true))) => if stable
                >= 1 {
                PasteState::Grace { polls }
            } else {
                next_poll(polls, (stable + 1) as u32, POLL_PAUSE_MS)
            },
            (PasteState::Polling { polls, .. }, PasteAnswer::Agent(Some(false))) => next_poll(
                polls,
                0,
                POLL_PAUSE_MS,
            ),
            (PasteState::Polling { polls, .. }, PasteAnswer::Agent(None)) => PasteState::Checking {
                polls,
            },
            (PasteState::Checking { polls }, PasteAnswer::Session(exists)) => if exists {
                next_poll(polls, 0, POLL_PAUSE_MS)
            } else {
                PasteState::Done { delivered: false, wait_ms: 0 }
            },
            (PasteState::Grace { polls }, PasteAnswer::Agent(seen)) => if seen == Some(true) {
                PasteState::Pasting
            } else {
                next_poll(polls, 0, 0)
            },
            (PasteState::Pasting, PasteAnswer::Pasted(ok)) => if ok {
                PasteState::Settling
            } else {
                PasteState::Done { delivered: false, wait_ms: 0 }
            },
            (PasteState::Settling, PasteAnswer::Agent(seen)) => PasteState::Done {
                delivered: seen == Some(true),
                wait_ms: 0,
            },
            _ => self,
        }
    }

    /// Starts a delivery.
    pub fn start() -> (s: PasteState)
        ensures
            s == PasteState::first(),
            s.valid(),
    {
        PasteState::Polling { polls: 1, stable: 0, wait_ms: 0 }
    }

    /// What the delivery needs next.
    pub open spec fn asks(self) -> PasteAsk {
        match self {
            PasteState::Polling { wait_ms, .. } => PasteAsk::Agent { wait_ms },
            PasteState::Checking { .. } => PasteAsk::Session,
            PasteState::Grace { .. } => PasteAsk::Agent { wait_ms: 750 },
            PasteState::Pasting => PasteAsk::Paste,
            PasteState::Settling => PasteAsk::Agent { wait_ms: 500 },
            PasteState::Done { delivered, wait_ms } => PasteAsk::Finish { delivered, wait_ms },
        }
    }

    /// What the delivery needs next.
    pub fn ask(self) -> (a: PasteAsk)
        ensures
            a == self.asks(),
    {
        match self {
            PasteState::Polling { wait_ms, .. } => PasteAsk::Agent { wait_ms },
            PasteState::Checking { .. } => PasteAsk::Session,
            PasteState::Grace { .. } => PasteAsk::Agent { wait_ms: 750 },
            PasteState::Pasting => PasteAsk::Paste,
            PasteState::Settling => PasteAsk::Agent { wait_ms: 500 },
            PasteState::Done { delivered, wait_ms } => PasteAsk::Finish { delivered, wait_ms },
        }
    }

    fn poll_again(polls: u32, stable: u32, wait_ms: u64) -> (s: PasteState)
        ensures
            s == next_poll(polls, stable, wait_ms),
    {
        if polls >= DEFERRED_POLLS {
            PasteState::Done { delivered: false, wait_ms }
        } else {
            PasteState::Polling { polls: polls + 1, stable, wait_ms }
        }
    }

    /// Takes an answer.
    pub fn step(self, answer: PasteAnswer) -> (next: PasteState)
        ensures
            next == self.after(answer),
            self.valid() ==> next.valid(),
    {
        match (self, answer) {
            (PasteState::Polling { polls, stable, .. }, PasteAnswer::Agent(seen)) => match seen {
                Some(true) => {
                    if stable >= 1 {
                        PasteState::Grace { polls }
                    } else {
                        PasteState::poll_again(polls, stable + 1, POLL_PAUSE_MS)
                    }
                },
                Some(false) => PasteState::poll_again(polls, 0, POLL_PAUSE_MS),
                None => PasteState::Checking { polls },
            },
            (PasteState::Checking { polls }, PasteAnswer::Session(exists)) => {
                if exists {
                    PasteState::poll_again(polls, 0, POLL_PAUSE_MS)
                } else {
                    PasteState::Done { delivered: false, wait_ms: 0 }
                }
            },
            (PasteState::Grace { polls }, PasteAnswer::Agent(seen)) => match seen {
                Some(true) => PasteState::Pasting,
                _ => PasteState::poll_again(polls, 0, 0),
            },
            (PasteState::Pasting, PasteAnswer::Pasted(ok)) => {
                if ok {
                    PasteState::Settling
                } else {
                    PasteState::Done { delivered: false, wait_ms: 0 }
                }
            },
            (PasteState::Settling, PasteAnswer::Agent(seen)) => match seen {
                Some(true) => PasteState::Done { delivered: true, wait_ms: 0 },
                _ => PasteState::Done { delivered: false, wait_ms: 0 },
            },
            _ => self,
        }
    }

    /// Whether `answer` answers what the state asks.
    pub open spec fn answered_by(self, answer: PasteAnswer) -> bool {
        match self {
            PasteState::Polling { .. } => answer is Agent,
            PasteState::Checking { .. } => answer is Session,
            PasteState::Grace { .. } => answer is Agent,
            PasteState::Pasting => answer is Pasted,
            PasteState::Settling => answer is Agent,
            PasteState::Done { .. } => false,
        }
    }

    /// How many answers a delivery can still take.
    pub open spec fn budget(self) -> int {
        match self {
            PasteState::Polling { polls, .. } => 3 * (DEFERRED_POLLS - polls) + 4,
            PasteState::Checking { polls } => 3 * (DEFERRED_POLLS - polls) + 3,
            PasteState::Grace { polls } => 3 * (DEFERRED_POLLS - polls) + 3,
            PasteState::Pasting => 2,
            PasteState::Settling => 1,
            PasteState::Done { .. } => 0,
        }
    }
}

/// A delivery ends: every answer leaves less to be asked.
pub proof fn law_paste_ends(s: PasteState, answer: PasteAnswer)
    requires
        s.valid(),
        s.answered_by(answer),
    ensures
        0 <= s.after(answer).budget() < s.budget(),
{
}

/// Where a delivery stands after the answers so far.
pub open spec fn paste_run(answers: Seq<PasteAnswer>) -> PasteState
    decreases answers.len(),
{
    if answers.len() == 0 {
        PasteState::first()
    } else {
        paste_run(answers.drop_last()).after(answers.last())
    }
}

/// A run in which every answer answers what was asked.
pub open spec fn paste_protocol(answers: Seq<PasteAnswer>) -> bool
    decreases answers.len(),
{
    answers.len() == 0 || (paste_protocol(answers.drop_last()) && paste_run(
        answers.drop_last(),
    ).answered_by(answers.last()))
}

/// A deferred prompt only counts as delivered where the agent was seen on two
/// looks in a row and once more right before the paste, the paste went through,
/// and the agent was still there after it.
pub proof fn law_delivery_is_confirmed(answers: Seq<PasteAnswer>)
    requires
        paste_protocol(answers),
        paste_run(answers) matches PasteState::Done { delivered, .. } && delivered,
    ensures
        answers.len() >= 5,
        ({
            let n = answers.len();
            &&& answers[n - 5] == PasteAnswer::Agent(Some(true))
            &&& answers[n - 4] == PasteAnswer::Agent(Some(true))
            &&& answers[n - 3] == PasteAnswer::Agent(Some(true))
            &&& answers[n - 2] == PasteAnswer::Pasted(true)
            &&& answers[n - 1] == PasteAnswer::Agent(Some(true))
        }),
{
    let a1 = answers.drop_last();
    assert(paste_run(a1) == PasteState::Settling);
    assert(a1.len() > 0 && paste_protocol(a1));
    let a2 = a1.drop_last();
    assert(paste_run(a2) == PasteState::Pasting);
    assert(a2.len() > 0 && paste_protocol(a2));
    let a3 = a2.drop_last();
    assert(paste_run(a3) is Grace);
    assert(a3.len() > 0 && paste_protocol(a3));
    let a4 = a3.drop_last();
    assert(paste_run(a4) is Polling && paste_run(a4)->stable >= 1);
    assert(a4.len() > 0 && paste_protocol(a4));
    let a5 = a4.drop_last();
    assert(a4.last() == PasteAnswer::Agent(Some(true)));
}

/// How long after an attach input is still logged.
pub const TRIPWIRE_WINDOW_MS: u64 = 2000;

/// How many bytes of input are logged at most.
pub const TRIPWIRE_MAX_BYTES: usize = 128;

/// A line that the tripwire logs.
#[derive(Debug)]
pub struct TripwireLine {
    pub ms_since_attach: u64,
    /// The redacted bytes.
    pub bytes: String,
}

/// Logs what a client types right after attaching, within a time window and a
/// byte budget, with everything but control bytes masked.
#[derive(Debug)]
pub struct AttachInputTripwire {
    /// The name of the terminal's session.
    pub session: String,
    /// The identifier of this attach.
    pub attach_id: u128,
    pub bytes_logged: usize,
}

impl AttachInputTripwire {
    /// Whether the budget is kept.
    pub open spec fn valid(self) -> bool {
        self.bytes_logged <= TRIPWIRE_MAX_BYTES
    }

    pub fn new(session: String, attach_id: u128) -> (t: Self)
        ensures
            t.session == session,
            t.attach_id == attach_id,
            t.bytes_logged == 0,
            t.valid(),
    {
        AttachInputTripwire { session, attach_id, bytes_logged: 0 }
    }

    /// How many bytes of a chunk of `len` bytes are logged.
    pub open spec fn taken(self, len: nat, elapsed_ms: u64) -> nat {
        if self.bytes_logged >= TRIPWIRE_MAX_BYTES || elapsed_ms >= TRIPWIRE_WINDOW_MS {
            0
        } else if len <= TRIPWIRE_MAX_BYTES - self.bytes_logged {
            len
        } else {
            (TRIPWIRE_MAX_BYTES - self.bytes_logged) as nat
        }
    }

    /// Takes a chunk of input that arrived `elapsed_ms` after the attach, and
    /// returns the line to log, if any. The first chunk behind the window
    /// spends the budget, so nothing is logged from then on.
    pub fn observe(&mut self, bytes: &[u8], elapsed_ms: u64) -> (line: Option<TripwireLine>)
        requires
            old(self).valid(),
        ensures
            final(self).valid(),
            final(self).session == old(self).session,
            final(self).attach_id == old(self).attach_id,
            final(self).bytes_logged == if bytes@.len() > 0 && elapsed_ms >= TRIPWIRE_WINDOW_MS {
                TRIPWIRE_MAX_BYTES as int
            } else {
                old(self).bytes_logged + old(self).taken(bytes@.len(), elapsed_ms)
            },
            line is Some <==> old(self).taken(bytes@.len(), elapsed_ms) > 0,
            line is Some ==> line->0.ms_since_attach == elapsed_ms && line->0.bytes@ == redacted(
                bytes@.take(old(self).taken(bytes@.len(), elapsed_ms) as int),
            ),
    {
        let len: usize = bytes.len();
        if len == 0 || self.bytes_logged >= TRIPWIRE_MAX_BYTES {
            return None;
        }
        if elapsed_ms >= TRIPWIRE_WINDOW_MS {
            self.bytes_logged = TRIPWIRE_MAX_BYTES;
            return None;
        }
        let room: usize = TRIPWIRE_MAX_BYTES - self.bytes_logged;
        let take: usize = if room < len {
            room
        } else {
            len
        };
        let dump = hex_dump_prefix(bytes, take);
        self.bytes_logged = self.bytes_logged + take;
        Some(TripwireLine { ms_since_attach: elapsed_ms, bytes: dump })
    }
}

/// The bytes that the tripwire shows: control bytes and DEL.
pub open spec fn shown_byte(b: u8) -> bool {
    b < 0x20 || b == 0x7f
}

/// How the tripwire writes a byte.
pub open spec fn byte_cell(b: u8) -> Seq<char> {
    if shown_byte(b) {
        hex_pair(b)
    } else {
        seq!['.', '.']
    }
}

/// How the tripwire writes bytes: one cell for each, with spaces between.
pub open spec fn redacted(bytes: Seq<u8>) -> Seq<char> {
    joined(bytes.map_values(|b: u8| byte_cell(b)), seq![' '])
}

fn hex_dump_prefix(bytes: &[u8], take: usize) -> (out: String)
    requires
        take <= bytes@.len(),
    ensures
        out@ == redacted(bytes@.take(take as int)),
{
    let mut out = String::new();
    for i in 0..take
        invariant
            take <= bytes@.len(),
            out@ == redacted(bytes@.take(i as int)),
    {
        let b: u8 = bytes[i];
        let ghost before = out@;
        if i > 0 {
            out.push(' ');
        }
        if b < 0x20 || b == 0x7f {
            push_hex(&mut out, b);
        } else {
            out.push('.');
            out.push('.');
        }
        proof {
            let cells = bytes@.take(i + 1).map_values(|b: u8| byte_cell(b));
            assert(cells.drop_last() =~= bytes@.take(i as int).map_values(|b: u8| byte_cell(b)));
            assert(cells.last() == byte_cell(b));
            if i > 0 {
                assert(out@ =~= before + seq![' '] + byte_cell(b));
            } else {
                assert(before =~= Seq::<char>::empty());
                assert(out@ =~= byte_cell(b));
                assert(cells[0] == byte_cell(b));
            }
        }
    }
    out
}

/// The redacted form of input bytes.
pub fn hex_dump(bytes: &[u8]) -> (out: String)
    ensures
        out@ == redacted(bytes@),
{
    proof {
        assert(bytes@.take(bytes@.len() as int) =~= bytes@);
    }
    hex_dump_prefix(bytes, bytes.len())
}

/// No byte but a control byte can be told from the log: inputs that agree on
/// which bytes are control bytes, and on those, are written the same.
pub proof fn law_redaction_hides_input(a: Seq<u8>, b: Seq<u8>)
    requires
        a.len() == b.len(),
        forall|i: int|
            0 <= i < a.len() ==> #[trigger] a[i] == b[i] || !shown_byte(a[i]) && !shown_byte(b[i]),
    ensures
        redacted(a) == redacted(b),
{
    assert(a.map_values(|x: u8| byte_cell(x)) =~= b.map_values(|x: u8| byte_cell(x)));
}

/// Only the attach that holds the claim carries a prompt, and what it takes
/// away or delivers is the prompt that was parked.
pub proof fn law_prompt_needs_claim(query: TerminalQuery, facts: TerminalFacts)
    ensures
        planned_delivery(query, facts) is Some || planned_clear(query, facts) is Some ==> facts.claimed
            && facts.tmux_available && facts.parked is Waiting,
        planned_delivery(query, facts) is Some ==> facts.parked == (ParkedPrompt::Waiting {
            session_id: planned_delivery(query, facts)->0.clear_session_id,
            prompt: planned_delivery(query, facts)->0.peeked,
        }),
        !(planned_delivery(query, facts) is Some && planned_clear(query, facts) is Some),
{
}

/// An attach never joins a conversation of another workspace's session, and
/// never one that an executor is writing to.
pub proof fn law_no_foreign_resume(query: TerminalQuery, facts: TerminalFacts)
    requires
        facts.latest is Some ==> facts.latest->0.workspace_id == query.workspace_id,
    ensures
        ({
            let session = driving_session(facts.requested, facts.latest, query.workspace_id);
            session is Some ==> session->0.workspace_id == query.workspace_id
        }),
        facts.executor_active ==> planned_cli(query, facts)->resume_session_id is None,
{
}

/// Where an attach to the agent opens and what it resumes, for the session `s`
/// that drives it.
pub open spec fn driven_by(
    query: TerminalQuery,
    facts: TerminalFacts,
    plan: TerminalPlan,
    s: TerminalSession,
) -> bool {
    let base = facts.workspace->0.container_ref->0@;
    let own_dir = s.agent_working_dir is Some && s.agent_working_dir->0@.len() > 0
        && facts.agent_dir_exists;
    &&& plan.command is TmuxCli
    &&& own_dir ==> plan.working_dir@ == joined_path(base, s.agent_working_dir->0@)
    &&& !own_dir ==> plan.working_dir@ == base
    &&& facts.executor_active ==> plan.command->resume_session_id is None
    &&& !facts.executor_active ==> plan.command->resume_session_id == facts.latest_turn
}

/// The session that the client named drives the attach where it belongs to the
/// workspace, and the workspace's latest session does otherwise: the terminal
/// opens where that session works and resumes its conversation. Where there is no
/// session at all, the terminal opens at the workspace's root and resumes
/// nothing.
pub proof fn law_session_drives_attach(
    query: TerminalQuery,
    facts: TerminalFacts,
    plan: TerminalPlan,
)
    requires
        plan_is(query, facts, Ok(plan)),
        query.mode == TerminalMode::Cli,
    ensures
        facts.requested is Some && facts.requested->0.workspace_id == query.workspace_id
            ==> driven_by(query, facts, plan, facts.requested->0),
        (facts.requested is None || facts.requested->0.workspace_id != query.workspace_id)
            && facts.latest is Some ==> driven_by(query, facts, plan, facts.latest->0),
        (facts.requested is None || facts.requested->0.workspace_id != query.workspace_id)
            && facts.latest is None ==> plan.command is TmuxCli && plan.working_dir@
            == facts.workspace->0.container_ref->0@ && plan.command->resume_session_id is None,
{
}

/// An attach is granted wherever the workspace has a directory that exists, and
/// refused everywhere else. It takes the size that the client measured.
pub proof fn law_attach_is_granted(
    query: TerminalQuery,
    facts: TerminalFacts,
    r: Result<TerminalPlan, ApiError>,
)
    requires
        plan_is(query, facts, r),
    ensures
        r is Ok <==> facts.workspace is Some && facts.workspace->0.container_ref is Some
            && facts.base_exists,
        r is Ok ==> {
            &&& query.cols is Some ==> r->Ok_0.cols == query.cols->0
            &&& query.cols is None ==> r->Ok_0.cols == 80
            &&& query.rows is Some ==> r->Ok_0.rows == query.rows->0
            &&& query.rows is None ==> r->Ok_0.rows == 24
            &&& query.mode == TerminalMode::Cli ==> r->Ok_0.command is TmuxCli
                && r->Ok_0.command->workspace_id == query.workspace_id
                && r->Ok_0.command->connect_hidden == query.hidden
        },
        r is Err ==> r->Err_0 is BadRequest,
{
}

/// A plain shell opens in the workspace's only repository where that is there,
/// else at the root; it never carries a prompt.
pub proof fn law_shell_opens_in_the_only_repository(
    query: TerminalQuery,
    facts: TerminalFacts,
    plan: TerminalPlan,
)
    requires
        plan_is(query, facts, Ok(plan)),
        query.mode == TerminalMode::Shell,
    ensures
        plan.command is Shell,
        plan.delivery is None && plan.clear_blank is None,
        ({
            let base = facts.workspace->0.container_ref->0@;
            let only = facts.repos is Some && facts.repos->0@.len() == 1 && facts.repo_dir_exists;
            &&& only ==> plan.working_dir@ == joined_path(base, facts.repos->0@[0]@)
            &&& !only ==> plan.working_dir@ == base
        }),
{
}

/// The attach that holds the claim carries the parked prompt: with the launch
/// where the agent starts afresh and the prompt fits there, as a paste where it
/// has to be, and away where it is blank. Any other attach carries nothing.
pub proof fn law_claimed_prompt_travels(
    query: TerminalQuery,
    facts: TerminalFacts,
    plan: TerminalPlan,
    route: PromptRoute,
)
    requires
        plan_is(query, facts, Ok(plan)),
        query.mode == TerminalMode::Cli,
        ({
            let resumed = plan.command->resume_session_id;
            let afresh = !facts.session_live && !(resumed is Some && uuid_parsed(resumed->0@) is Some);
            if afresh {
                route == facts.initial_route
            } else {
                route == facts.followup_route
            }
        }),
    ensures
        ({
            let waits = facts.tmux_available && facts.claimed && facts.parked is Waiting;
            let resumed = plan.command->resume_session_id;
            let resumes = resumed is Some && uuid_parsed(resumed->0@) is Some;
            &&& !waits ==> plan.delivery is None && plan.clear_blank is None
                && plan.command->initial_prompt is None && !plan.command->deferred_prompt_pending
            &&& waits && route is Blank ==> plan.delivery is None && plan.clear_blank is Some
                && plan.clear_blank->0.session_id == facts.parked->session_id
                && plan.clear_blank->0.peeked == facts.parked->prompt
                && plan.command->initial_prompt is None && !plan.command->deferred_prompt_pending
            &&& waits && !(route is Blank) ==> plan.clear_blank is None && plan.delivery is Some
                && plan.delivery->0.workspace_id == query.workspace_id
                && plan.delivery->0.clear_session_id == facts.parked->session_id
                && plan.delivery->0.peeked == facts.parked->prompt
                && plan.delivery->0.program == facts.program
            &&& waits && route is Baked ==> plan.command->initial_prompt == Some(route->Baked_0)
                && plan.delivery->0.deferred is None && !plan.command->deferred_prompt_pending
            &&& waits && route is Deferred ==> plan.command->initial_prompt is None
                && plan.delivery->0.deferred == Some(route->Deferred_0)
                && plan.command->deferred_prompt_pending == !resumes
        }),
{
}

/// The model and the effort are those that were stored with the session; where
/// neither was, those of its latest run of a coding agent; and none where it
/// never had one.
pub proof fn law_latest_agent_run_decides(
    stored: Option<(Option<String>, Option<String>)>,
    runs: Option<Vec<AgentRun>>,
)
    ensures
        chosen_model_effort(false, stored, runs) == (None::<String>, None::<String>),
        (stored matches Some((model, effort)) && (model is Some || effort is Some)) ==> chosen_model_effort(
            true,
            stored,
            runs,
        ) == stored->0,
        (stored matches Some((model, effort)) ==> model is None && effort is None) ==> {
            let r = chosen_model_effort(true, stored, runs);
            &&& runs is None ==> r == (None::<String>, None::<String>)
            &&& runs is Some && (forall|i: int|
                0 <= i < runs->0@.len() ==> #[trigger] runs->0@[i] is Other) ==> r == (
                None::<String>,
                None::<String>,
            )
            &&& runs is Some ==> forall|i: int|
                0 <= i < runs->0@.len() && #[trigger] runs->0@[i] is CodingAgent && (forall|j: int|
                    i < j < runs->0@.len() ==> #[trigger] runs->0@[j] is Other) ==> r == (
                    runs->0@[i]->model_id,
                    runs->0@[i]->reasoning_id,
                )
        },
{
    if runs is Some {
        lemma_latest_run(runs->0@);
    }
}

proof fn lemma_latest_run(runs: Seq<AgentRun>)
    ensures
        (forall|i: int| 0 <= i < runs.len() ==> #[trigger] runs[i] is Other) ==> latest_run_config(
            runs,
        ) == (None::<String>, None::<String>),
        forall|i: int|
            0 <= i < runs.len() && #[trigger] runs[i] is CodingAgent && (forall|j: int|
                i < j < runs.len() ==> #[trigger] runs[j] is Other) ==> latest_run_config(runs) == (
                runs[i]->model_id,
                runs[i]->reasoning_id,
            ),
    decreases runs.len(),
{
    if runs.len() > 0 {
        let head = runs.drop_last();
        lemma_latest_run(head);
        assert forall|i: int| 0 <= i < head.len() implies #[trigger] head[i] == runs[i] by {}
        assert(runs[runs.len() - 1] == runs.last());
        assert forall|i: int|
            0 <= i < runs.len() && #[trigger] runs[i] is CodingAgent && (forall|j: int|
                i < j < runs.len() ==> #[trigger] runs[j] is Other) implies latest_run_config(runs)
            == (runs[i]->model_id, runs[i]->reasoning_id) by {
            if i < head.len() {
                assert(head[i] is CodingAgent);
                assert forall|j: int| i < j < head.len() implies #[trigger] head[j] is Other by {
                    assert(runs[j] is Other);
                }
            }
        }
    }
}

/// An agent that is seen whenever it is looked at gets its prompt: after two
/// looks in a row it is looked at once more, the prompt is pasted, and the agent
/// is looked at a last time. A failed paste, or an agent that is gone after it,
/// is no delivery.
pub proof fn law_seen_agent_gets_its_prompt(polls: u32, wait_ms: u64, after_paste: Option<bool>)
    requires
        1 <= polls < DEFERRED_POLLS,
    ensures
        ({
            let seen = PasteAnswer::Agent(Some(true));
            let s0 = PasteState::Polling { polls, stable: 0, wait_ms };
            let s1 = s0.after(seen);
            let s2 = s1.after(seen);
            let s3 = s2.after(seen);
            let s4 = s3.after(PasteAnswer::Pasted(true));
            &&& s0.asks() == (PasteAsk::Agent { wait_ms })
            &&& s1.asks() == (PasteAsk::Agent { wait_ms: 250 })
            &&& s2.asks() == (PasteAsk::Agent { wait_ms: 750 })
            &&& s3.asks() is Paste
            &&& s4.asks() == (PasteAsk::Agent { wait_ms: 500 })
            &&& s4.after(PasteAnswer::Agent(after_paste)).asks() == (PasteAsk::Finish {
                delivered: after_paste == Some(true),
                wait_ms: 0,
            })
            &&& s3.after(PasteAnswer::Pasted(false)).asks() == (PasteAsk::Finish {
                delivered: false,
                wait_ms: 0,
            })
        }),
{
}

/// An agent that is not there starts the count anew, wherever it is missed
/// before the paste: it takes three more sightings until something is pasted. A
/// session that is gone ends the matter, and one that is only unreadable does
/// not.
pub proof fn law_missed_agent_starts_anew(polls: u32, stable: u32, wait_ms: u64, missed: Option<bool>)
    requires
        1 <= polls < DEFERRED_POLLS,
        stable <= 1,
        missed != Some(true),
    ensures
        ({
            let again = PasteState::Polling {
                polls: (polls + 1) as u32,
                stable: 0,
                wait_ms: POLL_PAUSE_MS,
            };
            let s = PasteState::Polling { polls, stable, wait_ms };
            let g = PasteState::Grace { polls };
            &&& s.after(PasteAnswer::Agent(Some(false))) == again
            &&& s.after(PasteAnswer::Agent(None)).asks() is Session
            &&& s.after(PasteAnswer::Agent(None)).after(PasteAnswer::Session(true)) == again
            &&& s.after(PasteAnswer::Agent(None)).after(PasteAnswer::Session(false)).asks() == (
            PasteAsk::Finish { delivered: false, wait_ms: 0 })
            &&& g.after(PasteAnswer::Agent(missed)) == (PasteState::Polling {
                polls: (polls + 1) as u32,
                stable: 0,
                wait_ms: 0,
            })
        }),
{
}

/// An agent that never shows up is looked for sixty times, and then given up.
pub proof fn law_absent_agent_is_given_up(n: nat)
    requires
        1 <= n <= 60,
    ensures
        ({
            let s = paste_run(Seq::new(n, |i: int| PasteAnswer::Agent(Some(false))));
            &&& n < 60 ==> s == (PasteState::Polling {
                polls: (n + 1) as u32,
                stable: 0,
                wait_ms: POLL_PAUSE_MS,
            })
            &&& n == 60 ==> s == (PasteState::Done { delivered: false, wait_ms: POLL_PAUSE_MS })
        }),
    decreases n,
{
    let all = Seq::new(n, |i: int| PasteAnswer::Agent(Some(false)));
    let before = Seq::new((n - 1) as nat, |i: int| PasteAnswer::Agent(Some(false)));
    assert(all.drop_last() =~= before);
    if n > 1 {
        law_absent_agent_is_given_up((n - 1) as nat);
    } else {
        assert(before =~= Seq::<PasteAnswer>::empty());
    }
}

/// The tripwire logs a chunk from its start, as far as its budget goes, and
/// nothing behind its window: within the window a chunk is cut only where the
/// budget ends.
pub proof fn law_tripwire_is_bounded(t: AttachInputTripwire, len: nat, elapsed_ms: u64)
    requires
        t.bytes_logged <= 128,
    ensures
        ({
            let n = t.taken(len, elapsed_ms);
            &&& n <= len
            &&& t.bytes_logged + n <= 128
            &&& elapsed_ms >= 2000 ==> n == 0
            &&& elapsed_ms < 2000 ==> n == len || t.bytes_logged + n == 128
        }),
{
}

/// In the log every byte takes two characters, with a space between two bytes: a
/// control byte its hexadecimal digits, every other byte two dots.
#[verifier::spinoff_prover]
pub proof fn law_redacted_cells(bytes: Seq<u8>, i: int)
    requires
        0 <= i < bytes.len(),
    ensures
        redacted(bytes).len() == 3 * bytes.len() - 1,
        ({
            let cell = redacted(bytes).subrange(3 * i, 3 * i + 2);
            if bytes[i] < 32 || bytes[i] == 127 {
                cell == hex_pair(bytes[i])
            } else {
                cell == seq!['.', '.']
            }
        }),
        i + 1 < bytes.len() ==> redacted(bytes)[3 * i + 2] == ' ',
    decreases bytes.len(),
{
    let cells = bytes.map_values(|b: u8| byte_cell(b));
    let head = bytes.drop_last();
    assert(cells.drop_last() =~= head.map_values(|b: u8| byte_cell(b)));
    assert(cells.last() == byte_cell(bytes.last()));
    let all = redacted(bytes);
    if bytes.len() == 1 {
        assert(cells[0] == byte_cell(bytes[0]));
        assert(all =~= byte_cell(bytes[0]));
        assert(all.subrange(0, 2) =~= byte_cell(bytes[0]));
    } else {
        law_redacted_cells(head, if i < head.len() { i } else { i - 1 });
        assert(all == redacted(head) + seq![' '] + byte_cell(bytes.last()));
        assert(all.len() == 3 * bytes.len() - 1);
        if i < head.len() {
            assert(all.subrange(3 * i, 3 * i + 2) =~= redacted(head).subrange(3 * i, 3 * i + 2));
        } else {
            assert(all.subrange(3 * i, 3 * i + 2) =~= byte_cell(bytes[i]));
        }
    }
}

/// A session's agent is launched where it names one that is known.
pub proof fn law_known_agent_is_launched(session: Option<TerminalSession>, known: bool)
    ensures
        session matches Some(s) ==> (known ==> session_agent(session, known) == s.executor),
        session is None || !known ==> session_agent(session, known) is None,
{
}

} // verus!
