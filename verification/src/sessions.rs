//! What a session is asked to do: follow-ups, the recovery of a branch, resets
//! and set-up scripts.

use vstd::prelude::*;
use vstd::string::*;

use crate::cli_collab::RetryDispatchContext;
use crate::dispatch::DispatchOutcome;
use crate::error::{ApiError, bad_request, conflict};
use crate::text::{
    clone_opt, concat2, join_texts, joined, lemma_texts_push, opt_text, same_text, texts,
};

verus! {

/// Why a request on a session is refused.
#[derive(Debug)]
pub enum SessionError {
    WorkspaceNotFound,
    /// The session belongs to another executor.
    ExecutorMismatch { expected: String, actual: String },
}

/// The executor that a session belongs to: that of its latest execution, else
/// the one that was stored with it.
pub open spec fn session_executor(latest: Option<String>, stored: Option<String>) -> Option<String> {
    if latest is Some {
        latest
    } else {
        stored
    }
}

/// Checks a follow-up that is to be run by `actual`. Where it goes on, the
/// outcome says whether the executor has to be stored with the session.
pub fn check_follow_up(
    workspace_exists: bool,
    latest_executor: &Option<String>,
    stored_executor: &Option<String>,
    actual: &String,
) -> (r: Result<bool, SessionError>)
    ensures
        ({
            let expected = session_executor(*latest_executor, *stored_executor);
            if !workspace_exists {
                r == Err::<bool, SessionError>(SessionError::WorkspaceNotFound)
            } else if expected is Some && expected->0@ != actual@ {
                r == Err::<bool, SessionError>(
                    SessionError::ExecutorMismatch { expected: expected->0, actual: *actual },
                )
            } else {
                r == Ok::<bool, SessionError>(stored_executor is None)
            }
        }),
{
    if !workspace_exists {
        return Err(SessionError::WorkspaceNotFound);
    }
    let expected = if latest_executor.is_some() {
        latest_executor
    } else {
        stored_executor
    };
    if let Some(e) = expected {
        if *e != *actual {
            return Err(
                SessionError::ExecutorMismatch { expected: e.clone(), actual: actual.clone() },
            );
        }
    }
    Ok(stored_executor.is_none())
}

/// The circumstances of a retry, where a process is to be retried. Changes are
/// not thrown away unless that is asked for; the reset of the repository is
/// made unless that is declined.
pub fn retry_context(
    retry_process_id: Option<u128>,
    force_when_dirty: Option<bool>,
    perform_git_reset: Option<bool>,
    latest_message_id: Option<String>,
) -> (r: Option<RetryDispatchContext>)
    ensures
        r == match retry_process_id {
            Some(process_id) => Some(
                RetryDispatchContext {
                    process_id,
                    force_when_dirty: force_when_dirty == Some(true),
                    perform_git_reset: perform_git_reset != Some(false),
                    reset_to_message_id: latest_message_id,
                },
            ),
            None => None,
        },
{
    match retry_process_id {
        Some(process_id) => {
            let (force_when_dirty, perform_git_reset) = reset_options(
                force_when_dirty,
                perform_git_reset,
            );
            Some(
                RetryDispatchContext {
                    process_id,
                    force_when_dirty,
                    perform_git_reset,
                    reset_to_message_id: latest_message_id,
                },
            )
        },
        None => None,
    }
}

/// How a reset is made: whether changes may be thrown away, and whether the
/// repository is reset.
pub fn reset_options(force_when_dirty: Option<bool>, perform_git_reset: Option<bool>) -> (r: (
    bool,
    bool,
))
    ensures
        r.0 == (force_when_dirty == Some(true)),
        r.1 == (perform_git_reset != Some(false)),
{
    let force = match force_when_dirty {
        Some(f) => f,
        None => false,
    };
    let reset = match perform_git_reset {
        Some(p) => p,
        None => true,
    };
    (force, reset)
}

/// The answer to a message whose writer could not be told.
pub fn undispatched(recovery: bool) -> (e: ApiError)
    ensures
        conflict(
            e,
            if recovery {
                "Writer state could not be verified; recovery was not dispatched"@
            } else {
                "Writer state could not be verified; the message was not dispatched"@
            },
        ),
{
    if recovery {
        ApiError::Conflict(
            "Writer state could not be verified; recovery was not dispatched".to_owned(),
        )
    } else {
        ApiError::Conflict(
            "Writer state could not be verified; the message was not dispatched".to_owned(),
        )
    }
}

/// Whether the draft of a message goes away: it was taken, in whatever way.
pub fn clears_draft(outcome: &DispatchOutcome) -> (r: bool)
    ensures
        r == !(*outcome is Conflict),
{
    match outcome {
        DispatchOutcome::Conflict { .. } => false,
        _ => true,
    }
}

/// What asks for the recovery of a branch.
#[derive(Debug)]
pub struct ForkRecoveryRequest {
    pub fork_parent_uuid: String,
    pub branch_leaf_uuid: String,
}

/// A record on the way to a branch's end.
#[derive(Debug)]
pub struct BranchRecord {
    pub uuid: Option<String>,
    pub kind: String,
    /// What the user typed, where the record is such a message.
    pub user_text: Option<String>,
}

/// Whether a record is a message that can be recovered.
pub open spec fn recoverable(r: BranchRecord, fork_parent: Seq<char>) -> bool {
    &&& opt_text(r.uuid) != Some(fork_parent)
    &&& r.kind@ == "user"@
    &&& r.user_text is Some
}

/// The messages that can be recovered, in order.
pub open spec fn recovered(path: Seq<BranchRecord>, fork_parent: Seq<char>) -> Seq<Seq<char>>
    decreases path.len(),
{
    if path.len() == 0 {
        Seq::empty()
    } else {
        let head = recovered(path.drop_last(), fork_parent);
        if recoverable(path.last(), fork_parent) {
            head.push(path.last().user_text->0@)
        } else {
            head
        }
    }
}

fn recovered_prompts(path: &Vec<BranchRecord>, fork_parent: &String) -> (out: Vec<String>)
    ensures
        texts(out@) == recovered(path@, fork_parent@),
{
    let mut out: Vec<String> = Vec::new();
    proof {
        assert(texts(out@) =~= Seq::<Seq<char>>::empty());
    }
    for i in 0..path.len()
        invariant
            texts(out@) == recovered(path@.take(i as int), fork_parent@),
    {
        proof {
            assert(path@.take(i + 1).drop_last() =~= path@.take(i as int));
            assert(path@.take(i + 1).last() == path@[i as int]);
        }
        let record = &path[i];
        let is_parent = match &record.uuid {
            Some(u) => *u == *fork_parent,
            None => false,
        };
        if !is_parent && same_text(record.kind.as_str(), "user") {
            if let Some(text) = &record.user_text {
                proof {
                    lemma_texts_push(out@, *text);
                }
                out.push(text.clone());
            }
        }
    }
    proof {
        assert(path@.take(path@.len() as int) =~= path@);
    }
    out
}

/// The message that recovers a branch: the user's only message on it as it is,
/// or all of them under a heading. `path` is absent where there is no such
/// branch.
pub fn recovery_prompt(path: &Option<Vec<BranchRecord>>, request: &ForkRecoveryRequest) -> (r: Result<
    String,
    ApiError,
>)
    ensures
        match *path {
            None => r is Err && bad_request(r->Err_0, "The requested fork branch was not found"@),
            Some(records) => {
                let prompts = recovered(records@, request.fork_parent_uuid@);
                if prompts.len() == 0 {
                    r is Err && bad_request(
                        r->Err_0,
                        "The requested fork branch has no recoverable user messages"@,
                    )
                } else if prompts.len() == 1 {
                    r is Ok && r->Ok_0@ == prompts[0]
                } else {
                    r is Ok && r->Ok_0@ == "Recovered messages from an alternate CLI branch:\n\n"@
                        + joined(prompts, "\n\n--- recovered message ---\n\n"@)
                }
            },
        },
{
    let records = match path {
        Some(p) => p,
        None => {
            return Err(
                ApiError::BadRequest("The requested fork branch was not found".to_owned()),
            );
        },
    };
    let prompts = recovered_prompts(records, &request.fork_parent_uuid);
    proof {
        assert(texts(prompts@).len() == prompts@.len());
    }
    if prompts.len() == 0 {
        return Err(
            ApiError::BadRequest(
                "The requested fork branch has no recoverable user messages".to_owned(),
            ),
        );
    }
    if prompts.len() == 1 {
        proof {
            assert(texts(prompts@)[0] == prompts@[0]@);
        }
        return Ok(prompts[0].clone());
    }
    let all = join_texts(&prompts, "\n\n--- recovered message ---\n\n");
    Ok(concat2("Recovered messages from an alternate CLI branch:\n\n", all.as_str()))
}

/// The configuration of the latest coding-agent run; `runs` is oldest first, and
/// a run that is none, or cannot be read, is absent.
pub open spec fn latest_config(runs: Seq<Option<String>>) -> Option<String>
    decreases runs.len(),
{
    if runs.len() == 0 {
        None
    } else if runs.last() is Some {
        runs.last()
    } else {
        latest_config(runs.drop_last())
    }
}

/// The configuration that a session's next message is run with.
#[derive(Debug)]
pub enum ExecutorChoice {
    /// The one of its latest run.
    Stored(String),
    /// The default of the session's executor.
    DefaultOf(String),
}

/// Chooses the configuration that a session's next message is run with.
/// `executor` is the session's executor, where it is a known one.
pub fn latest_executor_config(runs: &Vec<Option<String>>, executor: &Option<String>) -> (r: Result<
    ExecutorChoice,
    ApiError,
>)
    ensures
        match latest_config(runs@) {
            Some(c) => r == Ok::<ExecutorChoice, ApiError>(ExecutorChoice::Stored(c)),
            None => match *executor {
                Some(e) => r == Ok::<ExecutorChoice, ApiError>(ExecutorChoice::DefaultOf(e)),
                None => r is Err && bad_request(
                    r->Err_0,
                    "No executor configuration exists for this session"@,
                ),
            },
        },
{
    let mut n: usize = runs.len();
    let mut found: Option<String> = None;
    proof {
        assert(runs@.take(n as int) =~= runs@);
    }
    while n > 0 && found.is_none()
        invariant
            n <= runs@.len(),
            found is Some ==> latest_config(runs@) == found,
            found is None ==> latest_config(runs@) == latest_config(runs@.take(n as int)),
        decreases n,
    {
        proof {
            assert(runs@.take(n as int).last() == runs@[n - 1]);
            assert(runs@.take(n as int).drop_last() =~= runs@.take(n - 1));
        }
        found = clone_opt(&runs[n - 1]);
        n = n - 1;
    }
    if let Some(c) = found {
        return Ok(ExecutorChoice::Stored(c));
    }
    match executor {
        Some(e) => Ok(ExecutorChoice::DefaultOf(e.clone())),
        None => Err(
            ApiError::BadRequest("No executor configuration exists for this session".to_owned()),
        ),
    }
}

/// What is done about a request to run the set-up script.
#[derive(Debug, Clone, Copy, PartialEq, Eq, Structural)]
pub enum SetupStep {
    WorkspaceNotFound,
    ProcessAlreadyRunning,
    NoScriptConfigured,
    Start,
}

/// Decides what is done about a request to run the set-up script.
pub fn setup_step(workspace_exists: bool, process_running: bool, has_script: bool) -> (s: SetupStep)
    ensures
        s == if !workspace_exists {
            SetupStep::WorkspaceNotFound
        } else if process_running {
            SetupStep::ProcessAlreadyRunning
        } else if !has_script {
            SetupStep::NoScriptConfigured
        } else {
            SetupStep::Start
        },
{
    if !workspace_exists {
        SetupStep::WorkspaceNotFound
    } else if process_running {
        SetupStep::ProcessAlreadyRunning
    } else if !has_script {
        SetupStep::NoScriptConfigured
    } else {
        SetupStep::Start
    }
}

/// A session belongs to the executor of its latest execution, or else to the one
/// that was stored with it.
pub proof fn law_latest_execution_names_the_executor(
    latest: Option<String>,
    stored: Option<String>,
)
    ensures
        latest matches Some(e) ==> session_executor(latest, stored) == Some(e),
        latest is None ==> session_executor(latest, stored) == stored,
{
}

/// What is recovered of a branch are the texts that the user typed on it, in order;
/// the record that the fork is at is none of the branch's.
pub proof fn law_users_own_words_are_recovered(path: Seq<BranchRecord>, fork_parent: Seq<char>)
    ensures
        recovered(path, fork_parent) == path.filter(
            |r: BranchRecord|
                r.kind@ == "user"@ && r.user_text is Some && !(r.uuid matches Some(u) && u@
                    == fork_parent),
        ).map_values(|r: BranchRecord| r.user_text->0@),
    decreases path.len(),
{
    reveal(Seq::filter);
    if path.len() > 0 {
        law_users_own_words_are_recovered(path.drop_last(), fork_parent);
    }
    assert(recovered(path, fork_parent) =~= path.filter(
        |r: BranchRecord|
            r.kind@ == "user"@ && r.user_text is Some && !(r.uuid matches Some(u) && u@
                == fork_parent),
    ).map_values(|r: BranchRecord| r.user_text->0@));
}

/// The next message is run with the configuration of the latest run that has one.
pub proof fn law_latest_run_lends_its_configuration(runs: Seq<Option<String>>)
    ensures
        forall|i: int|
            0 <= i < runs.len() && #[trigger] runs[i] is Some && (forall|j: int|
                i < j < runs.len() ==> #[trigger] runs[j] is None) ==> latest_config(runs)
                == runs[i],
        (forall|i: int| 0 <= i < runs.len() ==> #[trigger] runs[i] is None) ==> latest_config(
            runs,
        ) is None,
    decreases runs.len(),
{
    if runs.len() > 0 && runs.last() is None {
        let rest = runs.drop_last();
        law_latest_run_lends_its_configuration(rest);
        assert forall|i: int| 0 <= i < rest.len() implies rest[i] == #[trigger] runs[i] by {}
        assert forall|i: int|
            0 <= i < runs.len() && #[trigger] runs[i] is Some && (forall|j: int|
                i < j < runs.len() ==> #[trigger] runs[j] is None) implies latest_config(runs)
            == runs[i] by {
            assert(rest[i] == runs[i]);
            assert forall|j: int| i < j < rest.len() implies #[trigger] rest[j] is None by {
                assert(runs[j] is None);
            }
        }
        if forall|i: int| 0 <= i < runs.len() ==> #[trigger] runs[i] is None {
            assert forall|i: int| 0 <= i < rest.len() implies #[trigger] rest[i] is None by {
                assert(runs[i] is None);
            }
        }
    } else if runs.len() > 0 {
        assert(runs[runs.len() - 1] is Some);
    }
}

} // verus!
