//! Workspaces: creating and naming them, and deleting them one by one or many
//! at once.

use vstd::prelude::*;
use vstd::string::*;

use crate::attachments::{
    ImportedIssueAttachment, normalize_prompt, rewrite_imported_issue_attachments_markdown,
    rewritten_from,
};
use crate::error::{ApiError, bad_request, conflict};
use crate::text::{ends_with, finishes_with, opt_text, trimmed};

verus! {

/// How long the generated part of a branch's name may be.
pub const BRANCH_NAME_LENGTH: usize = 40;

/// What a deletion asks for.
#[derive(Debug, Clone, Copy, PartialEq, Eq, Structural)]
pub struct DeleteWorkspaceQuery {
    pub delete_remote: bool,
    pub delete_branches: bool,
}

/// What a deletion came to.
#[derive(Debug, Clone, Copy, PartialEq, Eq, Structural)]
pub enum DeleteWorkspaceOutcome {
    Deleted,
    SkippedRunningProcesses,
}

/// Why a workspace with running processes is not deleted.
pub fn running_processes_message() -> (m: String)
    ensures
        m@
            == "Cannot delete workspace while processes are running. Stop all processes first."@,
{
    "Cannot delete workspace while processes are running. Stop all processes first.".to_owned()
}

/// A workspace that is to be deleted, as it was when the user looked at it.
#[derive(Debug, Clone, Copy, PartialEq, Eq, Structural)]
pub struct BulkDeleteTarget {
    pub workspace_id: u128,
    /// When it was archived, in nanoseconds since the epoch.
    pub archived_at: Option<i128>,
}

/// What became of one workspace.
#[derive(Debug, PartialEq, Eq)]
pub enum BulkDeleteItemOutcome {
    Deleted,
    Skipped { reason: String },
    Failed { reason: String },
}

/// What became of one workspace, and its name.
#[derive(Debug, PartialEq, Eq)]
pub struct BulkDeleteItemResult {
    pub workspace_id: u128,
    pub workspace_name: Option<String>,
    pub outcome: BulkDeleteItemOutcome,
}

/// A workspace as it is now.
#[derive(Debug)]
pub enum FreshWorkspace {
    Missing,
    Unreadable { error: String },
    Found { name: Option<String>, archived: bool, archived_at: Option<i128> },
}

/// What the deletion of one workspace came to, where it was tried.
#[derive(Debug)]
pub enum DeletionResult {
    Outcome(DeleteWorkspaceOutcome),
    Failed { error: String },
}

/// Whether a workspace is still as it was when the user looked at it: archived,
/// and since the same moment.
pub open spec fn unchanged(target: BulkDeleteTarget, fresh: FreshWorkspace) -> bool {
    fresh matches FreshWorkspace::Found { archived, archived_at, .. } && archived && archived_at
        == target.archived_at
}

/// Whether a workspace is to be deleted: it is still as it was when the user
/// looked at it.
pub fn bulk_delete_wanted(target: &BulkDeleteTarget, fresh: &FreshWorkspace) -> (r: bool)
    ensures
        r == unchanged(*target, *fresh),
{
    match fresh {
        FreshWorkspace::Found { archived, archived_at, .. } => *archived && match (
            archived_at,
            &target.archived_at,
        ) {
            (Some(a), Some(b)) => *a == *b,
            (None, None) => true,
            _ => false,
        },
        _ => false,
    }
}

/// Whether `o` is what became of a workspace.
pub open spec fn outcome_is(
    target: BulkDeleteTarget,
    fresh: FreshWorkspace,
    deletion: DeletionResult,
    o: BulkDeleteItemOutcome,
) -> bool {
    match fresh {
        FreshWorkspace::Missing => o matches BulkDeleteItemOutcome::Skipped { reason } && reason@
            == "already deleted"@,
        FreshWorkspace::Unreadable { error } => o == (BulkDeleteItemOutcome::Failed {
            reason: error,
        }),
        FreshWorkspace::Found { archived, .. } => if !archived {
            o matches BulkDeleteItemOutcome::Skipped { reason } && reason@ == "no longer archived"@
        } else if !unchanged(target, fresh) {
            o matches BulkDeleteItemOutcome::Skipped { reason } && reason@
                == "archive state changed since review"@
        } else {
            match deletion {
                DeletionResult::Outcome(DeleteWorkspaceOutcome::Deleted) => o
                    == BulkDeleteItemOutcome::Deleted,
                DeletionResult::Outcome(DeleteWorkspaceOutcome::SkippedRunningProcesses) => o
                    matches BulkDeleteItemOutcome::Skipped { reason } && reason@
                    == "Cannot delete workspace while processes are running. Stop all processes first."@,
                DeletionResult::Failed { error } => o == (BulkDeleteItemOutcome::Failed {
                    reason: error,
                }),
            }
        },
    }
}

/// The name that is shown for a workspace.
pub open spec fn shown_name(fresh: FreshWorkspace) -> Option<String> {
    match fresh {
        FreshWorkspace::Found { name, .. } => name,
        _ => None,
    }
}

/// Reports what became of one workspace. `deletion` only counts where the
/// workspace was to be deleted.
pub fn bulk_delete_result(
    target: &BulkDeleteTarget,
    fresh: FreshWorkspace,
    deletion: DeletionResult,
) -> (r: BulkDeleteItemResult)
    ensures
        r.workspace_id == target.workspace_id,
        r.workspace_name == shown_name(fresh),
        outcome_is(*target, fresh, deletion, r.outcome),
{
    let wanted = bulk_delete_wanted(target, &fresh);
    match fresh {
        FreshWorkspace::Missing => BulkDeleteItemResult {
            workspace_id: target.workspace_id,
            workspace_name: None,
            outcome: BulkDeleteItemOutcome::Skipped { reason: "already deleted".to_owned() },
        },
        FreshWorkspace::Unreadable { error } => BulkDeleteItemResult {
            workspace_id: target.workspace_id,
            workspace_name: None,
            outcome: BulkDeleteItemOutcome::Failed { reason: error },
        },
        FreshWorkspace::Found { name, archived, .. } => {
            let outcome = if !archived {
                BulkDeleteItemOutcome::Skipped { reason: "no longer archived".to_owned() }
            } else if !wanted {
                BulkDeleteItemOutcome::Skipped {
                    reason: "archive state changed since review".to_owned(),
                }
            } else {
                match deletion {
                    DeletionResult::Outcome(
                        DeleteWorkspaceOutcome::Deleted,
                    ) => BulkDeleteItemOutcome::Deleted,
                    DeletionResult::Outcome(
                        DeleteWorkspaceOutcome::SkippedRunningProcesses,
                    ) => BulkDeleteItemOutcome::Skipped { reason: running_processes_message() },
                    DeletionResult::Failed { error } => BulkDeleteItemOutcome::Failed {
                        reason: error,
                    },
                }
            };
            BulkDeleteItemResult {
                workspace_id: target.workspace_id,
                workspace_name: name,
                outcome,
            }
        },
    }
}

/// A workspace is reported as deleted only where it was still as the user saw it
/// and its deletion went through.
pub proof fn law_only_reviewed_workspaces_are_deleted(
    target: BulkDeleteTarget,
    fresh: FreshWorkspace,
    deletion: DeletionResult,
)
    requires
        outcome_is(target, fresh, deletion, BulkDeleteItemOutcome::Deleted),
    ensures
        unchanged(target, fresh),
        deletion == DeletionResult::Outcome(DeleteWorkspaceOutcome::Deleted),
{
}

/// How far the deletion of many workspaces has come.
#[derive(Debug)]
pub struct BulkRun {
    pub targets: Vec<BulkDeleteTarget>,
    pub delete_branches: bool,
    /// What became of the first targets, one result each, in their order.
    pub results: Vec<BulkDeleteItemResult>,
    /// The next target as it is now, while it is being deleted.
    pub under_way: Option<FreshWorkspace>,
}

/// What the deletion of many workspaces asks for next.
#[derive(Debug, Clone, Copy, PartialEq, Eq, Structural)]
pub enum BulkAsk {
    /// Look at a workspace.
    Look { workspace_id: u128 },
    /// Delete a workspace.
    Delete { workspace_id: u128, query: DeleteWorkspaceQuery },
    /// Every target has its result.
    Finish,
}

/// What was found out.
#[derive(Debug)]
pub enum BulkAnswer {
    Looked(FreshWorkspace),
    Deletion(DeletionResult),
}

impl BulkRun {
    /// Whether the results belong to the first targets, and whatever is being
    /// deleted is the next one, as the user saw it.
    pub open spec fn valid(self) -> bool {
        &&& self.results@.len() <= self.targets@.len()
        &&& forall|i: int|
            0 <= i < self.results@.len() ==> (#[trigger] self.results@[i]).workspace_id
                == self.targets@[i].workspace_id
        &&& self.under_way matches Some(fresh) ==> self.results@.len() < self.targets@.len()
            && unchanged(self.target(), fresh)
    }

    /// The first target without a result.
    pub open spec fn target(self) -> BulkDeleteTarget {
        self.targets@[self.results@.len() as int]
    }

    /// What is asked for next.
    pub open spec fn asks(self) -> BulkAsk {
        if self.results@.len() >= self.targets@.len() {
            BulkAsk::Finish
        } else if self.under_way is None {
            BulkAsk::Look { workspace_id: self.target().workspace_id }
        } else {
            BulkAsk::Delete {
                workspace_id: self.target().workspace_id,
                query: DeleteWorkspaceQuery {
                    delete_remote: false,
                    delete_branches: self.delete_branches,
                },
            }
        }
    }

    /// Whether an answer is one to what is asked for.
    pub open spec fn takes(self, answer: BulkAnswer) -> bool {
        match answer {
            BulkAnswer::Looked(_) => self.asks() is Look,
            BulkAnswer::Deletion(_) => self.asks() is Delete,
        }
    }

    /// Whether `next` is the run with one result more: that of its next target,
    /// which was found as `fresh` and whose deletion came to `deletion`.
    pub open spec fn reports(
        self,
        fresh: FreshWorkspace,
        deletion: DeletionResult,
        next: BulkRun,
    ) -> bool {
        &&& next.under_way is None
        &&& next.results@.len() == self.results@.len() + 1
        &&& next.results@.drop_last() == self.results@
        &&& next.results@.last().workspace_id == self.target().workspace_id
        &&& next.results@.last().workspace_name == shown_name(fresh)
        &&& outcome_is(self.target(), fresh, deletion, next.results@.last().outcome)
    }

    /// Whether `next` is the run after an answer. An answer to another question
    /// than the one that was asked changes nothing.
    pub open spec fn leads_to(self, answer: BulkAnswer, next: BulkRun) -> bool {
        &&& next.targets == self.targets
        &&& next.delete_branches == self.delete_branches
        &&& if !self.takes(answer) {
            next == self
        } else {
            match answer {
                BulkAnswer::Looked(fresh) => if unchanged(self.target(), fresh) {
                    next.results == self.results && next.under_way == Some(fresh)
                } else {
                    forall|deletion: DeletionResult| #[trigger]
                        self.reports(fresh, deletion, next)
                },
                BulkAnswer::Deletion(deletion) => self.reports(
                    self.under_way->0,
                    deletion,
                    next,
                ),
            }
        }
    }

    /// How many answers are still to come at most.
    pub open spec fn left(self) -> int {
        2 * (self.targets@.len() - self.results@.len()) - if self.under_way is Some {
            1int
        } else {
            0int
        }
    }

    /// The deletion of `targets`, with nothing done yet.
    pub fn start(targets: Vec<BulkDeleteTarget>, delete_branches: bool) -> (run: BulkRun)
        ensures
            run.valid(),
            run.targets == targets,
            run.delete_branches == delete_branches,
            run.results@.len() == 0,
            run.under_way is None,
    {
        BulkRun { targets, delete_branches, results: Vec::new(), under_way: None }
    }

    /// What is to be done next. Only targets are ever looked at or deleted, one
    /// after the other.
    pub fn ask(&self) -> (ask: BulkAsk)
        requires
            self.valid(),
        ensures
            ask == self.asks(),
    {
        let at: usize = self.results.len();
        if at >= self.targets.len() {
            return BulkAsk::Finish;
        }
        let workspace_id: u128 = self.targets[at].workspace_id;
        match &self.under_way {
            None => BulkAsk::Look { workspace_id },
            Some(_) => BulkAsk::Delete {
                workspace_id,
                query: DeleteWorkspaceQuery {
                    delete_remote: false,
                    delete_branches: self.delete_branches,
                },
            },
        }
    }

    fn report(self, fresh: FreshWorkspace, deletion: DeletionResult) -> (next: BulkRun)
        requires
            self.valid(),
            self.results@.len() < self.targets@.len(),
        ensures
            next.valid(),
            next.targets == self.targets,
            next.delete_branches == self.delete_branches,
            self.reports(fresh, deletion, next),
    {
        let target = self.targets[self.results.len()];
        let mut results = self.results;
        let ghost before = results@;
        results.push(bulk_delete_result(&target, fresh, deletion));
        proof {
            assert(results@.drop_last() =~= before);
        }
        BulkRun {
            targets: self.targets,
            delete_branches: self.delete_branches,
            results,
            under_way: None,
        }
    }

    /// Takes an answer in. Whatever became of a target, the next one follows.
    pub fn step(self, answer: BulkAnswer) -> (next: BulkRun)
        requires
            self.valid(),
        ensures
            next.valid(),
            self.leads_to(answer, next),
    {
        match answer {
            BulkAnswer::Looked(fresh) => match self.ask() {
                BulkAsk::Look { .. } => {
                    let target = self.targets[self.results.len()];
                    if bulk_delete_wanted(&target, &fresh) {
                        BulkRun {
                            targets: self.targets,
                            delete_branches: self.delete_branches,
                            results: self.results,
                            under_way: Some(fresh),
                        }
                    } else {
                        let ghost run = self;
                        let ghost found = fresh;
                        let next = self.report(
                            fresh,
                            DeletionResult::Outcome(
                                DeleteWorkspaceOutcome::SkippedRunningProcesses,
                            ),
                        );
                        proof {
                            assert forall|deletion: DeletionResult| #[trigger]
                                run.reports(found, deletion, next) by {
                                assert(outcome_is(
                                    run.target(),
                                    found,
                                    deletion,
                                    next.results@.last().outcome,
                                ));
                            }
                        }
                        next
                    }
                },
                _ => self,
            },
            BulkAnswer::Deletion(deletion) => match self.ask() {
                BulkAsk::Delete { .. } => {
                    let BulkRun { targets, delete_branches, results, under_way } = self;
                    match under_way {
                        Some(fresh) => {
                            let ghost run = self;
                            let next = (BulkRun {
                                targets,
                                delete_branches,
                                results,
                                under_way: None,
                            }).report(fresh, deletion);
                            proof {
                                assert(run.reports(fresh, deletion, next));
                            }
                            next
                        },
                        None => BulkRun { targets, delete_branches, results, under_way: None },
                    }
                },
                _ => self,
            },
        }
    }
}

/// Whether `runs` are the states that a deletion of `targets` goes through as it
/// is given `answers`.
pub open spec fn bulk_history(
    targets: Seq<BulkDeleteTarget>,
    runs: Seq<BulkRun>,
    answers: Seq<BulkAnswer>,
) -> bool {
    &&& runs.len() == answers.len() + 1
    &&& runs[0].targets@ == targets
    &&& runs[0].results@.len() == 0
    &&& runs[0].under_way is None
    &&& forall|k: int|
        0 <= k < answers.len() ==> (#[trigger] runs[k]).leads_to(answers[k], runs[k + 1])
}

/// Whether the result of target `i` was given by an answer: that the workspace
/// was not as the user saw it, or what its deletion came to.
pub open spec fn bulk_answered(
    runs: Seq<BulkRun>,
    answers: Seq<BulkAnswer>,
    i: int,
    k: int,
    fresh: FreshWorkspace,
    deletion: DeletionResult,
) -> bool {
    &&& 0 <= k < answers.len()
    &&& runs[k].asks() is Look
    &&& runs[k].results@.len() == i
    &&& answers[k] == BulkAnswer::Looked(fresh)
    &&& unchanged(runs[k].target(), fresh) ==> exists|m: int|
        k < m < answers.len() && (#[trigger] runs[m]).asks() is Delete && runs[m].results@.len()
            == i && answers[m] == BulkAnswer::Deletion(deletion)
}

/// Whether an outcome is what was found out about target `i` when its turn came.
pub open spec fn bulk_accounted(
    targets: Seq<BulkDeleteTarget>,
    runs: Seq<BulkRun>,
    answers: Seq<BulkAnswer>,
    i: int,
    outcome: BulkDeleteItemOutcome,
) -> bool {
    exists|k: int, f: FreshWorkspace, d: DeletionResult|
        #[trigger] bulk_answered(runs, answers, i, k, f, d) && outcome_is(
            targets[i],
            f,
            d,
            outcome,
        )
}

proof fn lemma_bulk_report_is_valid(
    run: BulkRun,
    fresh: FreshWorkspace,
    deletion: DeletionResult,
    next: BulkRun,
)
    requires
        run.valid(),
        run.results@.len() < run.targets@.len(),
        next.targets == run.targets,
        run.reports(fresh, deletion, next),
    ensures
        next.valid(),
{
    assert forall|i: int| 0 <= i < next.results@.len() implies (
    #[trigger] next.results@[i]).workspace_id == next.targets@[i].workspace_id by {
        if i < run.results@.len() {
            assert(next.results@.drop_last()[i] == run.results@[i]);
        }
    }
}

proof fn lemma_bulk_history(
    targets: Seq<BulkDeleteTarget>,
    runs: Seq<BulkRun>,
    answers: Seq<BulkAnswer>,
    n: int,
)
    requires
        bulk_history(targets, runs, answers),
        0 <= n < runs.len(),
    ensures
        runs[n].valid(),
        runs[n].targets@ == targets,
        runs[n].under_way is Some ==> exists|k: int|
            0 <= k < n && (#[trigger] runs[k]).asks() is Look && runs[k].results@.len()
                == runs[n].results@.len() && answers[k] == BulkAnswer::Looked(
                runs[n].under_way->0,
            ),
        forall|i: int|
            0 <= i < runs[n].results@.len() ==> bulk_accounted(
                targets,
                runs,
                answers,
                i,
                (#[trigger] runs[n].results@[i]).outcome,
            ),
    decreases n,
{
    if n > 0 {
        let b = n - 1;
        lemma_bulk_history(targets, runs, answers, b);
        assert(runs[b].leads_to(answers[b], runs[b + 1]));
        let run = runs[b];
        let next = runs[n];
        let last = run.results@.len() as int;
        if run.takes(answers[b]) {
            match answers[b] {
                BulkAnswer::Looked(fresh) => {
                    if unchanged(run.target(), fresh) {
                        assert(runs[b].asks() is Look);
                    } else {
                        let d = DeletionResult::Outcome(DeleteWorkspaceOutcome::Deleted);
                        assert(run.reports(fresh, d, next));
                        lemma_bulk_report_is_valid(run, fresh, d, next);
                        assert(bulk_answered(runs, answers, last, b, fresh, d));
                        lemma_bulk_results(targets, runs, answers, b);
                    }
                },
                BulkAnswer::Deletion(d) => {
                    let fresh = run.under_way->0;
                    lemma_bulk_report_is_valid(run, fresh, d, next);
                    let k = choose|k: int|
                        0 <= k < b && (#[trigger] runs[k]).asks() is Look
                            && runs[k].results@.len() == run.results@.len() && answers[k]
                            == BulkAnswer::Looked(fresh);
                    assert(runs[b].asks() is Delete);
                    assert(bulk_answered(runs, answers, last, k, fresh, d));
                    lemma_bulk_results(targets, runs, answers, b);
                },
            }
        } else if next.under_way is Some {
            let k = choose|k: int|
                0 <= k < b && (#[trigger] runs[k]).asks() is Look && runs[k].results@.len()
                    == run.results@.len() && answers[k] == BulkAnswer::Looked(
                    run.under_way->0,
                );
            assert(runs[k].asks() is Look);
        }
    }
}

proof fn lemma_bulk_results(
    targets: Seq<BulkDeleteTarget>,
    runs: Seq<BulkRun>,
    answers: Seq<BulkAnswer>,
    b: int,
)
    requires
        0 <= b < answers.len(),
        runs.len() == answers.len() + 1,
        runs[b + 1].results@.len() == runs[b].results@.len() + 1,
        runs[b + 1].results@.drop_last() == runs[b].results@,
        forall|i: int|
            0 <= i < runs[b].results@.len() ==> bulk_accounted(
                targets,
                runs,
                answers,
                i,
                (#[trigger] runs[b].results@[i]).outcome,
            ),
        bulk_accounted(
            targets,
            runs,
            answers,
            runs[b].results@.len() as int,
            runs[b + 1].results@.last().outcome,
        ),
    ensures
        forall|i: int|
            0 <= i < runs[b + 1].results@.len() ==> bulk_accounted(
                targets,
                runs,
                answers,
                i,
                (#[trigger] runs[b + 1].results@[i]).outcome,
            ),
{
    let next = runs[b + 1].results@;
    assert forall|i: int| 0 <= i < next.len() implies bulk_accounted(
        targets,
        runs,
        answers,
        i,
        (#[trigger] next[i]).outcome,
    ) by {
        if i < runs[b].results@.len() {
            assert(next.drop_last()[i] == runs[b].results@[i]);
        }
    }
}

/// Every target gets a result, in the order of the targets, and each result is
/// what was found out about its own target when its turn came, whatever became
/// of the others.
pub proof fn law_every_target_has_its_result(
    targets: Seq<BulkDeleteTarget>,
    runs: Seq<BulkRun>,
    answers: Seq<BulkAnswer>,
)
    requires
        bulk_history(targets, runs, answers),
        runs.last().asks() is Finish,
    ensures
        runs.last().results@.len() == targets.len(),
        forall|i: int|
            0 <= i < targets.len() ==> {
                &&& (#[trigger] runs.last().results@[i]).workspace_id == targets[i].workspace_id
                &&& bulk_accounted(targets, runs, answers, i, runs.last().results@[i].outcome)
            },
{
    lemma_bulk_history(targets, runs, answers, runs.len() - 1);
}

/// A failure stops nothing: whatever the answer to what was asked for, less is
/// left to be asked.
pub proof fn law_bulk_deletion_goes_on(run: BulkRun, answer: BulkAnswer, next: BulkRun)
    requires
        run.valid(),
        run.takes(answer),
        run.leads_to(answer, next),
    ensures
        0 <= next.left() < run.left(),
        next.left() == 0 <==> next.asks() is Finish,
{
    if let BulkAnswer::Looked(fresh) = answer {
        if !unchanged(run.target(), fresh) {
            assert(run.reports(
                fresh,
                DeletionResult::Outcome(DeleteWorkspaceOutcome::Deleted),
                next,
            ));
        }
    }
}

/// Nothing is deleted but a target that was just found to be as the user saw it.
pub proof fn law_deletion_follows_review(run: BulkRun, answer: BulkAnswer, next: BulkRun)
    requires
        run.valid(),
        !(run.asks() is Delete),
        run.leads_to(answer, next),
        next.asks() is Delete,
    ensures
        answer matches BulkAnswer::Looked(fresh) && unchanged(run.target(), fresh),
        next.asks()->Delete_workspace_id == run.target().workspace_id,
        run.targets@.contains(run.target()),
{
    assert(run.targets@[run.results@.len() as int] == run.target());
    if let BulkAnswer::Looked(fresh) = answer {
        if run.takes(answer) && !unchanged(run.target(), fresh) {
            assert(run.reports(
                fresh,
                DeletionResult::Outcome(DeleteWorkspaceOutcome::Deleted),
                next,
            ));
        }
    }
}

/// How many workspaces were deleted, skipped and failed.
#[derive(Debug, Clone, Copy, PartialEq, Eq, Structural)]
pub struct BulkTally {
    pub deleted: usize,
    pub skipped: usize,
    pub failed: usize,
}

/// How many results are deletions.
pub open spec fn deleted_in(results: Seq<BulkDeleteItemResult>) -> nat
    decreases results.len(),
{
    if results.len() == 0 {
        0
    } else {
        deleted_in(results.drop_last()) + if results.last().outcome is Deleted {
            1nat
        } else {
            0nat
        }
    }
}

/// How many results were skipped.
pub open spec fn skipped_in(results: Seq<BulkDeleteItemResult>) -> nat
    decreases results.len(),
{
    if results.len() == 0 {
        0
    } else {
        skipped_in(results.drop_last()) + if results.last().outcome is Skipped {
            1nat
        } else {
            0nat
        }
    }
}

/// Counts what became of the workspaces: each one once.
pub fn tally(results: &Vec<BulkDeleteItemResult>) -> (t: BulkTally)
    ensures
        t.deleted == deleted_in(results@),
        t.skipped == skipped_in(results@),
        t.deleted + t.skipped + t.failed == results@.len(),
{
    let mut t = BulkTally { deleted: 0, skipped: 0, failed: 0 };
    for i in 0..results.len()
        invariant
            t.deleted == deleted_in(results@.take(i as int)),
            t.skipped == skipped_in(results@.take(i as int)),
            t.deleted + t.skipped + t.failed == i,
    {
        proof {
            assert(results@.take(i + 1).drop_last() =~= results@.take(i as int));
            assert(results@.take(i + 1).last() == results@[i as int]);
        }
        match &results[i].outcome {
            BulkDeleteItemOutcome::Deleted => {
                t.deleted = t.deleted + 1;
            },
            BulkDeleteItemOutcome::Skipped { .. } => {
                t.skipped = t.skipped + 1;
            },
            BulkDeleteItemOutcome::Failed { .. } => {
                t.failed = t.failed + 1;
            },
        }
    }
    proof {
        assert(results@.take(results@.len() as int) =~= results@);
    }
    t
}

/// The HTTP status of a deletion, or how it is refused.
pub fn delete_response(outcome: DeleteWorkspaceOutcome) -> (r: Result<u16, ApiError>)
    ensures
        match outcome {
            DeleteWorkspaceOutcome::Deleted => r == Ok::<u16, ApiError>(202),
            DeleteWorkspaceOutcome::SkippedRunningProcesses => r is Err && conflict(
                r->Err_0,
                "Cannot delete workspace while processes are running. Stop all processes first."@,
            ),
        },
{
    match outcome {
        DeleteWorkspaceOutcome::Deleted => Ok(202),
        DeleteWorkspaceOutcome::SkippedRunningProcesses => Err(
            ApiError::Conflict(running_processes_message()),
        ),
    }
}

/// How far the deletion of a workspace has come.
#[derive(Debug)]
pub enum DeleteState {
    /// Do processes run that are no development servers?
    CheckProcesses,
    /// Which development servers run?
    FindDevServers,
    /// Stop them; what cannot be stopped is left.
    StopDevServers,
    /// End the terminal session, so that it does not outlive the workspace.
    KillTerminal,
    /// Load what has to be cleaned up.
    Prepare,
    /// Delete the record.
    DeleteRecord,
    /// Delete the remote copy; what cannot be deleted is left.
    DeleteRemote,
    /// Clean up the files, and the branches where that is asked for.
    CleanUp { delete_branches: bool },
    Done(Result<DeleteWorkspaceOutcome, DeleteError>),
}

/// Why a deletion failed.
#[derive(Debug)]
pub enum DeleteError {
    Failed(ApiError),
    /// There was no record to delete.
    RowNotFound,
}

impl DeleteError {
    /// What the request is answered with.
    pub fn into_api_error(self) -> (e: ApiError)
        ensures
            match self {
                DeleteError::Failed(m) => e == m,
                DeleteError::RowNotFound => e matches ApiError::Database(m) && m@
                    == "no rows returned by a query that expected to return at least one row"@,
            },
    {
        match self {
            DeleteError::Failed(m) => m,
            DeleteError::RowNotFound => ApiError::Database("no rows returned by a query that expected to return at least one row".to_owned()),
        }
    }
}

/// What came of a step.
#[derive(Debug)]
pub enum DeleteAnswer {
    Running(bool),
    /// The step was carried out, as far as it could be.
    Carried,
    /// How many records were deleted.
    Rows(u64),
    Failed(ApiError),
}

impl DeleteState {
    /// The state after a step. An answer to another question than the one that
    /// was asked changes nothing.
    pub open spec fn after(self, q: DeleteWorkspaceQuery, answer: DeleteAnswer) -> DeleteState {
        match (self, answer) {
            (DeleteState::CheckProcesses, DeleteAnswer::Running(running)) => if running {
                DeleteState::Done(Ok(DeleteWorkspaceOutcome::SkippedRunningProcesses))
            } else {
                DeleteState::FindDevServers
            },
            (DeleteState::FindDevServers, DeleteAnswer::Carried) => DeleteState::StopDevServers,
            (DeleteState::StopDevServers, DeleteAnswer::Carried) => DeleteState::KillTerminal,
            (DeleteState::KillTerminal, DeleteAnswer::Carried) => DeleteState::Prepare,
            (DeleteState::Prepare, DeleteAnswer::Carried) => DeleteState::DeleteRecord,
            (DeleteState::DeleteRecord, DeleteAnswer::Rows(n)) => if n == 0 {
                DeleteState::Done(Err(DeleteError::RowNotFound))
            } else if q.delete_remote {
                DeleteState::DeleteRemote
            } else {
                DeleteState::CleanUp { delete_branches: q.delete_branches }
            },
            (DeleteState::DeleteRemote, DeleteAnswer::Carried) => DeleteState::CleanUp {
                delete_branches: q.delete_branches,
            },
            (DeleteState::CleanUp { .. }, DeleteAnswer::Carried) => DeleteState::Done(
                Ok(DeleteWorkspaceOutcome::Deleted),
            ),
            (DeleteState::CheckProcesses, DeleteAnswer::Failed(e)) => DeleteState::Done(
                Err(DeleteError::Failed(e)),
            ),
            (DeleteState::FindDevServers, DeleteAnswer::Failed(e)) => DeleteState::Done(
                Err(DeleteError::Failed(e)),
            ),
            (DeleteState::Prepare, DeleteAnswer::Failed(e)) => DeleteState::Done(
                Err(DeleteError::Failed(e)),
            ),
            (DeleteState::DeleteRecord, DeleteAnswer::Failed(e)) => DeleteState::Done(
                Err(DeleteError::Failed(e)),
            ),
            _ => self,
        }
    }

    pub fn start() -> (s: DeleteState)
        ensures
            s == DeleteState::CheckProcesses,
    {
        DeleteState::CheckProcesses
    }

    /// Takes what came of the step that the state stands for.
    pub fn step(self, q: DeleteWorkspaceQuery, answer: DeleteAnswer) -> (next: DeleteState)
        ensures
            next == self.after(q, answer),
    {
        match (self, answer) {
            (DeleteState::CheckProcesses, DeleteAnswer::Running(running)) => {
                if running {
                    DeleteState::Done(Ok(DeleteWorkspaceOutcome::SkippedRunningProcesses))
                } else {
                    DeleteState::FindDevServers
                }
            },
            (DeleteState::FindDevServers, DeleteAnswer::Carried) => DeleteState::StopDevServers,
            (DeleteState::StopDevServers, DeleteAnswer::Carried) => DeleteState::KillTerminal,
            (DeleteState::KillTerminal, DeleteAnswer::Carried) => DeleteState::Prepare,
            (DeleteState::Prepare, DeleteAnswer::Carried) => DeleteState::DeleteRecord,
            (DeleteState::DeleteRecord, DeleteAnswer::Rows(n)) => {
                if n == 0 {
                    DeleteState::Done(Err(DeleteError::RowNotFound))
                } else if q.delete_remote {
                    DeleteState::DeleteRemote
                } else {
                    DeleteState::CleanUp { delete_branches: q.delete_branches }
                }
            },
            (DeleteState::DeleteRemote, DeleteAnswer::Carried) => DeleteState::CleanUp {
                delete_branches: q.delete_branches,
            },
            (DeleteState::CleanUp { .. }, DeleteAnswer::Carried) => DeleteState::Done(
                Ok(DeleteWorkspaceOutcome::Deleted),
            ),
            (DeleteState::CheckProcesses, DeleteAnswer::Failed(e)) => DeleteState::Done(
                Err(DeleteError::Failed(e)),
            ),
            (DeleteState::FindDevServers, DeleteAnswer::Failed(e)) => DeleteState::Done(
                Err(DeleteError::Failed(e)),
            ),
            (DeleteState::Prepare, DeleteAnswer::Failed(e)) => DeleteState::Done(
                Err(DeleteError::Failed(e)),
            ),
            (DeleteState::DeleteRecord, DeleteAnswer::Failed(e)) => DeleteState::Done(
                Err(DeleteError::Failed(e)),
            ),
            (same, _) => same,
        }
    }
}

/// Where a deletion stands after the answers so far.
pub open spec fn delete_run(q: DeleteWorkspaceQuery, answers: Seq<DeleteAnswer>) -> DeleteState
    decreases answers.len(),
{
    if answers.len() == 0 {
        DeleteState::CheckProcesses
    } else {
        delete_run(q, answers.drop_last()).after(q, answers.last())
    }
}

/// Whether a state is one behind the check for running processes.
pub open spec fn past_check(s: DeleteState) -> bool {
    !(s is CheckProcesses) && !(s is Done)
}

/// Nothing is touched where processes run: every step behind the check, and
/// every deletion, rests on the answer that none does.
pub proof fn law_running_processes_are_safe(q: DeleteWorkspaceQuery, answers: Seq<DeleteAnswer>)
    requires
        past_check(delete_run(q, answers)) || delete_run(q, answers) == DeleteState::Done(
            Ok(DeleteWorkspaceOutcome::Deleted),
        ),
    ensures
        exists|i: int|
            0 <= i < answers.len() && #[trigger] answers[i] == DeleteAnswer::Running(false),
    decreases answers.len(),
{
    let head = answers.drop_last();
    let before = delete_run(q, head);
    if past_check(before) || before == DeleteState::Done(Ok(DeleteWorkspaceOutcome::Deleted)) {
        law_running_processes_are_safe(q, head);
        let i = choose|i: int|
            0 <= i < head.len() && #[trigger] head[i] == DeleteAnswer::Running(false);
        assert(answers[i] == DeleteAnswer::Running(false));
    } else {
        assert(answers[answers.len() - 1] == DeleteAnswer::Running(false));
    }
}

/// The terminal session ends before the record goes away, so that it never
/// outlives its workspace.
pub proof fn law_terminal_ends_first(q: DeleteWorkspaceQuery, s: DeleteState, a: DeleteAnswer)
    requires
        !(s is DeleteRecord),
        s.after(q, a) is DeleteRecord,
    ensures
        s is Prepare,
        forall|t: DeleteState, b: DeleteAnswer|
            !(t is Prepare) && #[trigger] t.after(q, b) is Prepare ==> t is KillTerminal,
{
}

/// What an update of a workspace entails.
#[derive(Debug, Clone, Copy, PartialEq, Eq, Structural)]
pub struct UpdateEffects {
    /// Whether the remote copy is updated.
    pub sync_remote: bool,
    /// Whether the workspace is archived by it.
    pub archive: bool,
}

/// What an update of a workspace entails.
pub fn update_effects(
    was_archived: bool,
    archived: Option<bool>,
    renamed: bool,
) -> (e: UpdateEffects)
    ensures
        e.sync_remote == (archived is Some || renamed),
        e.archive == (archived == Some(true) && !was_archived),
{
    let archiving = match archived {
        Some(a) => a,
        None => false,
    };
    UpdateEffects {
        sync_remote: archived.is_some() || renamed,
        archive: archiving && !was_archived,
    }
}

/// A name that says something.
pub open spec fn given_name(name: Option<String>) -> Option<String> {
    if name is Some && name->0@.len() > 0 {
        name
    } else {
        None
    }
}

/// What a new workspace is called, and what its branch is named after.
#[derive(Debug)]
pub struct NewWorkspaceNames {
    pub name: Option<String>,
    pub branch_label: String,
}

/// Names a new workspace. An empty name counts as none, and the branch is then
/// named after nothing in particular.
pub fn new_workspace_names(name: Option<String>) -> (n: NewWorkspaceNames)
    ensures
        n.name == given_name(name),
        n.branch_label@ == (if given_name(name) is Some {
            name->0@
        } else {
            "workspace"@
        }),
{
    match name {
        Some(text) => {
            if text.as_str().is_empty() {
                NewWorkspaceNames { name: None, branch_label: "workspace".to_owned() }
            } else {
                let branch_label = text.clone();
                NewWorkspaceNames { name: Some(text), branch_label }
            }
        },
        None => NewWorkspaceNames { name: None, branch_label: "workspace".to_owned() },
    }
}

/// The title of a workspace and what its branch is named after.
#[derive(Debug)]
pub struct GeneratedNames {
    pub title: String,
    pub branch_seed: String,
}

/// How far the naming of a new workspace has come. It runs beside the user, so
/// whatever the user renames meanwhile is left alone.
#[derive(Debug)]
pub enum NamingState {
    /// Does the first message start with a line that reads like a title?
    Hint,
    /// It does not: ask for names.
    Generate,
    /// Store the title, unless the name is no longer what it was at the start.
    StoreTitle { names: GeneratedNames },
    /// What is the branch called now?
    Reload { branch_seed: String },
    /// What would the branch be called? Its name may take up to
    /// [`BRANCH_NAME_LENGTH`].
    NameBranch { branch_seed: String },
    /// Rename the branch. It keeps its name where that fails.
    RenameBranch { branch: String },
    Done,
}

/// What came of a step.
#[derive(Debug)]
pub enum NamingAnswer {
    /// The title that was found.
    Hinted(Option<String>),
    Generated(Option<GeneratedNames>),
    /// The step was carried out, as far as it could be.
    Carried,
    /// What the branch is called; absent where the workspace is gone, or cannot
    /// be read.
    Branch(Option<String>),
    NewBranch(String),
}

/// Whether a branch gets a new name: that name says something, and is not the
/// one that it has.
pub open spec fn is_new_branch(branch: Seq<char>, original: Seq<char>) -> bool {
    !finishes_with(branch, "-"@) && branch != original
}

impl NamingState {
    /// The state after a step, where the branch was called `original` at the
    /// start. An answer to another question than the one that was asked changes
    /// nothing.
    pub open spec fn after(self, original: Seq<char>, answer: NamingAnswer) -> NamingState {
        match (self, answer) {
            (NamingState::Hint, NamingAnswer::Hinted(found)) => match found {
                Some(hint) => NamingState::StoreTitle {
                    names: GeneratedNames { title: hint, branch_seed: hint },
                },
                None => NamingState::Generate,
            },
            (NamingState::Generate, NamingAnswer::Generated(found)) => match found {
                Some(names) => NamingState::StoreTitle { names },
                None => NamingState::Done,
            },
            (NamingState::StoreTitle { names }, NamingAnswer::Carried) => NamingState::Reload {
                branch_seed: names.branch_seed,
            },
            (NamingState::Reload { branch_seed }, NamingAnswer::Branch(current)) => if opt_text(
                current,
            ) == Some(original) {
                NamingState::NameBranch { branch_seed }
            } else {
                NamingState::Done
            },
            (NamingState::NameBranch { .. }, NamingAnswer::NewBranch(branch)) => if is_new_branch(
                branch@,
                original,
            ) {
                NamingState::RenameBranch { branch }
            } else {
                NamingState::Done
            },
            (NamingState::RenameBranch { .. }, NamingAnswer::Carried) => NamingState::Done,
            _ => self,
        }
    }

    pub fn start() -> (s: NamingState)
        ensures
            s == NamingState::Hint,
    {
        NamingState::Hint
    }

    /// Takes what came of the step that the state stands for.
    pub fn step(self, original: &String, answer: NamingAnswer) -> (next: NamingState)
        ensures
            next == self.after(original@, answer),
    {
        match (self, answer) {
            (NamingState::Hint, NamingAnswer::Hinted(found)) => match found {
                Some(hint) => {
                    let branch_seed = hint.clone();
                    NamingState::StoreTitle { names: GeneratedNames { title: hint, branch_seed } }
                },
                None => NamingState::Generate,
            },
            (NamingState::Generate, NamingAnswer::Generated(found)) => match found {
                Some(names) => NamingState::StoreTitle { names },
                None => NamingState::Done,
            },
            (NamingState::StoreTitle { names }, NamingAnswer::Carried) => NamingState::Reload {
                branch_seed: names.branch_seed,
            },
            (NamingState::Reload { branch_seed }, NamingAnswer::Branch(current)) => match current {
                Some(branch) => {
                    if branch == *original {
                        NamingState::NameBranch { branch_seed }
                    } else {
                        NamingState::Done
                    }
                },
                None => NamingState::Done,
            },
            (NamingState::NameBranch { .. }, NamingAnswer::NewBranch(branch)) => {
                if !ends_with(branch.as_str(), "-") && branch != *original {
                    NamingState::RenameBranch { branch }
                } else {
                    NamingState::Done
                }
            },
            (NamingState::RenameBranch { .. }, NamingAnswer::Carried) => NamingState::Done,
            (same, _) => same,
        }
    }
}

/// A first line that reads like a title is kept as it is, and nothing is
/// generated for it.
pub proof fn law_title_hint_is_kept(original: Seq<char>, hint: String)
    ensures
        NamingState::Hint.after(original, NamingAnswer::Hinted(Some(hint)))
            == (NamingState::StoreTitle {
            names: GeneratedNames { title: hint, branch_seed: hint },
        }),
{
}

/// A branch that somebody renamed meanwhile is never renamed again: the way to a
/// rename leads through the answer that the branch is still called what it was
/// called at the start.
pub proof fn law_renamed_branch_is_left_alone(
    s: NamingState,
    original: Seq<char>,
    answer: NamingAnswer,
)
    ensures
        !(s is RenameBranch) && s.after(original, answer) is RenameBranch ==> s is NameBranch
            && is_new_branch(s.after(original, answer)->branch@, original),
        !(s is NameBranch) && s.after(original, answer) is NameBranch ==> s is Reload && (answer
            matches NamingAnswer::Branch(current) && opt_text(current) == Some(original)),
{
}

/// What the creation of a workspace asks for, as far as it is decided here.
#[derive(Debug, Clone, Copy, PartialEq, Eq, Structural)]
pub struct CreateSettings {
    /// How many repositories the workspace gets.
    pub repos: usize,
    pub has_attachments: bool,
    /// Whether an issue is linked, and the remote service can be reached.
    pub can_import: bool,
}

/// How far the creation of a workspace has come.
#[derive(Debug)]
pub enum CreateState {
    CreateRecord { prompt: String },
    /// Repository number `next` is added.
    AddRepository { next: usize, prompt: String },
    /// The attachments are associated with the workspace.
    Associate { prompt: String },
    /// The attachments of the linked issue are imported.
    Import { prompt: String },
    /// Their files are associated with the workspace; what cannot be is left.
    AssociateImported { prompt: String, file_ids: Vec<u128> },
    /// The workspace is started with the prompt.
    Start { prompt: String },
    /// It is given its names in the background.
    Name,
    Done(Result<(), CreateError>),
}

/// Why a workspace was not created.
#[derive(Debug)]
pub enum CreateError {
    NoPrompt,
    NoRepository,
    Failed(ApiError),
}

/// What came of a step.
#[derive(Debug)]
pub enum CreateAnswer {
    Carried,
    /// What was imported; absent where that failed.
    Imported(Option<Vec<ImportedIssueAttachment>>),
    Failed(ApiError),
}

/// The state in which repository number `next` is added, or what follows.
pub open spec fn adding(next: usize, prompt: String, c: CreateSettings) -> CreateState {
    if next < c.repos {
        CreateState::AddRepository { next, prompt }
    } else if c.has_attachments {
        CreateState::Associate { prompt }
    } else {
        importing(prompt, c)
    }
}

/// The state in which attachments are imported, or what follows.
pub open spec fn importing(prompt: String, c: CreateSettings) -> CreateState {
    if c.can_import {
        CreateState::Import { prompt }
    } else {
        CreateState::Start { prompt }
    }
}

impl CreateState {
    /// Whether `next` is the state after a step. An answer to another question
    /// than the one that was asked changes nothing.
    pub open spec fn leads_to(
        self,
        c: CreateSettings,
        answer: CreateAnswer,
        next: CreateState,
    ) -> bool {
        match (self, answer) {
            (CreateState::CreateRecord { prompt }, CreateAnswer::Carried) => next == adding(
                0,
                prompt,
                c,
            ),
            (CreateState::AddRepository { next: n, prompt }, CreateAnswer::Carried) => next
                == adding((n + 1) as usize, prompt, c),
            (CreateState::Associate { prompt }, CreateAnswer::Carried) => next == importing(
                prompt,
                c,
            ),
            (CreateState::Import { prompt }, CreateAnswer::Imported(Some(list))) => if list@.len()
                == 0 {
                next == (CreateState::Start { prompt })
            } else {
                next matches CreateState::AssociateImported { prompt: p, file_ids } && p@
                    == rewritten_from(prompt@, 0, list@) && file_ids@ == list@.map_values(
                    |a: ImportedIssueAttachment| a.file_id,
                )
            },
            (CreateState::Import { prompt }, CreateAnswer::Imported(None)) => next == (
            CreateState::Start { prompt }),
            (CreateState::AssociateImported { prompt, .. }, CreateAnswer::Carried) => next == (
            CreateState::Start { prompt }),
            (CreateState::AssociateImported { prompt, .. }, CreateAnswer::Failed(_)) => next == (
            CreateState::Start { prompt }),
            (CreateState::Start { .. }, CreateAnswer::Carried) => next == CreateState::Name,
            (CreateState::Name, CreateAnswer::Carried) => next == CreateState::Done(Ok(())),
            (CreateState::CreateRecord { .. }, CreateAnswer::Failed(e)) => next
                == CreateState::Done(Err(CreateError::Failed(e))),
            (CreateState::AddRepository { .. }, CreateAnswer::Failed(e)) => next
                == CreateState::Done(Err(CreateError::Failed(e))),
            (CreateState::Associate { .. }, CreateAnswer::Failed(e)) => next == CreateState::Done(
                Err(CreateError::Failed(e)),
            ),
            (CreateState::Start { .. }, CreateAnswer::Failed(e)) => next == CreateState::Done(
                Err(CreateError::Failed(e)),
            ),
            _ => next == self,
        }
    }

    /// Whether `s` is how the creation of a workspace starts.
    pub open spec fn begins(prompt: Seq<char>, c: CreateSettings, s: CreateState) -> bool {
        if trimmed(prompt).len() == 0 {
            s == CreateState::Done(Err(CreateError::NoPrompt))
        } else if c.repos == 0 {
            s == CreateState::Done(Err(CreateError::NoRepository))
        } else {
            s matches CreateState::CreateRecord { prompt: p } && p@ == trimmed(prompt)
        }
    }

    /// The creation of a workspace with a prompt and some repositories starts,
    /// unless either is missing.
    pub fn start(prompt: &str, c: CreateSettings) -> (s: CreateState)
        ensures
            CreateState::begins(prompt@, c, s),
    {
        match normalize_prompt(prompt) {
            None => CreateState::Done(Err(CreateError::NoPrompt)),
            Some(clean) => {
                if c.repos == 0 {
                    CreateState::Done(Err(CreateError::NoRepository))
                } else {
                    CreateState::CreateRecord { prompt: clean }
                }
            },
        }
    }

    fn import_or_start(prompt: String, c: CreateSettings) -> (s: CreateState)
        ensures
            s == importing(prompt, c),
    {
        if c.can_import {
            CreateState::Import { prompt }
        } else {
            CreateState::Start { prompt }
        }
    }

    fn add_or_go_on(next: usize, prompt: String, c: CreateSettings) -> (s: CreateState)
        ensures
            s == adding(next, prompt, c),
    {
        if next < c.repos {
            CreateState::AddRepository { next, prompt }
        } else if c.has_attachments {
            CreateState::Associate { prompt }
        } else {
            CreateState::import_or_start(prompt, c)
        }
    }

    /// Takes what came of the step that the state stands for.
    pub fn step(self, c: CreateSettings, answer: CreateAnswer) -> (next: CreateState)
        requires
            self is AddRepository ==> self->AddRepository_next < c.repos,
        ensures
            self.leads_to(c, answer, next),
            next is AddRepository ==> next->AddRepository_next < c.repos,
    {
        match (self, answer) {
            (CreateState::CreateRecord { prompt }, CreateAnswer::Carried) => {
                CreateState::add_or_go_on(0, prompt, c)
            },
            (CreateState::AddRepository { next, prompt }, CreateAnswer::Carried) => {
                CreateState::add_or_go_on(next + 1, prompt, c)
            },
            (CreateState::Associate { prompt }, CreateAnswer::Carried) => {
                CreateState::import_or_start(prompt, c)
            },
            (CreateState::Import { prompt }, CreateAnswer::Imported(found)) => match found {
                Some(list) => {
                    if list.len() == 0 {
                        CreateState::Start { prompt }
                    } else {
                        CreateState::AssociateImported {
                            prompt: rewrite_imported_issue_attachments_markdown(
                                prompt.as_str(),
                                &list,
                            ),
                            file_ids: imported_file_ids(&list),
                        }
                    }
                },
                None => CreateState::Start { prompt },
            },
            (CreateState::AssociateImported { prompt, .. }, CreateAnswer::Carried) => {
                CreateState::Start { prompt }
            },
            (CreateState::AssociateImported { prompt, .. }, CreateAnswer::Failed(_)) => {
                CreateState::Start { prompt }
            },
            (CreateState::Start { .. }, CreateAnswer::Carried) => CreateState::Name,
            (CreateState::Name, CreateAnswer::Carried) => CreateState::Done(Ok(())),
            (CreateState::CreateRecord { .. }, CreateAnswer::Failed(e)) => CreateState::Done(
                Err(CreateError::Failed(e)),
            ),
            (CreateState::AddRepository { .. }, CreateAnswer::Failed(e)) => CreateState::Done(
                Err(CreateError::Failed(e)),
            ),
            (CreateState::Associate { .. }, CreateAnswer::Failed(e)) => CreateState::Done(
                Err(CreateError::Failed(e)),
            ),
            (CreateState::Start { .. }, CreateAnswer::Failed(e)) => CreateState::Done(
                Err(CreateError::Failed(e)),
            ),
            (same, _) => same,
        }
    }
}

/// The files that attachments became.
fn imported_file_ids(list: &Vec<ImportedIssueAttachment>) -> (ids: Vec<u128>)
    ensures
        ids@ == list@.map_values(|a: ImportedIssueAttachment| a.file_id),
{
    let mut ids: Vec<u128> = Vec::new();
    for i in 0..list.len()
        invariant
            ids@ == list@.take(i as int).map_values(|a: ImportedIssueAttachment| a.file_id),
    {
        ids.push(list[i].file_id);
        proof {
            assert(list@.take(i + 1).map_values(|a: ImportedIssueAttachment| a.file_id)
                =~= list@.take(i as int).map_values(|a: ImportedIssueAttachment| a.file_id).push(
                list@[i as int].file_id,
            ));
        }
    }
    proof {
        assert(list@.take(list@.len() as int) =~= list@);
    }
    ids
}

impl CreateError {
    /// What the request is answered with.
    pub fn into_api_error(self) -> (e: ApiError)
        ensures
            match self {
                CreateError::NoPrompt => bad_request(
                    e,
                    "A workspace prompt is required. Provide a non-empty `prompt`."@,
                ),
                CreateError::NoRepository => bad_request(
                    e,
                    "At least one repository is required"@,
                ),
                CreateError::Failed(m) => e == m,
            },
    {
        match self {
            CreateError::NoPrompt => ApiError::BadRequest(
                "A workspace prompt is required. Provide a non-empty `prompt`.".to_owned(),
            ),
            CreateError::NoRepository => ApiError::BadRequest(
                "At least one repository is required".to_owned(),
            ),
            CreateError::Failed(m) => m,
        }
    }
}

/// A failed import never keeps a workspace from starting, and its prompt is then
/// what the user wrote.
pub proof fn law_failed_import_keeps_prompt(prompt: String, c: CreateSettings, next: CreateState)
    requires
        (CreateState::Import { prompt }).leads_to(c, CreateAnswer::Imported(None), next),
    ensures
        next == (CreateState::Start { prompt }),
{
}

/// The prompt that a creation carries along.
pub open spec fn prompt_of(s: CreateState) -> Option<String> {
    match s {
        CreateState::CreateRecord { prompt } => Some(prompt),
        CreateState::AddRepository { prompt, .. } => Some(prompt),
        CreateState::Associate { prompt } => Some(prompt),
        CreateState::Import { prompt } => Some(prompt),
        CreateState::AssociateImported { prompt, .. } => Some(prompt),
        CreateState::Start { prompt } => Some(prompt),
        _ => None,
    }
}

/// A workspace is started with what the user wrote, and nothing else: only
/// imported attachments ever change the prompt.
pub proof fn law_prompt_changes_by_import_alone(
    s: CreateState,
    c: CreateSettings,
    answer: CreateAnswer,
    next: CreateState,
)
    requires
        s.leads_to(c, answer, next),
        prompt_of(s) is Some,
        prompt_of(next) is Some,
    ensures
        prompt_of(next) == prompt_of(s) || (s is Import && answer is Imported),
{
}

/// Every step of a creation follows the one that it needs: the record, each
/// repository in turn, the attachments where there are some, the import where
/// one is possible, the start, and the names. Only a workspace that was started
/// is named, and only one that was named is reported as created.
pub proof fn law_creation_keeps_its_order(
    s: CreateState,
    c: CreateSettings,
    a: CreateAnswer,
    next: CreateState,
)
    requires
        s.leads_to(c, a, next),
        s is AddRepository ==> s->AddRepository_next < c.repos,
        c.repos > 0,
        next != s,
    ensures
        ({
            let last_repo = s is AddRepository && s->AddRepository_next + 1 == c.repos && a
                is Carried;
            let associated = s is Associate && a is Carried || !c.has_attachments && last_repo;
            &&& next is AddRepository ==> a is Carried && next->AddRepository_next < c.repos && (
            if next->AddRepository_next == 0 {
                s is CreateRecord
            } else {
                s is AddRepository && s->AddRepository_next + 1 == next->AddRepository_next
            })
            &&& next is Associate ==> c.has_attachments && last_repo
            &&& next is Import ==> c.can_import && associated
            &&& next is AssociateImported ==> s is Import && (a matches CreateAnswer::Imported(
                Some(list),
            ) && list@.len() > 0)
            &&& next is Start ==> s is Import || s is AssociateImported || associated
                && !c.can_import
            &&& next is Name ==> s is Start && a is Carried
            &&& next == CreateState::Done(Ok(())) ==> s is Name && a is Carried
            &&& !(next is CreateRecord)
            &&& next is Done && next != CreateState::Done(Ok(())) ==> (a matches CreateAnswer::Failed(
                e,
            ) && next == CreateState::Done(Err(CreateError::Failed(e)))) && (s is CreateRecord || s
                is AddRepository || s is Associate || s is Start)
        }),
{
    if let CreateState::AddRepository { next: n, .. } = s {
        assert((n + 1) as usize == n + 1);
        assert(a is Carried || a is Failed);
    }
}

/// What was asked for moves a creation on, and a failure ends it with its
/// reason, except where attachments of an issue are imported: there it goes on
/// without them.
pub proof fn law_creation_goes_on(
    s: CreateState,
    c: CreateSettings,
    a: CreateAnswer,
    next: CreateState,
)
    requires
        s.leads_to(c, a, next),
        s is AddRepository ==> s->AddRepository_next < c.repos,
        c.repos > 0,
    ensures
        a is Carried && !(s is Import) && !(s is Done) ==> next != s,
        a is Imported && s is Import ==> next != s,
        s is Associate && a is Carried ==> next == (if c.can_import {
            CreateState::Import { prompt: s->Associate_prompt }
        } else {
            CreateState::Start { prompt: s->Associate_prompt }
        }),
        s is Start && a is Carried ==> next is Name,
        s is Name && a is Carried ==> next == CreateState::Done(Ok(())),
        a is Failed && (s is CreateRecord || s is AddRepository || s is Associate || s is Start)
            ==> next == CreateState::Done(Err(CreateError::Failed(a->Failed_0))),
        s is AssociateImported && (a is Carried || a is Failed) ==> next == (CreateState::Start {
            prompt: s->AssociateImported_prompt,
        }),
        s is Import && (a matches CreateAnswer::Imported(Some(list)) && list@.len() > 0)
            ==> next is AssociateImported && next->file_ids@.len() == a->Imported_0->0@.len()
            && forall|i: int|
            0 <= i < next->file_ids@.len() ==> #[trigger] next->file_ids@[i]
                == a->Imported_0->0@[i].file_id,
        s is Import && (a matches CreateAnswer::Imported(found) && (found is None || found->0@.len()
            == 0)) ==> next == (CreateState::Start { prompt: s->Import_prompt }),
{
}

/// The creation of a workspace from beginning to end.
pub ghost struct CreateHistory {
    pub states: Seq<CreateState>,
    pub answers: Seq<CreateAnswer>,
}

impl CreateHistory {
    /// Whether this is a creation with a prompt and settings.
    pub open spec fn creates(self, prompt: Seq<char>, c: CreateSettings) -> bool {
        &&& self.states.len() == self.answers.len() + 1
        &&& CreateState::begins(prompt, c, self.states[0])
        &&& forall|i: int|
            0 <= i < self.answers.len() ==> (#[trigger] self.states[i]).leads_to(
                c,
                self.answers[i],
                self.states[i + 1],
            )
    }

    /// Whether the workspace was started with `text` before step `n`.
    pub open spec fn started_with(self, text: Seq<char>, n: int) -> bool {
        exists|i: int|
            0 <= i < n && i < self.answers.len() && self.answers[i] is Carried && (
            #[trigger] self.states[i] matches CreateState::Start { prompt } && prompt@ == text)
    }

    /// Whether repository `r` was added before step `n`.
    pub open spec fn added(self, r: int, n: int) -> bool {
        exists|i: int|
            0 <= i < n && i < self.answers.len() && self.answers[i] is Carried && (
            #[trigger] self.states[i] matches CreateState::AddRepository { next, .. } && next == r)
    }

    /// Whether attachments were imported before step `n` that make `text` of
    /// what the user wrote.
    pub open spec fn imported_as(self, prompt: Seq<char>, text: Seq<char>, n: int) -> bool {
        exists|i: int|
            0 <= i < n && i < self.answers.len() && #[trigger] self.states[i] is Import && (
            self.answers[i] matches CreateAnswer::Imported(Some(list)) && text == rewritten_from(
                trimmed(prompt),
                0,
                list@,
            ))
    }

    /// Whether `text` is what the workspace is started with at step `n`: what the
    /// user wrote, or that with its references to imported attachments rewritten.
    pub open spec fn is_prompt(self, prompt: Seq<char>, text: Seq<char>, n: int) -> bool {
        text == trimmed(prompt) || self.imported_as(prompt, text, n)
    }
}

/// How far a creation has come by a state.
spec fn come_to(h: CreateHistory, prompt: Seq<char>, c: CreateSettings, n: int) -> bool {
    let s = h.states[n];
    let all_added = forall|r: int| 0 <= r < c.repos ==> #[trigger] h.added(r, n);
    &&& s is CreateRecord ==> s->CreateRecord_prompt@ == trimmed(prompt)
    &&& s is AddRepository ==> {
        &&& s->AddRepository_next < c.repos
        &&& s->AddRepository_prompt@ == trimmed(prompt)
        &&& forall|r: int| 0 <= r < s->AddRepository_next ==> #[trigger] h.added(r, n)
    }
    &&& s is Associate ==> all_added && s->Associate_prompt@ == trimmed(prompt)
    &&& s is Import ==> all_added && s->Import_prompt@ == trimmed(prompt)
    &&& s is AssociateImported ==> all_added && h.is_prompt(
        prompt,
        s->AssociateImported_prompt@,
        n,
    )
    &&& s is Start ==> all_added && h.is_prompt(prompt, s->Start_prompt@, n)
    &&& s is Name || s == CreateState::Done(Ok(())) ==> all_added && exists|text: Seq<char>|
        #[trigger] h.started_with(text, n) && h.is_prompt(prompt, text, n)
    &&& !(s is Done) ==> trimmed(prompt).len() > 0 && c.repos > 0
}

proof fn lemma_history_grows(h: CreateHistory, prompt: Seq<char>, b: int)
    ensures
        forall|r: int| #[trigger] h.added(r, b) ==> h.added(r, b + 1),
        forall|t: Seq<char>| #[trigger] h.imported_as(prompt, t, b) ==> h.imported_as(
            prompt,
            t,
            b + 1,
        ),
        forall|t: Seq<char>| #[trigger] h.started_with(t, b) ==> h.started_with(t, b + 1),
        forall|t: Seq<char>| #[trigger] h.is_prompt(prompt, t, b) ==> h.is_prompt(prompt, t, b + 1),
{
    assert forall|r: int| #[trigger] h.added(r, b) implies h.added(r, b + 1) by {
        let i = choose|i: int|
            0 <= i < b && i < h.answers.len() && h.answers[i] is Carried && (
            #[trigger] h.states[i] matches CreateState::AddRepository { next, .. } && next == r);
        assert(h.states[i] is AddRepository);
    }
    assert forall|t: Seq<char>| #[trigger] h.imported_as(prompt, t, b) implies h.imported_as(
        prompt,
        t,
        b + 1,
    ) by {
        let i = choose|i: int|
            0 <= i < b && i < h.answers.len() && #[trigger] h.states[i] is Import && (
            h.answers[i] matches CreateAnswer::Imported(Some(list)) && t == rewritten_from(
                trimmed(prompt),
                0,
                list@,
            ));
        assert(h.states[i] is Import);
    }
    assert forall|t: Seq<char>| #[trigger] h.started_with(t, b) implies h.started_with(t, b + 1) by {
        let i = choose|i: int|
            0 <= i < b && i < h.answers.len() && h.answers[i] is Carried && (
            #[trigger] h.states[i] matches CreateState::Start { prompt } && prompt@ == t);
        assert(h.states[i] is Start);
    }
}

#[verifier::rlimit(50)]
proof fn lemma_come_to_step(h: CreateHistory, prompt: Seq<char>, c: CreateSettings, b: int)
    requires
        0 <= b < h.answers.len(),
        h.states.len() == h.answers.len() + 1,
        h.states[b].leads_to(c, h.answers[b], h.states[b + 1]),
        come_to(h, prompt, c, b),
        h.states[b] == CreateState::Done(Ok(())) ==> trimmed(prompt).len() > 0 && c.repos > 0,
    ensures
        come_to(h, prompt, c, b + 1),
        h.states[b + 1] == CreateState::Done(Ok(())) ==> trimmed(prompt).len() > 0 && c.repos > 0,
{
    let s = h.states[b];
    let a = h.answers[b];
    let next = h.states[b + 1];
    let n = b + 1;
    lemma_history_grows(h, prompt, b);
    match s {
        CreateState::AddRepository { next: r, .. } => {
            if a is Carried {
                assert(h.states[b] is AddRepository);
                assert(h.added(r as int, n));
                if r + 1 == c.repos {
                    assert forall|k: int| 0 <= k < c.repos implies #[trigger] h.added(k, n) by {
                        if k < r {
                            assert(h.added(k, b));
                        }
                    }
                } else {
                    assert forall|k: int| 0 <= k < r + 1 implies #[trigger] h.added(k, n) by {
                        if k < r {
                            assert(h.added(k, b));
                        }
                    }
                }
                assert(prompt_of(next) is Some);
                if next is Start {
                    assert(h.is_prompt(prompt, next->Start_prompt@, n));
                }
            } else {
                assert(next == s || next is Done);
                assert forall|k: int| 0 <= k < r implies #[trigger] h.added(k, n) by {
                    assert(h.added(k, b));
                }
            }
        },
        CreateState::CreateRecord { .. } => {},
        CreateState::Associate { .. } => {
            if next is Start {
                assert(h.is_prompt(prompt, next->Start_prompt@, n));
            }
            assert forall|k: int| 0 <= k < c.repos implies #[trigger] h.added(k, n) by {
                assert(h.added(k, b));
            }
        },
        CreateState::Import { .. } => {
            assert forall|k: int| 0 <= k < c.repos implies #[trigger] h.added(k, n) by {
                assert(h.added(k, b));
            }
            assert(h.states[b] is Import);
            if next is AssociateImported {
                assert(h.imported_as(prompt, next->AssociateImported_prompt@, n));
                assert(h.is_prompt(prompt, next->AssociateImported_prompt@, n));
            }
            if next is Start {
                assert(h.is_prompt(prompt, next->Start_prompt@, n));
            }
        },
        CreateState::AssociateImported { prompt: p, .. } => {
            assert forall|k: int| 0 <= k < c.repos implies #[trigger] h.added(k, n) by {
                assert(h.added(k, b));
            }
            assert(h.is_prompt(prompt, p@, b));
            assert(h.is_prompt(prompt, p@, n));
        },
        CreateState::Start { prompt: p } => {
            assert forall|k: int| 0 <= k < c.repos implies #[trigger] h.added(k, n) by {
                assert(h.added(k, b));
            }
            assert(h.is_prompt(prompt, p@, b));
            assert(h.is_prompt(prompt, p@, n));
            if a is Carried {
                assert(h.states[b] is Start);
                assert(h.started_with(p@, n));
            }
        },
        _ => {
            if s is Name || s == CreateState::Done(Ok(())) {
                assert forall|k: int| 0 <= k < c.repos implies #[trigger] h.added(k, n) by {
                    assert(h.added(k, b));
                }
                let text = choose|text: Seq<char>|
                    #[trigger] h.started_with(text, b) && h.is_prompt(prompt, text, b);
                assert(h.started_with(text, b));
                assert(h.is_prompt(prompt, text, b));
                assert(h.started_with(text, n) && h.is_prompt(prompt, text, n));
            }
        },
    }
}

proof fn lemma_come_to(h: CreateHistory, prompt: Seq<char>, c: CreateSettings, n: int)
    requires
        h.creates(prompt, c),
        0 <= n < h.states.len(),
    ensures
        come_to(h, prompt, c, n),
        h.states[n] == CreateState::Done(Ok(())) ==> trimmed(prompt).len() > 0 && c.repos > 0,
    decreases n,
{
    if n > 0 {
        lemma_come_to(h, prompt, c, n - 1);
        assert(h.states[n - 1].leads_to(c, h.answers[n - 1], h.states[n]));
        lemma_come_to_step(h, prompt, c, n - 1);
    }
}

/// A workspace that is reported as created has all of its repositories, and was
/// started with what the user wrote, or with that where its references to
/// imported attachments point at the imported files. There is none without a
/// prompt and a repository.
pub proof fn law_created_workspace_was_started(
    h: CreateHistory,
    prompt: Seq<char>,
    c: CreateSettings,
)
    requires
        h.creates(prompt, c),
        h.states.last() == CreateState::Done(Ok(())),
    ensures
        trimmed(prompt).len() > 0,
        c.repos > 0,
        forall|r: int| 0 <= r < c.repos ==> #[trigger] h.added(r, h.states.len() - 1),
        exists|text: Seq<char>| #[trigger]
            h.started_with(text, h.states.len() - 1) && (text == trimmed(prompt)
                || h.imported_as(prompt, text, h.states.len() - 1)),
{
    lemma_come_to(h, prompt, c, h.states.len() - 1);
}

/// A creation is refused at once where the prompt says nothing or no repository
/// is named, and only there.
pub proof fn law_creation_needs_prompt_and_repository(
    prompt: Seq<char>,
    c: CreateSettings,
    s: CreateState,
)
    requires
        CreateState::begins(prompt, c, s),
    ensures
        s is Done <==> trimmed(prompt).len() == 0 || c.repos == 0,
        s == CreateState::Done(Err(CreateError::NoPrompt)) <==> trimmed(prompt).len() == 0,
        !(s is Done) ==> s is CreateRecord && s->CreateRecord_prompt@ == trimmed(prompt),
        s is Done ==> s != CreateState::Done(Ok(())),
{
}

/// A workspace is deleted step by step, in one order: the check, the development
/// servers, the terminal, what has to be cleaned up, the record, the remote copy
/// where that is asked for, and the files, with the branches exactly where that
/// is asked for.
pub proof fn law_deletion_order(q: DeleteWorkspaceQuery, error: ApiError, rows: u64)
    requires
        rows > 0,
    ensures
        ({
            let s1 = DeleteState::CheckProcesses.after(q, DeleteAnswer::Running(false));
            let s2 = s1.after(q, DeleteAnswer::Carried);
            let s3 = s2.after(q, DeleteAnswer::Carried);
            let s4 = s3.after(q, DeleteAnswer::Carried);
            let s5 = s4.after(q, DeleteAnswer::Carried);
            let s6 = s5.after(q, DeleteAnswer::Rows(rows));
            let s7 = if q.delete_remote {
                s6.after(q, DeleteAnswer::Carried)
            } else {
                s6
            };
            &&& s1 is FindDevServers
            &&& s2 is StopDevServers
            &&& s3 is KillTerminal
            &&& s4 is Prepare
            &&& s5 is DeleteRecord
            &&& s6 is DeleteRemote <==> q.delete_remote
            &&& s7 is CleanUp && s7->delete_branches == q.delete_branches
            &&& s7.after(q, DeleteAnswer::Carried) == DeleteState::Done(
                Ok(DeleteWorkspaceOutcome::Deleted),
            )
            &&& s5.after(q, DeleteAnswer::Rows(0)) == DeleteState::Done(
                Err(DeleteError::RowNotFound),
            )
            &&& DeleteState::CheckProcesses.after(q, DeleteAnswer::Running(true))
                == DeleteState::Done(Ok(DeleteWorkspaceOutcome::SkippedRunningProcesses))
            &&& DeleteState::CheckProcesses.after(q, DeleteAnswer::Failed(error))
                == DeleteState::Done(Err(DeleteError::Failed(error)))
            &&& s1.after(q, DeleteAnswer::Failed(error)) == DeleteState::Done(
                Err(DeleteError::Failed(error)),
            )
            &&& s4.after(q, DeleteAnswer::Failed(error)) == DeleteState::Done(
                Err(DeleteError::Failed(error)),
            )
            &&& s5.after(q, DeleteAnswer::Failed(error)) == DeleteState::Done(
                Err(DeleteError::Failed(error)),
            )
        }),
{
}

/// A new workspace takes the title that its first line gives, or the generated
/// one. Its branch is renamed after it only where it is still called what it was
/// called at the start and the new name is another one that does not end in a
/// hyphen.
pub proof fn law_naming_order(
    original: Seq<char>,
    names: GeneratedNames,
    current: Option<String>,
    branch: String,
)
    ensures
        ({
            let g = NamingState::Hint.after(original, NamingAnswer::Hinted(None));
            let t = g.after(original, NamingAnswer::Generated(Some(names)));
            let r = t.after(original, NamingAnswer::Carried);
            let b = r.after(original, NamingAnswer::Branch(current));
            let n = b.after(original, NamingAnswer::NewBranch(branch));
            let same = current is Some && current->0@ == original;
            let useful = branch@ != original && !(branch@.len() > 0 && branch@.last() == '-');
            &&& g is Generate
            &&& g.after(original, NamingAnswer::Generated(None)) is Done
            &&& t == (NamingState::StoreTitle { names })
            &&& r == (NamingState::Reload { branch_seed: names.branch_seed })
            &&& same ==> b == (NamingState::NameBranch { branch_seed: names.branch_seed })
            &&& !same ==> b is Done
            &&& same && useful ==> n == (NamingState::RenameBranch { branch }) && n.after(
                original,
                NamingAnswer::Carried,
            ) is Done
            &&& same && !useful ==> n is Done
        }),
{
    reveal_strlit("-");
    assert("-"@ =~= seq!['-']);
    if branch@.len() > 0 {
        let tail = branch@.subrange(branch@.len() - 1, branch@.len() as int);
        assert(tail[0] == branch@.last());
        if branch@.last() == '-' {
            assert(tail =~= seq!['-']);
        }
    }
}

/// What is reported of one workspace: deleted only where it was found archived
/// since the very moment that the user saw and its deletion went through; failed
/// only where it could not be read or its deletion failed, with that reason;
/// skipped otherwise.
pub proof fn law_bulk_outcome(
    target: BulkDeleteTarget,
    fresh: FreshWorkspace,
    deletion: DeletionResult,
    o: BulkDeleteItemOutcome,
)
    requires
        outcome_is(target, fresh, deletion, o),
    ensures
        ({
            let same = fresh is Found && fresh->archived && fresh->archived_at
                == target.archived_at;
            &&& o is Deleted <==> same && deletion == DeletionResult::Outcome(
                DeleteWorkspaceOutcome::Deleted,
            )
            &&& o is Failed <==> fresh is Unreadable || same && deletion is Failed
            &&& fresh is Unreadable ==> o->Failed_reason == fresh->Unreadable_error
            &&& same && deletion is Failed ==> o->Failed_reason == deletion->Failed_error
            &&& fresh is Missing ==> o->Skipped_reason@ == "already deleted"@
            &&& fresh is Found && !fresh->archived ==> o->Skipped_reason@ == "no longer archived"@
            &&& fresh is Found && fresh->archived && !same ==> o->Skipped_reason@
                == "archive state changed since review"@
        }),
{
}

/// The tally counts each result under what it is.
pub proof fn law_tally_counts(results: Seq<BulkDeleteItemResult>)
    ensures
        deleted_in(results) == results.filter(
            |r: BulkDeleteItemResult| r.outcome is Deleted,
        ).len(),
        skipped_in(results) == results.filter(
            |r: BulkDeleteItemResult| r.outcome is Skipped,
        ).len(),
    decreases results.len(),
{
    reveal(Seq::filter);
    if results.len() > 0 {
        law_tally_counts(results.drop_last());
    }
}

/// A workspace is shown under the name that it has, and has none where it was not
/// found; an empty name is none.
pub proof fn law_workspace_names(fresh: FreshWorkspace, name: Option<String>)
    ensures
        fresh matches FreshWorkspace::Found { name: n, .. } ==> shown_name(fresh) == n,
        !(fresh is Found) ==> shown_name(fresh) is None,
        name matches Some(text) ==> (text@.len() > 0 ==> given_name(name) == name) && (text@.len()
            == 0 ==> given_name(name) is None),
        name is None ==> given_name(name) is None,
{
}

/// The targets are taken in turn. Each is looked at, and deleted only where it was
/// found archived since the very moment that the user saw; never in the remote, and
/// with its branches only where that was asked for. Each has one result, under its
/// own identifier, and those that are there stay.
pub proof fn law_targets_are_taken_in_turn(run: BulkRun, answer: BulkAnswer, next: BulkRun)
    requires
        run.valid(),
        run.leads_to(answer, next),
    ensures
        ({
            let n = run.results@.len() as int;
            let t = run.targets@[n];
            let open = n < run.targets@.len();
            let reported = next.under_way is None && next.results@.len() == n + 1
                && next.results@.take(n) == run.results@ && next.results@[n].workspace_id
                == t.workspace_id;
            &&& !open ==> run.asks() is Finish && next == run
            &&& open && run.under_way is None ==> run.asks() == (BulkAsk::Look {
                workspace_id: t.workspace_id,
            })
            &&& open && run.under_way is Some ==> run.asks() == (BulkAsk::Delete {
                workspace_id: t.workspace_id,
                query: DeleteWorkspaceQuery {
                    delete_remote: false,
                    delete_branches: run.delete_branches,
                },
            })
            &&& open && run.under_way is None ==> (answer matches BulkAnswer::Looked(fresh) ==> {
                let same = fresh is Found && fresh->archived && fresh->archived_at
                    == t.archived_at;
                &&& same ==> next.under_way == Some(fresh) && next.results == run.results
                &&& !same ==> reported && !(next.results@[n].outcome is Deleted)
                &&& !same ==> (fresh matches FreshWorkspace::Found { name, .. }
                    ==> next.results@[n].workspace_name == name)
            })
            &&& open && run.under_way is Some ==> (answer matches BulkAnswer::Deletion(d) ==> {
                &&& reported
                &&& next.results@[n].outcome is Deleted <==> d == DeletionResult::Outcome(
                    DeleteWorkspaceOutcome::Deleted,
                )
                &&& next.results@[n].outcome is Failed <==> d is Failed
                &&& run.under_way->0 matches FreshWorkspace::Found { name, .. }
                    && next.results@[n].workspace_name == name
            })
        }),
{
    let n = run.results@.len() as int;
    if next.results@.len() == n + 1 {
        assert(next.results@.take(n) =~= next.results@.drop_last());
    }
    if n < run.targets@.len() && run.under_way is None && answer is Looked {
        let fresh = answer->Looked_0;
        if !unchanged(run.target(), fresh) {
            let any = DeletionResult::Outcome(DeleteWorkspaceOutcome::Deleted);
            assert(run.reports(fresh, any, next));
            assert(next.results@.take(n) =~= next.results@.drop_last());
        }
    } else if n < run.targets@.len() && run.under_way is Some && answer is Deletion {
        assert(run.reports(run.under_way->0, answer->Deletion_0, next));
        assert(next.results@.take(n) =~= next.results@.drop_last());
    }
}

} // verus!
