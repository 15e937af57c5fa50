use uuid::Uuid;

use bettercoding::attachments::ImportedIssueAttachment;
use bettercoding::cli_activity::{report_seq, HookReportQuery, REPORT_STATUS};
use bettercoding::error::ApiError;
use bettercoding::workspaces::{
    bulk_delete_result, bulk_delete_wanted, delete_response, new_workspace_names, tally,
    update_effects, BulkAnswer, BulkAsk, BulkDeleteItemOutcome, BulkDeleteItemResult,
    BulkDeleteTarget, BulkRun, BulkTally, CreateAnswer, CreateError, CreateSettings,
    CreateState, DeleteAnswer, DeleteError, DeleteState, DeleteWorkspaceOutcome,
    DeleteWorkspaceQuery, DeletionResult, FreshWorkspace, GeneratedNames,
    NamingAnswer, NamingState,
};

const RUNNING: &str =
    "Cannot delete workspace while processes are running. Stop all processes first.";

fn target(archived_at: Option<i128>) -> BulkDeleteTarget {
    BulkDeleteTarget { workspace_id: 7, archived_at }
}

fn found(archived: bool, archived_at: Option<i128>) -> FreshWorkspace {
    FreshWorkspace::Found { name: Some("ws".to_string()), archived, archived_at }
}

fn deleted() -> DeletionResult {
    DeletionResult::Outcome(DeleteWorkspaceOutcome::Deleted)
}

fn skipped(reason: &str) -> BulkDeleteItemOutcome {
    BulkDeleteItemOutcome::Skipped { reason: reason.to_string() }
}

#[test]
fn bulk_deletion_deletes_what_was_reviewed() {
    let t = target(Some(5));
    assert!(bulk_delete_wanted(&t, &found(true, Some(5))));
    let r = bulk_delete_result(&t, found(true, Some(5)), deleted());
    assert_eq!(
        r,
        BulkDeleteItemResult {
            workspace_id: 7,
            workspace_name: Some("ws".to_string()),
            outcome: BulkDeleteItemOutcome::Deleted,
        }
    );
    assert!(bulk_delete_wanted(&target(None), &found(true, None)));
}

#[test]
fn bulk_deletion_skips_what_changed() {
    let t = target(Some(5));
    for (fresh, reason) in [
        (found(false, Some(5)), "no longer archived"),
        (found(true, Some(6)), "archive state changed since review"),
        (found(true, None), "archive state changed since review"),
        (FreshWorkspace::Missing, "already deleted"),
    ] {
        assert!(!bulk_delete_wanted(&t, &fresh));
        assert_eq!(bulk_delete_result(&t, fresh, deleted()).outcome, skipped(reason));
    }
    let running = bulk_delete_result(
        &t,
        found(true, Some(5)),
        DeletionResult::Outcome(DeleteWorkspaceOutcome::SkippedRunningProcesses),
    );
    assert_eq!(running.outcome, skipped(RUNNING));
}

#[test]
fn bulk_deletion_reports_failures() {
    let t = target(Some(5));
    let unreadable = bulk_delete_result(
        &t,
        FreshWorkspace::Unreadable { error: "db".to_string() },
        deleted(),
    );
    assert_eq!(unreadable.workspace_name, None);
    assert_eq!(unreadable.outcome, BulkDeleteItemOutcome::Failed { reason: "db".to_string() });
    let failed = bulk_delete_result(
        &t,
        found(true, Some(5)),
        DeletionResult::Failed { error: "boom".to_string() },
    );
    assert_eq!(failed.outcome, BulkDeleteItemOutcome::Failed { reason: "boom".to_string() });
    let all = vec![
        failed,
        unreadable,
        bulk_delete_result(&t, found(true, Some(5)), deleted()),
        bulk_delete_result(&t, FreshWorkspace::Missing, deleted()),
    ];
    assert_eq!(tally(&all), BulkTally { deleted: 1, skipped: 1, failed: 2 });
}

/// A workspace of a small store.
#[derive(Clone)]
struct Kept {
    id: u128,
    archived: bool,
    archived_at: Option<i128>,
    running: bool,
    fails: bool,
}

fn kept(id: u128, archived_at: Option<i128>) -> Kept {
    Kept { id, archived: true, archived_at, running: false, fails: false }
}

fn reviewed(workspace: &Kept) -> BulkDeleteTarget {
    BulkDeleteTarget { workspace_id: workspace.id, archived_at: workspace.archived_at }
}

/// Runs a deletion against a store, and gives the results.
fn delete_all(store: &mut Vec<Kept>, targets: Vec<BulkDeleteTarget>) -> Vec<BulkDeleteItemResult> {
    let mut run = BulkRun::start(targets, true);
    loop {
        let answer = match run.ask() {
            BulkAsk::Look { workspace_id } => BulkAnswer::Looked(
                match store.iter().find(|kept| kept.id == workspace_id) {
                    Some(kept) => FreshWorkspace::Found {
                        name: Some(format!("w{workspace_id}")),
                        archived: kept.archived,
                        archived_at: kept.archived_at,
                    },
                    None => FreshWorkspace::Missing,
                },
            ),
            BulkAsk::Delete { workspace_id, query } => {
                assert_eq!((query.delete_remote, query.delete_branches), (false, true));
                let at = store.iter().position(|kept| kept.id == workspace_id).unwrap();
                BulkAnswer::Deletion(if store[at].running {
                    DeletionResult::Outcome(DeleteWorkspaceOutcome::SkippedRunningProcesses)
                } else if store[at].fails {
                    DeletionResult::Failed { error: "forced deletion failure".to_string() }
                } else {
                    store.remove(at);
                    deleted()
                })
            }
            BulkAsk::Finish => return run.results,
        };
        run = run.step(answer);
    }
}

fn outcome_for(results: &[BulkDeleteItemResult], id: u128) -> &BulkDeleteItemOutcome {
    &results.iter().find(|result| result.workspace_id == id).unwrap().outcome
}

fn ids(store: &[Kept]) -> Vec<u128> {
    store.iter().map(|kept| kept.id).collect()
}

#[test]
fn bulk_delete_validates_each_submitted_snapshot_and_continues_after_failures() {
    // Only submitted targets are considered. A row that was not reviewed stays,
    // and active or running targets are skipped.
    let submitted = kept(1, Some(4));
    let not_submitted = kept(2, Some(4));
    let running = Kept { running: true, ..kept(3, Some(5)) };
    let active = Kept { archived: false, ..kept(4, None) };
    let targets = vec![reviewed(&submitted), reviewed(&running), reviewed(&active)];
    let mut store = vec![submitted, not_submitted, running, active];
    let results = delete_all(&mut store, targets);
    assert_eq!(results.len(), 3);
    assert_eq!(*outcome_for(&results, 1), BulkDeleteItemOutcome::Deleted);
    assert_eq!(*outcome_for(&results, 3), skipped(RUNNING));
    assert_eq!(*outcome_for(&results, 4), skipped("no longer archived"));
    assert!(results.iter().all(|result| result.workspace_id != 2));
    assert_eq!(ids(&store), vec![2, 3, 4]);

    // The moment has to be the same, and no moment equals no moment.
    let changed = kept(5, Some(10));
    let seen_before = BulkDeleteTarget { archived_at: Some(9), ..reviewed(&changed) };
    let aging = kept(6, Some(3));
    let null_timestamp = kept(7, None);
    let targets = vec![seen_before, reviewed(&aging), reviewed(&null_timestamp)];
    let mut store = vec![changed, aging, null_timestamp];
    let results = delete_all(&mut store, targets);
    assert_eq!(*outcome_for(&results, 5), skipped("archive state changed since review"));
    assert_eq!(*outcome_for(&results, 6), BulkDeleteItemOutcome::Deleted);
    assert_eq!(*outcome_for(&results, 7), BulkDeleteItemOutcome::Deleted);
    assert_eq!(ids(&store), vec![5]);

    // What is missing does not keep the next one from being deleted.
    let after_missing = kept(9, Some(8));
    let targets = vec![reviewed(&kept(8, Some(8))), reviewed(&after_missing)];
    let mut store = vec![after_missing];
    let results = delete_all(&mut store, targets);
    assert_eq!(*outcome_for(&results, 8), skipped("already deleted"));
    assert_eq!(*outcome_for(&results, 9), BulkDeleteItemOutcome::Deleted);
    assert!(store.is_empty());

    // Neither does a deletion that fails.
    let forced_failure = Kept { fails: true, ..kept(10, Some(9)) };
    let after_failure = kept(11, Some(9));
    let targets = vec![reviewed(&forced_failure), reviewed(&after_failure)];
    let mut store = vec![forced_failure, after_failure];
    let results = delete_all(&mut store, targets);
    assert_eq!(
        *outcome_for(&results, 10),
        BulkDeleteItemOutcome::Failed { reason: "forced deletion failure".to_string() }
    );
    assert_eq!(*outcome_for(&results, 11), BulkDeleteItemOutcome::Deleted);
    assert_eq!(ids(&store), vec![10]);
}

#[test]
fn bulk_results_follow_the_order_of_the_targets() {
    let mut store = vec![kept(1, Some(1)), kept(2, Some(1)), kept(3, Some(1))];
    let targets = vec![reviewed(&store[2]), reviewed(&store[0]), reviewed(&store[2])];
    let results = delete_all(&mut store, targets);
    let order: Vec<u128> = results.iter().map(|result| result.workspace_id).collect();
    assert_eq!(order, vec![3, 1, 3]);
    assert_eq!(results[0].workspace_name.as_deref(), Some("w3"));
    // The second time it is gone.
    assert_eq!(results[2].outcome, skipped("already deleted"));
    assert!(delete_all(&mut store, Vec::new()).is_empty());
    // An answer to another question changes nothing.
    let run = BulkRun::start(vec![target(None)], false).step(BulkAnswer::Deletion(deleted()));
    assert_eq!(run.ask(), BulkAsk::Look { workspace_id: 7 });
}

#[test]
fn deletions_are_answered() {
    assert_eq!(delete_response(DeleteWorkspaceOutcome::Deleted).unwrap(), 202);
    match delete_response(DeleteWorkspaceOutcome::SkippedRunningProcesses) {
        Err(ApiError::Conflict(m)) => assert_eq!(m, RUNNING),
        other => panic!("unexpected {other:?}"),
    }
}

fn query(delete_remote: bool, delete_branches: bool) -> DeleteWorkspaceQuery {
    DeleteWorkspaceQuery { delete_remote, delete_branches }
}

#[test]
fn a_deletion_runs_through() {
    let q = query(true, true);
    let s = DeleteState::start()
        .step(q, DeleteAnswer::Running(false))
        .step(q, DeleteAnswer::Carried)
        .step(q, DeleteAnswer::Carried)
        .step(q, DeleteAnswer::Carried)
        .step(q, DeleteAnswer::Carried)
        .step(q, DeleteAnswer::Rows(1));
    assert!(matches!(s, DeleteState::DeleteRemote));
    let s = s.step(q, DeleteAnswer::Carried);
    assert!(matches!(s, DeleteState::CleanUp { delete_branches: true }));
    assert!(matches!(
        s.step(q, DeleteAnswer::Carried),
        DeleteState::Done(Ok(DeleteWorkspaceOutcome::Deleted))
    ));
}

#[test]
fn running_processes_stop_a_deletion() {
    let q = query(false, false);
    assert!(matches!(
        DeleteState::start().step(q, DeleteAnswer::Running(true)),
        DeleteState::Done(Ok(DeleteWorkspaceOutcome::SkippedRunningProcesses))
    ));
}

#[test]
fn a_deletion_without_a_record_fails() {
    let q = query(false, false);
    let at_record = || {
        DeleteState::start()
            .step(q, DeleteAnswer::Running(false))
            .step(q, DeleteAnswer::Carried)
            .step(q, DeleteAnswer::Carried)
            .step(q, DeleteAnswer::Carried)
            .step(q, DeleteAnswer::Carried)
    };
    match at_record().step(q, DeleteAnswer::Rows(0)) {
        DeleteState::Done(Err(e)) => {
            assert!(matches!(e, DeleteError::RowNotFound));
            assert!(matches!(e.into_api_error(), ApiError::Database(_)));
        }
        other => panic!("unexpected {other:?}"),
    }
    match at_record().step(q, DeleteAnswer::Failed(ApiError::Database("locked".to_string()))) {
        DeleteState::Done(Err(e)) => match e.into_api_error() {
            ApiError::Database(m) => assert_eq!(m, "locked"),
            other => panic!("unexpected {other:?}"),
        },
        other => panic!("unexpected {other:?}"),
    }
    assert!(matches!(
        at_record().step(q, DeleteAnswer::Rows(1)),
        DeleteState::CleanUp { delete_branches: false }
    ));
}

#[test]
fn updates_entail_what_changed() {
    let e = update_effects(false, Some(true), false);
    assert!(e.sync_remote && e.archive);
    let again = update_effects(true, Some(true), false);
    assert!(again.sync_remote && !again.archive);
    let restored = update_effects(true, Some(false), false);
    assert!(restored.sync_remote && !restored.archive);
    let pinned = update_effects(false, None, false);
    assert!(!pinned.sync_remote && !pinned.archive);
    assert!(update_effects(false, None, true).sync_remote);
}

#[test]
fn empty_names_count_as_none() {
    let n = new_workspace_names(Some(String::new()));
    assert_eq!((n.name, n.branch_label), (None, "workspace".to_string()));
    let n = new_workspace_names(None);
    assert_eq!(n.branch_label, "workspace");
    let n = new_workspace_names(Some("fix it".to_string()));
    assert_eq!((n.name.as_deref(), n.branch_label.as_str()), (Some("fix it"), "fix it"));
}

fn naming(answers: Vec<NamingAnswer>) -> NamingState {
    let original = "bc/1-old".to_string();
    let mut state = NamingState::start();
    for answer in answers {
        state = state.step(&original, answer);
    }
    state
}

fn generated() -> NamingAnswer {
    NamingAnswer::Generated(Some(GeneratedNames {
        title: "g".to_string(),
        branch_seed: "seed".to_string(),
    }))
}

#[test]
fn a_title_hint_is_kept() {
    match naming(vec![NamingAnswer::Hinted(Some("bug -> crash".to_string()))]) {
        NamingState::StoreTitle { names } => {
            assert_eq!(names.title, "bug -> crash");
            assert_eq!(names.branch_seed, "bug -> crash");
        }
        other => panic!("unexpected {other:?}"),
    }
    match naming(vec![NamingAnswer::Hinted(None), generated()]) {
        NamingState::StoreTitle { names } => {
            assert_eq!((names.title.as_str(), names.branch_seed.as_str()), ("g", "seed"));
        }
        other => panic!("unexpected {other:?}"),
    }
    let nothing = naming(vec![NamingAnswer::Hinted(None), NamingAnswer::Generated(None)]);
    assert!(matches!(nothing, NamingState::Done));
}

#[test]
fn branches_are_renamed_with_care() {
    let at = |current: Option<&str>, new: Option<&str>| {
        let mut answers = vec![
            NamingAnswer::Hinted(None),
            generated(),
            NamingAnswer::Carried,
            NamingAnswer::Branch(current.map(str::to_string)),
        ];
        answers.extend(new.map(|branch| NamingAnswer::NewBranch(branch.to_string())));
        naming(answers)
    };
    // Gone, or renamed by somebody else.
    assert!(matches!(at(None, None), NamingState::Done));
    assert!(matches!(at(Some("mine"), None), NamingState::Done));
    match at(Some("bc/1-old"), None) {
        NamingState::NameBranch { branch_seed } => assert_eq!(branch_seed, "seed"),
        other => panic!("unexpected {other:?}"),
    }
    // A name that says nothing, and the one that it has.
    assert!(matches!(at(Some("bc/1-old"), Some("bc/1-")), NamingState::Done));
    assert!(matches!(at(Some("bc/1-old"), Some("bc/1-old")), NamingState::Done));
    match at(Some("bc/1-old"), Some("bc/1-new")) {
        NamingState::RenameBranch { branch } => assert_eq!(branch, "bc/1-new"),
        other => panic!("unexpected {other:?}"),
    }
}

fn settings(repos: usize, has_attachments: bool, can_import: bool) -> CreateSettings {
    CreateSettings { repos, has_attachments, can_import }
}

#[test]
fn a_workspace_is_created() {
    let c = settings(2, true, true);
    let id = Uuid::new_v4();
    let s = CreateState::start(&format!("  see [a](attachment://{id}) "), c)
        .step(c, CreateAnswer::Carried)
        .step(c, CreateAnswer::Carried);
    assert!(matches!(s, CreateState::AddRepository { next: 1, .. }));
    let s = s.step(c, CreateAnswer::Carried);
    assert!(matches!(s, CreateState::Associate { .. }));
    let s = s.step(c, CreateAnswer::Carried).step(
        c,
        CreateAnswer::Imported(Some(vec![ImportedIssueAttachment {
            attachment_id: id.as_u128(),
            file_id: 11,
            file_path: "p".to_string(),
            original_name: "a".to_string(),
        }])),
    );
    match &s {
        CreateState::AssociateImported { prompt, file_ids } => {
            assert_eq!(prompt, "see [a](.vibe-attachments/p)");
            assert_eq!(*file_ids, vec![11]);
        }
        other => panic!("unexpected {other:?}"),
    }
    // What cannot be associated is left.
    let s = s.step(c, CreateAnswer::Failed(ApiError::NotFound));
    assert!(matches!(s, CreateState::Start { .. }));
    let s = s.step(c, CreateAnswer::Carried).step(c, CreateAnswer::Carried);
    assert!(matches!(s, CreateState::Done(Ok(()))));
}

#[test]
fn a_failed_import_keeps_the_prompt() {
    let c = settings(1, false, true);
    let s = CreateState::start("hi", c)
        .step(c, CreateAnswer::Carried)
        .step(c, CreateAnswer::Carried)
        .step(c, CreateAnswer::Imported(None));
    match s {
        CreateState::Start { prompt } => assert_eq!(prompt, "hi"),
        other => panic!("unexpected {other:?}"),
    }
}

#[test]
fn creations_need_a_prompt_and_a_repository() {
    let text = |s: CreateState| match s {
        CreateState::Done(Err(e)) => match e.into_api_error() {
            ApiError::BadRequest(m) => m,
            other => panic!("unexpected {other:?}"),
        },
        other => panic!("unexpected {other:?}"),
    };
    assert_eq!(
        text(CreateState::start(" \n", settings(0, false, false))),
        "A workspace prompt is required. Provide a non-empty `prompt`."
    );
    assert_eq!(
        text(CreateState::start("hi", settings(0, false, false))),
        "At least one repository is required"
    );
    let c = settings(1, false, false);
    let failed = CreateState::start("hi", c).step(c, CreateAnswer::Failed(ApiError::NotFound));
    match failed {
        CreateState::Done(Err(CreateError::Failed(ApiError::NotFound))) => {}
        other => panic!("unexpected {other:?}"),
    }
}

#[test]
fn hook_reports_are_ordered_by_when_they_fired() {
    let q = |s: Option<&str>| HookReportQuery { seq: s.map(str::to_string) };
    assert_eq!(report_seq(&q(Some(" 12 ")), Some(5), 6), 12);
    assert_eq!(report_seq(&q(Some("-3")), Some(5), 6), -3);
    assert_eq!(report_seq(&q(Some("17N")), Some(5), 6), 5);
    assert_eq!(report_seq(&q(None), Some(5), 6), 5);
    assert_eq!(report_seq(&q(None), None, 6), 6);
    assert_eq!(report_seq(&q(Some("9223372036854775808")), None, 6), 6);
    assert_eq!(report_seq(&q(Some("-9223372036854775808")), None, 6), i64::MIN);
    assert_eq!(REPORT_STATUS, 204);
}
