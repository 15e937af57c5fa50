use bettercoding::cli_collab::{
    derive_lease, effective_dir_for_session, expected_sid, CliCollabError, CliPaneBinding,
    CliPaneBoundVia, LeaseFacts, ProbeReport, SidEvidence, WriterLease,
};
use bettercoding::dispatch::{
    dispatch_response, wakes_drain, DispatchOutcome, GateAnswer, GateAsk, GateSettings, GateState,
    SlotRow,
};
use bettercoding::handoff::{
    abnormal_hold_text, apply_note, hold_back_first, hold_back_next,
    original_paste_binding_is_active, plan_drain, reconcile_pasted_delivery, should_reconcile_pane,
    BoundPane, DrainAnswer, DrainFailure, DrainState, ExecutionProcessStatus, FinishAnswer,
    FinishState, HoldAnswer, HoldAsk, HoldBack, HoldState, PastedFacts, PastedVerdict, Stored,
    RESUME_SIGNAL_ATTEMPTS,
};
use bettercoding::id_set::IdSet;
use bettercoding::queued_message::{
    stored_mutation, QueueMutation, QueueStatus, QueuedMessage, QueuedMessageSource,
    QueuedMessageState, SessionQueuedMessage, StoreQueuedMessageResult,
};
use bettercoding::sessions::clears_draft;

const SESSION: u128 = 1;
const WORKSPACE: u128 = 2;
const PASTED_REQUEUE: &str = "paste was not seen";

#[derive(Clone)]
struct Row {
    id: u128,
    prompt: String,
    source: QueuedMessageSource,
    context: bool,
    state: QueuedMessageState,
    failure_reason: Option<String>,
    sid: Option<String>,
    pasted_at: Option<i128>,
}

impl Row {
    fn stored(&self) -> SessionQueuedMessage {
        SessionQueuedMessage {
            id: self.id,
            session_id: SESSION,
            prompt: self.prompt.clone(),
            executor_config: Some("{}".to_string()),
            dispatch_context: None,
            source: self.source,
            state: self.state,
            failure_reason: self.failure_reason.clone(),
            claude_session_id: self.sid.clone(),
            pasted_at: self.pasted_at,
            acked_at: None,
            created_at: 0,
            updated_at: 0,
        }
    }

    fn active(&self) -> bool {
        matches!(
            self.state,
            QueuedMessageState::Queued | QueuedMessageState::Pasting | QueuedMessageState::Pasted
        )
    }
}

#[derive(Clone)]
struct Binding {
    id: u128,
    sid: Option<String>,
    created_at: i128,
}

/// A database, a terminal and an executor in memory.
struct World {
    rows: Vec<Row>,
    binding: Option<Binding>,
    link: Option<String>,
    executor_running: Option<bool>,
    abnormal_end: bool,
    report: fn() -> ProbeReport,
    sid_seen: String,
    reserved: bool,
    reservation_seen: bool,
    dispatch_fails: bool,
    paste_succeeds: bool,
    lose_paste_claim: bool,
    pasted: Vec<(String, QueuedMessageState)>,
    prompts: Vec<(String, bool)>,
    signals: Vec<String>,
    signal_failures: u32,
    signaled: IdSet,
    clock: i128,
}

fn nobody() -> ProbeReport {
    seen(false, Some(false), SidEvidence::Unknown)
}

fn seen(pane: bool, agent: Option<bool>, sid_evidence: SidEvidence) -> ProbeReport {
    ProbeReport {
        pane_session_exists: pane,
        agent_running: agent,
        sid_evidence,
        probe_failed: false,
        only_active_claude_in_cwd: None,
    }
}

fn world() -> World {
    World {
        rows: vec![],
        binding: None,
        link: None,
        executor_running: Some(false),
        abnormal_end: false,
        report: nobody,
        sid_seen: String::new(),
        reserved: false,
        reservation_seen: false,
        dispatch_fails: false,
        paste_succeeds: true,
        lose_paste_claim: false,
        pasted: vec![],
        prompts: vec![],
        signals: vec![],
        signal_failures: 0,
        signaled: IdSet::new(),
        clock: 100,
    }
}

impl World {
    fn bind_confirmed_cli(&mut self, sid: &str) {
        self.binding = Some(Binding { id: 50, sid: Some(sid.to_string()), created_at: 10 });
        self.link = Some(sid.to_string());
        self.sid_seen = sid.to_string();
    }

    fn derive_lease(&mut self) -> WriterLease {
        let mut report = (self.report)();
        if let SidEvidence::ConfirmedResume(sid) = &mut report.sid_evidence {
            if sid.is_empty() {
                *sid = self.sid_seen.clone();
            }
        }
        let facts = LeaseFacts {
            session_id: SESSION,
            executor_running: self.executor_running,
            binding: Some(self.binding.as_ref().map(|b| CliPaneBinding {
                id: b.id,
                session_id: SESSION,
                claude_session_id: b.sid.clone(),
                bound_via: CliPaneBoundVia::CliResume,
                created_at: b.created_at,
            })),
            effective_dir: effective_dir_for_session(
                &Some("/tmp/collab-fixture".to_string()),
                Some("/tmp/collab-fixture".to_string()),
            ),
            expected_sid: Some(expected_sid(None, self.link.clone())),
            report,
        };
        derive_lease(&facts, &mut self.signaled)
    }

    fn active_row(&mut self) -> Option<&mut Row> {
        self.rows.iter_mut().find(|r| r.active())
    }

    fn row(&mut self, id: u128) -> &mut Row {
        self.rows.iter_mut().find(|r| r.id == id).unwrap()
    }

    fn slot(&mut self) -> Option<SlotRow> {
        self.active_row().map(|r| SlotRow::of(r.stored(), None))
    }

    fn store(&mut self, prompt: &str, source: QueuedMessageSource, context: bool, replace: bool) -> bool {
        let id = 100 + self.rows.len() as u128;
        match self.active_row() {
            None => {
                self.rows.push(Row {
                    id,
                    prompt: prompt.to_string(),
                    source,
                    context,
                    state: QueuedMessageState::Queued,
                    failure_reason: None,
                    sid: None,
                    pasted_at: None,
                });
                true
            }
            Some(row) if replace && row.state == QueuedMessageState::Queued => {
                row.prompt = prompt.to_string();
                row.source = source;
                row.context = context;
                row.failure_reason = None;
                true
            }
            Some(_) => false,
        }
    }

    fn do_gate(&mut self, ask: GateAsk, prompt: &str) -> GateAnswer {
        match ask {
            GateAsk::FindActive => GateAnswer::Active(self.slot()),
            GateAsk::Store { replace, with_context } => {
                self.store(prompt, QueuedMessageSource::Ui, with_context, replace);
                GateAnswer::Stored(self.slot().unwrap())
            }
            GateAsk::DeriveLease => GateAnswer::Lease(self.derive_lease()),
            GateAsk::ClaimPaste { id, sid } => {
                let row = self.row(id);
                let won = row.state == QueuedMessageState::Queued;
                if won {
                    row.state = QueuedMessageState::Pasting;
                    row.sid = sid;
                    row.failure_reason = None;
                }
                GateAnswer::Went(won)
            }
            GateAsk::Paste { id } => {
                let row = self.row(id).clone();
                self.pasted.push((row.prompt, row.state));
                if self.lose_paste_claim {
                    self.row(id).state = QueuedMessageState::Queued;
                }
                GateAnswer::Went(self.paste_succeeds)
            }
            GateAsk::MarkPasted { id } => {
                let now = self.clock;
                let row = self.row(id);
                let marked = row.state == QueuedMessageState::Pasting;
                if marked {
                    row.state = QueuedMessageState::Pasted;
                    row.pasted_at = Some(now);
                }
                GateAnswer::Went(marked)
            }
            GateAsk::Requeue { id, reason } => {
                let row = self.row(id);
                row.state = QueuedMessageState::Queued;
                row.failure_reason = Some(reason.text());
                GateAnswer::Went(true)
            }
            GateAsk::Reserve => {
                let won = !self.reserved;
                self.reserved = true;
                GateAnswer::Went(won)
            }
            GateAsk::ClaimExecutor { id } => {
                let row = self.row(id);
                let won = row.state == QueuedMessageState::Queued;
                if won {
                    row.state = QueuedMessageState::Pasting;
                }
                GateAnswer::Went(won)
            }
            GateAsk::Dispatch => {
                let context = self.rows.last().map_or(false, |r| r.context);
                self.prompts.push((prompt.to_string(), context));
                self.reservation_seen = self.reserved;
                GateAnswer::Dispatched(if self.dispatch_fails { None } else { Some(77) })
            }
            GateAsk::Release => {
                self.reserved = false;
                GateAnswer::Went(true)
            }
            GateAsk::MarkConsumed { id } => {
                let row = self.row(id);
                let marked = row.state == QueuedMessageState::Pasting;
                row.state = QueuedMessageState::Consumed;
                GateAnswer::Went(marked)
            }
            GateAsk::ReadSlot => GateAnswer::Slot(match self.slot() {
                Some(row) => row.shown,
                None => Ok(QueueStatus::Empty),
            }),
            GateAsk::Finish => unreachable!(),
        }
    }

    fn dispatch(&mut self, prompt: &str, replace: bool, is_retry: bool) -> Result<DispatchOutcome, CliCollabError> {
        let g = GateSettings { replace, is_retry, routing_disabled: false };
        let mut gate = GateState::start();
        loop {
            if let GateState::Done(outcome) = gate {
                return outcome;
            }
            let answer = self.do_gate(gate.ask(g), prompt);
            gate = gate.step(g, answer);
        }
    }

    fn hold_back(&mut self, id: u128) -> bool {
        let mut step = hold_back_first(&self.row(id).failure_reason);
        loop {
            let yes = match step {
                HoldBack::Held => return true,
                HoldBack::NotHeld => return false,
                HoldBack::LookForAbnormalEnd => self.abnormal_end,
                HoldBack::StoreNote => {
                    self.row(id).failure_reason = Some(abnormal_hold_text());
                    true
                }
            };
            step = hold_back_next(step, yes);
        }
    }

    fn drain_session(&mut self) -> Result<bool, CliCollabError> {
        let mut s = DrainState::start(false);
        loop {
            let answer = match &s {
                DrainState::FindingRow => DrainAnswer::Row(self.slot()),
                DrainState::HoldingBack { row } => DrainAnswer::Held(self.hold_back(row.id)),
                DrainState::FindingSession { .. } => DrainAnswer::Session(true),
                DrainState::ReadingMessage { row } => DrainAnswer::Read {
                    config: Stored::Valid,
                    context: if self.row(row.id).context { Stored::Valid } else { Stored::Missing },
                },
                DrainState::Noting { .. } => DrainAnswer::Noted,
                DrainState::Leasing { .. } => DrainAnswer::Lease(self.derive_lease()),
                DrainState::CheckingPaste { row, .. } => {
                    let r = self.row(row.id).clone();
                    DrainAnswer::Outstanding(original_paste_binding_is_active(
                        r.failure_reason.as_deref() == Some(PASTED_REQUEUE),
                        r.pasted_at,
                        self.binding.as_ref().map(|b| b.created_at),
                    ))
                }
                DrainState::Sending { gate, is_retry } => {
                    let g = GateSettings { replace: false, is_retry: *is_retry, routing_disabled: false };
                    let prompt = self.rows.last().unwrap().prompt.clone();
                    DrainAnswer::Gate(self.do_gate(gate.ask(g), &prompt))
                }
                DrainState::Done(_) => break,
            };
            s = s.step(SESSION, answer);
        }
        match s {
            DrainState::Done(r) => r,
            _ => unreachable!(),
        }
    }

    fn hold_or_resume(&mut self) -> Result<bool, CliCollabError> {
        let bound = self.binding.clone().unwrap();
        let pane = BoundPane {
            workspace_id: WORKSPACE,
            bound_via: CliPaneBoundVia::CliResume,
            claude_session_id: bound.sid.clone(),
            signaled: self.signaled.contains(bound.id),
        };
        let mut s = HoldState::start();
        loop {
            let answer = match s.ask() {
                HoldAsk::PaneAlive => HoldAnswer::Pane(Ok(true)),
                HoldAsk::ReleaseBinding => {
                    self.binding = None;
                    HoldAnswer::Released
                }
                HoldAsk::AgentRunning => HoldAnswer::Agent(Some(false)),
                HoldAsk::ExpectedSid => HoldAnswer::Sid(self.link.clone()),
                HoldAsk::BindSid { .. } => HoldAnswer::Bound(true),
                HoldAsk::Signal { sid, .. } => {
                    self.signals.push(sid);
                    if self.signal_failures > 0 {
                        self.signal_failures -= 1;
                        HoldAnswer::Signaled(Err("disk full".to_string()))
                    } else {
                        HoldAnswer::Signaled(Ok(()))
                    }
                }
                HoldAsk::Finish => break,
            };
            let (next, note) = s.step(&pane, answer);
            apply_note(&mut self.signaled, bound.id, note);
            s = next;
        }
        match s {
            HoldState::Done(r) => r,
            _ => unreachable!(),
        }
    }

    fn on_executor_finished(&mut self, status: ExecutionProcessStatus, releases: bool) -> Result<bool, CliCollabError> {
        let mut s = FinishState::start(status, releases);
        loop {
            let answer = match &s {
                FinishState::FindingRow => FinishAnswer::Row(self.active_row().map(|r| r.state)),
                FinishState::Holding => {
                    let id = self.active_row().unwrap().id;
                    self.hold_back(id);
                    FinishAnswer::Held
                }
                FinishState::FindingSession => FinishAnswer::Session(true),
                FinishState::CheckingExecutor => {
                    FinishAnswer::Executor(self.executor_running == Some(true))
                }
                FinishState::FindingBinding => FinishAnswer::Binding(self.binding.is_some()),
                FinishState::HandingOver => FinishAnswer::HandedOver(self.hold_or_resume()),
                FinishState::Draining => FinishAnswer::Drained(self.drain_session()),
                FinishState::Done { .. } => break,
            };
            s = s.step(SESSION, answer);
        }
        match s {
            FinishState::Done { result, .. } => result,
            _ => unreachable!(),
        }
    }

    fn reconcile(&mut self, id: u128) -> Result<bool, CliCollabError> {
        let row = self.row(id).clone();
        let verdict = reconcile_pasted_delivery(&PastedFacts {
            session_id: SESSION,
            state: Some(row.state),
            session_exists: true,
            pasted_at: row.pasted_at,
            binding_created_at: self.binding.as_ref().map(|b| b.created_at),
            workspace_exists: true,
            has_effective_dir: true,
            report: (self.report)(),
        })?;
        match verdict {
            PastedVerdict::Keep => return Ok(false),
            PastedVerdict::ReleaseAndRequeue => self.binding = None,
            PastedVerdict::Requeue => {}
        }
        self.requeue_pasted(id);
        Ok(true)
    }

    fn requeue_pasted(&mut self, id: u128) {
        let row = self.row(id);
        row.state = QueuedMessageState::Queued;
        row.failure_reason = Some(PASTED_REQUEUE.to_string());
    }

    fn queue_message(&mut self, prompt: &str, source: QueuedMessageSource, replace: bool) -> QueueMutation {
        let stored = self.store(prompt, source, false, replace);
        let shown = QueuedMessage::try_from(self.active_row().unwrap().stored(), None).unwrap();
        let (mutation, wake) = stored_mutation(if stored {
            StoreQueuedMessageResult::Stored(shown)
        } else {
            StoreQueuedMessageResult::Conflict(shown)
        });
        assert_eq!(wake, stored);
        mutation
    }
}

fn confirmed() -> ProbeReport {
    seen(true, Some(true), SidEvidence::ConfirmedResume(String::new()))
}

fn ambiguous() -> ProbeReport {
    seen(true, Some(true), SidEvidence::Ambiguous)
}

fn is_cli(lease: &WriterLease, sid: &str) -> bool {
    matches!(lease, WriterLease::Cli { claude_session_id: Some(s) } if s == sid)
}

#[test]
fn lease_derivation_covers_executor_confirmed_cli_ambiguous_and_free() {
    let mut w = world();
    assert!(matches!(w.derive_lease(), WriterLease::Free));
    let sid = "11111111-1111-4111-8111-111111111111";
    w.bind_confirmed_cli(sid);
    w.report = confirmed;
    assert!(is_cli(&w.derive_lease(), sid));
    w.report = ambiguous;
    assert!(matches!(w.derive_lease(), WriterLease::CliAmbiguous));
    w.executor_running = Some(true);
    assert!(matches!(w.derive_lease(), WriterLease::Executor));
}

#[test]
fn stale_database_sid_never_overrides_live_resume_evidence() {
    let mut w = world();
    w.bind_confirmed_cli("11111111-1111-4111-8111-111111111111");
    w.sid_seen = "22222222-2222-4222-8222-222222222222".to_string();
    w.report = confirmed;
    assert!(matches!(w.derive_lease(), WriterLease::CliAmbiguous));
    w.report = || seen(true, Some(true), SidEvidence::NoResumeArg);
    assert!(matches!(w.derive_lease(), WriterLease::CliAmbiguous));
}

#[test]
fn lease_derivation_fails_closed_on_database_and_probe_errors() {
    let mut w = world();
    w.report = ProbeReport::failed;
    assert!(matches!(w.derive_lease(), WriterLease::Busy));
    w.report = nobody;
    w.executor_running = None;
    assert!(matches!(w.derive_lease(), WriterLease::Busy));
}

#[test]
fn every_unreadable_fact_is_busy() {
    let facts = || LeaseFacts {
        session_id: SESSION,
        executor_running: Some(false),
        binding: Some(None),
        effective_dir: Some("/d".to_string()),
        expected_sid: Some(None),
        report: nobody(),
    };
    let lease = |f: &LeaseFacts| derive_lease(f, &mut IdSet::new());
    assert!(matches!(lease(&facts()), WriterLease::Free));
    let mut f = facts();
    f.binding = None;
    assert!(matches!(lease(&f), WriterLease::Busy));
    let mut f = facts();
    f.effective_dir = effective_dir_for_session(&None, Some("/d".to_string()));
    assert!(matches!(lease(&f), WriterLease::Busy));
    let mut f = facts();
    f.expected_sid = None;
    assert!(matches!(lease(&f), WriterLease::Busy));
    let mut f = facts();
    f.report = seen(true, None, SidEvidence::Unknown);
    assert!(matches!(lease(&f), WriterLease::Busy));
    // An agent without a conversation holds a fresh pane of the session.
    let mut f = facts();
    f.binding = Some(Some(CliPaneBinding {
        id: 9,
        session_id: SESSION,
        claude_session_id: None,
        bound_via: CliPaneBoundVia::CliFresh,
        created_at: 0,
    }));
    f.report = seen(true, Some(true), SidEvidence::NoResumeArg);
    assert!(matches!(lease(&f), WriterLease::Cli { claude_session_id: None }));
    assert_eq!(
        expected_sid(Some("turn".to_string()), Some("link".to_string())).as_deref(),
        Some("turn")
    );
}

#[test]
fn dispatch_gate_queues_while_executor_is_running() {
    let mut w = world();
    w.executor_running = Some(true);
    let outcome = w.dispatch("wait for executor", false, false).unwrap();
    assert!(wakes_drain(&outcome));
    assert!(clears_draft(&outcome));
    let DispatchOutcome::Queued { status } = outcome else {
        panic!("running executor must queue the prompt");
    };
    let message = status.message().unwrap();
    assert_eq!(message.data.message, "wait for executor");
    assert_eq!(message.state, QueuedMessageState::Queued);
    assert!(w.pasted.is_empty());
}

#[test]
fn finish_hook_waits_for_auto_drained_executor_before_resuming_busy_pane() {
    let sid = "24242424-2424-4242-8242-242424242424";
    let mut w = world();
    w.bind_confirmed_cli(sid);
    w.executor_running = Some(true);
    assert!(!w.on_executor_finished(ExecutionProcessStatus::Completed, true).unwrap());
    assert!(
        w.signals.is_empty(),
        "a prior finish hook must not resume the pane over a newer executor"
    );
    w.executor_running = Some(false);
    assert!(!w.on_executor_finished(ExecutionProcessStatus::Completed, true).unwrap());
    assert_eq!(w.signals, [sid.to_string()]);
    // Until the agent is up, nobody else may write.
    w.report = || seen(true, Some(false), SidEvidence::Unknown);
    assert!(matches!(w.derive_lease(), WriterLease::CliAmbiguous));

    w.report = confirmed;
    assert!(is_cli(&w.derive_lease(), sid));
    w.report = || seen(true, Some(false), SidEvidence::Unknown);
    assert!(matches!(w.derive_lease(), WriterLease::Free));
}

#[test]
fn killed_executor_holds_queued_follow_up_until_explicit_retry() {
    let mut w = world();
    w.store("do not run after kill", QueuedMessageSource::Ui, false, false);
    w.abnormal_end = true;
    assert!(!w.on_executor_finished(ExecutionProcessStatus::Killed, true).unwrap());
    assert!(!w.drain_session().unwrap());
    assert!(w.prompts.is_empty());
    let held = &w.rows[0];
    assert_eq!(held.state, QueuedMessageState::Queued);
    assert_eq!(held.failure_reason, Some(abnormal_hold_text()));
}

#[test]
fn finish_hook_self_guards_a_non_releasing_chained_action() {
    let mut w = world();
    w.store("wait for the chained action", QueuedMessageSource::Ui, false, false);
    assert!(!w.on_executor_finished(ExecutionProcessStatus::Completed, false).unwrap());
    assert!(w.prompts.is_empty());
    assert_eq!(w.rows[0].state, QueuedMessageState::Queued);
}

#[test]
fn drain_recovers_busy_resume_pane_when_finish_hook_was_missed() {
    let sid = "25252525-2525-4252-8252-252525252525";
    let mut w = world();
    w.bind_confirmed_cli(sid);
    assert!(should_reconcile_pane(50, Some(Some(50)), Some(false), Some(true), Some(true)));
    assert!(w.hold_or_resume().unwrap());
    assert_eq!(w.signals, [sid.to_string()]);
    // It is told once only.
    assert!(w.hold_or_resume().unwrap());
    assert_eq!(w.signals.len(), 1);
}

#[test]
fn resume_ready_signal_retries_transient_failures() {
    let sid = "26262626-2626-4262-8262-262626262626";
    let mut w = world();
    w.bind_confirmed_cli(sid);
    w.signal_failures = 2;
    assert!(!w.on_executor_finished(ExecutionProcessStatus::Completed, true).unwrap());
    assert_eq!(w.signals, vec![sid.to_string(); 3]);
}

#[test]
fn resume_ready_signal_exhaustion_is_returned_to_finish_hook() {
    let sid = "27272727-2727-4272-8272-272727272727";
    let mut w = world();
    w.bind_confirmed_cli(sid);
    w.signal_failures = RESUME_SIGNAL_ATTEMPTS;
    let error = w.on_executor_finished(ExecutionProcessStatus::Completed, true).unwrap_err();
    assert!(matches!(error, CliCollabError::Transport { .. }));
    assert_eq!(
        error.message(),
        "CLI transport failed for workspace 00000000-0000-0000-0000-000000000002: disk full"
    );
    assert_eq!(w.signals, vec![sid.to_string(); RESUME_SIGNAL_ATTEMPTS as usize]);
    assert!(!w.signaled.contains(50));
}

#[test]
fn dispatch_gate_routes_confirmed_cli_through_pasting_to_pasted() {
    let sid = "22222222-2222-4222-8222-222222222222";
    let mut w = world();
    w.bind_confirmed_cli(sid);
    w.report = confirmed;
    let DispatchOutcome::RoutedToCli { delivery } =
        w.dispatch("route to CLI", false, false).unwrap()
    else {
        panic!("confirmed CLI must receive the prompt");
    };
    let message = delivery.message().unwrap();
    assert_eq!(message.data.message, "route to CLI");
    assert_eq!(message.state, QueuedMessageState::Pasted);
    assert_eq!(message.claude_session_id.as_deref(), Some(sid));
    assert_eq!(w.pasted, [("route to CLI".to_string(), QueuedMessageState::Pasting)]);
}

#[test]
fn a_paste_that_fails_is_queued_again() {
    let mut w = world();
    w.bind_confirmed_cli("22222222-2222-4222-8222-222222222222");
    w.report = confirmed;
    w.paste_succeeds = false;
    let DispatchOutcome::Queued { status } = w.dispatch("again", false, false).unwrap() else {
        panic!("a failed paste must be queued");
    };
    assert_eq!(
        status.message().unwrap().failure_reason.as_deref(),
        Some("CLI paste failed; queued for retry")
    );
}

#[test]
fn dispatch_gate_queues_ambiguous_sid_without_pasting() {
    let mut w = world();
    w.bind_confirmed_cli("23232323-2323-4232-8232-232323232323");
    w.report = ambiguous;
    let DispatchOutcome::Queued { status } =
        w.dispatch("do not paste ambiguously", false, false).unwrap()
    else {
        panic!("ambiguous CLI sid must queue the prompt");
    };
    assert_eq!(status.message().unwrap().data.message, "do not paste ambiguously");
    assert!(w.pasted.is_empty());
}

#[test]
fn dispatch_gate_starts_free_executor_with_scoped_reservation() {
    let mut w = world();
    let outcome = w.dispatch("start immediately", false, false).unwrap();
    assert_eq!(dispatch_response(&outcome), 200);
    let DispatchOutcome::Started { execution_process } = outcome else {
        panic!("free lease must start the executor");
    };
    assert_eq!(execution_process, 77);
    assert_eq!(w.prompts, [("start immediately".to_string(), false)]);
    assert!(w.reservation_seen);
    assert!(!w.reserved);
    assert!(w.active_row().is_none());
}

#[test]
fn dispatcher_error_releases_reservation_and_requeues_prompt() {
    let mut w = world();
    w.dispatch_fails = true;
    let DispatchOutcome::Queued { status } =
        w.dispatch("preserve failed dispatch", false, false).unwrap()
    else {
        panic!("dispatcher failure must return the prompt to the queue");
    };
    assert_eq!(status.message().unwrap().data.message, "preserve failed dispatch");
    assert_eq!(w.prompts, [("preserve failed dispatch".to_string(), false)]);
    assert!(w.reservation_seen);
    assert!(!w.reserved);
    let queued = w.active_row().unwrap();
    assert_eq!(queued.state, QueuedMessageState::Queued);
    assert_eq!(queued.prompt, "preserve failed dispatch");
}

#[test]
fn a_waiting_message_whose_start_fails_keeps_the_reason() {
    let mut w = world();
    w.store("first", QueuedMessageSource::Ui, false, false);
    w.dispatch_fails = true;
    assert!(!w.drain_session().unwrap());
    assert_eq!(
        w.rows[0].failure_reason.as_deref(),
        Some("executor start failed; queued for retry")
    );
    w.reserved = true;
    w.dispatch_fails = false;
    assert!(!w.drain_session().unwrap());
    w.reserved = false;
    assert!(w.drain_session().unwrap());
    assert_eq!(w.rows[0].state, QueuedMessageState::Consumed);
}

#[test]
fn retry_conflict_never_invokes_destructive_dispatcher() {
    let mut w = world();
    w.store("already queued", QueuedMessageSource::Ui, false, false);
    let outcome = w.dispatch("retry prompt", false, true).unwrap();
    assert_eq!(dispatch_response(&outcome), 409);
    assert!(!clears_draft(&outcome));
    assert!(matches!(outcome, DispatchOutcome::Conflict { .. }));
    assert!(w.prompts.is_empty());
}

#[test]
fn queued_retry_preserves_reset_and_transcript_context_until_dispatch() {
    let mut w = world();
    w.executor_running = Some(true);
    let outcome = w.dispatch("retry prompt", false, true).unwrap();
    assert!(matches!(outcome, DispatchOutcome::Queued { .. }));
    assert!(w.prompts.is_empty());
    w.executor_running = Some(false);
    // A terminal that holds the conversation cannot run a retry.
    w.bind_confirmed_cli("sid");
    w.report = confirmed;
    assert!(!w.drain_session().unwrap());
    w.report = nobody;
    assert!(w.drain_session().unwrap());
    assert_eq!(w.prompts, [("retry prompt".to_string(), true)]);
    assert!(w.pasted.is_empty());
}

#[test]
fn paste_slot_does_not_report_delivery_after_losing_its_claim() {
    let sid = "42424242-4242-4242-8242-424242424242";
    let mut w = world();
    w.bind_confirmed_cli(sid);
    w.report = confirmed;
    w.store("lose paste claim", QueuedMessageSource::Ui, false, false);
    w.lose_paste_claim = true;
    let error = w.drain_session().unwrap_err();
    assert!(matches!(error, CliCollabError::PasteClaimLost(id) if id == w.rows[0].id));
    assert_eq!(
        error.message(),
        "queued message 00000000-0000-0000-0000-000000000064 lost its CLI paste claim"
    );
    assert_eq!(w.pasted.len(), 1);
    assert_eq!(w.rows[0].state, QueuedMessageState::Queued);
}

#[test]
fn replace_contract_preserves_conflict_details_and_rejects_in_flight_replace() {
    let mut w = world();
    let QueueMutation::Stored(status) =
        w.queue_message("queued from recovery", QueuedMessageSource::Recovery, false)
    else {
        panic!("empty slot must accept the first prompt");
    };
    let first_id = status.message().unwrap().id;

    let QueueMutation::Conflict(status) =
        w.queue_message("new UI prompt", QueuedMessageSource::Ui, false)
    else {
        panic!("queued replacement requires explicit confirmation");
    };
    let conflict_message = status.message().unwrap();
    assert_eq!(conflict_message.id, first_id);
    assert_eq!(conflict_message.data.message, "queued from recovery");
    assert_eq!(conflict_message.source, QueuedMessageSource::Recovery);

    let QueueMutation::Stored(status) =
        w.queue_message("new UI prompt", QueuedMessageSource::Ui, true)
    else {
        panic!("explicit queued replacement must succeed");
    };
    let replaced_message = status.message().unwrap();
    assert_eq!(replaced_message.id, first_id);
    assert_eq!(replaced_message.data.message, "new UI prompt");
    assert_eq!(replaced_message.source, QueuedMessageSource::Ui);

    w.row(first_id).state = QueuedMessageState::Pasted;
    let QueueMutation::Conflict(status) =
        w.queue_message("replace pasted", QueuedMessageSource::Recovery, true)
    else {
        panic!("pasted delivery must never be replaced");
    };
    let in_flight_message = status.message().unwrap();
    assert_eq!(in_flight_message.id, first_id);
    assert_eq!(in_flight_message.data.message, "new UI prompt");
    assert_eq!(in_flight_message.state, QueuedMessageState::Pasted);
    // The dispatcher refuses it as well.
    assert!(matches!(
        w.dispatch("replace pasted", true, false).unwrap(),
        DispatchOutcome::Conflict { .. }
    ));
}

#[test]
fn a_replaced_message_is_dispatched() {
    let mut w = world();
    w.store("old", QueuedMessageSource::Ui, false, false);
    assert!(matches!(
        w.dispatch("new", true, false).unwrap(),
        DispatchOutcome::Started { .. }
    ));
    assert_eq!(w.prompts, [("new".to_string(), false)]);
    assert_eq!(w.rows[0].state, QueuedMessageState::Consumed);
}

fn pasted_world(sid: &str, prompt: &str) -> (World, u128) {
    let mut w = world();
    w.bind_confirmed_cli(sid);
    w.store(prompt, QueuedMessageSource::Ui, false, false);
    let row = &mut w.rows[0];
    row.state = QueuedMessageState::Pasted;
    row.sid = Some(sid.to_string());
    row.pasted_at = Some(100);
    let id = row.id;
    (w, id)
}

#[test]
fn delivery_reconciliation_keeps_long_live_paste_without_repasting() {
    let (mut w, id) =
        pasted_world("31313131-3131-4131-8131-313131313131", "wait through long CLI turn");
    w.report = confirmed;
    assert!(!w.reconcile(id).unwrap());
    assert_eq!(w.rows[0].state, QueuedMessageState::Pasted);
    assert_eq!(w.rows[0].prompt, "wait through long CLI turn");
    assert!(w.rows[0].failure_reason.is_none());
    assert!(!w.drain_session().unwrap());
    assert!(w.pasted.is_empty());
}

#[test]
fn delivery_reconciliation_requeues_dead_pane_with_notice() {
    let (mut w, id) =
        pasted_world("32323232-3232-4232-8232-323232323232", "recover after pane death");
    assert!(w.reconcile(id).unwrap());
    assert_eq!(w.rows[0].state, QueuedMessageState::Queued);
    assert_eq!(w.rows[0].pasted_at, Some(100));
    assert_eq!(w.rows[0].failure_reason.as_deref(), Some(PASTED_REQUEUE));
    assert!(w.binding.is_none());
}

#[test]
fn requeued_paste_waits_for_original_binding_then_drains_after_release() {
    let (mut w, id) =
        pasted_world("34343434-3434-4434-8434-343434343434", "dispatch only after pane release");
    w.requeue_pasted(id);
    w.report = confirmed;
    assert!(!w.drain_session().unwrap());
    assert!(w.pasted.is_empty());
    assert!(w.prompts.is_empty());

    w.binding = None;
    w.report = nobody;
    assert!(w.drain_session().unwrap());
    assert!(w.pasted.is_empty());
    assert_eq!(w.prompts, [("dispatch only after pane release".to_string(), false)]);
    assert_eq!(w.rows[0].state, QueuedMessageState::Consumed);
}

#[test]
fn pastes_are_taken_back_on_evidence_alone() {
    let facts = || PastedFacts {
        session_id: SESSION,
        state: Some(QueuedMessageState::Pasted),
        session_exists: true,
        pasted_at: Some(5),
        binding_created_at: Some(4),
        workspace_exists: true,
        has_effective_dir: true,
        report: confirmed(),
    };
    assert_eq!(reconcile_pasted_delivery(&facts()).unwrap(), PastedVerdict::Keep);
    let mut f = facts();
    f.binding_created_at = Some(6);
    assert_eq!(reconcile_pasted_delivery(&f).unwrap(), PastedVerdict::Requeue);
    f.binding_created_at = None;
    assert_eq!(reconcile_pasted_delivery(&f).unwrap(), PastedVerdict::Requeue);
    let mut f = facts();
    f.report = seen(true, Some(false), SidEvidence::Unknown);
    assert_eq!(reconcile_pasted_delivery(&f).unwrap(), PastedVerdict::Requeue);
    f.report = seen(false, None, SidEvidence::Unknown);
    assert_eq!(reconcile_pasted_delivery(&f).unwrap(), PastedVerdict::Keep);
    f.has_effective_dir = false;
    f.report = nobody();
    assert_eq!(reconcile_pasted_delivery(&f).unwrap(), PastedVerdict::Keep);
    f.workspace_exists = false;
    let error = reconcile_pasted_delivery(&f).unwrap_err();
    assert_eq!(
        error.message(),
        "session 00000000-0000-0000-0000-000000000001 has no workspace"
    );
    f.state = Some(QueuedMessageState::Imported);
    assert_eq!(reconcile_pasted_delivery(&f).unwrap(), PastedVerdict::Keep);
}

#[test]
fn rounds_are_planned() {
    let binding = |id: u128| CliPaneBinding {
        id,
        session_id: SESSION,
        claude_session_id: None,
        bound_via: CliPaneBoundVia::CliFresh,
        created_at: 0,
    };
    let row = |id: u128, state: QueuedMessageState| {
        let mut r = Row {
            id,
            prompt: String::new(),
            source: QueuedMessageSource::Ui,
            context: false,
            state,
            failure_reason: None,
            sid: None,
            pasted_at: None,
        }
        .stored();
        r.session_id = id + 1000;
        r
    };
    let mut signaled = IdSet::new();
    signaled.insert(7);
    signaled.insert(8);
    let rows = vec![
        row(1, QueuedMessageState::Queued),
        row(2, QueuedMessageState::Pasted),
        row(3, QueuedMessageState::Pasting),
        row(4, QueuedMessageState::Queued),
    ];
    let plan = plan_drain(&vec![binding(8), binding(9)], &rows, false, &mut signaled);
    assert!(!plan.idle);
    assert_eq!(plan.pasted, [2]);
    assert_eq!(plan.sessions, [1001, 1004]);
    assert!(signaled.contains(8) && !signaled.contains(7) && !signaled.contains(9));
    let plan = plan_drain(&vec![], &rows, true, &mut signaled);
    assert!(plan.sessions.is_empty());
    assert!(!signaled.contains(8));
    assert!(plan_drain(&vec![], &vec![], false, &mut signaled).idle);
    assert!(!should_reconcile_pane(1, Some(Some(2)), Some(false), Some(true), Some(true)));
    assert!(!should_reconcile_pane(1, None, Some(false), Some(true), Some(true)));
    assert!(!should_reconcile_pane(1, Some(Some(1)), None, Some(true), Some(true)));
    assert!(!should_reconcile_pane(1, Some(Some(1)), Some(false), Some(false), Some(true)));
}

#[test]
fn unusable_messages_are_noted() {
    let row = || {
        let mut w = world();
        w.store("m", QueuedMessageSource::Ui, false, false);
        w.slot().unwrap()
    };
    let read = |config: Stored, context: Stored| {
        DrainState::start(false)
            .step(SESSION, DrainAnswer::Row(Some(row())))
            .step(SESSION, DrainAnswer::Held(false))
            .step(SESSION, DrainAnswer::Session(true))
            .step(SESSION, DrainAnswer::Read { config, context })
    };
    for (config, context, failure, text) in [
        (Stored::Missing, Stored::Valid, DrainFailure::NoConfig, "queued message has no executor configuration"),
        (Stored::Invalid, Stored::Missing, DrainFailure::BadConfig, "queued message has invalid executor configuration"),
        (Stored::Valid, Stored::Invalid, DrainFailure::BadContext, "queued message has invalid dispatch context"),
    ] {
        let s = read(config, context);
        assert!(matches!(&s, DrainState::Noting { failure: f, .. } if *f == failure));
        assert_eq!(failure.text(), text);
        assert!(matches!(s.step(SESSION, DrainAnswer::Noted), DrainState::Done(Ok(false))));
    }
    assert!(matches!(
        read(Stored::Valid, Stored::Valid),
        DrainState::Leasing { is_retry: true, .. }
    ));
    assert!(matches!(DrainState::start(true), DrainState::Done(Ok(false))));
    let missing = DrainState::start(false)
        .step(SESSION, DrainAnswer::Row(Some(row())))
        .step(SESSION, DrainAnswer::Held(false))
        .step(SESSION, DrainAnswer::Session(false));
    assert!(matches!(
        missing,
        DrainState::Done(Err(CliCollabError::WorkspaceMissing(SESSION)))
    ));
    let failed = DrainState::start(false)
        .step(SESSION, DrainAnswer::Failed(CliCollabError::Database("locked".to_string())));
    assert!(matches!(failed, DrainState::Done(Err(CliCollabError::Database(t))) if t == "locked"));
}

#[test]
fn the_dispatcher_passes_failures_on() {
    let g = GateSettings { replace: false, is_retry: false, routing_disabled: false };
    let failed = |s: GateState| s.step(g, GateAnswer::Failed(CliCollabError::Serialize("bad".to_string())));
    match failed(GateState::start()) {
        GateState::Done(Err(e)) => assert_eq!(e.message(), "bad"),
        other => panic!("unexpected {other:?}"),
    }
    // A reservation that cannot be made leaves the message waiting.
    assert!(matches!(
        failed(GateState::Reserving { slot: None }),
        GateState::StoringToWait
    ));
    assert!(matches!(
        GateState::MarkingConsumed { id: 3, process: 4 }.step(g, GateAnswer::Went(false)),
        GateState::Done(Err(CliCollabError::ExecutorClaimLost(3)))
    ));
    assert_eq!(
        CliCollabError::ExecutorClaimLost(3).message(),
        "queued message 00000000-0000-0000-0000-000000000003 lost its executor dispatch claim"
    );
    let routed_off = GateSettings { replace: false, is_retry: false, routing_disabled: true };
    assert!(matches!(
        GateState::Leasing { slot: None }
            .step(routed_off, GateAnswer::Lease(WriterLease::Cli { claude_session_id: None })),
        GateState::StoringToWait
    ));
}

#[test]
fn hand_overs_of_panes() {
    let pane = |via: CliPaneBoundVia, sid: Option<&str>| BoundPane {
        workspace_id: WORKSPACE,
        bound_via: via,
        claude_session_id: sid.map(str::to_string),
        signaled: false,
    };
    let fresh = pane(CliPaneBoundVia::CliFresh, None);
    let (s, _) = HoldState::start().step(&fresh, HoldAnswer::Pane(Ok(true)));
    let (s, _) = s.step(&fresh, HoldAnswer::Agent(Some(false)));
    assert!(matches!(s, HoldState::FindingSid));
    let (s, _) = s.step(&fresh, HoldAnswer::Sid(Some("sid".to_string())));
    assert!(matches!(&s, HoldState::BindingSid { sid } if sid == "sid"));
    let (lost, _) = s.step(&fresh, HoldAnswer::Bound(false));
    assert!(matches!(lost, HoldState::Done(Ok(true))));

    let gone = HoldState::start().step(&fresh, HoldAnswer::Pane(Ok(false))).0;
    assert!(matches!(gone.step(&fresh, HoldAnswer::Released).0, HoldState::Done(Ok(false))));
    let unknown = HoldState::start().step(&fresh, HoldAnswer::Pane(Err("no tmux".to_string()))).0;
    assert!(matches!(unknown, HoldState::Done(Err(CliCollabError::Transport { .. }))));
    let blind = HoldState::Agent.step(&fresh, HoldAnswer::Agent(None)).0;
    assert!(matches!(blind, HoldState::Done(Ok(true))));
    let waiting = HoldState::FindingSid.step(&fresh, HoldAnswer::Sid(None)).0;
    assert!(matches!(waiting, HoldState::Done(Ok(true))));
    let resumed = pane(CliPaneBoundVia::CliResume, Some("sid"));
    let (s, _) = HoldState::Agent.step(&resumed, HoldAnswer::Agent(Some(false)));
    assert!(matches!(s.ask(), HoldAsk::Signal { wait_ms: 0, .. }));
    let (s, _) = s.step(&resumed, HoldAnswer::Signaled(Err("x".to_string())));
    assert!(matches!(s.ask(), HoldAsk::Signal { wait_ms: 100, .. }));
}
