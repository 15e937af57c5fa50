use bettercoding::error::ApiError;
use bettercoding::terminal::{
    after_spawn, agent_dir_candidate, attaches_unmeasured, baked_prompt_consumed,
    clear_after_delivery, hex_dump, inbound_step, is_fresh_launch, output_data, plan_attach,
    resolve_cli_launch_spec, resolve_cli_model_effort, select_session, shell_dir_candidate,
    workspace_dir, AfterSpawn, AgentRun, AttachInputTripwire, Inbound, InboundStep, ParkedPrompt, PasteAnswer, PasteAsk,
    PasteState, Poll, PollStep, PromptRoute, PtyCommand, TerminalCommand, TerminalFacts,
    TerminalMode, TerminalQuery, TerminalSession, TerminalWorkspace, TRIPWIRE_MAX_BYTES,
    TRIPWIRE_WINDOW_MS,
};

const CONVERSATION: &str = "55be7663-103d-4f5f-bcaf-f30fc8b0249a";

fn tripwire() -> AttachInputTripwire {
    AttachInputTripwire::new("bc_test".to_string(), 1)
}

#[test]
fn observe_caps_logged_bytes_at_budget() {
    let mut tw = tripwire();
    tw.observe(&[0x0a; 100], 0);
    assert_eq!(tw.bytes_logged, 100);
    // 100 + 100 crosses the 128 cap: only the remainder is taken.
    let line = tw.observe(&[0x0a; 100], 5).unwrap();
    assert_eq!(line.bytes, vec!["0a"; 28].join(" "));
    assert_eq!(line.ms_since_attach, 5);
    assert_eq!(tw.bytes_logged, TRIPWIRE_MAX_BYTES);
    // Spent: further input changes nothing.
    assert!(tw.observe(&[0x0a; 4], 5).is_none());
    assert_eq!(tw.bytes_logged, TRIPWIRE_MAX_BYTES);
    // Empty chunks never count.
    let mut fresh = tripwire();
    fresh.observe(&[], 0);
    assert_eq!(fresh.bytes_logged, 0);
}

#[test]
fn observe_latches_after_window_expires() {
    let mut tw = tripwire();
    assert!(tw.observe(&[0x0a], TRIPWIRE_WINDOW_MS * 2).is_none());
    assert_eq!(
        tw.bytes_logged, TRIPWIRE_MAX_BYTES,
        "expiry must latch the budget as spent without logging"
    );
}

#[test]
fn hex_dump_shows_control_bytes_and_masks_printables() {
    // The \n+EOT injection signature must stay fully visible…
    assert_eq!(hex_dump(&[0x0a, 0x04]), "0a 04");
    // …while printable payload (keystrokes, secrets) is masked to `..`,
    // keeping only count and position.
    assert_eq!(hex_dump(b"hi"), ".. ..");
    assert_eq!(hex_dump(&[0x1b, b'[', b'A']), "1b .. ..");
    assert_eq!(hex_dump(&[0x7f]), "7f");
    assert_eq!(hex_dump(&[]), "");
}

#[test]
fn hex_dump_masks_every_non_control_byte() {
    for byte in 0x00u8..=0xff {
        let dumped = hex_dump(&[byte]);
        if byte < 0x20 || byte == 0x7f {
            assert_eq!(dumped, format!("{byte:02x}"), "control byte {byte:#04x}");
        } else {
            assert_eq!(dumped, "..", "byte {byte:#04x} must be masked");
        }
    }
}

fn session(id: u128, workspace_id: u128, dir: Option<&str>) -> TerminalSession {
    TerminalSession {
        id,
        workspace_id,
        executor: None,
        agent_working_dir: dir.map(str::to_string),
    }
}

fn query(mode: TerminalMode) -> TerminalQuery {
    TerminalQuery {
        workspace_id: 7,
        cols: Some(100),
        rows: None,
        mode,
        session_id: Some(1),
        hidden: true,
    }
}

fn facts() -> TerminalFacts {
    TerminalFacts {
        workspace: Some(TerminalWorkspace { container_ref: Some("/ws".to_string()) }),
        base_exists: true,
        requested: Some(session(1, 7, Some("repo"))),
        latest: Some(session(2, 7, None)),
        agent_dir_exists: true,
        executor_active: false,
        latest_turn: Some(CONVERSATION.to_string()),
        tmux_available: true,
        claimed: true,
        parked: ParkedPrompt::Waiting { session_id: 3, prompt: "do it".to_string() },
        session_live: false,
        initial_route: PromptRoute::Baked("do it".to_string()),
        followup_route: PromptRoute::Deferred("do it".to_string()),
        program: "agent".to_string(),
        repos: Some(vec!["repo".to_string()]),
        repo_dir_exists: true,
    }
}

#[test]
fn an_attach_resumes_and_pastes() {
    let plan = plan_attach(&query(TerminalMode::Cli), &facts()).unwrap();
    assert_eq!((plan.cols, plan.rows), (100, 24));
    assert_eq!(plan.working_dir, "/ws/repo");
    match plan.command {
        PtyCommand::TmuxCli {
            workspace_id,
            resume_session_id,
            initial_prompt,
            deferred_prompt_pending,
            connect_hidden,
        } => {
            assert_eq!(workspace_id, 7);
            assert_eq!(resume_session_id.as_deref(), Some(CONVERSATION));
            assert_eq!(initial_prompt, None);
            // The launch resumes: no bare agent has to be asked for.
            assert!(!deferred_prompt_pending);
            assert!(connect_hidden);
        }
        other => panic!("unexpected {other:?}"),
    }
    let delivery = plan.delivery.unwrap();
    assert_eq!(delivery.deferred.as_deref(), Some("do it"));
    assert_eq!((delivery.clear_session_id, delivery.peeked.as_str()), (3, "do it"));
    assert!(plan.clear_blank.is_none());
}

#[test]
fn a_fresh_launch_carries_the_prompt() {
    let mut f = facts();
    // What is no plain identifier is not resumed by the launch.
    f.latest_turn = Some("not-an-id".to_string());
    let plan = plan_attach(&query(TerminalMode::Cli), &f).unwrap();
    match plan.command {
        PtyCommand::TmuxCli { initial_prompt, deferred_prompt_pending, .. } => {
            assert_eq!(initial_prompt.as_deref(), Some("do it"));
            assert!(!deferred_prompt_pending);
        }
        other => panic!("unexpected {other:?}"),
    }
    assert_eq!(plan.delivery.unwrap().deferred, None);
    assert!(is_fresh_launch(&Some("not-an-id".to_string()), false));
    assert!(!is_fresh_launch(&None, true));

    // Behind a live session the prompt is pasted, into a bare agent if need be.
    let mut live = facts();
    live.latest_turn = None;
    live.session_live = true;
    match plan_attach(&query(TerminalMode::Cli), &live).unwrap().command {
        PtyCommand::TmuxCli { deferred_prompt_pending, initial_prompt, .. } => {
            assert!(deferred_prompt_pending);
            assert_eq!(initial_prompt, None);
        }
        other => panic!("unexpected {other:?}"),
    }
}

#[test]
fn a_prompt_travels_with_its_claim_alone() {
    for (tmux, claimed) in [(false, true), (true, false)] {
        let mut f = facts();
        f.tmux_available = tmux;
        f.claimed = claimed;
        let plan = plan_attach(&query(TerminalMode::Cli), &f).unwrap();
        assert!(plan.delivery.is_none() && plan.clear_blank.is_none());
    }
    for parked in [ParkedPrompt::Empty, ParkedPrompt::Unreadable] {
        let mut f = facts();
        f.parked = parked;
        assert!(plan_attach(&query(TerminalMode::Cli), &f).unwrap().delivery.is_none());
    }
    let mut blank = facts();
    blank.followup_route = PromptRoute::Blank;
    let plan = plan_attach(&query(TerminalMode::Cli), &blank).unwrap();
    assert!(plan.delivery.is_none());
    let clear = plan.clear_blank.unwrap();
    assert_eq!((clear.session_id, clear.peeked.as_str()), (3, "do it"));
}

#[test]
fn foreign_and_busy_conversations_are_not_joined() {
    let foreign = Some(session(1, 8, None));
    let own = Some(session(2, 7, None));
    assert_eq!(select_session(&foreign, &own, 7).as_ref().unwrap().id, 2);
    assert_eq!(select_session(&own, &foreign, 7).as_ref().unwrap().id, 2);
    assert!(select_session(&foreign, &None, 7).is_none());

    let mut busy = facts();
    busy.executor_active = true;
    match plan_attach(&query(TerminalMode::Cli), &busy).unwrap().command {
        PtyCommand::TmuxCli { resume_session_id, .. } => assert_eq!(resume_session_id, None),
        other => panic!("unexpected {other:?}"),
    }
}

#[test]
fn shells_open_in_the_only_repository() {
    let plan = plan_attach(&query(TerminalMode::Shell), &facts()).unwrap();
    assert_eq!(plan.working_dir, "/ws/repo");
    assert!(matches!(plan.command, PtyCommand::Shell));
    assert!(plan.delivery.is_none());
    let mut two = facts();
    two.repos = Some(vec!["a".to_string(), "b".to_string()]);
    assert_eq!(plan_attach(&query(TerminalMode::Shell), &two).unwrap().working_dir, "/ws");
    let mut unreadable = facts();
    unreadable.repos = None;
    assert_eq!(plan_attach(&query(TerminalMode::Shell), &unreadable).unwrap().working_dir, "/ws");
    assert_eq!(shell_dir_candidate("/ws", &None), None);
    assert_eq!(agent_dir_candidate("/ws", &Some(session(1, 7, Some("")))), None);
    assert_eq!(TerminalMode::default(), TerminalMode::Shell);
}

#[test]
fn attaches_need_a_workspace_directory() {
    let text = |e: ApiError| match e {
        ApiError::BadRequest(m) => m,
        other => panic!("unexpected {other:?}"),
    };
    let mut f = facts();
    f.base_exists = false;
    assert_eq!(
        text(plan_attach(&query(TerminalMode::Cli), &f).unwrap_err()),
        "Workspace directory does not exist"
    );
    assert_eq!(text(workspace_dir(&None, true).unwrap_err()), "Attempt not found");
    assert_eq!(
        text(workspace_dir(&Some(TerminalWorkspace { container_ref: None }), true).unwrap_err()),
        "Attempt has no workspace directory"
    );
    assert!(attaches_unmeasured(&query(TerminalMode::Cli)));
    assert!(!attaches_unmeasured(&query(TerminalMode::Shell)));
}

#[test]
fn model_and_effort_of_a_launch() {
    let s = |t: &str| Some(t.to_string());
    let runs = Some(vec![
        AgentRun::CodingAgent { model_id: s("old"), reasoning_id: None },
        AgentRun::CodingAgent { model_id: s("new"), reasoning_id: s("high") },
        AgentRun::Other,
    ]);
    assert_eq!(resolve_cli_model_effort(false, &Some((s("m"), None)), &runs), (None, None));
    assert_eq!(resolve_cli_model_effort(true, &Some((s("m"), None)), &runs), (s("m"), None));
    assert_eq!(resolve_cli_model_effort(true, &Some((None, None)), &runs), (s("new"), s("high")));
    assert_eq!(resolve_cli_model_effort(true, &None, &None), (None, None));
}

#[test]
fn what_follows_a_spawn() {
    assert_eq!(after_spawn(false, true, true), AfterSpawn::SpawnFailed { remove_prompt_file: true });
    assert_eq!(after_spawn(true, false, false), AfterSpawn::Stream);
    assert_eq!(after_spawn(true, true, true), AfterSpawn::StreamAndConfirm);
    assert_eq!(after_spawn(true, true, false), AfterSpawn::TearDown);
    let delivery = plan_attach(&query(TerminalMode::Cli), &facts()).unwrap().delivery.unwrap();
    assert!(clear_after_delivery(&delivery, false).is_none());
    let clear = clear_after_delivery(&delivery, true).unwrap();
    assert_eq!((clear.session_id, clear.peeked.as_str()), (3, "do it"));
}

#[test]
fn what_clients_send() {
    let input = |data: &str| {
        inbound_step(Inbound::Text(Some(TerminalCommand::Input { data: data.to_string() })))
    };
    match input("aGk=") {
        InboundStep::Write(bytes) => assert_eq!(bytes, b"hi"),
        other => panic!("unexpected {other:?}"),
    }
    assert!(matches!(input("not base64!"), InboundStep::Skip));
    assert!(matches!(
        inbound_step(Inbound::Text(Some(TerminalCommand::Resize { cols: 3, rows: 4 }))),
        InboundStep::Resize { cols: 3, rows: 4 }
    ));
    assert!(matches!(
        inbound_step(Inbound::Text(Some(TerminalCommand::Presence { visible: true }))),
        InboundStep::Presence { visible: true }
    ));
    for skipped in [Inbound::Text(None), Inbound::Other] {
        assert!(matches!(inbound_step(skipped), InboundStep::Skip));
    }
    for ended in [Inbound::Close, Inbound::End, Inbound::Failed] {
        assert!(matches!(inbound_step(ended), InboundStep::Stop));
    }
    assert_eq!(output_data(b"hi"), "aGk=");
    assert_eq!(output_data(&[0xff, 0x00]), "/wA=");
}

#[test]
fn looks_are_bounded() {
    let mut poll = Poll::for_session();
    for _ in 0..9 {
        let (next, step) = poll.look(false);
        assert_eq!(step, PollStep::Again { wait_ms: 250 });
        poll = next;
    }
    assert_eq!(poll.look(false).1, PollStep::GaveUp { wait_ms: 0 });
    assert_eq!(poll.look(true).1, PollStep::Confirmed);
    // A baked prompt is waited for behind the last look too.
    let mut baked = Poll::for_baked_prompt();
    for _ in 0..29 {
        let (next, step) = baked.look(false);
        assert_eq!(step, PollStep::Again { wait_ms: 250 });
        baked = next;
    }
    assert_eq!(baked.look(false).1, PollStep::GaveUp { wait_ms: 250 });
    assert!(baked_prompt_consumed(false, Some(true)));
    assert!(!baked_prompt_consumed(true, Some(true)));
    assert!(!baked_prompt_consumed(false, None));
    assert!(!baked_prompt_consumed(false, Some(false)));
}

#[test]
fn a_deferred_prompt_is_confirmed() {
    let seen = PasteAnswer::Agent(Some(true));
    let s = PasteState::start();
    assert_eq!(s.ask(), PasteAsk::Agent { wait_ms: 0 });
    let s = s.step(seen);
    assert_eq!(s.ask(), PasteAsk::Agent { wait_ms: 250 });
    let s = s.step(seen);
    assert_eq!(s.ask(), PasteAsk::Agent { wait_ms: 750 });
    let s = s.step(seen);
    assert_eq!(s.ask(), PasteAsk::Paste);
    let s = s.step(PasteAnswer::Pasted(true));
    assert_eq!(s.ask(), PasteAsk::Agent { wait_ms: 500 });
    assert_eq!(s.step(seen).ask(), PasteAsk::Finish { delivered: true, wait_ms: 0 });
    // An agent that did not survive the paste never read it.
    assert_eq!(
        s.step(PasteAnswer::Agent(Some(false))).ask(),
        PasteAsk::Finish { delivered: false, wait_ms: 0 }
    );
}

#[test]
fn a_deferred_prompt_is_given_up() {
    let mut s = PasteState::start();
    for _ in 0..60 {
        assert!(matches!(s.ask(), PasteAsk::Agent { .. }));
        s = s.step(PasteAnswer::Agent(Some(false)));
    }
    assert_eq!(s.ask(), PasteAsk::Finish { delivered: false, wait_ms: 250 });

    let unreadable = PasteState::start().step(PasteAnswer::Agent(None));
    assert_eq!(unreadable.ask(), PasteAsk::Session);
    assert_eq!(
        unreadable.step(PasteAnswer::Session(false)).ask(),
        PasteAsk::Finish { delivered: false, wait_ms: 0 }
    );
    assert!(matches!(
        unreadable.step(PasteAnswer::Session(true)),
        PasteState::Polling { stable: 0, polls: 2, .. }
    ));
    // The agent died right before the paste: start over, without a pause.
    let seen = PasteAnswer::Agent(Some(true));
    let lost = PasteState::start().step(seen).step(seen).step(PasteAnswer::Agent(None));
    assert_eq!(lost, PasteState::Polling { polls: 3, stable: 0, wait_ms: 0 });
    let refused = PasteState::start().step(seen).step(seen).step(seen).step(PasteAnswer::Pasted(false));
    assert_eq!(refused.ask(), PasteAsk::Finish { delivered: false, wait_ms: 0 });
}

#[test]
fn a_launch_falls_back_to_the_default_agent() {
    let session = Some(TerminalSession {
        id: 1,
        workspace_id: 2,
        executor: Some("CODEX".to_string()),
        agent_working_dir: None,
    });
    let text = |t: &str| Some(t.to_string());
    let named = resolve_cli_launch_spec(&session, true, text("m"), text("high"), true);
    assert_eq!(named.agent, text("CODEX"));
    assert_eq!((named.model_id, named.reasoning_id), (text("m"), text("high")));
    // An unknown agent: the default one, with the same choice.
    let unknown = resolve_cli_launch_spec(&session, false, text("m"), None, true);
    assert_eq!(unknown.agent, None);
    assert_eq!((unknown.model_id, unknown.reasoning_id), (text("m"), None));
    let nobody = resolve_cli_launch_spec(&None, true, None, None, true);
    assert_eq!(nobody.agent, None);
    // No interactive launch: the default agent, plain.
    let plain = resolve_cli_launch_spec(&session, true, text("m"), text("high"), false);
    assert_eq!(plain.agent, None);
    assert_eq!((plain.model_id, plain.reasoning_id), (None, None));
}
