use bettercoding::claude_rename::{
    custom_title_sidecar_path, is_valid_claude_session_id, rename_command,
    should_inject_rename_keys, sidecar_payload, sidecar_temp_name, title_record, RenameAnswer,
    RenamePhase, RENAME_IDLE_MARGIN_SECS,
};

const SID: &str = "55be7663-103d-4f5f-bcaf-f30fc8b0249a";

#[test]
fn sidecar_path_derivation() {
    let transcript = "/home/u/.agent/projects/-tmp-x/abc-123/abc-123.jsonl";
    assert_eq!(
        custom_title_sidecar_path(transcript).as_deref(),
        Some("/home/u/.agent/projects/-tmp-x/abc-123/abc-123/custom-title.json")
    );
}

#[test]
fn sidecar_path_rejects_non_jsonl() {
    assert_eq!(custom_title_sidecar_path("/a/b/notes.txt"), None);
    assert_eq!(custom_title_sidecar_path("/a"), None);
}

#[test]
fn inject_requires_idle_margin() {
    let now = 1_000_000;
    let idle = now - RENAME_IDLE_MARGIN_SECS;
    assert!(should_inject_rename_keys("plan", Some(idle), now));
    assert!(!should_inject_rename_keys("plan", Some(idle + 1), now));
}

#[test]
fn inject_fails_closed_without_activity() {
    assert!(!should_inject_rename_keys("plan", None, 1_000_000));
}

#[test]
fn inject_rejects_multi_line_names() {
    let idle = 1_000_000 - RENAME_IDLE_MARGIN_SECS;
    assert!(!should_inject_rename_keys("a\nb", Some(idle), 1_000_000));
    assert!(!should_inject_rename_keys("a\rb", Some(idle), 1_000_000));
    assert!(!should_inject_rename_keys("", Some(idle), 1_000_000));
}

#[test]
fn inject_rejects_control_bytes() {
    let idle = 1_000_000 - RENAME_IDLE_MARGIN_SECS;
    for name in [
        "a\u{1b}b", // Esc
        "a\u{3}b",  // Ctrl-C
        "a\u{4}b",  // EOT
        "a\tb",     // Tab
        "a\u{7f}b", // DEL
        "a\u{9b}b", // CSI
    ] {
        assert!(
            !should_inject_rename_keys(name, Some(idle), 1_000_000),
            "{name:?}"
        );
    }
}

#[test]
fn sid_must_be_a_plain_uuid() {
    assert!(is_valid_claude_session_id(SID));
    // Traversal and malformed ids must never steer a write path.
    assert!(!is_valid_claude_session_id("../../home/u/x"));
    assert!(!is_valid_claude_session_id("abc/def"));
    assert!(!is_valid_claude_session_id(""));
    assert!(!is_valid_claude_session_id(
        "55be7663-103d-4f5f-bcaf-f30fc8b0249a.jsonl"
    ));
}

#[test]
fn inject_allows_tricky_single_line_names() {
    let idle = 1_000_000 - RENAME_IDLE_MARGIN_SECS;
    assert!(should_inject_rename_keys("--force", Some(idle), 1_000_000));
    assert!(should_inject_rename_keys(
        "my \"plan\"",
        Some(idle),
        1_000_000
    ));
    assert!(should_inject_rename_keys(
        "fix: it's broken",
        Some(idle),
        1_000_000
    ));
}

#[test]
fn idleness_is_measured_over_the_whole_range() {
    assert!(should_inject_rename_keys("n", Some(i64::MIN), i64::MAX));
    assert!(!should_inject_rename_keys("n", Some(i64::MAX), i64::MIN));
}

#[test]
fn sidecar_write_and_transcript_append() {
    let raw = sidecar_payload("new name");
    let value: serde_json::Value = serde_json::from_str(&raw).unwrap();
    assert_eq!(value["customTitle"], "new name");
    assert_eq!(raw, "{\"customTitle\":\"new name\"}");

    let line = title_record("sess", "new name");
    assert!(line.ends_with('\n'));
    assert_eq!(line.lines().count(), 1);
    let record: serde_json::Value = serde_json::from_str(&line).unwrap();
    assert_eq!(record["type"], "custom-title");
    assert_eq!(record["customTitle"], "new name");
    assert_eq!(record["sessionId"], "sess");
    assert_eq!(sidecar_temp_name(42), "custom-title.json.42.tmp");
}

#[test]
fn sidecar_escaping_is_not_hand_rolled() {
    let raw = sidecar_payload("a\"b\\c\nd");
    let value: serde_json::Value = serde_json::from_str(&raw).unwrap();
    assert_eq!(value["customTitle"], "a\"b\\c\nd");
    assert_eq!(raw, "{\"customTitle\":\"a\\\"b\\\\c\\nd\"}");
    let raw = sidecar_payload("\u{8}\t\u{c}\r\u{0}\u{1f} /\u{7f}\u{e9}");
    assert_eq!(
        raw,
        "{\"customTitle\":\"\\b\\t\\f\\r\\u0000\\u001f /\u{7f}\u{e9}\"}"
    );
}

fn at_pane() -> RenamePhase {
    RenamePhase::start()
        .step("plan", RenameAnswer::Found(true))
        .step("plan", RenameAnswer::Sid(None))
        .step("plan", RenameAnswer::Sid(Some(SID.to_string())))
        .step("plan", RenameAnswer::Transcript(Some("/p/t.jsonl".to_string())))
        .step("plan", RenameAnswer::Carried)
        .step("plan", RenameAnswer::Carried)
}

fn done(phase: RenamePhase) -> Result<(), String> {
    match phase {
        RenamePhase::Done(r) => r,
        other => panic!("unexpected {other:?}"),
    }
}

#[test]
fn a_rename_is_passed_on() {
    let phase = at_pane()
        .step("plan", RenameAnswer::Found(true))
        .step("plan", RenameAnswer::AgentRunning(Some(true)))
        .step("plan", RenameAnswer::Activity { latest: Some(10), now: 100 });
    assert!(matches!(phase, RenamePhase::TypeCommand));
    assert_eq!(rename_command("plan"), "/rename plan");
    // The files carry the name where the keys do not arrive.
    assert_eq!(done(phase.step("plan", RenameAnswer::Failed("x".to_string()))), Ok(()));
}

#[test]
fn keys_go_to_a_running_agent_alone() {
    assert_eq!(done(at_pane().step("plan", RenameAnswer::Found(false))), Ok(()));
    for running in [None, Some(false)] {
        let phase = at_pane()
            .step("plan", RenameAnswer::Found(true))
            .step("plan", RenameAnswer::AgentRunning(running));
        assert_eq!(done(phase), Ok(()));
    }
    let busy = at_pane()
        .step("plan", RenameAnswer::Found(true))
        .step("plan", RenameAnswer::AgentRunning(Some(true)))
        .step("plan", RenameAnswer::Activity { latest: Some(11), now: 100 });
    assert_eq!(done(busy), Ok(()));
}

#[test]
fn an_untrusted_identifier_reaches_no_file() {
    let phase = RenamePhase::start()
        .step("plan", RenameAnswer::Found(true))
        .step("plan", RenameAnswer::Sid(Some("../../home/u/x".to_string())));
    assert_eq!(done(phase), Ok(()));
}

#[test]
fn a_failed_write_is_reported() {
    let phase = RenamePhase::start()
        .step("plan", RenameAnswer::Found(true))
        .step("plan", RenameAnswer::Sid(Some(SID.to_string())))
        .step("plan", RenameAnswer::Transcript(Some("/p/t.jsonl".to_string())))
        .step("plan", RenameAnswer::Failed("disk full".to_string()));
    assert_eq!(done(phase), Err("disk full".to_string()));
    assert_eq!(done(RenamePhase::start().step("plan", RenameAnswer::Found(false))), Ok(()));
}
