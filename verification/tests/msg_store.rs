use bettercoding::msg_store::{
    stderr_item, stdout_item, stream_error_msg, LogMsg, MsgStore, StreamItem,
};

fn out(s: &str) -> LogMsg {
    LogMsg::Stdout(s.to_string())
}

#[test]
fn the_oldest_messages_make_room() {
    let mut store = MsgStore::new(10);
    store.push_stdout("a".to_string(), 4);
    store.push_stdout("b".to_string(), 4);
    assert_eq!(store.get_history(), vec![out("a"), out("b")]);
    store.push_stdout("c".to_string(), 4);
    assert_eq!(store.get_history(), vec![out("b"), out("c")]);
    // A message beyond the budget is kept alone.
    store.push_stdout("big".to_string(), 100);
    assert_eq!(store.get_history(), vec![out("big")]);
    store.push_stdout("d".to_string(), 1);
    assert_eq!(store.get_history(), vec![out("d")]);
}

#[test]
fn a_full_budget_evicts_nothing() {
    let mut store = MsgStore::new(8);
    store.push_stdout("a".to_string(), 4);
    store.push_stdout("b".to_string(), 4);
    assert_eq!(store.get_history().len(), 2);
}

#[test]
fn counts_saturate() {
    let mut store = MsgStore::new(usize::MAX);
    store.push_stdout("a".to_string(), usize::MAX);
    store.push_stdout("b".to_string(), usize::MAX);
    assert_eq!(store.get_history(), vec![out("a"), out("b")]);
    let mut small = MsgStore::new(5);
    small.push_stdout("a".to_string(), usize::MAX);
    small.push_stdout("b".to_string(), 5);
    assert_eq!(small.get_history(), vec![out("b")]);
}

#[test]
fn every_kind_of_message_is_kept() {
    let mut store = MsgStore::default();
    store.push_stdout("o".to_string(), 1);
    store.push_patch("[]".to_string(), 2);
    store.push_session_id("s".to_string(), 1);
    store.push_message_id("m".to_string(), 1);
    store.push_native_uuid("u".to_string(), 1);
    store.push(LogMsg::Stderr("e".to_string()), 1);
    store.push(LogMsg::Ready, 0);
    store.push_finished(0);
    assert_eq!(
        store.get_history(),
        vec![
            out("o"),
            LogMsg::JsonPatch("[]".to_string()),
            LogMsg::SessionId("s".to_string()),
            LogMsg::MessageId("m".to_string()),
            LogMsg::NativeUuid("u".to_string()),
            LogMsg::Stderr("e".to_string()),
            LogMsg::Ready,
            LogMsg::Finished,
        ]
    );
}

#[test]
fn readers_of_one_stream() {
    assert_eq!(stdout_item(&out("x")), StreamItem::Chunk("x".to_string()));
    assert_eq!(stderr_item(&out("x")), StreamItem::Skip);
    let err = stream_error_msg("boom");
    assert_eq!(err, LogMsg::Stderr("stream error: boom".to_string()));
    assert_eq!(stderr_item(&err), StreamItem::Chunk("stream error: boom".to_string()));
    assert_eq!(stdout_item(&err), StreamItem::Skip);
    assert_eq!(stdout_item(&LogMsg::Finished), StreamItem::End);
    assert_eq!(stderr_item(&LogMsg::Finished), StreamItem::End);
    assert_eq!(stdout_item(&LogMsg::Ready), StreamItem::Skip);
}

#[test]
fn no_more_is_dropped_than_needed() {
    let mut store = MsgStore::new(10);
    for (text, bytes) in [("a", 3), ("b", 3), ("c", 3)] {
        store.push_stdout(text.to_string(), bytes);
    }
    // Nine bytes are kept; four more leave room for the last two only.
    store.push_stdout("d".to_string(), 4);
    assert_eq!(store.get_history(), vec![out("b"), out("c"), out("d")]);
    // What exceeds the budget alone drops everything else.
    store.push_stdout("e".to_string(), 11);
    assert_eq!(store.get_history(), vec![out("e")]);
}
