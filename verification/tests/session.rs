use dsh_lite::json::Json;
use dsh_lite::session::{SessionLog, SessionSnapshot};
use dsh_lite::types::{Message, SessionEvent, ToolCall, TurnEndReason};

fn user(content: &str) -> SessionEvent {
    SessionEvent::UserMessage { content: content.into(), images: vec![] }
}

fn assistant(content: &str, tool_calls: Vec<ToolCall>) -> SessionEvent {
    SessionEvent::AssistantMessage {
        content: content.into(),
        tool_calls,
        usage: None,
        ttft_ms: 0,
        decode_ms: 0,
        thinking: None,
    }
}

fn call(id: &str, name: &str) -> ToolCall {
    ToolCall { id: id.into(), name: name.into(), arguments: Json::Object(vec![]) }
}

fn tool_result(call_id: &str, content: &str) -> SessionEvent {
    SessionEvent::ToolResult {
        call_id: call_id.into(),
        content: content.into(),
        is_error: false,
        images: vec![],
    }
}

fn text_of(m: &Message) -> &str {
    match m {
        Message::User { content, .. } => content,
        Message::Assistant { content, .. } => content,
        Message::Tool { content, .. } => content,
    }
}

#[test]
fn derive_messages_projects_surface_events() {
    let mut log = SessionLog::new(128);
    log.begin_turn();
    log.append(user("hello"));
    log.begin_step();
    log.append(assistant("hi there", vec![]));
    log.end_step();
    log.end_turn(TurnEndReason::Completed);

    let msgs = log.derive_messages();
    assert_eq!(msgs.len(), 2);
    assert!(matches!(msgs[0], Message::User { .. }));
    assert!(matches!(msgs[1], Message::Assistant { .. }));
}

#[test]
fn ring_buffer_evicts_oldest() {
    let mut log = SessionLog::new(4);
    for i in 0..10 {
        log.append(user(&format!("msg {i}")));
    }
    assert_eq!(log.len(), 4);
    // Only the last 4 should remain.
    let msgs = log.derive_messages();
    assert_eq!(msgs.len(), 4);
    assert_eq!(text_of(&msgs[0]), "msg 6");
    assert_eq!(text_of(&msgs[3]), "msg 9");
}

#[test]
fn tool_results_follow_assistant_message() {
    let mut log = SessionLog::new(128);
    log.append(assistant("running a command", vec![call("call_1", "shell")]));
    log.append(tool_result("call_1", "output"));

    let msgs = log.derive_messages();
    assert_eq!(msgs.len(), 2);
    assert!(matches!(msgs[1], Message::Tool { .. }));
}

#[test]
fn tool_results_interleaved_between_steps() {
    // Tool results must appear AFTER the assistant that triggered them, BEFORE the next assistant.
    let mut log = SessionLog::new(128);
    log.begin_turn();
    log.append(user("do two things"));
    log.begin_step();
    log.append(assistant("doing first thing", vec![call("c1", "tool_a")]));
    log.append(tool_result("c1", "result_a"));
    log.end_step();
    log.begin_step();
    log.append(assistant("doing second thing", vec![call("c2", "tool_b")]));
    log.append(tool_result("c2", "result_b"));
    log.end_step();
    log.begin_step();
    log.append(assistant("done", vec![]));
    log.end_step();
    log.end_turn(TurnEndReason::Completed);

    let msgs = log.derive_messages();
    assert_eq!(msgs.len(), 6);
    assert!(matches!(msgs[0], Message::User { .. }));
    assert!(matches!(msgs[1], Message::Assistant { .. }));
    assert!(matches!(msgs[2], Message::Tool { .. }));
    assert!(matches!(msgs[3], Message::Assistant { .. }));
    assert!(matches!(msgs[4], Message::Tool { .. }));
    assert!(matches!(msgs[5], Message::Assistant { .. }));
    assert_eq!(text_of(&msgs[2]), "result_a");
    assert_eq!(text_of(&msgs[4]), "result_b");
}

#[test]
fn clear_empties_log() {
    let mut log = SessionLog::new(128);
    log.append(user("hello"));
    log.append(assistant("hi", vec![]));
    assert_eq!(log.derive_messages().len(), 2);
    log.clear();
    assert_eq!(log.derive_messages().len(), 0);
    // Can still append after clear.
    log.append(user("fresh start"));
    assert_eq!(log.derive_messages().len(), 1);
}

#[test]
fn estimated_tokens_positive() {
    let mut log = SessionLog::new(128);
    log.append(user("This is a test message with enough characters"));
    let tokens = log.estimated_tokens();
    assert!(tokens > 0);
}

#[test]
fn apply_compaction_replaces_old_events() {
    let mut log = SessionLog::new(128);
    // Add 10 user messages.
    for i in 0..10 {
        log.append(user(&format!("msg {i}")));
    }
    assert_eq!(log.len(), 10);

    // Compact: keep 3 recent, replace rest with summary.
    log.apply_compaction("Summary of old messages".into(), 3);

    // Should have: 1 summary + 3 recent = 4 events.
    assert_eq!(log.len(), 4);

    // Derived messages: summary (as User) + 3 recent User messages = 4.
    let msgs = log.derive_messages();
    assert_eq!(msgs.len(), 4);
    // First message should be the summary.
    if let Message::User { content, .. } = &msgs[0] {
        assert!(content.contains("Summary of old messages"));
    } else {
        panic!("Expected first message to be summary User message");
    }
    // Last 3 should be msg 7, 8, 9.
    if let Message::User { content, .. } = &msgs[3] {
        assert_eq!(content, "msg 9");
    } else {
        panic!("Expected last message to be msg 9");
    }
}

#[test]
fn apply_compaction_noop_when_few_events() {
    let mut log = SessionLog::new(128);
    log.append(user("only one"));
    log.apply_compaction("summary".into(), 5);
    // Should not compact (only 1 event, keep 5).
    assert_eq!(log.len(), 1);
}

#[test]
fn tokens_are_a_quarter_of_the_bytes() {
    let mut log = SessionLog::new(128);
    log.append(user("12345678"));
    assert_eq!(log.estimated_tokens(), 2);
    log.append(user("日本"));
    assert_eq!(log.estimated_tokens(), 3);
}

#[test]
fn sequence_numbers_rise() {
    let mut log = SessionLog::new(2);
    let first = log.append(user("a"));
    let second = log.append(user("b"));
    let third = log.append(user("c"));
    assert!(first < second && second < third);
    assert_eq!(log.len(), 2);
}

#[test]
fn turns_and_steps_are_counted() {
    let mut log = SessionLog::new(128);
    assert!(log.is_empty());
    assert_eq!(log.begin_turn(), 1);
    assert_eq!(log.begin_step(), 1);
    log.end_step();
    assert_eq!(log.begin_step(), 2);
    log.end_step();
    log.end_turn(TurnEndReason::Completed);
    assert_eq!(log.begin_turn(), 2);
    assert_eq!(log.current_turn(), 2);
    assert!(log.has_room(1));
}

#[test]
fn a_snapshot_gives_the_log_back() {
    let mut log = SessionLog::new(8);
    log.begin_turn();
    log.append(user("kept"));
    let back = SessionLog::from_snapshot(log.serialize(), 8);
    assert_eq!(back.len(), log.len());
    assert_eq!(back.current_turn(), 1);
    assert_eq!(text_of(&back.derive_messages()[0]), "kept");
}

#[test]
fn a_smaller_log_keeps_the_newest_of_a_snapshot() {
    let mut log = SessionLog::new(8);
    for i in 0..5 {
        log.append(user(&format!("m{i}")));
    }
    let back = SessionLog::from_snapshot(log.serialize(), 2);
    assert_eq!(back.len(), 2);
    assert_eq!(text_of(&back.derive_messages()[0]), "m3");
}

#[test]
fn the_current_form_goes_before_the_older_one() {
    let snapshot = |text: &str| -> SessionSnapshot {
        let mut log = SessionLog::new(8);
        log.append(user(text));
        log.serialize()
    };
    let log = SessionLog::deserialize(Some(snapshot("new")), Some(snapshot("old")), 8).unwrap();
    assert_eq!(text_of(&log.derive_messages()[0]), "new");
    let log = SessionLog::deserialize(None, Some(snapshot("old")), 8).unwrap();
    assert_eq!(text_of(&log.derive_messages()[0]), "old");
    assert!(SessionLog::deserialize(None, None, 8).is_none());
}

#[test]
fn a_summary_and_the_rest_make_the_conversation() {
    let mut log = SessionLog::new(128);
    for i in 0..4 {
        log.begin_turn();
        log.append(user(&format!("q{i}")));
        log.append(assistant(&format!("a{i}"), vec![]));
        log.end_turn(TurnEndReason::Completed);
    }
    let all: Vec<String> = log.derive_messages().iter().map(|m| text_of(m).to_string()).collect();
    let older: Vec<String> =
        log.older_messages(6).iter().map(|m| text_of(m).to_string()).collect();
    assert_eq!(older, vec!["q0", "a0", "q1", "a1", "q2"]);
    assert!(log.older_messages(16).is_empty());
    log.apply_compaction("short".into(), 6);
    let kept: Vec<String> = log.derive_messages().iter().map(|m| text_of(m).to_string()).collect();
    assert_eq!(kept[0], "[Previous conversation summary]\nshort");
    assert_eq!([&older[..], &kept[1..]].concat(), all);
}
