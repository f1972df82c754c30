use dsh_lite::agent::LoopEvent;
use dsh_lite::commands::{register_builtins, CommandResult};
use dsh_lite::json::parse_json;
use dsh_lite::server::{
    body_field, commands_text, created_text, done_frame, event_frame, format_loop_event, health_text, id_of_body,
    message_of_body, pick_chat_skill, result_text, route, skills_text, switched_text, title_of_body, Route,
};
use dsh_lite::subagent::make_plan_skill;
use dsh_lite::types::{ToolCall, TurnEndReason};

#[test]
fn requests_find_their_routes() {
    assert!(matches!(route("GET", "/"), Route::Page));
    assert!(matches!(route("GET", "/index.html"), Route::Page));
    assert!(matches!(route("GET", "/api/health"), Route::Health));
    assert!(matches!(route("GET", "/api/sessions"), Route::ListSessions));
    assert!(matches!(route("GET", "/api/skills"), Route::ListSkills));
    assert!(matches!(route("GET", "/api/commands"), Route::ListCommands));
    assert!(matches!(route("POST", "/api/sessions/create"), Route::CreateSession));
    assert!(matches!(route("POST", "/api/sessions/switch"), Route::SwitchSession));
    assert!(matches!(route("POST", "/api/chat"), Route::Chat));
    assert!(matches!(route("POST", "/"), Route::NotFound));
    assert!(matches!(route("GET", "/api/chat"), Route::NotFound));
    assert!(matches!(route("PUT", "/"), Route::NotFound));
}

#[test]
fn bodies_are_read() {
    let body = |text: &str| text.as_bytes().to_vec();
    assert_eq!(title_of_body(&body("{\"title\":\"T\"}")), "T");
    assert_eq!(title_of_body(&body("not json")), "New session");
    assert_eq!(id_of_body(&body("{\"id\":\"x\"}")), "x");
    assert_eq!(id_of_body(&body("{}")), "");
    assert_eq!(message_of_body(&body("{\"message\":\"hi\"}")), Some("hi".to_string()));
    assert_eq!(message_of_body(&body("{}")), None);
    assert_eq!(message_of_body(&vec![0xff]), None);
    assert_eq!(body_field(&None, "f", "d"), "d");
}

#[test]
fn answers_are_json() {
    for text in [
        health_text().to_string(),
        created_text("a", "b"),
        switched_text(Some("a")),
        switched_text(None),
        skills_text(&vec![make_plan_skill("n", "d", "b")]),
    ] {
        assert!(parse_json(&text).is_ok(), "{text}");
    }
    assert_eq!(
        skills_text(&vec![make_plan_skill("n", "d", "b")]),
        r#"[{"description":"d","mode":"plan","name":"n","think":true}]"#
    );
}

#[test]
fn commands_and_their_results_are_json() {
    let text = commands_text(&register_builtins());
    assert!(text.starts_with(r#"[{"description":"新建会话","name":"new"},"#), "{text}");
    assert!(text.ends_with(r#"{"description":"显示此帮助","name":"help"}]"#), "{text}");
    let result = CommandResult::error("no \"x\"");
    assert_eq!(
        result_text(&result),
        r#"{"action":"none","ok":false,"session_id":null,"text":"no \"x\""}"#
    );
    let result = CommandResult::ok_new_session("t".into(), "s1".into(), vec![]);
    assert_eq!(
        result_text(&result),
        r#"{"action":"new","ok":true,"session_id":"s1","text":"t"}"#
    );
}

#[test]
fn a_chat_uses_the_named_skill_or_the_first() {
    let skills = vec![make_plan_skill("a", "", ""), make_plan_skill("b", "", "")];
    assert_eq!(pick_chat_skill(&skills, "b").name, "b");
    assert_eq!(pick_chat_skill(&skills, "z").name, "a");
    assert_eq!(pick_chat_skill(&vec![], "z").name, "default");
}

#[test]
fn events_are_json() {
    let call = || ToolCall {
        id: "c".into(),
        name: "sh\"ell".into(),
        arguments: parse_json("{\"a\":1}").unwrap(),
    };
    let exact = vec![
        (LoopEvent::TurnStart { turn: 1 }, r#"{"type":"turn_start","turn":1}"#),
        (LoopEvent::StepStart { turn: 1, step: 2 }, r#"{"type":"step_start","turn":1,"step":2}"#),
        (LoopEvent::Delta { text: "a\nb".into() }, r#"{"type":"delta","text":"a\nb"}"#),
        (
            LoopEvent::AssistantMessage { content: "x".into(), tool_calls: vec![call()] },
            r#"{"type":"assistant_message","content":"x","tool_calls":[{"name":"sh\"ell","arguments":{"a":1}}]}"#,
        ),
        (
            LoopEvent::ToolCall { call: call() },
            r#"{"type":"tool_call","name":"sh\"ell","arguments":{"a":1}}"#,
        ),
        (
            LoopEvent::ToolResult { call_id: "c".into(), content: "o".into(), is_error: true },
            r#"{"type":"tool_result","call_id":"c","content":"o","is_error":true}"#,
        ),
        (LoopEvent::StepEnd { turn: 1, step: 2 }, r#"{"type":"step_end","turn":1,"step":2}"#),
        (
            LoopEvent::TurnEnd { turn: 1, reason: TurnEndReason::MaxTokens },
            r#"{"type":"turn_end","turn":1,"reason":"MaxTokens"}"#,
        ),
        (LoopEvent::Error { message: "e".into() }, r#"{"type":"error","message":"e"}"#),
    ];
    for (event, text) in exact {
        assert_eq!(format_loop_event(&event), text);
        assert!(parse_json(text).is_ok());
        assert_eq!(event_frame(&event), format!("data: {text}\n\n"));
    }
    assert!(done_frame().starts_with("data: "));
}
