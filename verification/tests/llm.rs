use dsh_lite::json::{json_to_text, parse_json, Json};
use dsh_lite::llm::endpoint::{
    endpoint_of, reply_byte, status_error, status_ok, tunnel_reply, tunnel_reply_text, ReplyStep,
    UriParts,
};
use dsh_lite::llm::sse::{
    to_token_usage, ApiUsage, CompletionTokensDetails, PromptTokensDetails, SseReader, SseStep,
    StreamChoice, StreamChunkDto, StreamDelta, StreamFunctionDelta, StreamToolCallDelta,
};
use dsh_lite::llm::title::{title_body, title_from_response, title_of, words_of};
use dsh_lite::llm::{after_failure, LlmClient, LlmError, LlmRequest, Retry, StreamEvent};
use dsh_lite::types::{
    Float32, ImageBlock, Message, ModelConfig, ThinkLevel, ToolCall, ToolDefinition,
};

fn client(base_url: &str, proxy: &str) -> LlmClient {
    LlmClient::new(&ModelConfig {
        base_url: base_url.into(),
        api_key: "key".into(),
        model: "m".into(),
        context_window: 8192,
        max_tokens: 1024,
        temperature: Float32 { bits: 0 },
        proxy: proxy.into(),
    })
}

fn delta(content: Option<&str>, calls: Option<Vec<StreamToolCallDelta>>) -> StreamChunkDto {
    StreamChunkDto {
        choices: vec![StreamChoice {
            delta: StreamDelta {
                content: content.map(String::from),
                reasoning_content: None,
                tool_calls: calls,
            },
            finish_reason: None,
        }],
        usage: None,
    }
}

fn piece(index: usize, id: Option<&str>, name: Option<&str>, arguments: &str) -> StreamToolCallDelta {
    StreamToolCallDelta {
        index,
        id: id.map(String::from),
        function: Some(StreamFunctionDelta {
            name: name.map(String::from),
            arguments: Some(arguments.into()),
        }),
    }
}

#[test]
fn failures_are_tried_again_after_longer_waits() {
    let wait = |attempt: u32| match after_failure(attempt, LlmError::Connect("e".into())) {
        Retry::After { wait_ms } => Some(wait_ms),
        Retry::GiveUp(_) => None,
    };
    assert_eq!(wait(0), Some(100));
    assert_eq!(wait(1), Some(400));
    assert_eq!(wait(2), None);
    assert!(matches!(
        after_failure(0, LlmError::Handshake("e".into())),
        Retry::After { wait_ms: 100 }
    ));
}

#[test]
fn answers_that_failed_are_not_tried_again() {
    assert!(matches!(
        after_failure(0, LlmError::Status(500, "b".into())),
        Retry::GiveUp(LlmError::Status(500, _))
    ));
    assert!(matches!(
        after_failure(2, LlmError::Handshake("e".into())),
        Retry::GiveUp(LlmError::Connect(e)) if e == "e"
    ));
}

#[test]
fn an_endpoint_is_read_from_the_url() {
    let plain = client("http://host:8000/v1/", "").endpoint().ok().unwrap();
    assert_eq!(plain.host, "host");
    assert_eq!(plain.port, 8000);
    assert!(!plain.is_https);
    assert_eq!(plain.path, "/v1/chat/completions");
    assert_eq!(plain.addr, "host:8000");
    let secure = client("https://api.example.com", "").endpoint().ok().unwrap();
    assert_eq!((secure.port, secure.is_https), (443, true));
    assert_eq!(secure.path, "/chat/completions");
}

#[test]
fn a_wrong_url_is_refused() {
    assert!(matches!(client("http://bad host", "").endpoint(), Err(LlmError::BadUrl(_))));
    let without_host =
        UriParts { scheme: None, host: None, port: None, path_and_query: Some("/x".into()) };
    assert!(matches!(endpoint_of(Ok(without_host)), Err(LlmError::BadUrl(e)) if e == "no host"));
    let bare =
        UriParts { scheme: None, host: Some("h".into()), port: None, path_and_query: None };
    let endpoint = endpoint_of(Ok(bare)).ok().unwrap();
    assert_eq!((endpoint.port, endpoint.path.as_str()), (80, "/v1/chat/completions"));
}

#[test]
fn a_request_goes_straight_or_through_the_proxy() {
    let direct = client("http://host/v1", "").request_plan().ok().unwrap();
    assert_eq!(direct.connect_addr, "host:80");
    assert_eq!(direct.target, "/v1/chat/completions");
    assert!(!direct.via_proxy && !direct.tls && direct.tunnel.is_none());
    assert_eq!(direct.headers[2], ("Authorization".to_string(), "Bearer key".to_string()));

    let plain = client("http://host/v1", "http://proxy").request_plan().ok().unwrap();
    assert_eq!(plain.connect_addr, "proxy:8080");
    assert_eq!(plain.target, "http://host/v1/chat/completions");
    assert!(plain.via_proxy && plain.tunnel.is_none());

    let tunnelled = client("https://host/v1", "http://proxy:3128").request_plan().ok().unwrap();
    assert_eq!(tunnelled.connect_addr, "proxy:3128");
    assert_eq!(
        tunnelled.tunnel,
        Some("CONNECT host:443 HTTP/1.1\r\nHost: host:443\r\n\r\n".to_string())
    );
    assert!(tunnelled.tls);
}

#[test]
fn a_wrong_proxy_is_refused() {
    match client("http://host/v1", "not a proxy").request_plan() {
        Err(LlmError::BadUrl(e)) => assert!(e.starts_with("invalid proxy URL: "), "{e}"),
        _ => panic!("should be refused"),
    }
    assert!(matches!(
        client("http://host/v1", "/path").request_plan(),
        Err(LlmError::BadUrl(e)) if e == "proxy URL has no host"
    ));
}

#[test]
fn a_proxy_reply_is_read_to_its_blank_line() {
    let mut reply: Vec<u8> = vec![];
    let text = b"HTTP/1.1 200 OK\r\n\r\n";
    for (i, byte) in text.iter().enumerate() {
        let step = reply_byte(&mut reply, *byte);
        if i + 1 < text.len() {
            assert!(matches!(step, ReplyStep::More));
        } else {
            assert!(matches!(step, ReplyStep::Complete));
        }
    }
    assert!(tunnel_reply(&reply).is_ok());
    let mut endless = vec![0u8; 4096];
    assert!(matches!(reply_byte(&mut endless, 0), ReplyStep::TooLarge));
}

#[test]
fn a_proxy_that_refuses_is_explained() {
    assert!(tunnel_reply_text("HTTP/1.0 200 fine").is_ok());
    assert!(matches!(
        tunnel_reply_text("HTTP/1.1 407 Auth\r\nX: y"),
        Err(LlmError::Connect(e)) if e == "proxy CONNECT failed: HTTP/1.1 407 Auth"
    ));
    assert!(matches!(
        tunnel_reply_text(""),
        Err(LlmError::Connect(e)) if e == "proxy CONNECT failed: empty"
    ));
}

#[test]
fn statuses_other_than_success_are_errors() {
    assert!(status_ok(200) && status_ok(299));
    assert!(!status_ok(199) && !status_ok(300) && !status_ok(404));
    assert!(matches!(
        status_error(404, &b"gone".to_vec()),
        LlmError::Status(404, text) if text == "gone"
    ));
}

#[test]
fn failures_tell_of_the_proxy() {
    let direct = client("https://host/v1", "").request_plan().ok().unwrap();
    assert!(matches!(direct.connect_failed("no"), LlmError::Connect(e) if e == "no"));
    assert!(matches!(direct.tls_failed("no"), LlmError::Handshake(e) if e == "TLS handshake: no"));
    let proxied = client("https://host/v1", "http://p:1").request_plan().ok().unwrap();
    assert!(matches!(
        proxied.connect_failed("no"),
        LlmError::Connect(e) if e == "proxy connect p:1: no"
    ));
    assert!(matches!(proxied.tls_failed("no"), LlmError::Handshake(e) if e == "TLS over proxy: no"));
}

#[test]
fn every_error_is_explained() {
    assert_eq!(LlmError::Serialize("e".into()).message(), "serialize error: e");
    assert_eq!(LlmError::BadUrl("e".into()).message(), "bad URL: e");
    assert_eq!(LlmError::Unsupported("e".into()).message(), "unsupported: e");
    assert_eq!(LlmError::Connect("e".into()).message(), "connect failed: e");
    assert_eq!(LlmError::Handshake("e".into()).message(), "handshake failed: e");
    assert_eq!(LlmError::BuildRequest("e".into()).message(), "request build failed: e");
    assert_eq!(LlmError::Request("e".into()).message(), "request failed: e");
    assert_eq!(LlmError::Read("e".into()).message(), "read failed: e");
    assert_eq!(LlmError::Status(500, "e".into()).message(), "HTTP 500: e");
}

#[test]
fn events_are_read_line_by_line() {
    let mut reader = SseReader::new();
    reader.feed_text("data: {\"a\"");
    assert!(matches!(reader.next(), SseStep::NeedMore));
    reader.feed_text(":1}\r\n: comment\n\nda");
    assert!(matches!(reader.next(), SseStep::Data(t) if t == "{\"a\":1}"));
    assert!(matches!(reader.next(), SseStep::NeedMore));
    reader.feed(&b"ta: [DONE] \n".to_vec());
    assert!(matches!(reader.next(), SseStep::End));
}

#[test]
fn pieces_of_calls_are_put_together() {
    let mut reader = SseReader::new();
    reader.accept(delta(None, Some(vec![piece(1, Some("c1"), Some("second"), "{}")])));
    reader.accept(delta(None, Some(vec![piece(0, Some("c0"), Some("first"), "{\"a\"")])));
    reader.accept(delta(None, Some(vec![piece(0, Some(""), None, ":1}")])));
    match reader.finish() {
        StreamEvent::Done { tool_calls, .. } => {
            assert_eq!(tool_calls.len(), 2);
            assert_eq!((tool_calls[0].id.as_str(), tool_calls[0].name.as_str()), ("c0", "first"));
            assert_eq!(json_to_text(&tool_calls[0].arguments), "{\"a\":1}");
            assert_eq!(tool_calls[1].name, "second");
        },
        _ => panic!("should be done"),
    }
}

#[test]
fn pieces_of_text_are_put_together() {
    let mut reader = SseReader::new();
    let events = reader.accept(delta(Some("Hel"), None));
    assert!(matches!(&events[..], [StreamEvent::Delta(t)] if t == "Hel"));
    let mut thought = delta(Some("lo"), None);
    thought.choices[0].delta.reasoning_content = Some("hm".into());
    thought.choices[0].finish_reason = Some("stop".into());
    let events = reader.accept(thought);
    assert!(matches!(
        &events[..],
        [StreamEvent::Delta(a), StreamEvent::ThinkDelta(b)] if a == "lo" && b == "hm"
    ));
    match reader.finish() {
        StreamEvent::Done { content, finish_reason, usage, .. } => {
            assert_eq!(content, "Hello");
            assert_eq!(finish_reason, Some("stop".to_string()));
            assert!(usage.is_none());
        },
        _ => panic!("should be done"),
    }
}

#[test]
fn arguments_that_are_no_json_become_null() {
    let mut reader = SseReader::new();
    reader.accept(delta(None, Some(vec![piece(0, Some("c"), Some("n"), "{broken")])));
    match reader.finish() {
        StreamEvent::Done { tool_calls, .. } => {
            assert!(matches!(tool_calls[0].arguments, Json::Null))
        },
        _ => panic!("should be done"),
    }
}

#[test]
fn usage_is_read_from_either_form() {
    let bare = ApiUsage {
        prompt_tokens: 10,
        completion_tokens: 5,
        prompt_cache_hit_tokens: 4,
        prompt_cache_miss_tokens: 6,
        prompt_tokens_details: Some(PromptTokensDetails { cached_tokens: 9 }),
        completion_tokens_details: None,
    };
    let usage = to_token_usage(bare);
    assert_eq!((usage.cache_hit_tokens, usage.cache_miss_tokens), (4, 6));
    assert_eq!(usage.reasoning_tokens, 0);
    let detailed = to_token_usage(ApiUsage {
        prompt_cache_hit_tokens: 0,
        completion_tokens_details: Some(CompletionTokensDetails { reasoning_tokens: 3 }),
        ..bare
    });
    assert_eq!((detailed.cache_hit_tokens, detailed.reasoning_tokens), (9, 3));
}

#[test]
fn a_request_body_holds_the_conversation() {
    let request = LlmRequest {
        model: "m".into(),
        system: "be brief".into(),
        messages: vec![
            Message::User { content: "hi".into(), images: vec![] },
            Message::Assistant {
                content: "".into(),
                tool_calls: vec![ToolCall {
                    id: "c1".into(),
                    name: "shell".into(),
                    arguments: parse_json("{\"command\":\"ls\"}").unwrap(),
                }],
                reasoning_content: Some("thinking".into()),
            },
            Message::Tool {
                call_id: "c1".into(),
                content: "out".into(),
                is_error: false,
                images: vec![ImageBlock { media_type: "image/png".into(), data: "QQ==".into() }],
            },
        ],
        tools: vec![ToolDefinition {
            name: "shell".into(),
            description: "d".into(),
            parameters: Json::Object(vec![]),
            timeout_ms: 1,
            guidance: "".into(),
        }],
        max_tokens: 7,
        temperature: Float32 { bits: 1 },
        think: ThinkLevel::High,
    };
    let body = client("http://h", "").build_request_body(&request);
    let roles: Vec<&str> = body.messages.iter().map(|m| m.role).collect();
    assert_eq!(roles, vec!["system", "user", "assistant", "tool"]);
    assert_eq!(body.messages[2].reasoning_content, Some("thinking".to_string()));
    match &body.messages[2].tool_calls {
        Some(calls) => assert_eq!(calls[0].function.arguments, "{\"command\":\"ls\"}"),
        None => panic!("the call is missing"),
    }
    assert_eq!(body.messages[3].tool_call_id, Some("c1".to_string()));
    assert_eq!(
        json_to_text(&body.messages[3].content),
        r#"[{"text":"out","type":"text"},{"image_url":{"url":"data:image/png;base64,QQ=="},"type":"image_url"}]"#
    );
    assert_eq!(body.tools[0].function.name, "shell");
    assert!(body.stream);
    assert_eq!(body.reasoning_effort, Some("high".to_string()));
    assert_eq!((body.max_tokens, body.temperature.bits), (7, 1));
}

#[test]
fn a_title_is_asked_for_and_read() {
    let body = parse_json(&title_body("m", "fix my router")).unwrap();
    assert_eq!(body.get_text("model"), Some(&"m".to_string()));
    assert_eq!(body.get_uint("max_tokens"), Some(64));
    let messages = body.get_items("messages").unwrap();
    assert_eq!(
        messages[1].get_text("content"),
        Some(&"Generate the session title from this human message:\nfix my router".to_string())
    );
    assert_eq!(
        title_from_response(r#"{"choices":[{"message":{"content":" A\n  fine title "}}]}"#).ok(),
        Some("A fine title".to_string())
    );
    assert!(matches!(
        title_of(&Json::Null),
        Err(LlmError::Read(e)) if e == "title model produced empty output"
    ));
    match title_from_response("{") {
        Err(LlmError::Read(e)) => assert!(e.starts_with("title response parse: "), "{e}"),
        _ => panic!("should be refused"),
    }
    assert_eq!(words_of(" a  bc "), vec!["a".to_string(), "bc".to_string()]);
}

#[test]
fn titles_are_asked_for_without_tls() {
    assert!(client("http://host/v1", "http://proxy").plan_title().ok().unwrap().tunnel.is_none());
    assert!(matches!(
        client("https://host/v1", "").plan_title(),
        Err(LlmError::Connect(e)) if e == "HTTPS not yet supported for title generation"
    ));
}
