use dsh_lite::llm::StreamEvent;
use dsh_lite::router::{
    build_system_prompt, build_user_message, clean_response, finish_route, longest_named,
    meant_skill, parse_response, route_event, route_skill, rule_match, RouteDecision, RouteReply,
    RouteStep,
};
use dsh_lite::textmap::TextMap;
use dsh_lite::types::{ExecMode, Float32, Message, ModelConfig, Skill, ThinkLevel};

fn skill(name: &str) -> Skill {
    Skill {
        name: name.to_string(),
        description: format!("test skill {name}"),
        when_to_use: Some("when the user asks about it".to_string()),
        mode: ExecMode::Plan,
        think: ThinkLevel::Off,
        tools_allow: Vec::new(),
        variables: TextMap::new(),
        body: "body".to_string(),
        steps: Vec::new(),
    }
}

fn dummy_model() -> ModelConfig {
    ModelConfig {
        base_url: "http://127.0.0.1:9".into(), // unreachable: the model must not be asked
        api_key: String::new(),
        model: "router-test".into(),
        context_window: 8192,
        max_tokens: 2048,
        temperature: Float32 { bits: 0 },
        proxy: String::new(),
    }
}

fn user(content: &str) -> Message {
    Message::User { content: content.into(), images: vec![] }
}

#[test]
fn rule_fast_check_matches_explicit_skill_name() {
    let skills = vec![skill("health-check")];
    assert_eq!(
        rule_match("用 health-check 检查设备", &skills),
        Some("health-check".to_string())
    );
}

#[test]
fn rule_fast_check_longest_name_wins() {
    let skills = vec![skill("check"), skill("health-check")];
    assert_eq!(
        rule_match("请按 health-check 流程执行", &skills),
        Some("health-check".to_string())
    );
}

#[test]
fn rule_fast_check_no_mention_is_none() {
    let skills = vec![skill("health-check")];
    assert_eq!(rule_match("你好，帮我看看这个设备的状态", &skills), None);
}

#[test]
fn route_skill_rule_hit_returns_use_skill() {
    let model = dummy_model();
    let skills = vec![skill("health-check")];
    let decision = route_skill(&model, "用 health-check 检查设备", &skills, &vec![]);
    assert!(matches!(
        decision,
        RouteStep::Settled(RouteDecision::UseSkill(name)) if name == "health-check"
    ));
}

#[test]
fn parse_none_returns_none() {
    let skills = vec![skill("health-check")];
    assert_eq!(parse_response("none", &skills), None);
}

#[test]
fn parse_quoted_skill_name() {
    let skills = vec![skill("health-check")];
    assert_eq!(
        parse_response("\"health-check\"", &skills),
        Some("health-check".to_string())
    );
    assert_eq!(
        parse_response("`health-check`", &skills),
        Some("health-check".to_string())
    );
}

#[test]
fn parse_case_insensitive() {
    let skills = vec![skill("health-check")];
    assert_eq!(
        parse_response("HEALTH-CHECK.", &skills),
        Some("health-check".to_string())
    );
}

#[test]
fn parse_unknown_name_returns_none() {
    let skills = vec![skill("health-check")];
    assert_eq!(parse_response("diagnostics", &skills), None);
}

#[test]
fn names_are_found_whatever_their_case() {
    let skills = vec![skill("Health-Check")];
    assert_eq!(rule_match("run HEALTH-check now", &skills), Some("Health-Check".to_string()));
}

#[test]
fn the_first_of_two_names_of_one_length_wins() {
    let skills = vec![skill("abc"), skill("xyz")];
    assert_eq!(longest_named(&skills, &vec![true, true]), Some(0));
    assert_eq!(longest_named(&skills, &vec![false, true]), Some(1));
    assert_eq!(longest_named(&skills, &vec![false, false]), None);
}

#[test]
fn without_skills_the_model_is_not_asked() {
    let step = route_skill(&dummy_model(), "hello", &vec![], &vec![]);
    assert!(matches!(step, RouteStep::Settled(RouteDecision::Direct)));
}

#[test]
fn the_model_is_asked_about_the_skills() {
    let skills = vec![skill("health-check")];
    let context = vec![
        user("one"),
        Message::Tool {
            call_id: "c".into(),
            content: "hidden".into(),
            is_error: false,
            images: vec![],
        },
        user("two"),
    ];
    match route_skill(&dummy_model(), "hello", &skills, &context) {
        RouteStep::Ask(request) => {
            assert_eq!(request.model, "router-test");
            assert_eq!(request.system, build_system_prompt(&skills));
            assert_eq!(request.messages.len(), 1);
            assert!(matches!(
                &request.messages[0],
                Message::User { content, .. } if content == "hello\n[context]\none\ntwo"
            ));
            assert!(request.tools.is_empty());
        },
        RouteStep::Settled(_) => panic!("the model should be asked"),
    }
}

#[test]
fn the_question_lists_each_skill() {
    let mut other = skill("disk");
    other.when_to_use = None;
    assert_eq!(
        build_system_prompt(&vec![skill("cpu"), other]),
        "You are a skill router. Available skills:\n\
         - name: cpu — test skill cpu | when: when the user asks about it\n\
         - name: disk — test skill disk | when: always\n\
         \nThe user request is below. Choose the ONE skill that best matches it.\n\
         Reply with ONLY the skill name, or \"none\" if no skill applies."
    );
    assert_eq!(build_user_message("alone", &vec![]), "alone");
}

#[test]
fn every_outcome_is_a_decision() {
    let skills = vec![skill("health-check")];
    assert!(matches!(finish_route(None, &skills), RouteDecision::Direct));
    assert!(matches!(finish_route(Some(""), &skills), RouteDecision::Direct));
    assert!(matches!(
        finish_route(Some(" health-check "), &skills),
        RouteDecision::UseSkill(name) if name == "health-check"
    ));
}

#[test]
fn answers_are_cleaned_and_matched() {
    assert_eq!(clean_response("  \"name\".\n"), "name");
    assert_eq!(meant_skill("b", &vec!["a".into(), "b".into()]), Some(1));
    assert_eq!(meant_skill("none", &vec!["none".into()]), None);
    assert_eq!(meant_skill("none of them", &vec!["a".into()]), None);
    assert_eq!(meant_skill("nonessential-check", &vec!["nonessential-check".into()]), Some(0));
    assert_eq!(meant_skill("", &vec!["".into()]), None);
}

#[test]
fn only_the_whole_answer_none_means_none() {
    let skills = vec![skill("nonessential-check")];
    assert_eq!(
        parse_response("\"Nonessential-Check\".", &skills),
        Some("nonessential-check".to_string())
    );
    assert_eq!(parse_response("\"None\".", &skills), None);
}

#[test]
fn only_the_end_of_a_stream_is_an_answer() {
    assert!(matches!(route_event(&StreamEvent::Delta("x".into())), RouteReply::Wait));
    let done = StreamEvent::Done {
        content: "health-check".into(),
        tool_calls: vec![],
        usage: None,
        finish_reason: None,
    };
    assert!(matches!(route_event(&done), RouteReply::Answer(text) if text == "health-check"));
    let error = StreamEvent::Error("cut".into());
    assert!(matches!(route_event(&error), RouteReply::Failed));
}

#[test]
fn of_names_of_one_length_the_first_counts() {
    let skills = vec![skill("aaa"), skill("bbb")];
    assert_eq!(rule_match("bbb and aaa", &skills), Some("aaa".to_string()));
}
