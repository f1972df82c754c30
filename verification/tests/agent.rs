use dsh_lite::agent::{
    events_to_keep, AgentAction, AgentLoop, AgentOutput, Collected, LoopEvent, StepOutcome,
};
use dsh_lite::compaction::summary_request;
use dsh_lite::dispatcher::{preheat_request, DispatchResult, Dispatcher};
use dsh_lite::expr::evaluate;
use dsh_lite::hooks::{PostStepContext, PreStepContext, StepDecision, StepFlow, StepHook};
use dsh_lite::json::{json_to_text, parse_json, Json};
use dsh_lite::llm::{LlmClient, StreamEvent};
use dsh_lite::policy::Policy;
use dsh_lite::session::SessionLog;
use dsh_lite::strategies::{build_hooks, Strategy};
use dsh_lite::textmap::TextMap;
use dsh_lite::tools::shell::ShellTool;
use dsh_lite::tools::{Admission, RunOutcome, ToolPlugin, ToolRegistry};
use dsh_lite::types::{
    ExecMode, Float32, Message, ModelConfig, SessionEvent, Skill, SkillStep, StepAction,
    ThinkLevel, TokenUsage, ToolCall, ToolDefinition, ToolResult, ToolsConfig, TurnEndReason,
};
use dsh_lite::workflow::{
    execute_judge_step, execute_tool_step, finish_judge_step, finish_tool_step,
};

fn model() -> ModelConfig {
    ModelConfig {
        base_url: "http://host/v1".into(),
        api_key: "k".into(),
        model: "m".into(),
        context_window: 8192,
        max_tokens: 1024,
        temperature: Float32 { bits: 0 },
        proxy: String::new(),
    }
}

fn registry() -> ToolRegistry {
    let mut tools = ToolRegistry::new(Policy::from_config(&ToolsConfig {
        shell: true,
        file_read: true,
        file_write: true,
        file_search: true,
        ssh_exec: true,
        memory: true,
        todo: true,
        permission: "workspace-write".into(),
    }));
    tools.register(ShellTool {}.definition());
    tools
}

fn skill(mode: ExecMode, steps: Vec<SkillStep>) -> Skill {
    Skill {
        name: "s".into(),
        description: "d".into(),
        when_to_use: None,
        mode,
        think: ThinkLevel::Off,
        tools_allow: vec![],
        variables: TextMap::new(),
        body: "Persona".into(),
        steps,
    }
}

fn tool_step(id: &str, command: &str, when: Option<&str>) -> SkillStep {
    SkillStep {
        id: id.into(),
        action: StepAction::Tool {
            tool: "shell".into(),
            args: Json::Object(vec![("command".into(), Json::Text(command.into()))]),
        },
        when: when.map(String::from),
    }
}

fn judge_step(id: &str, prompt: &str, input: &str) -> SkillStep {
    SkillStep {
        id: id.into(),
        action: StepAction::LlmJudge { prompt: prompt.into(), input: input.into() },
        when: None,
    }
}

fn agent_for(skill: &Skill) -> AgentLoop<Strategy> {
    AgentLoop::new(SessionLog::new(128), registry(), LlmClient::new(&model()), &model())
        .with_hooks(build_hooks(skill))
}

fn call(id: &str) -> ToolCall {
    ToolCall {
        id: id.into(),
        name: "shell".into(),
        arguments: parse_json("{\"command\":\"ls\"}").unwrap(),
    }
}

fn done(content: &str, tool_calls: Vec<ToolCall>) -> StreamEvent {
    StreamEvent::Done { content: content.into(), tool_calls, usage: None, finish_reason: None }
}

fn finished(content: &str) -> RunOutcome {
    RunOutcome::Finished(ToolResult { content: content.into(), is_error: false, images: vec![] })
}

/// Runs on to the next thing that is asked of the outside, and tells it in short.
fn go_on(agent: &mut AgentLoop<Strategy>, skill: &Skill, mut out: AgentOutput) -> String {
    loop {
        match out.action {
            AgentAction::Resume => {
                assert!(agent.ready());
                out = agent.resume(skill);
            },
            AgentAction::Compact { .. } => out = agent.compacted(None, skill),
            AgentAction::Ask(request) => return format!("ask {}", request.messages.len()),
            AgentAction::RunTool { call, timeout_ms } => {
                return format!("run {} {} {}", call.id, json_to_text(&call.arguments), timeout_ms)
            },
            AgentAction::Wait => return "wait".into(),
            AgentAction::Finish(reason) => return format!("finish {}", reason.name()),
        }
    }
}

fn answer(agent: &mut AgentLoop<Strategy>, skill: &Skill, event: StreamEvent) -> String {
    agent.hear(event, 5);
    let out = agent.heard_all();
    go_on(agent, skill, out)
}

#[test]
fn a_turn_without_calls_asks_once() {
    let skill = skill(ExecMode::Plan, vec![]);
    let mut agent = agent_for(&skill);
    let out = agent.run_turn("hello".into(), vec![], &skill);
    assert!(matches!(out.events[0], LoopEvent::TurnStart { turn: 1 }));
    assert_eq!(go_on(&mut agent, &skill, out), "ask 1");
    assert_eq!(answer(&mut agent, &skill, done("hi", vec![])), "finish Completed");
    let messages = agent.session().derive_messages();
    assert_eq!(messages.len(), 2);
    assert!(matches!(&messages[0], Message::User { content, .. } if content == "hello"));
    assert!(matches!(&messages[1], Message::Assistant { content, .. } if content == "hi"));
    assert!(matches!(
        agent.session().events().back(),
        Some(SessionEvent::TurnEnd { turn: 1, reason: TurnEndReason::Completed })
    ));
}

#[test]
fn calls_run_in_order_and_get_their_results() {
    let skill = skill(ExecMode::Plan, vec![]);
    let mut agent = agent_for(&skill);
    let out = agent.run_turn("do it".into(), vec![], &skill);
    assert_eq!(go_on(&mut agent, &skill, out), "ask 1");
    assert_eq!(
        answer(&mut agent, &skill, done("", vec![call("c1"), call("c2")])),
        "run c1 {\"command\":\"ls\"} 30000"
    );
    let out = agent.tool_done(finished("one"));
    assert!(matches!(&out.events[..], [LoopEvent::ToolResult { call_id, .. }] if call_id == "c1"));
    assert_eq!(go_on(&mut agent, &skill, out), "run c2 {\"command\":\"ls\"} 30000");
    let out = agent.tool_done(RunOutcome::TimedOut);
    assert_eq!(go_on(&mut agent, &skill, out), "ask 4");
    let messages = agent.session().derive_messages();
    assert!(matches!(
        &messages[3],
        Message::Tool { call_id, content, is_error: true, .. }
            if call_id == "c2" && content == "Error: tool `shell` timed out after 30000ms"
    ));
    assert_eq!(answer(&mut agent, &skill, done("done", vec![])), "finish Completed");
}

#[test]
fn a_call_that_is_not_allowed_is_answered_without_running() {
    let mut skill = skill(ExecMode::Plan, vec![]);
    skill.tools_allow = vec!["file_read".into()];
    let mut agent = agent_for(&skill);
    let out = agent.run_turn("do it".into(), vec![], &skill);
    go_on(&mut agent, &skill, out);
    assert_eq!(answer(&mut agent, &skill, done("", vec![call("c1")])), "ask 3");
    assert!(matches!(
        &agent.session().derive_messages()[2],
        Message::Tool { content, is_error: true, .. }
            if content == "Error: tool `shell` is not allowed by the active skill"
    ));
}

#[test]
fn a_failed_answer_ends_the_turn() {
    let skill = skill(ExecMode::Plan, vec![]);
    let mut agent = agent_for(&skill);
    let out = agent.run_turn("hello".into(), vec![], &skill);
    go_on(&mut agent, &skill, out);
    assert_eq!(answer(&mut agent, &skill, StreamEvent::Error("cut".into())), "finish Error");
}

#[test]
fn a_workflow_runs_its_tools_without_the_model() {
    let steps = vec![
        tool_step("a", "first", None),
        tool_step("skipped", "never", Some("steps.a.result contains \"nothing\"")),
        tool_step("b", "second {{steps.a.result}}", Some("steps.a.result length > 0")),
        judge_step("j", "Judge", "{{steps.b.result}}"),
    ];
    let skill = skill(ExecMode::Workflow, steps);
    let mut agent = agent_for(&skill);
    let out = agent.run_turn("go".into(), vec![], &skill);
    assert_eq!(go_on(&mut agent, &skill, out), "run wf_a {\"command\":\"first\"} 30000");
    let out = agent.tool_done(finished("ok"));
    assert_eq!(go_on(&mut agent, &skill, out), "run wf_b {\"command\":\"second ok\"} 30000");
    let out = agent.tool_done(finished("fine"));
    assert_eq!(go_on(&mut agent, &skill, out), "ask 1");
    assert_eq!(answer(&mut agent, &skill, done("all good", vec![])), "finish Completed");
}

#[test]
fn a_judgement_sees_its_prompt_alone() {
    let steps = vec![judge_step("j", "Judge", "this")];
    let skill = skill(ExecMode::Workflow, steps);
    let mut agent = agent_for(&skill);
    let mut out = agent.run_turn("go".into(), vec![], &skill);
    while matches!(out.action, AgentAction::Resume) {
        out = agent.resume(&skill);
    }
    match out.action {
        AgentAction::Ask(request) => {
            assert_eq!(request.system, "");
            assert!(request.tools.is_empty());
            assert!(matches!(
                &request.messages[..],
                [Message::User { content, .. }] if content == "Judge\n\n---\n\nthis"
            ));
        },
        _ => panic!("the model should be asked"),
    }
}

#[test]
fn a_todo_guides_the_model_through_its_steps() {
    let steps = vec![judge_step("one", "", ""), judge_step("two", "", "")];
    let skill = skill(ExecMode::Todo, steps);
    let mut agent = agent_for(&skill);
    let out = agent.run_turn("go".into(), vec![], &skill);
    assert_eq!(go_on(&mut agent, &skill, out), "ask 2");
    assert!(matches!(
        &agent.session().derive_messages()[1],
        Message::User { content, .. }
            if content == "You are on step 1 of 2: `one`.\nComplete this step before proceeding."
    ));
    assert_eq!(answer(&mut agent, &skill, done("done one", vec![])), "ask 4");
    assert_eq!(answer(&mut agent, &skill, done("done two", vec![])), "finish Completed");
}

#[test]
fn a_summary_takes_the_place_of_old_events() {
    let skill = skill(ExecMode::Plan, vec![]);
    let mut agent = agent_for(&skill).with_compaction(Float32 { bits: 7 }, 0);
    assert_eq!(agent.compaction_limits(), (8192, Float32 { bits: 7 }));
    let mut out = agent.run_turn("hello".into(), vec![], &skill);
    while matches!(out.action, AgentAction::Resume) {
        out = agent.resume(&skill);
    }
    assert!(matches!(&out.action, AgentAction::Compact { messages } if messages.len() == 1));
    let request = agent.summary_request().unwrap();
    assert_eq!(request.model, "m");
    assert!(matches!(
        &request.messages[..],
        [Message::User { content, .. }] if content == "User: hello"
    ));
    let out = agent.compacted(Some("in short".into()), &skill);
    match out.action {
        AgentAction::Ask(request) => assert!(matches!(
            &request.messages[..],
            [Message::User { content, .. }]
                if content == "[Previous conversation summary]\nin short"
        )),
        _ => panic!("the model should be asked"),
    }
    assert_eq!(events_to_keep(3), 18);
    assert_eq!(events_to_keep(usize::MAX), usize::MAX);
}

#[test]
fn a_summary_is_asked_for_of_the_older_messages() {
    assert!(summary_request("m", Float32 { bits: 0 }, &vec![]).is_none());
    let messages = vec![
        Message::User { content: "q".into(), images: vec![] },
        Message::Assistant { content: "hi".into(), tool_calls: vec![], reasoning_content: None },
        Message::Tool {
            call_id: "c".into(),
            content: "out".into(),
            is_error: false,
            images: vec![],
        },
    ];
    let request = summary_request("m", Float32 { bits: 3 }, &messages).unwrap();
    assert!(request.tools.is_empty());
    assert_eq!(request.temperature, Float32 { bits: 3 });
    assert!(matches!(
        &request.messages[..],
        [Message::User { content, .. }] if content == "User: q\nAssistant: hi\nTool: out"
    ));
}

#[test]
fn the_answer_is_collected_with_its_times() {
    let mut heard = Collected::new();
    let events = heard.accept(StreamEvent::Delta("He".into()), 10, false);
    assert!(matches!(&events[..], [LoopEvent::Delta { text }] if text == "He"));
    heard.accept(StreamEvent::ThinkDelta("hm".into()), 12, false);
    let usage = TokenUsage {
        prompt_tokens: 5,
        completion_tokens: 2,
        cache_hit_tokens: 1,
        cache_miss_tokens: 4,
        reasoning_tokens: 0,
    };
    let events = heard.accept(
        StreamEvent::Done {
            content: "Hey".into(),
            tool_calls: vec![],
            usage: Some(usage),
            finish_reason: None,
        },
        30,
        false,
    );
    assert!(matches!(
        &events[..],
        [LoopEvent::Usage { prompt_tokens: 5, completion_tokens: 2, ttft_ms: 10, decode_ms: 20, .. }]
    ));
    assert_eq!(heard.content, "Hey");
    assert_eq!(heard.thinking, "hm");
    assert_eq!(heard.usage, Some(usage));
    assert_eq!((heard.ttft(), heard.decode()), (10, 20));
}

#[test]
fn an_outcome_is_told_to_the_hooks() {
    let outcome = StepOutcome::Done { content: "x".into(), is_error: false, had_tool_calls: true };
    assert_eq!(outcome.as_tuple(), ("x".to_string(), false, true));
    assert_eq!(StepOutcome::Error("e".into()).as_tuple(), ("e".to_string(), true, false));
}

#[test]
fn plans_stop_when_the_model_asks_for_nothing() {
    let skill = skill(ExecMode::Plan, vec![]);
    let mut hooks = build_hooks(&skill);
    let before = PreStepContext { turn: 1, step: 1, skill: &skill };
    assert!(matches!(hooks[0].pre_step(&before), StepDecision::Proceed { injection: None }));
    let after = |had_tool_calls: bool| PostStepContext {
        turn: 1,
        step: 1,
        skill: &skill,
        content: "".into(),
        is_error: false,
        had_tool_calls,
    };
    assert!(matches!(hooks[0].post_step(&after(true)), StepFlow::Continue));
    assert!(matches!(
        hooks[0].post_step(&after(false)),
        StepFlow::Stop { reason: TurnEndReason::Completed }
    ));
}

#[test]
fn a_dispatcher_lends_its_session_and_takes_it_back() {
    let skill = skill(ExecMode::Plan, vec![]);
    let mut dispatcher =
        Dispatcher::new(SessionLog::new(64), registry(), LlmClient::new(&model()), &model())
            .with_compaction(Float32 { bits: 1 }, 2);
    let mut agent = dispatcher.dispatch(&skill);
    let out = agent.run_turn("hello".into(), vec![], &skill);
    go_on(&mut agent, &skill, out);
    answer(&mut agent, &skill, done("hi", vec![]));
    let result = dispatcher.take_back(agent, ExecMode::Plan, Ok(TurnEndReason::Completed));
    assert!(matches!(
        result,
        DispatchResult::Done { mode: ExecMode::Plan, reason: TurnEndReason::Completed }
    ));
    assert_eq!(dispatcher.session().derive_messages().len(), 2);
    let agent = dispatcher.dispatch(&skill);
    let failed = dispatcher.take_back(agent, ExecMode::Todo, Err("lost".into()));
    assert!(matches!(
        failed,
        DispatchResult::Failed { mode: ExecMode::Todo, message } if message == "lost"
    ));
    assert_eq!(dispatcher.take_session().derive_messages().len(), 2);
}

#[test]
fn the_first_turn_is_prepared() {
    let skill = skill(ExecMode::Plan, vec![]);
    let seen = preheat_request(&model(), &Default::default(), &skill, &registry().definitions());
    assert_eq!((seen.max_tokens, seen.model.as_str()), (1, "m"));
    assert!(matches!(&seen.messages[..], [Message::User { content, .. }] if content == "ready"));
    let mut agent = agent_for(&skill);
    let mut out = agent.run_turn("hello".into(), vec![], &skill);
    while matches!(out.action, AgentAction::Resume) {
        out = agent.resume(&skill);
    }
    match agent.compacted(None, &skill).action {
        AgentAction::Ask(asked) => {
            assert_eq!(asked.system, seen.system);
            let names = |tools: &[ToolDefinition]| -> Vec<String> {
                tools.iter().map(|t| t.name.clone()).collect()
            };
            assert_eq!(names(&asked.tools), names(&seen.tools));
        },
        _ => panic!("the model should be asked"),
    }
}

#[test]
fn single_steps_can_be_prepared() {
    let mut results = TextMap::new();
    results.insert("a".into(), "42".into());
    let mut variables = TextMap::new();
    variables.insert("host".into(), "r1".into());
    let args = parse_json("{\"command\":\"ping {{host}} {{steps.a.result}}\"}").unwrap();
    let step = execute_tool_step(&registry(), "b", "shell", &args, &results, &variables);
    assert_eq!(step.call.id, "wf_b");
    assert_eq!(json_to_text(&step.call.arguments), "{\"command\":\"ping r1 42\"}");
    assert!(matches!(step.admission, Admission::Run { timeout_ms: 30000 }));
    assert!(matches!(&step.event, LoopEvent::ToolCall { call } if call.id == "wf_b"));
    let (output, event) = finish_tool_step(
        &step.call,
        ToolResult { content: "up".into(), is_error: false, images: vec![] },
    );
    assert_eq!((output.content.as_str(), output.is_error), ("up", false));
    assert!(matches!(event, LoopEvent::ToolResult { call_id, .. } if call_id == "wf_b"));

    let request = execute_judge_step(
        "m",
        9,
        Float32 { bits: 0 },
        ThinkLevel::Low,
        "Judge {{host}}",
        "{{steps.a.result}}",
        &results,
        &variables,
    );
    assert!(matches!(
        &request.messages[..],
        [Message::User { content, .. }] if content == "Judge r1\n\n---\n\n42"
    ));
    let mut heard = Collected::new();
    heard.accept(done("fine", vec![]), 1, true);
    let (output, event) = finish_judge_step(heard);
    assert_eq!((output.content.as_str(), output.is_error), ("fine", false));
    assert!(matches!(event, LoopEvent::AssistantMessage { content, .. } if content == "fine"));
    assert!(evaluate("steps.a.result == \"42\"", &results));
}
