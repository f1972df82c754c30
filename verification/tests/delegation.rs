use dsh_lite::json::{parse_json, Json};
use dsh_lite::llm::LlmClient;
use dsh_lite::session::SessionLog;
use dsh_lite::subagent;
use dsh_lite::subagent::{extract_final_output, pick_skill, SubagentTool};
use dsh_lite::text::escape_json;
use dsh_lite::tools::workflow;
use dsh_lite::tools::workflow::{make_task_result, TaskResult, TaskRun, WorkflowTool, MAX_CONCURRENT};
use dsh_lite::tools::ToolPlugin;
use dsh_lite::types::{
    ExecMode, Float32, ModelConfig, SessionEvent, ThinkLevel, TurnEndReason,
};

fn model() -> ModelConfig {
    ModelConfig {
        base_url: "http://host/v1".into(),
        api_key: "k".into(),
        model: "m".into(),
        context_window: 8192,
        max_tokens: 1024,
        temperature: Float32 { bits: 0 },
        proxy: String::new(),
    }
}

fn subagent_tool() -> SubagentTool {
    SubagentTool::new(LlmClient::new(&model()), model(), Float32 { bits: 0 }, 2, "skills".into())
}

fn workflow_tool() -> WorkflowTool {
    WorkflowTool::new(LlmClient::new(&model()), model(), Float32 { bits: 0 }, 2, "skills".into())
}

fn args(text: &str) -> Json {
    parse_json(text).unwrap()
}

fn answer(content: &str) -> SessionEvent {
    SessionEvent::AssistantMessage {
        content: content.into(),
        tool_calls: vec![],
        usage: None,
        ttft_ms: 0,
        decode_ms: 0,
        thinking: None,
    }
}

#[test]
fn subagent_default_plan_skill_is_plan_mode() {
    let skill = subagent::default_plan_skill();
    assert!(matches!(skill.mode, ExecMode::Plan));
    assert!(skill.think.is_enabled());
    assert!(!skill.body.is_empty());
}

#[test]
fn subagent_extract_final_output_finds_last_assistant() {
    let mut session = SessionLog::new(64);
    session.append(SessionEvent::UserMessage { content: "test".into(), images: vec![] });
    session.append(answer("first response"));
    session.append(answer("final response"));
    assert_eq!(extract_final_output(&session), "final response");
}

#[test]
fn subagent_extract_final_output_empty_when_no_assistant() {
    let session = SessionLog::new(64);
    assert_eq!(extract_final_output(&session), "");
}

#[test]
fn subagent_max_depth_is_three() {
    assert_eq!(subagent::MAX_DEPTH, 3);
}

#[test]
fn workflow_default_plan_skill_is_plan_mode() {
    let skill = workflow::default_plan_skill();
    assert_eq!(skill.mode, ExecMode::Plan);
    assert_eq!(skill.think, ThinkLevel::High);
    assert!(skill.tools_allow.is_empty());
}

#[test]
fn workflow_extract_final_output_empty_when_no_assistant() {
    let session = SessionLog::new(64);
    assert!(extract_final_output(&session).is_empty());
}

#[test]
fn workflow_extract_final_output_finds_last_assistant() {
    let mut session = SessionLog::new(64);
    session.append(answer("first"));
    session.append(answer("second"));
    assert_eq!(extract_final_output(&session), "second");
}

#[test]
fn escape_json_escapes_special_chars() {
    assert_eq!(escape_json("hello"), "hello");
    assert_eq!(escape_json(r#"say "hi""#), r#"say \"hi\""#);
    assert_eq!(escape_json("line1\nline2"), r"line1\nline2");
    assert_eq!(escape_json("tab\there"), r"tab\there");
    assert_eq!(escape_json(r"back\slash"), r"back\\slash");
}

#[test]
fn max_concurrent_is_eight() {
    assert_eq!(MAX_CONCURRENT, 8);
}

#[test]
fn workflow_max_depth_is_three() {
    assert_eq!(workflow::MAX_DEPTH, 3);
}

#[test]
fn a_delegation_carries_its_task_one_level_down() {
    match subagent_tool().prepare(&args(r#"{"prompt":"look","skill":"diag"}"#), 1) {
        Ok(task) => {
            assert_eq!(task.prompt, "look");
            assert_eq!(task.description, "subagent task");
            assert_eq!(task.skill, Some("diag".to_string()));
            assert_eq!(task.depth, 2);
        },
        Err(refused) => panic!("{}", refused.content),
    }
}

#[test]
fn delegation_is_bounded() {
    let refused = subagent_tool().prepare(&args(r#"{"prompt":"look"}"#), 3).err().unwrap();
    assert!(refused.is_error);
    assert_eq!(
        refused.content,
        "Error: subagent delegation depth limit (3) reached. Cannot spawn another subagent."
    );
    let empty = subagent_tool().prepare(&args("{}"), 0).err().unwrap();
    assert_eq!(empty.content, "Error: `prompt` parameter is required and must be non-empty");
}

#[test]
fn a_delegation_reports_its_last_word() {
    let tool = subagent_tool();
    let done = tool.report(Ok(TurnEndReason::Completed), "found it".into());
    assert_eq!((done.content.as_str(), done.is_error), ("found it", false));
    let silent = tool.report(Ok(TurnEndReason::Error), "".into());
    assert_eq!(
        (silent.content.as_str(), silent.is_error),
        ("Subagent completed (no text output). Turn end: Error", true)
    );
    let failed = tool.report(Err("no route".into()), "".into());
    assert_eq!((failed.content.as_str(), failed.is_error), ("Subagent failed: no route", true));
}

#[test]
fn the_last_word_is_the_last_that_is_not_empty() {
    let mut session = SessionLog::new(64);
    session.append(answer("said"));
    session.append(answer(""));
    session.append(SessionEvent::UserMessage { content: "more".into(), images: vec![] });
    assert_eq!(extract_final_output(&session), "said");
}

#[test]
fn a_child_uses_the_named_skill_or_the_default() {
    let skills = vec![subagent::make_plan_skill("diag", "d", "b")];
    let named = pick_skill(&Some("diag".into()), &skills, subagent::default_plan_skill());
    assert_eq!(named.name, "diag");
    let unknown = pick_skill(&Some("none".into()), &skills, subagent::default_plan_skill());
    assert_eq!(unknown.name, "subagent-default");
    let unnamed = pick_skill(&None, &skills, workflow::default_plan_skill());
    assert_eq!(unnamed.name, "workflow-default");
}

#[test]
fn children_share_each_tool_once() {
    let mut tool = subagent_tool();
    let definition = workflow_tool().definition();
    tool.share_tool(definition.clone());
    tool.share_tool(definition);
    assert_eq!(tool.kit.shared.len(), 1);
    let names: Vec<String> =
        tool.kit.child_tools().definitions().into_iter().map(|d| d.name).collect();
    assert_eq!(names, vec!["workflow".to_string()]);
}

#[test]
fn a_workflow_reads_its_tasks() {
    let request = args(
        r#"{"name":"n","tasks":[{"label":"a","phase":"p","prompt":"x"},{"label":"b"},{"label":"c","phase":"q","prompt":"y","skill":"s"}]}"#,
    );
    match workflow_tool().prepare(&request, 0) {
        Ok(plan) => {
            assert_eq!(plan.name, "n");
            assert_eq!(plan.depth, 1);
            let labels: Vec<&str> = plan.tasks.iter().map(|t| t.label.as_str()).collect();
            assert_eq!(labels, vec!["a", "c"]);
            assert_eq!(plan.tasks[1].skill, Some("s".to_string()));
        },
        Err(refused) => panic!("{}", refused.content),
    }
}

#[test]
fn a_workflow_refuses_what_it_cannot_run() {
    let refused = |text: &str, depth: u32| -> String {
        workflow_tool().prepare(&args(text), depth).err().unwrap().content
    };
    assert_eq!(
        refused("{}", 0),
        "Error: `tasks` parameter is required and must be a non-empty array"
    );
    let nine = format!("{{\"tasks\":[{}]}}", vec!["{}"; 9].join(","));
    assert_eq!(refused(&nine, 0), "Error: too many tasks (9). Maximum is 8.");
    let one = r#"{"tasks":[{"label":"a","phase":"p","prompt":"x"}]}"#;
    assert_eq!(refused(one, 3), "Error: workflow delegation depth limit (3) reached.");
    assert_eq!(
        refused(r#"{"tasks":[{}]}"#, 0),
        "Error: no valid tasks found (each task needs label, phase, and non-empty prompt)"
    );
}

fn result(label: &str, phase: &str, completed: bool, text: &str) -> TaskResult {
    TaskResult { label: label.into(), phase: phase.into(), completed, result: text.into() }
}

#[test]
fn a_workflow_reports_every_phase() {
    let results = vec![
        result("a", "z", true, "ok"),
        result("b", "y", false, "line\nbroke"),
        result("c", "z", true, "fine"),
    ];
    let report = workflow_tool().report(7, "n", "d", &results);
    assert!(!report.is_error);
    assert_eq!(
        report.content,
        concat_lines(&[
            r#"{"runId":"wf-0007","name":"n","description":"d","agentsStarted":3,"completed":2,"failed":1,"phases":{"#,
            r#""y":[{"label":"b","status":"failed","error":"line\nbroke"}],"#,
            r#""z":[{"label":"a","status":"completed","result":"ok"},{"label":"c","status":"completed","result":"fine"}]}}"#,
        ])
    );
    assert!(parse_json(&report.content).is_ok());
}

fn concat_lines(parts: &[&str]) -> String {
    parts.join("")
}

#[test]
fn a_workflow_fails_where_every_task_failed() {
    let all_failed = workflow_tool().report(1, "n", "", &vec![result("a", "p", false, "x")]);
    assert!(all_failed.is_error);
    let none = workflow_tool().report(1, "n", "", &vec![]);
    assert!(!none.is_error);
}

#[test]
fn every_end_of_a_task_is_a_result() {
    let task = workflow_tool()
        .prepare(&args(r#"{"tasks":[{"label":"a","phase":"p","prompt":"x"}]}"#), 0)
        .ok()
        .unwrap()
        .tasks
        .pop()
        .unwrap();
    let ended = make_task_result(
        &task,
        TaskRun::Ended { reason: TurnEndReason::Completed, output: "".into() },
    );
    assert!(ended.completed);
    assert_eq!(ended.result, "Task completed (no text output). Turn end: Completed");
    let failed = make_task_result(&task, TaskRun::Failed("no".into()));
    assert_eq!((failed.completed, failed.result.as_str()), (false, "no"));
    let panicked = make_task_result(&task, TaskRun::Panicked);
    assert_eq!((panicked.completed, panicked.result.as_str()), (false, "thread panic"));
    assert_eq!((panicked.label.as_str(), panicked.phase.as_str()), ("a", "p"));
}

#[test]
fn escaping_is_reversible() {
    for text in ["plain", "a\"b\\c\nd\te\rf", "日本 \\n"] {
        let quoted = format!("\"{}\"", escape_json(text));
        assert!(matches!(parse_json(&quoted), Ok(Json::Text(t)) if t == text), "{quoted}");
    }
}
