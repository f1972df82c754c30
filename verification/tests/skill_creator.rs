use dsh_lite::json::{json_str, parse_json, Json};
use dsh_lite::skill::{parse_skill_content, split_frontmatter};
use dsh_lite::skill_creator::{
    generate_plan_skill, generate_todo_skill, generate_workflow_skill,
    generate_workflow_steps_from_intent, get_texts, is_kebab_case, make_plan_body,
    SkillCreatorTool, WriteOutcome,
};
use dsh_lite::tools::ToolPlugin;
use dsh_lite::types::{ExecMode, ThinkLevel};

fn tool() -> SkillCreatorTool {
    SkillCreatorTool { skills_dir: "skills".into() }
}

fn refusal(args: &str) -> String {
    match tool().prepare(&parse_json(args).unwrap()) {
        Ok(_) => panic!("should be refused: {args}"),
        Err(result) => {
            assert!(result.is_error);
            result.content
        },
    }
}

#[test]
fn is_kebab_case_valid() {
    assert!(is_kebab_case("interface-health-check"));
    assert!(is_kebab_case("cpu-check"));
    assert!(is_kebab_case("step1"));
}

#[test]
fn is_kebab_case_invalid() {
    assert!(!is_kebab_case(""));
    assert!(!is_kebab_case("InterfaceHealth"));
    assert!(!is_kebab_case("-leading"));
    assert!(!is_kebab_case("trailing-"));
    assert!(!is_kebab_case("double--hyphen"));
    assert!(!is_kebab_case("has space"));
}

#[test]
fn generate_plan_skill_has_correct_frontmatter() {
    let content =
        generate_plan_skill("test-skill", "Test description", Some("when testing"), &vec![], None);
    assert!(content.contains("name: test-skill"));
    assert!(content.contains("mode: plan"));
    assert!(content.contains("think: true"));
    assert!(content.contains("whenToUse: when testing"));
}

#[test]
fn generate_workflow_skill_has_steps() {
    let content = generate_workflow_skill(
        "test-workflow",
        "Test workflow",
        None,
        &vec!["shell".to_string()],
        "",
        None,
    );
    assert!(content.contains("mode: workflow"));
    assert!(content.contains("think: false"));
    assert!(content.contains("steps:"));
    assert!(content.contains("step_1"));
    assert!(content.contains("summarize"));
    assert!(content.contains("llm_judge"));
}

#[test]
fn generate_workflow_steps_from_intent_parses_lines() {
    let steps =
        generate_workflow_steps_from_intent("1. Check CPU usage\n2. Check memory\n3. Check disk");
    assert!(steps.contains("step_1"));
    assert!(steps.contains("step_2"));
    assert!(steps.contains("step_3"));
    assert!(steps.contains("Check CPU usage"));
    assert!(steps.contains("summarize"));
}

#[test]
fn generate_todo_skill_has_guidance() {
    let content = generate_todo_skill(
        "test-todo",
        "Test todo",
        None,
        &vec![],
        "1. Do thing A\n2. Do thing B",
        None,
    );
    assert!(content.contains("mode: todo"));
    assert!(content.contains("Do thing A"));
    assert!(content.contains("Do thing B"));
}

#[test]
fn custom_body_is_used() {
    let content =
        generate_plan_skill("test", "desc", None, &vec![], Some("Custom body text here."));
    assert!(content.contains("Custom body text here."));
}

#[test]
fn a_generated_file_is_exact() {
    assert_eq!(
        generate_plan_skill("a-b", "D", None, &vec!["shell".into(), "todo".into()], Some("Body")),
        "---\nname: a-b\ndescription: D\nmode: plan\nthink: true\ntools:\n  allow: [shell, todo]\n---\n\nBody\n"
    );
}

#[test]
fn the_title_is_in_capitals() {
    let content = generate_plan_skill("disk-check", "D", None, &vec![], None);
    assert!(content.contains("\n# DISK CHECK\n"));
    assert_eq!(split_frontmatter(&content).1, format!("{}\n", make_plan_body("DISK CHECK")));
}

#[test]
fn generated_files_are_read_back() {
    let content = generate_workflow_skill(
        "disk-check",
        "Checks disks",
        Some("disks fill up"),
        &vec!["shell".to_string()],
        "1. Look at df\n2. Look at inodes",
        None,
    );
    let skill = parse_skill_content(&content, Some("disk-check")).unwrap();
    assert_eq!(skill.name, "disk-check");
    assert_eq!(skill.description, "Checks disks");
    assert_eq!(skill.when_to_use, Some("disks fill up".to_string()));
    assert_eq!(skill.mode, ExecMode::Workflow);
    assert_eq!(skill.think, ThinkLevel::Off);
    assert_eq!(skill.tools_allow, vec!["shell"]);
    let ids: Vec<&str> = skill.steps.iter().map(|s| s.id.as_str()).collect();
    assert_eq!(ids, vec!["step_1", "step_2", "summarize"]);
}

#[test]
fn a_request_names_its_file() {
    let args = parse_json(
        r#"{"name":"a-b","description":"D","mode":"todo","tools":["shell",3],"body":"Text"}"#,
    )
    .unwrap();
    match tool().prepare(&args) {
        Ok(file) => {
            assert_eq!(file.filename, "a-b.md");
            assert!(file.content.contains("mode: todo"));
            assert!(file.content.contains("allow: [shell]"));
            let written = tool().report(&file, WriteOutcome::Written("skills/a-b.md".into()));
            assert_eq!(
                written.content,
                "Created skill file: skills/a-b.md\n\nName: a-b\nMode: todo\nDescription: D\n\nThe skill is now available. Restart or reload skills to use it."
            );
            let exists = tool().report(&file, WriteOutcome::Exists);
            assert!(exists.is_error);
            assert_eq!(
                exists.content,
                "Error: skill file `a-b.md` already exists in skills. Use a different name or delete the existing file first."
            );
            let failed = tool().report(&file, WriteOutcome::Failed("full".into()));
            assert_eq!(failed.content, "Error: failed to write skill file: full");
            let no_dir = tool().report(&file, WriteOutcome::NoDirectory("denied".into()));
            assert_eq!(no_dir.content, "Error: failed to create skills directory: denied");
        },
        Err(refused) => panic!("{}", refused.content),
    }
}

#[test]
fn wrong_requests_are_refused() {
    assert_eq!(refusal("{}"), "Error: `name` is required and must be kebab-case");
    assert_eq!(
        refusal(r#"{"name":"../etc"}"#),
        "Error: name `../etc` must be kebab-case (lowercase letters, numbers, hyphens only)"
    );
    assert_eq!(refusal(r#"{"name":"a"}"#), "Error: `description` is required");
    assert_eq!(
        refusal(r#"{"name":"a","description":"d","mode":"loop"}"#),
        "Error: mode must be 'workflow', 'todo', or 'plan', got 'loop'"
    );
}

#[test]
fn lists_of_texts_are_read() {
    let args = Json::Object(vec![(
        "tools".into(),
        Json::Array(vec![json_str("a"), Json::Null, json_str("b")]),
    )]);
    assert_eq!(get_texts(&args, "tools"), vec!["a".to_string(), "b".to_string()]);
    assert!(get_texts(&args, "other").is_empty());
}

#[test]
fn the_creator_describes_itself() {
    assert_eq!(tool().definition().name, "skill_creator");
}
