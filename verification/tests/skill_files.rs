use dsh_lite::json::json_to_text;
use dsh_lite::skill::{
    extract_step_refs, load_dir, parse_mode, parse_skill_content, parse_think, select_by_name,
    split_frontmatter, validate,
};
use dsh_lite::types::{ExecMode, Skill, StepAction, ThinkLevel};
use dsh_lite::yaml::{parse_yaml, yaml_to_json, Node};

fn parsed(content: &str, stem: &str) -> Skill {
    parse_skill_content(content, Some(stem)).unwrap()
}

#[test]
fn parses_frontmatter_and_body() {
    let content = "---\nname: test-skill\ndescription: A test skill\nmode: plan\nthink: true\ntools:\n  allow: [shell, file_read]\n---\n# Test Skill\n\nYou are a test agent.\n";
    let skill = parsed(content, "test-skill");
    assert_eq!(skill.name, "test-skill");
    assert_eq!(skill.description, "A test skill");
    assert_eq!(skill.mode, ExecMode::Plan);
    assert_eq!(skill.think, ThinkLevel::High);
    assert_eq!(skill.tools_allow, vec!["shell", "file_read"]);
    assert!(skill.body.contains("test agent"));
}

#[test]
fn parses_think_levels() {
    for (yaml_val, expected) in [
        ("think: true", ThinkLevel::High),
        ("think: false", ThinkLevel::Off),
        ("think: low", ThinkLevel::Low),
        ("think: high", ThinkLevel::High),
        ("think: max", ThinkLevel::Max),
    ] {
        let content = format!("---\nname: t\ndescription: t\nmode: plan\n{yaml_val}\n---\nBody");
        let skill = parsed(&content, "t");
        assert_eq!(skill.think, expected, "failed for {yaml_val}");
    }
}

#[test]
fn parses_workflow_steps() {
    let content = "---\nname: health-check\ndescription: Health check\nmode: workflow\nsteps:\n  - id: check_cpu\n    tool: shell\n    args:\n      command: \"top -bn1\"\n  - id: summarize\n    llm_judge: \"Summarize the results\"\n    input: \"{{steps.check_cpu.result}}\"\n---\nBody";
    let skill = parsed(content, "health-check");
    assert_eq!(skill.mode, ExecMode::Workflow);
    assert_eq!(skill.steps.len(), 2);
    assert!(matches!(skill.steps[0].action, StepAction::Tool { .. }));
    assert!(matches!(skill.steps[1].action, StepAction::LlmJudge { .. }));
}

#[test]
fn parses_variables() {
    let content = "---\nname: test\ndescription: test\nvariables:\n  device: AX-200\n  version: \"1.0\"\n---\nBody";
    let skill = parsed(content, "test");
    assert_eq!(skill.variables.get("device"), Some(&"AX-200".to_string()));
    assert_eq!(skill.variables.get("version"), Some(&"1.0".to_string()));
}

#[test]
fn a_step_carries_its_arguments() {
    let content = "---\ndescription: d\nsteps:\n  - id: a\n    tool: shell\n    when: steps.b.result\n    args:\n      command: ls\n      deep: [1, true, null, 2.5]\n---\nBody";
    let skill = parsed(content, "named-by-file");
    assert_eq!(skill.name, "named-by-file");
    assert_eq!(skill.steps[0].id, "a");
    assert_eq!(skill.steps[0].when, Some("steps.b.result".to_string()));
    match &skill.steps[0].action {
        StepAction::Tool { tool, args } => {
            assert_eq!(tool, "shell");
            assert_eq!(json_to_text(args), r#"{"command":"ls","deep":[1,true,null,2.5]}"#);
        },
        StepAction::LlmJudge { .. } => panic!("a tool step"),
    }
}

#[test]
fn a_file_without_a_description_is_refused() {
    assert_eq!(
        parse_skill_content("---\nname: x\n---\nBody", Some("x")).err(),
        Some("missing required field: description".to_string())
    );
}

#[test]
fn a_file_without_a_head_is_refused() {
    assert_eq!(
        parse_skill_content("only a body", Some("x")).err(),
        Some("empty frontmatter".to_string())
    );
}

#[test]
fn a_head_that_is_no_yaml_is_refused() {
    let error = parse_skill_content("---\nname: [a\n---\nBody", Some("x")).err().unwrap();
    assert!(error.starts_with("YAML parse error: "), "{error}");
}

#[test]
fn the_head_is_split_from_the_body() {
    assert_eq!(split_frontmatter("---\na: b\n---\n\nText\n"), ("a: b".into(), "Text\n".into()));
    assert_eq!(split_frontmatter("no head"), ("".into(), "no head".into()));
    assert_eq!(split_frontmatter("---\nnever closed"), ("".into(), "---\nnever closed".into()));
}

#[test]
fn modes_and_levels_have_names() {
    assert_eq!(parse_mode("WorkFlow"), ExecMode::Workflow);
    assert_eq!(parse_mode("todo"), ExecMode::Todo);
    assert_eq!(parse_mode("anything"), ExecMode::Plan);
    assert_eq!(parse_think(None), ThinkLevel::Off);
    assert_eq!(parse_think(Some(&Node::Text("MAX".into()))), ThinkLevel::Max);
    assert_eq!(parse_think(Some(&Node::Text("yes".into()))), ThinkLevel::High);
    assert_eq!(parse_think(Some(&Node::Int(1))), ThinkLevel::Off);
}

#[test]
fn skills_come_sorted_without_those_that_failed() {
    let skill = |name: &str| parsed(&format!("---\nname: {name}\ndescription: d\n---\nB"), "f");
    let loaded = load_dir(vec![Ok(skill("b")), Err("broken".into()), Ok(skill("a"))]);
    let names: Vec<String> = loaded.into_iter().map(|s| s.name).collect();
    assert_eq!(names, vec!["a".to_string(), "b".to_string()]);
}

#[test]
fn references_to_steps_are_found() {
    assert_eq!(
        extract_step_refs("steps.a.result and {{steps.b-2.result}} steps. x"),
        vec!["a".to_string(), "b-2".to_string()]
    );
    assert_eq!(extract_step_refs("steps.日本.x"), vec!["日本".to_string()]);
    assert!(extract_step_refs("nothing").is_empty());
}

#[test]
fn an_unsound_skill_is_warned_about() {
    let content = "---\nname: w\ndescription: d\nmode: workflow\nthink: high\ntools:\n  allow: [shell, ghost]\nsteps:\n  - id: a\n    llm_judge: p\n    input: steps.c.result\n    when: steps.b.result\n---\nB";
    assert_eq!(
        validate(&parsed(content, "w"), &vec!["shell".to_string()]),
        vec![
            "tool `ghost` in allow-list is not registered".to_string(),
            "workflow mode with think enabled — reasoning will only apply to llm_judge steps"
                .to_string(),
            "step `a` when-condition references unknown step `b`".to_string(),
            "step `a` llm_judge input references unknown step `c`".to_string(),
        ]
    );
    let empty = "---\nname: t\ndescription: d\nmode: todo\n---\nB";
    assert_eq!(
        validate(&parsed(empty, "t"), &vec![]),
        vec!["mode Todo but no steps defined".to_string()]
    );
}

#[test]
fn a_sound_skill_has_no_warnings() {
    let content = "---\nname: w\ndescription: d\nmode: workflow\ntools:\n  allow: [shell]\nsteps:\n  - id: a\n    tool: shell\n  - id: b\n    llm_judge: p\n    input: steps.a.result\n---\nB";
    assert!(validate(&parsed(content, "w"), &vec!["shell".to_string()]).is_empty());
}

#[test]
fn required_fields_are_asked_for() {
    let mut skill = parsed("---\nname: w\ndescription: d\n---\nB", "w");
    assert!(validate(&skill, &vec![]).is_empty());
    skill.name = String::new();
    assert_eq!(validate(&skill, &vec![]), vec!["required field `name` is empty"]);
    skill.description = String::new();
    skill.tools_allow = vec!["x".to_string()];
    assert_eq!(
        validate(&skill, &vec![]),
        vec![
            "required field `name` is empty",
            "required field `description` is empty",
            "tool `x` in allow-list is not registered",
        ],
    );
}

#[test]
fn a_skill_is_selected_by_name() {
    let skills = vec![
        parsed("---\nname: a\ndescription: first\n---\nB", "f"),
        parsed("---\nname: b\ndescription: second\n---\nB", "f"),
    ];
    assert_eq!(select_by_name(&skills, Some("b")).map(|s| s.description.as_str()), Some("second"));
    assert_eq!(select_by_name(&skills, Some("c")).map(|s| s.name.as_str()), Some("a"));
    assert!(select_by_name(&skills, None).is_none());
    assert!(select_by_name(&vec![], Some("a")).is_none());
}

#[test]
fn yaml_becomes_json() {
    let node = parse_yaml("a: 1\nb: [x, 2.5, ~]\nc:\n  d: true\n").unwrap().unwrap();
    assert_eq!(json_to_text(&yaml_to_json(&node)), r#"{"a":1,"b":["x",2.5,null],"c":{"d":true}}"#);
    assert!(parse_yaml("").unwrap().is_none());
    assert!(parse_yaml("a: [").is_err());
    assert_eq!(node.get("a").map(|n| matches!(n, Node::Int(1))), Some(true));
}
