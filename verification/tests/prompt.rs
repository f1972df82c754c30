use dsh_lite::json::{json_str, Json};
use dsh_lite::prompt::{
    assemble, assemble_sections, assemble_turn, build_custom_sections, build_sections, PromptSection,
    PromptSettings,
};
use dsh_lite::textmap::TextMap;
use dsh_lite::types::{ExecMode, Skill, ThinkLevel, ToolDefinition};

fn make_skill(name: &str, body: &str, tools: Vec<&str>) -> Skill {
    Skill {
        name: name.into(),
        description: "test".into(),
        when_to_use: None,
        mode: ExecMode::Plan,
        think: ThinkLevel::Off,
        tools_allow: tools.into_iter().map(String::from).collect(),
        variables: TextMap::new(),
        body: body.into(),
        steps: vec![],
    }
}

fn make_tool(name: &str, desc: &str) -> ToolDefinition {
    ToolDefinition {
        name: name.into(),
        description: desc.into(),
        parameters: Json::Object(vec![("type".into(), json_str("object"))]),
        timeout_ms: 5000,
        guidance: String::new(),
    }
}

fn section(name: &str, order: i32, text: &str) -> PromptSection {
    PromptSection { name: name.into(), order, text: text.into() }
}

#[test]
fn assembles_persona_and_tools() {
    let skill = make_skill("diag", "You are a diagnostic agent.", vec!["shell", "file_read"]);
    let tools = vec![
        make_tool("shell", "Execute a shell command"),
        make_tool("file_read", "Read a file"),
        make_tool("file_write", "Write a file"),
    ];
    let prompt = assemble(&skill, &tools, &TextMap::new());
    assert!(prompt.system.contains("diagnostic agent"));
    assert!(prompt.system.contains("shell"));
    assert!(prompt.system.contains("file_read"));
    // file_write is not in the allow-list, should be filtered out.
    assert!(!prompt.system.contains("file_write"));
    assert_eq!(prompt.tools.len(), 2);
}

#[test]
fn interpolates_variables() {
    let mut skill = make_skill("diag", "Device model: {{device_model}}", vec![]);
    skill.variables.insert("device_model".into(), "AX-200".into());
    let prompt = assemble(&skill, &vec![], &TextMap::new());
    assert!(prompt.system.contains("AX-200"));
    assert!(!prompt.system.contains("{{"));
}

#[test]
fn empty_allow_list_returns_all_tools() {
    let skill = make_skill("diag", "body", vec![]);
    let tools = vec![make_tool("shell", "x"), make_tool("file_read", "y")];
    let prompt = assemble(&skill, &tools, &TextMap::new());
    assert_eq!(prompt.tools.len(), 2);
}

#[test]
fn dynamic_sections_sorted_by_order() {
    let sections = vec![
        section("tools", 100, "Tools section"),
        section("persona", 0, "Persona section"),
        section("custom", 50, "Custom section"),
    ];
    let prompt = assemble_sections(sections, vec![], &TextMap::new());
    // Persona (0) should come before custom (50) before tools (100).
    let persona_pos = prompt.system.find("Persona section").unwrap();
    let custom_pos = prompt.system.find("Custom section").unwrap();
    let tools_pos = prompt.system.find("Tools section").unwrap();
    assert!(persona_pos < custom_pos);
    assert!(custom_pos < tools_pos);
}

#[test]
fn sections_of_one_order_keep_their_places() {
    let sections = vec![section("a", 5, "A"), section("b", 5, "B"), section("c", 1, "C")];
    let prompt = assemble_sections(sections, vec![], &TextMap::new());
    assert_eq!(prompt.system, "C\n\nA\n\nB");
}

fn guided(name: &str, desc: &str, guidance: &str) -> ToolDefinition {
    ToolDefinition { guidance: guidance.into(), ..make_tool(name, desc) }
}

const RULES: &str = "## Rules\n\n- Check exit codes: investigate a failure before moving on.\n\
                     - Verify facts with tools instead of guessing.\n- Be concise.";

#[test]
fn the_prompt_is_exact() {
    let skill = make_skill("diag", "Persona.", vec![]);
    let tools = vec![guided("shell", "Run it", "Mind the exit code."), make_tool("plain", "x")];
    let prompt = assemble(&skill, &tools, &TextMap::new());
    assert_eq!(
        prompt.system,
        format!(
            "You are an AI agent. Working dir: ..\n\nPersona.\n\n{RULES}\n\n\
             ## Available tools\n\nYou may call these tools:\n\n\
             - `shell`: Mind the exit code.\n- `plain`\n\n\
             Call a tool by name with JSON arguments. Wait for the result before proceeding."
        )
    );
}

fn orders(sections: &[PromptSection]) -> Vec<i32> {
    sections.iter().map(|s| s.order).collect()
}

#[test]
fn there_are_five_sections() {
    let skill = make_skill("diag", "Persona.", vec!["shell"]);
    let tools = vec![guided("shell", "Run it", "Guide."), guided("other", "No", "Never.")];
    let (sections, allowed) = build_sections(&skill, &tools);
    assert_eq!(orders(&sections), vec![-100, 0, 10, 100]);
    assert_eq!(sections[1].text, "Persona.");
    assert_eq!(allowed.len(), 1);
    let (sections, _) = build_custom_sections(&skill, &tools, "Speak French.");
    assert_eq!(orders(&sections), vec![-100, 0, 5, 10, 100]);
    assert_eq!(sections[2].text, "Speak French.");
    assert!(sections[4].text.contains("- `shell`: Guide.\n"));
}

#[test]
fn only_guidance_enters_the_prompt() {
    let skill = make_skill("diag", "Persona.", vec![]);
    let tools = vec![guided("shell", "DESCRIBED", "GUIDED")];
    let system = assemble(&skill, &tools, &TextMap::new()).system;
    assert!(system.contains("GUIDED"));
    assert!(!system.contains("DESCRIBED"));
}

#[test]
fn the_directory_and_the_model_are_filled_in() {
    let mut skill = make_skill("diag", "On {{model}} for {{who}}.", vec![]);
    skill.variables.insert("who".into(), "us".into());
    let settings = PromptSettings { cwd: "/work".into(), custom: "Stay in {{cwd}}.".into() };
    let prompt = assemble_turn(&skill, &vec![], &settings, "m1");
    assert_eq!(
        prompt.system,
        format!(
            "You are an AI agent. Working dir: /work.\n\nOn m1 for us.\n\nStay in /work.\n\n{RULES}"
        )
    );
    let mut extra = TextMap::new();
    extra.insert("cwd".into(), "/other".into());
    let prompt = assemble(&make_skill("x", "", vec![]), &vec![], &extra);
    assert!(prompt.system.starts_with("You are an AI agent. Working dir: /other.\n\n"));
}

#[test]
fn one_skill_has_one_prompt() {
    let settings = PromptSettings { cwd: "/work".into(), custom: "".into() };
    let a = make_skill("a", "Persona.", vec![]);
    let b = make_skill("b", "Persona.", vec![]);
    assert_eq!(
        assemble_turn(&a, &vec![], &settings, "m").system,
        assemble_turn(&b, &vec![], &settings, "m").system
    );
}

#[test]
fn extra_variables_go_before_those_of_the_skill() {
    let mut skill = make_skill("diag", "{{a}} {{b}}", vec![]);
    skill.variables.insert("a".into(), "1".into());
    skill.variables.insert("b".into(), "2".into());
    let mut extra = TextMap::new();
    extra.insert("b".into(), "3".into());
    assert!(assemble(&skill, &vec![], &extra).system.contains("\n\n1 3\n\n"));
}

#[test]
fn an_empty_body_makes_no_section() {
    let (sections, tools) = build_sections(&make_skill("x", "", vec![]), &vec![]);
    assert_eq!(orders(&sections), vec![-100, 10]);
    assert!(tools.is_empty());
}
