use dsh_lite::json::{json_to_text, parse_json, Json};
use dsh_lite::policy::Policy;
use dsh_lite::tools::file::{
    glob_match, FileReadTool, FileSearchTool, FileWriteTool, FoundEntry,
};
use dsh_lite::tools::shell::{assemble_output, command_of, signed_text, ShellTool};
use dsh_lite::tools::{
    allow_lists, builtin_definitions, cut_output, filter_tools, finalize_result, register_builtins,
    register_subagent, Admission, RunOutcome, ToolPlugin, ToolRegistry,
};
use dsh_lite::types::{
    CompactionConfig, Config, Float32, MemoryConfig, ModelConfig, ServerConfig, SessionConfig,
    PromptConfig, SkillConfig, SshConfig, ToolCall, ToolResult, ToolsConfig, TrajectoryConfig,
};

fn tools_config(permission: &str) -> ToolsConfig {
    ToolsConfig {
        shell: true,
        file_read: true,
        file_write: true,
        file_search: true,
        ssh_exec: true,
        memory: true,
        todo: true,
        permission: permission.into(),
    }
}

fn config() -> Config {
    Config {
        model: ModelConfig {
            base_url: "http://host".into(),
            api_key: "".into(),
            model: "m".into(),
            context_window: 8192,
            max_tokens: 1024,
            temperature: Float32 { bits: 0 },
            proxy: "".into(),
        },
        models: vec![],
        server: ServerConfig { listen: "".into() },
        session: SessionConfig {
            persist_dir: "".into(),
            checkpoint_events: 1,
            checkpoint_turn_end: true,
        },
        memory: MemoryConfig { backend: "".into(), path: "".into(), max_entries: 1 },
        compaction: CompactionConfig { threshold: Float32 { bits: 0 }, keep_recent_turns: 1 },
        skill: SkillConfig { dir: "skills".into(), active: None },
        prompt: PromptConfig { custom: "".into() },
        trajectory: TrajectoryConfig { enabled: false },
        tools: tools_config("workspace-write"),
        ssh: SshConfig { targets: vec![] },
    }
}

fn args(text: &str) -> Json {
    parse_json(text).unwrap()
}

fn call(name: &str) -> ToolCall {
    ToolCall { id: "c".into(), name: name.into(), arguments: Json::Null }
}

fn names(registry: &ToolRegistry) -> Vec<String> {
    registry.definitions().into_iter().map(|d| d.name).collect()
}

#[test]
fn the_builtins_follow_the_configuration() {
    let mut config = config();
    let all: Vec<String> = builtin_definitions(&config).into_iter().map(|d| d.name).collect();
    assert_eq!(
        all,
        vec![
            "shell", "file_read", "file_write", "file_search", "memory_read", "memory_write",
            "memory_recall", "ssh_exec"
        ]
    );
    config.tools.shell = false;
    config.tools.memory = false;
    let mut registry = ToolRegistry::new(Policy::from_config(&config.tools));
    register_builtins(&mut registry, &config);
    assert_eq!(names(&registry), vec!["file_read", "file_write", "file_search", "ssh_exec"]);
    register_subagent(&mut registry, &config);
    assert!(names(&registry).contains(&"subagent".to_string()));
}

#[test]
fn a_later_tool_takes_the_place_of_one_of_its_name() {
    let mut registry = ToolRegistry::new(Policy::from_config(&tools_config("workspace-write")));
    registry.register(ShellTool {}.definition());
    registry.register(FileReadTool {}.definition());
    let mut other = ShellTool {}.definition();
    other.timeout_ms = 1;
    registry.register(other);
    assert_eq!(names(&registry), vec!["shell", "file_read"]);
    assert!(matches!(registry.execute(&call("shell")), Admission::Run { timeout_ms: 1 }));
}

#[test]
fn calls_are_admitted_or_refused() {
    let mut registry = ToolRegistry::new(Policy::from_config(&tools_config("read-only")));
    registry.register(ShellTool {}.definition());
    registry.register(FileReadTool {}.definition());
    let refusal = |a: Admission| match a {
        Admission::Refuse(r) => r.content,
        Admission::Run { .. } => panic!("should be refused"),
    };
    assert!(matches!(registry.execute(&call("file_read")), Admission::Run { timeout_ms: 10000 }));
    assert_eq!(
        refusal(registry.execute(&call("shell"))),
        "Error: permission denied — tool `shell` is not enabled in configuration"
    );
    assert_eq!(
        refusal(registry.execute(&call("file_search"))),
        "Error: permission denied — tool `file_search` is not registered"
    );
    let allow = vec!["shell".to_string()];
    assert_eq!(
        refusal(registry.execute_checked(&call("file_read"), &allow)),
        "Error: tool `file_read` is not allowed by the active skill"
    );
    assert!(matches!(
        registry.execute_checked(&call("file_read"), &vec![]),
        Admission::Run { .. }
    ));
    assert!(registry.is_allowed("shell", &allow) && !registry.is_allowed("file_read", &allow));
    assert_eq!(registry.definitions_for(&allow).len(), 1);
    assert!(allow_lists("x", &vec![]) && !allow_lists("x", &allow));
    assert_eq!(filter_tools(&registry.definitions(), &vec![]).len(), 2);
}

#[test]
fn the_offered_tools_are_those_that_may_be_called() {
    let mut registry = ToolRegistry::new(Policy::from_config(&tools_config("workspace-write")));
    register_builtins(&mut registry, &config());
    let allow = vec!["file_read".to_string(), "shell".to_string()];
    let offered: Vec<String> =
        registry.definitions_for(&allow).into_iter().map(|d| d.name).collect();
    assert_eq!(offered, vec!["shell", "file_read"]);
    for name in names(&registry) {
        let runs = matches!(
            registry.execute_checked(&call(&name), &allow),
            Admission::Run { .. }
        );
        assert_eq!(runs, offered.contains(&name));
    }
}

#[test]
fn long_output_is_cut_in_the_middle() {
    let short = "x".repeat(16384);
    assert_eq!(cut_output(short.clone()), short);
    let long = format!("{}{}", "a".repeat(10000), "b".repeat(10000));
    let cut = cut_output(long);
    assert!(cut.starts_with(&"a".repeat(8192)));
    assert!(cut.ends_with(&"b".repeat(8192)));
    assert!(cut.contains(
        "\n\n... [output truncated: 20000 bytes total, showing first 8192 and last 8192] ...\n\n"
    ));
}

#[test]
fn every_outcome_of_a_run_is_a_result() {
    let done = ToolResult { content: "x".into(), is_error: true, images: vec![] };
    let kept = finalize_result(RunOutcome::Finished(done), "t", 5);
    assert_eq!((kept.content.as_str(), kept.is_error), ("x", true));
    let panicked = finalize_result(RunOutcome::Panicked("boom".into()), "t", 5);
    assert_eq!(panicked.content, "Error: tool `t` panicked: boom");
    let late = finalize_result(RunOutcome::TimedOut, "t", 5);
    assert_eq!((late.content.as_str(), late.is_error), ("Error: tool `t` timed out after 5ms", true));
}

#[test]
fn a_command_reports_what_it_printed() {
    assert_eq!(assemble_output("out", "", 0), "out");
    assert_eq!(assemble_output("out", "err", 2), "out\n[stderr]\nerr\n[exit code: 2]");
    assert_eq!(assemble_output("", "err", -1), "[stderr]\nerr\n[exit code: -1]");
    assert_eq!(signed_text(i32::MIN), i32::MIN.to_string());
    let report = ShellTool {}.report(&b"a\xff".to_vec(), &vec![], Some(0), true);
    assert_eq!((report.content.as_str(), report.is_error), ("a\u{fffd}", false));
    let killed = ShellTool {}.report(&vec![], &vec![], None, false);
    assert!(killed.is_error);
    assert!(ShellTool {}.failed("no shell").is_error);
}

#[test]
fn a_command_is_read_from_its_arguments() {
    assert_eq!(command_of(&args("{\"command\":\"ls\"}")).ok(), Some("ls".to_string()));
    assert_eq!(
        command_of(&args("{}")).err().map(|r| r.content),
        Some("Error: `command` parameter is required and must be non-empty".to_string())
    );
    assert_eq!(ShellTool {}.program(false), ("sh", "-c"));
    assert_eq!(ShellTool {}.program(true), ("cmd", "/C"));
}

#[test]
fn files_are_read_and_written() {
    let read = FileReadTool {};
    assert_eq!(read.prepare(&args("{\"path\":\"a\"}")).ok(), Some("a".to_string()));
    assert_eq!(
        read.prepare(&args("{}")).err().map(|r| r.content),
        Some("Error: `path` is required".to_string())
    );
    assert_eq!(read.report(Ok("text".into())).content, "text");
    let failed = read.report(Err("no such file".into()));
    assert_eq!((failed.content.as_str(), failed.is_error), ("Error: no such file", true));
    let write = FileWriteTool {};
    assert_eq!(
        write.prepare(&args("{\"path\":\"a\",\"content\":\"b\"}")).ok(),
        Some(("a".to_string(), "b".to_string()))
    );
    assert!(write.prepare(&args("{}")).is_err());
    let written = write.report("a", "日", Ok(()));
    assert!(!written.is_error);
    assert!(written.content.contains("3 bytes"), "{}", written.content);
    assert!(write.report("a", "b", Err("full".into())).is_error);
}

#[test]
fn patterns_match_names() {
    assert!(glob_match("*.rs", "main.rs"));
    assert!(!glob_match("*.rs", "main.rc"));
    assert!(glob_match("m??n*", "main.rs"));
    assert!(!glob_match("?", ""));
    assert!(glob_match("**", ""));
    assert!(glob_match("a*b*c", "aXbYbZc"));
    assert!(!glob_match("a*b", "ab "));
}

#[test]
fn found_files_come_sorted() {
    let tool = FileSearchTool {};
    let entry = |name: &str, path: &str| FoundEntry { name: name.into(), path: path.into() };
    let entries = vec![entry("b.rs", "z/b.rs"), entry("a.txt", "a.txt"), entry("c.rs", "d/c.rs")];
    assert_eq!(tool.report("*.rs", ".", &entries).content, "d/c.rs\nz/b.rs");
    assert_eq!(tool.report("*.py", "src", &entries).content, "No files matching '*.py' in src");
    assert_eq!(tool.matching(&entries, "*.txt"), vec!["a.txt".to_string()]);
    assert_eq!(tool.prepare(&args("{\"pattern\":\"*.rs\"}")).0, "*.rs");
}

#[test]
fn tools_describe_their_arguments() {
    let definition = ShellTool {}.definition();
    assert_eq!(definition.name, "shell");
    assert_eq!(
        json_to_text(&definition.parameters),
        r#"{"properties":{"command":{"description":"The shell command to execute","type":"string"}},"required":["command"],"type":"object"}"#
    );
}
