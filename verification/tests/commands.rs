use dsh_lite::commands::{
    command_question, handle_command, parse_command, percent_of, register_builtins, Command,
    CommandContext, CommandPlugin, CommandResult,
};
use dsh_lite::session_manager::SessionManager;
use dsh_lite::types::{
    CompactionConfig, Config, Float32, MemoryConfig, Message, ModelConfig, ServerConfig, SessionConfig,
    PromptConfig, SessionEvent, SkillConfig, SshConfig, ToolsConfig, TrajectoryConfig,
};

fn config() -> Config {
    Config {
        model: ModelConfig {
            base_url: "http://host".into(),
            api_key: "".into(),
            model: "m".into(),
            context_window: 100,
            max_tokens: 1024,
            temperature: Float32 { bits: 0 },
            proxy: "".into(),
        },
        models: vec![],
        server: ServerConfig { listen: "".into() },
        session: SessionConfig {
            persist_dir: "".into(),
            checkpoint_events: 1,
            checkpoint_turn_end: true,
        },
        memory: MemoryConfig { backend: "".into(), path: "".into(), max_entries: 1 },
        compaction: CompactionConfig { threshold: Float32 { bits: 0 }, keep_recent_turns: 1 },
        skill: SkillConfig { dir: "skills".into(), active: None },
        prompt: PromptConfig { custom: "".into() },
        trajectory: TrajectoryConfig { enabled: false },
        tools: ToolsConfig {
            shell: true,
            file_read: true,
            file_write: true,
            file_search: true,
            ssh_exec: true,
            memory: true,
            todo: true,
            permission: "read-only".into(),
        },
        ssh: SshConfig { targets: vec![] },
    }
}

fn run_line(
    line: &str,
    summary: Option<&str>,
    sessions: &mut SessionManager,
) -> Option<CommandResult> {
    let config = config();
    let ctx = CommandContext { config: &config, now: 7, new_id: "fresh", summary };
    handle_command(&register_builtins(), line, &ctx, sessions)
}

fn run(name: &str, args: &str, sessions: &mut SessionManager) -> CommandResult {
    run_line(&format!("/{name} {args}"), None, sessions).unwrap()
}

fn with_messages(count: usize) -> SessionManager {
    let mut sessions = SessionManager::new(None, 128);
    sessions.create("S", "s1", 1);
    if let Some(log) = sessions.active_mut() {
        for i in 0..count {
            log.append(SessionEvent::UserMessage { content: format!("m{i:03}"), images: vec![] });
        }
    }
    sessions
}

#[test]
fn the_builtin_commands_are_named() {
    let commands = register_builtins();
    let names: Vec<&str> = commands.iter().map(|c| c.name()).collect();
    assert_eq!(names, vec!["new", "clear", "compact", "context", "help"]);
    assert!(matches!(commands[0], Command::New(_)));
}

#[test]
fn a_new_session_is_made() {
    let mut sessions = SessionManager::new(None, 128);
    let result = run("new", "  My title ", &mut sessions);
    assert!(result.ok);
    assert_eq!(result.action, "new");
    assert_eq!(result.session_id, Some("fresh".to_string()));
    assert!(!result.store.is_empty());
    assert_eq!(sessions.list()[0].title, "My title");
    run("new", "", &mut sessions);
    assert!(sessions.list().iter().any(|m| m.title == "New session"));
}

#[test]
fn a_session_is_cleared() {
    let mut sessions = with_messages(3);
    let result = run("clear", "", &mut sessions);
    assert_eq!((result.action.as_str(), result.ok), ("clear", true));
    assert_eq!(sessions.active().map(|log| log.len()), Some(0));
}

#[test]
fn a_long_session_is_cut() {
    let mut sessions = with_messages(10);
    let result = run("compact", "", &mut sessions);
    assert_eq!(result.text, "已压缩会话：保留最近 6 条事件，移除 4 条旧事件。");
    assert_eq!(sessions.active().map(|log| log.len()), Some(6));
    let short = run("compact", "", &mut sessions);
    assert_eq!(short.text, "会话较短，无需压缩。");
}

#[test]
fn a_summary_takes_the_place_of_what_is_cut() {
    let mut sessions = with_messages(10);
    let request = command_question("/compact", &config().model, &sessions).unwrap();
    assert!(matches!(
        &request.messages[..],
        [Message::User { content, .. }]
            if content == "User: m000\nUser: m001\nUser: m002\nUser: m003"
    ));
    assert!(command_question("/clear", &config().model, &sessions).is_none());
    assert!(command_question("compact", &config().model, &sessions).is_none());
    let result = run_line("/compact", Some("in short"), &mut sessions).unwrap();
    assert_eq!(result.text, "已压缩会话：保留最近 6 条事件，移除 4 条旧事件。");
    let messages = sessions.active_messages().unwrap();
    assert_eq!(messages.len(), 7);
    assert!(matches!(
        &messages[0],
        Message::User { content, .. } if content == "[Previous conversation summary]\nin short"
    ));
    assert!(matches!(&messages[1], Message::User { content, .. } if content == "m004"));
}

#[test]
fn a_line_names_its_command() {
    let parts = |line: &str| parse_command(line);
    assert_eq!(parts(" /new  My title "), Some(("new".to_string(), " My title".to_string())));
    assert_eq!(parts("/help"), Some(("help".to_string(), "".to_string())));
    assert_eq!(parts("hello /new"), None);
    assert_eq!(parts(""), None);
    let mut sessions = with_messages(1);
    assert!(run_line("/nothing", None, &mut sessions).is_none());
    assert!(run_line("hello", None, &mut sessions).is_none());
    assert_eq!(sessions.active().map(|log| log.len()), Some(1));
}

#[test]
fn the_use_of_the_context_is_told() {
    let mut sessions = with_messages(10);
    let result = run("context", "", &mut sessions);
    assert_eq!(
        result.text,
        "当前已用 10 tokens（10 条事件），模型最大上下文 100 tokens，使用率 10%。"
    );
    assert_eq!(percent_of(1, 0), 0);
    assert_eq!(percent_of(usize::MAX, 1), u64::MAX);
}

#[test]
fn without_a_session_commands_are_refused() {
    for name in ["clear", "compact", "context"] {
        let mut sessions = SessionManager::new(None, 128);
        let result = run(name, "", &mut sessions);
        assert_eq!((result.ok, result.text.as_str()), (false, "没有活跃会话。"), "{name}");
    }
}

#[test]
fn help_lists_the_commands() {
    let mut sessions = SessionManager::new(None, 128);
    let result = run("help", "", &mut sessions);
    assert!(result.text.starts_with("可用命令：\n  /new            — 新建会话\n"), "{}", result.text);
    assert!(result.text.contains("  /context        — 查看当前 token 用量\n"), "{}", result.text);
}
