use dsh_lite::policy::Policy;
use dsh_lite::types::ToolsConfig;

fn cfg(permission: &str) -> ToolsConfig {
    ToolsConfig {
        shell: true,
        file_read: true,
        file_write: true,
        file_search: true,
        ssh_exec: true,
        memory: true,
        todo: true,
        permission: permission.into(),
    }
}

#[test]
fn read_only_denies_write_tools() {
    let p = Policy::from_config(&cfg("read-only"));
    // Read-only safe tools remain allowed.
    for t in ["file_read", "file_search", "memory_read", "memory_recall", "subagent", "workflow"] {
        assert!(p.check_tool(t).is_none(), "read-only should allow {t}");
    }
    // Write-capable tools are denied even when their bool flags are enabled.
    for t in ["shell", "file_write", "ssh_exec", "memory_write", "todo_write"] {
        assert!(p.check_tool(t).is_some(), "read-only should deny {t}");
    }
}

#[test]
fn write_levels_allow_all_enabled() {
    for level in ["workspace-write", "danger-full-access"] {
        let p = Policy::from_config(&cfg(level));
        for t in [
            "shell", "file_read", "file_write", "file_search", "ssh_exec",
            "memory_read", "memory_write", "memory_recall", "todo_write",
            "subagent", "workflow",
        ] {
            assert!(p.check_tool(t).is_none(), "{level} should allow {t}");
        }
    }
}

#[test]
fn a_switched_off_tool_is_denied() {
    let mut config = cfg("danger-full-access");
    config.shell = false;
    config.memory = false;
    let p = Policy::from_config(&config);
    assert!(p.check_tool("shell").is_some());
    assert!(p.check_tool("memory_read").is_some());
    assert!(p.check_tool("file_write").is_none());
}

#[test]
fn delegation_is_always_allowed() {
    let config = ToolsConfig {
        shell: false,
        file_read: false,
        file_write: false,
        file_search: false,
        ssh_exec: false,
        memory: false,
        todo: false,
        permission: "read-only".into(),
    };
    let p = Policy::from_config(&config);
    assert!(p.check_tool("subagent").is_none());
    assert!(p.check_tool("workflow").is_none());
    assert!(p.check_tool("file_read").is_some());
}

#[test]
fn a_denial_names_the_tool() {
    let p = Policy::from_config(&cfg("read-only"));
    assert_eq!(
        p.check_tool("shell"),
        Some("tool `shell` is not enabled in configuration".to_string())
    );
}
