use dsh_lite::json::{parse_json, Json};
use dsh_lite::tools::ssh::{
    make_connection_key, reuses, ChannelEvent, CommandCapture, SshExecTool, SshFailure,
    SshSessionManager,
};
use dsh_lite::types::SshTarget;

fn router1() -> SshTarget {
    SshTarget {
        name: "router1".into(),
        host: "10.0.0.1".into(),
        port: 22,
        user: "admin".into(),
        password: "pass".into(),
    }
}

fn args(text: &str) -> Json {
    parse_json(text).unwrap()
}

#[test]
fn test_resolve_target_by_name() {
    let manager = SshSessionManager::new(vec![router1()]);

    let target = manager.resolve_target(Some("router1"), None, None, None, None);
    assert!(target.is_ok());
    assert_eq!(target.unwrap().host, "10.0.0.1");
}

#[test]
fn test_resolve_target_not_found() {
    let manager = SshSessionManager::new(vec![]);
    let target = manager.resolve_target(Some("nonexistent"), None, None, None, None);
    assert!(target.is_err());
}

#[test]
fn test_resolve_target_inline() {
    let manager = SshSessionManager::new(vec![]);
    let target = manager.resolve_target(
        None,
        Some("192.168.1.1"),
        Some("admin"),
        Some("password"),
        Some(2222),
    );
    assert!(target.is_ok());
    let t = target.unwrap();
    assert_eq!(t.host, "192.168.1.1");
    assert_eq!(t.user, "admin");
    assert_eq!(t.port, 2222);
}

#[test]
fn test_resolve_target_missing_host() {
    let manager = SshSessionManager::new(vec![]);
    let target = manager.resolve_target(None, None, Some("admin"), None, None);
    assert!(target.is_err());
}

#[test]
fn test_resolve_target_default_port() {
    let manager = SshSessionManager::new(vec![]);
    let target = manager.resolve_target(
        None,
        Some("10.0.0.1"),
        Some("admin"),
        None,
        None,
    );
    assert!(target.is_ok());
    assert_eq!(target.unwrap().port, 22);
}

#[test]
fn what_cannot_be_resolved_is_explained() {
    let manager = SshSessionManager::new(vec![router1()]);
    assert_eq!(
        manager.resolve_target(Some("r2"), Some("h"), Some("u"), None, None).err(),
        Some("SSH target 'r2' not found in config".to_string())
    );
    assert_eq!(
        manager.resolve_target(None, None, None, None, None).err(),
        Some("Missing 'host' parameter (or specify 'target')".to_string())
    );
    assert_eq!(
        manager.resolve_target(None, Some("h"), None, None, None).err(),
        Some("Missing 'user' parameter (or specify 'target')".to_string())
    );
}

#[test]
fn an_inline_target_is_named_after_its_user_and_host() {
    let manager = SshSessionManager::new(vec![]);
    let t = manager.resolve_target(None, Some("h"), Some("u"), None, None).unwrap();
    assert_eq!(t.name, "u@h");
    assert_eq!(t.password, "");
}

#[test]
fn a_connection_is_known_by_host_port_and_user() {
    assert_eq!(make_connection_key(&router1()), "10.0.0.1:22:admin");
    assert!(reuses(Some(false)));
    assert!(!reuses(Some(true)));
    assert!(!reuses(None));
}

#[test]
fn connections_are_not_shared_by_users_or_devices() {
    let key = |host: &str, port: u16, user: &str| {
        make_connection_key(&SshTarget {
            name: "n".into(),
            host: host.into(),
            port,
            user: user.into(),
            password: "".into(),
        })
    };
    assert_ne!(key("h", 22, "a"), key("h", 22, "b"));
    assert_ne!(key("h", 2, "2:a"), key("h", 22, "a"));
    assert_ne!(key("h", 22, "a"), key("g", 22, "a"));
    assert_eq!(key("fe80::1", 22, "a"), "fe80::1:22:a");
}

#[test]
fn a_call_names_its_target_and_command() {
    let tool = SshExecTool::new(vec![router1()]);
    let (target, command) =
        tool.prepare(&args(r#"{"target":"router1","command":"show"}"#)).ok().unwrap();
    assert_eq!(target.host, "10.0.0.1");
    assert_eq!(command, "show");
    let refused = tool.prepare(&args(r#"{"target":"router1"}"#)).err().unwrap();
    assert!(refused.is_error);
    let unknown = tool.prepare(&args(r#"{"target":"x","command":"show"}"#)).err().unwrap();
    assert!(unknown.content.contains("SSH target 'x' not found in config"));
    let (inline, _) = tool
        .prepare(&args(r#"{"host":"h","user":"u","port":2200,"command":"c"}"#))
        .ok()
        .unwrap();
    assert_eq!(inline.port, 2200);
}

#[test]
fn a_command_is_captured_until_its_end() {
    let mut capture = CommandCapture::new();
    assert!(capture.accept(&ChannelEvent::Data(b"out".to_vec())));
    assert!(capture.accept(&ChannelEvent::Extended { data: b"err".to_vec(), kind: 1 }));
    assert!(capture.accept(&ChannelEvent::Extended { data: vec![0xff], kind: 2 }));
    assert!(capture.accept(&ChannelEvent::Other));
    assert!(capture.accept(&ChannelEvent::ExitStatus(3)));
    assert!(!capture.accept(&ChannelEvent::End));
    assert_eq!(capture.output, "out\u{fffd}");
    assert_eq!(capture.errors, "err");
    assert_eq!(capture.exit_code, 3);
    assert!(capture.finish().contains("out"));
    assert!(capture.finish().contains("err"));
}

#[test]
fn every_failure_is_explained() {
    assert_eq!(SshFailure::Runtime("e".into()).message(), "Failed to create SSH runtime: e");
    assert_eq!(SshFailure::Connect("e".into()).message(), "SSH connect failed: e");
    assert_eq!(SshFailure::Auth("e".into()).message(), "SSH auth failed: e");
    assert_eq!(
        SshFailure::Rejected { user: "u".into() }.message(),
        "SSH authentication rejected for user 'u'"
    );
    assert_eq!(SshFailure::ChannelOpen("e".into()).message(), "SSH channel open failed: e");
    assert_eq!(SshFailure::Exec("e".into()).message(), "SSH exec failed: e");
    assert_eq!(
        SshFailure::TimedOut { secs: 55 }.message(),
        "SSH command timed out after 55s"
    );
    let tool = SshExecTool::new(vec![]);
    let report = tool.report(Err(SshFailure::Exec("e".into())));
    assert_eq!((report.content.as_str(), report.is_error), ("SSH error: SSH exec failed: e", true));
    let done = tool.report(Ok("text".into()));
    assert_eq!((done.content.as_str(), done.is_error), ("text", false));
}
