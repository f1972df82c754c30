use std::collections::HashMap;

use dsh_lite::session::{SessionLog, SessionSnapshot};
use dsh_lite::session_manager::{
    generate_session_id, index_file, session_file, SessionManager, SessionMeta, StoreAction,
};
use dsh_lite::types::{SessionEvent, TurnEndReason};

/// What a manager asked to be written down.
struct Kept {
    index: Option<Vec<SessionMeta>>,
    logs: HashMap<String, SessionSnapshot>,
}

impl Kept {
    fn new() -> Kept {
        Kept { index: None, logs: HashMap::new() }
    }

    fn perform(&mut self, mgr: &SessionManager, actions: Vec<StoreAction>) {
        for action in actions {
            match action {
                StoreAction::Checkpoint { id, snapshot } => {
                    self.logs.insert(id, snapshot);
                },
                StoreAction::Remove { id } => {
                    self.logs.remove(&id);
                },
                StoreAction::SaveIndex => {
                    self.index = Some(mgr.index().iter().map(|m| m.clone()).collect());
                },
            }
        }
    }

    fn reopen(&mut self) -> SessionManager {
        SessionManager::new(self.index.take(), 128)
    }

    fn load(&mut self, id: &str) -> Option<SessionLog> {
        self.logs.remove(id).map(|s| SessionLog::from_snapshot(s, 128))
    }

    fn create(&mut self, mgr: &mut SessionManager, title: &str, id: &str, now: u64) {
        let actions = mgr.create(title, id, now);
        self.perform(mgr, actions);
    }

    fn switch(&mut self, mgr: &mut SessionManager, id: &str, now: u64) -> bool {
        let loaded = if mgr.needs_load(id) { self.load(id) } else { None };
        match mgr.switch(id, loaded, now) {
            Some(actions) => {
                self.perform(mgr, actions);
                true
            },
            None => false,
        }
    }
}

#[test]
fn test_create_and_switch() {
    let mut kept = Kept::new();
    let mut mgr = SessionManager::new(None, 128);

    kept.create(&mut mgr, "Session 1", "s1", 1);
    kept.create(&mut mgr, "Session 2", "s2", 2);

    assert_eq!(mgr.len(), 2);
    assert_eq!(mgr.active_id(), Some("s2"));

    // Switch back to session 1.
    kept.switch(&mut mgr, "s1", 3);
    assert_eq!(mgr.active_id(), Some("s1"));
}

#[test]
fn test_double_page_cache() {
    let mut kept = Kept::new();
    let mut mgr = SessionManager::new(None, 128);

    kept.create(&mut mgr, "S1", "s1", 1);
    kept.create(&mut mgr, "S2", "s2", 2);
    kept.create(&mut mgr, "S3", "s3", 3);

    // Cache capacity is 2, so after creating 3, only 2 should be cached.
    assert!(mgr.cached_len() <= 2);
    assert!(!mgr.is_cached("s1"));

    // Switching to s1 should load it back.
    assert!(kept.switch(&mut mgr, "s1", 4));
    assert!(mgr.cached_len() <= 2);
    assert_eq!(mgr.active_id(), Some("s1"));
}

#[test]
fn test_close_and_reload() {
    let mut kept = Kept::new();
    let mut mgr = SessionManager::new(None, 128);

    kept.create(&mut mgr, "Test session", "s1", 1);
    assert!(mgr.active().is_some());

    let actions = mgr.close("s1");
    kept.perform(&mgr, actions);
    assert!(mgr.active_id().is_none());
    assert!(mgr.active().is_none());

    // Reload: should find the session in the index.
    let mut mgr2 = kept.reopen();
    assert_eq!(mgr2.len(), 1);

    // Switch to it: should load it.
    kept.switch(&mut mgr2, "s1", 2);
    assert!(mgr2.active().is_some());
}

#[test]
fn session_manager_test_delete() {
    let mut kept = Kept::new();
    let mut mgr = SessionManager::new(None, 128);

    kept.create(&mut mgr, "To delete", "s1", 1);
    assert_eq!(mgr.len(), 1);

    let actions = mgr.delete("s1");
    kept.perform(&mgr, actions);
    assert_eq!(mgr.len(), 0);
    assert!(mgr.active_id().is_none());
    assert!(kept.logs.is_empty());
}

#[test]
fn test_list_sorted_by_recency() {
    let mut kept = Kept::new();
    let mut mgr = SessionManager::new(None, 128);

    kept.create(&mut mgr, "Oldest", "s1", 10);
    kept.create(&mut mgr, "Newer", "s2", 20);
    kept.create(&mut mgr, "Newest", "s3", 30);

    let list = mgr.list();
    assert_eq!(list.len(), 3);
    // Most recent first.
    assert_eq!(list[0].title, "Newest");
    assert_eq!(list[2].title, "Oldest");
}

#[test]
fn test_persistence_across_restart() {
    let mut kept = Kept::new();
    {
        let mut mgr = SessionManager::new(None, 128);
        kept.create(&mut mgr, "Persistent session", "s1", 1);
        // Write some events.
        if let Some(log) = mgr.active_mut() {
            log.begin_turn();
            log.append(SessionEvent::UserMessage {
                content: "hello from session".into(),
                images: vec![],
            });
            log.end_turn(TurnEndReason::Completed);
        }
        let actions = mgr.checkpoint_active();
        kept.perform(&mgr, actions);
    }

    // New manager instance: should reload the index.
    let mut mgr2 = kept.reopen();
    assert_eq!(mgr2.len(), 1);

    // Switch to the session: should load it with its events.
    kept.switch(&mut mgr2, "s1", 2);
    let log = mgr2.active().unwrap();
    assert!(log.len() > 0);
}

#[test]
fn what_leaves_the_cache_is_written_down_first() {
    let mut mgr = SessionManager::new(None, 128);
    mgr.create("S1", "s1", 1);
    mgr.create("S2", "s2", 2);
    let actions = mgr.create("S3", "s3", 3);
    assert!(actions.iter().any(|a| matches!(a, StoreAction::Checkpoint { id, .. } if id == "s1")));
}

#[test]
fn an_unknown_session_is_not_switched_to() {
    let mut kept = Kept::new();
    let mut mgr = SessionManager::new(None, 128);
    kept.create(&mut mgr, "S1", "s1", 1);
    assert!(!kept.switch(&mut mgr, "nowhere", 2));
    assert_eq!(mgr.active_id(), Some("s1"));
}

#[test]
fn a_renamed_session_has_its_new_title() {
    let mut mgr = SessionManager::new(None, 128);
    mgr.create("Before", "s1", 1);
    mgr.rename("s1", "After", 2);
    assert_eq!(mgr.list()[0].title, "After");
}

#[test]
fn a_log_can_be_taken_and_returned() {
    let mut mgr = SessionManager::new(None, 128);
    mgr.create("S1", "s1", 1);
    let mut log = mgr.take_active().unwrap();
    log.append(SessionEvent::UserMessage { content: "hi".into(), images: vec![] });
    mgr.return_session(log, 2);
    assert_eq!(mgr.active_messages().map(|m| m.len()), Some(1));
    assert_eq!(mgr.active_session_id(), Some("s1"));
}

#[test]
fn a_session_that_is_left_is_not_held_any_more() {
    let mut kept = Kept::new();
    let mut mgr = SessionManager::new(None, 128);
    kept.create(&mut mgr, "S1", "s1", 1);
    kept.create(&mut mgr, "S2", "s2", 2);
    let actions = mgr.close("s1");
    kept.perform(&mgr, actions);
    assert!(!mgr.is_cached("s1") && mgr.is_cached("s2"));
    assert_eq!(mgr.active_id(), Some("s2"));
    let actions = mgr.delete("s2");
    kept.perform(&mgr, actions);
    assert!(!mgr.is_cached("s2") && mgr.active_id().is_none());
    assert!(kept.switch(&mut mgr, "s1", 3));
    assert!(mgr.is_cached("s1"));
}

#[test]
fn names_of_sessions_and_files() {
    assert_eq!(generate_session_id(0x18c0ffee123, 0x5), "18c0ffee1230005");
    assert_eq!(generate_session_id(0, 0xffff), "0ffff");
    assert_eq!(session_file("a1"), "session-a1.bin");
    assert_eq!(index_file(), "session-index.bin");
}

#[test]
fn a_new_session_is_in_use_whatever_the_time() {
    let mut kept = Kept::new();
    let mut mgr = SessionManager::new(None, 128);
    kept.create(&mut mgr, "S1", "s1", 100);
    kept.create(&mut mgr, "S2", "s2", 200);
    kept.create(&mut mgr, "S3", "s3", 1);
    assert_eq!(mgr.len(), 3);
    assert_eq!(mgr.active_id(), Some("s3"));
    assert_eq!(mgr.active().map(|log| log.len()), Some(0));
    assert_eq!(mgr.cached_len(), 2);
    assert!(!mgr.is_cached("s1"));
    let titles: Vec<String> = mgr.list().into_iter().map(|m| m.title).collect();
    assert_eq!(titles, vec!["S2", "S1", "S3"]);
}

#[test]
fn a_session_that_is_used_again_has_its_messages() {
    let mut kept = Kept::new();
    let mut mgr = SessionManager::new(None, 128);
    for (i, id) in ["s1", "s2", "s3"].iter().enumerate() {
        kept.create(&mut mgr, "S", id, i as u64);
    }
    assert!(kept.switch(&mut mgr, "s1", 10));
    let hello = SessionEvent::UserMessage { content: "hello".into(), images: vec![] };
    mgr.active_mut().unwrap().append(hello);
    for (now, id) in [(11, "s2"), (12, "s3"), (13, "s2")] {
        assert!(kept.switch(&mut mgr, id, now));
        assert_eq!(mgr.active_messages().map(|m| m.len()), Some(0));
    }
    assert!(!mgr.is_cached("s1"));
    assert!(kept.switch(&mut mgr, "s1", 14));
    let messages = mgr.active_messages().unwrap();
    assert!(matches!(
        &messages[..],
        [dsh_lite::types::Message::User { content, .. }] if content == "hello"
    ));
}

#[test]
fn an_index_holds_a_session_once() {
    let meta = |id: &str, title: &str| SessionMeta {
        id: id.into(),
        title: title.into(),
        event_count: 0,
        created_at: 1,
        updated_at: 1,
        in_memory: true,
        is_active: true,
    };
    let index = vec![meta("a", "old"), meta("b", "other"), meta("a", "new")];
    let mut mgr = SessionManager::new(Some(index), 128);
    let titles: Vec<String> = mgr.list().into_iter().map(|m| m.title).collect();
    assert_eq!(titles, vec!["new", "other"]);
    assert!(mgr.list().iter().all(|m| !m.is_active && !m.in_memory));
    mgr.switch("b", None, 2);
    let active: Vec<String> =
        mgr.list().into_iter().filter(|m| m.is_active).map(|m| m.id).collect();
    assert_eq!(active, vec!["b"]);
}
