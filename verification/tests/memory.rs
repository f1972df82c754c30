use dsh_lite::json::{json_str, Json};
use dsh_lite::memory::{matches_lowered, sort_by_recency, MemoryEntry, MemoryStore};
use dsh_lite::tools::memory::{MemoryReadTool, MemoryRecallTool, MemoryWriteTool};

fn kept_entries(store: &MemoryStore) -> Vec<MemoryEntry> {
    store.all().iter().map(|e| e.clone()).collect()
}

fn args(fields: &[(&str, &str)]) -> Json {
    Json::Object(fields.iter().map(|(k, v)| (k.to_string(), json_str(v))).collect())
}

#[test]
fn test_write_and_read() {
    let kept = {
        let mut store = MemoryStore::open(None, 100);
        store.write("device_model", "AX-200", Some("hardware"), 1);
        assert_eq!(store.read("device_model", 2), Some("AX-200".into()));
        assert_eq!(store.read("nonexistent", 3), None);
        assert_eq!(store.len(), 1);
        kept_entries(&store)
    };
    // Reload what was kept.
    let mut store2 = MemoryStore::open(Some(kept), 100);
    assert_eq!(store2.read("device_model", 4), Some("AX-200".into()));
}

#[test]
fn test_lru_eviction() {
    let mut store = MemoryStore::open(None, 3);
    store.write("a", "1", None, 10);
    store.write("b", "2", None, 20);
    store.write("c", "3", None, 30);
    store.write("d", "4", None, 40); // should evict "a" (oldest)

    assert_eq!(store.read("a", 50), None);
    assert_eq!(store.read("b", 50), Some("2".into()));
    assert_eq!(store.len(), 3);
}

#[test]
fn test_recall_fuzzy() {
    let mut store = MemoryStore::open(None, 100);
    store.write("interface_eth0", "down", Some("network"), 1);
    store.write("interface_eth1", "up", Some("network"), 2);
    store.write("disk_usage", "85%", Some("storage"), 3);

    let results = store.recall("interface");
    assert_eq!(results.len(), 2);
    assert!(results.iter().all(|e| e.key.contains("interface")));

    let results = store.recall("down");
    assert_eq!(results.len(), 1);
    assert_eq!(results[0].key, "interface_eth0");
}

#[test]
fn memory_test_delete() {
    let mut store = MemoryStore::open(None, 100);
    store.write("temp", "value", None, 1);
    assert!(store.delete("temp"));
    assert!(!store.delete("temp"));
    assert_eq!(store.read("temp", 2), None);
}

#[test]
fn reading_makes_an_entry_young_again() {
    let mut store = MemoryStore::open(None, 2);
    store.write("a", "1", None, 10);
    store.write("b", "2", None, 20);
    assert_eq!(store.read("a", 30), Some("1".into()));
    store.write("c", "3", None, 40);
    assert_eq!(store.read("b", 50), None);
    assert_eq!(store.read("a", 50), Some("1".into()));
}

#[test]
fn a_key_is_held_once() {
    let mut store = MemoryStore::open(None, 10);
    store.write("k", "old", None, 1);
    store.write("k", "new", Some("cat"), 2);
    assert_eq!(store.len(), 1);
    assert_eq!(store.read("k", 3), Some("new".into()));
    assert_eq!(store.all()[0].category, Some("cat".to_string()));
}

#[test]
fn recall_ignores_case_and_puts_the_newest_first() {
    let mut store = MemoryStore::open(None, 10);
    store.write("Alpha", "x", None, 1);
    store.write("beta", "has ALPHA inside", None, 2);
    store.write("gamma", "none", None, 3);
    let keys: Vec<String> = store.recall("aLPha").into_iter().map(|e| e.key).collect();
    assert_eq!(keys, vec!["beta".to_string(), "Alpha".to_string()]);
    assert!(matches_lowered("alpha", "x", "alph"));
    assert!(!matches_lowered("alpha", "x", "beta"));
}

#[test]
fn entries_sort_by_recency() {
    let mut store = MemoryStore::open(None, 10);
    store.write("old", "1", None, 5);
    store.write("new", "2", None, 9);
    store.write("mid", "3", None, 7);
    let keys: Vec<String> =
        sort_by_recency(kept_entries(&store)).into_iter().map(|e| e.key).collect();
    assert_eq!(keys, vec!["new".to_string(), "mid".to_string(), "old".to_string()]);
}

#[test]
fn a_store_without_room_keeps_nothing() {
    let mut store = MemoryStore::open(None, 0);
    store.write("a", "1", None, 1);
    assert_eq!(store.len(), 0);
    assert!(store.is_empty());
}

#[test]
fn memory_tools_work_on_the_store() {
    let mut store = MemoryStore::open(None, 10);
    let written =
        MemoryWriteTool {}.execute(&mut store, &args(&[("key", "k"), ("value", "v")]), 1);
    assert_eq!((written.content.as_str(), written.is_error), ("Stored: k = v", false));
    let refused = MemoryWriteTool {}.execute(&mut store, &args(&[("value", "v")]), 1);
    assert_eq!((refused.content.as_str(), refused.is_error), ("Error: key is required", true));
    let read = MemoryReadTool {}.execute(&mut store, &args(&[("key", "k")]), 2);
    assert_eq!((read.content.as_str(), read.is_error), ("v", false));
    let missing = MemoryReadTool {}.execute(&mut store, &args(&[("key", "z")]), 3);
    assert_eq!((missing.content.as_str(), missing.is_error), ("No memory entry for key: z", false));
    let recalled = MemoryRecallTool {}.execute(&store, &args(&[("query", "K")]));
    assert_eq!(recalled.content, "Found 1 entries:\n[uncategorized] k = v");
    let nothing = MemoryRecallTool {}.execute(&store, &args(&[("query", "zz")]));
    assert_eq!(nothing.content, "No memory entries matching: zz");
}

fn kept(key: &str, value: &str, last_access: u64) -> MemoryEntry {
    MemoryEntry { key: key.into(), value: value.into(), last_access, category: None }
}

#[test]
fn a_memory_is_opened_within_its_bounds() {
    let many = vec![kept("a", "1", 30), kept("b", "2", 10), kept("c", "3", 20)];
    let store = MemoryStore::open(Some(many), 2);
    let keys: Vec<String> = store.all().iter().map(|e| e.key.clone()).collect();
    assert_eq!(keys, vec!["a", "c"]);
    let twice = vec![kept("a", "old", 1), kept("b", "2", 1), kept("a", "new", 1)];
    let mut store = MemoryStore::open(Some(twice), 5);
    assert_eq!(store.len(), 2);
    assert_eq!(store.read("a", 2), Some("new".into()));
    assert_eq!(MemoryStore::open(Some(vec![kept("a", "1", 1)]), 0).len(), 0);
}

#[test]
fn a_write_never_drops_what_it_wrote() {
    let mut store =
        MemoryStore::open(Some(vec![kept("a", "1", 7), kept("b", "2", 7), kept("c", "3", 7)]), 2);
    assert_eq!(store.len(), 2);
    store.write("b", "new", None, 7);
    assert_eq!(store.read("b", 7), Some("new".into()));
    assert_eq!(store.len(), 2);
    // Also where the time of the write is before all others.
    store.write("d", "4", Some("x"), 1);
    assert_eq!(store.read("d", 1), Some("4".into()));
    assert_eq!(store.len(), 2);
    let mut none = MemoryStore::open(None, 0);
    none.write("a", "1", None, 1);
    assert!(none.is_empty());
}
