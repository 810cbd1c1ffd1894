use pagi_knowledge::pruning::{expired_among, read_recorded_stamp};
use pagi_knowledge::{EventRecord, KnowledgeStore};

fn open() -> (tempfile::TempDir, KnowledgeStore) {
    let dir = tempfile::tempdir().unwrap();
    let store = KnowledgeStore::open_with_key(dir.path().to_str().unwrap(), None).unwrap();
    (dir, store)
}

#[test]
fn recorded_stamps_are_read_from_the_named_member() {
    assert_eq!(read_recorded_stamp(b"{\"updated_at\":1700,\"trend\":\"old\"}", "updated_at"), Some(1700));
    assert_eq!(read_recorded_stamp(b"{\"updated_at\":1700}", "created_at"), None);
    assert_eq!(read_recorded_stamp(b"{\"updated_at\":\"1700\"}", "updated_at"), None);
    assert_eq!(read_recorded_stamp(b"{\"updated_at\":17.5}", "updated_at"), None);
    assert_eq!(read_recorded_stamp(b"stale", "updated_at"), None);
}

#[test]
fn pruning_removes_what_is_older_than_the_cutoff() {
    let (_dir, mut store) = open();
    store.insert(5, "pulse/stale", b"{\"event\":\"Stale event\",\"updated_at\":100}").unwrap();
    store.insert(5, "pulse/edge", b"{\"event\":\"Edge\",\"updated_at\":500}").unwrap();
    store.insert(5, "pulse/fresh", b"{\"event\":\"Fresh\",\"updated_at\":900}").unwrap();
    store.insert(5, "pulse/undated", b"{\"event\":\"No stamp\"}").unwrap();
    store.insert(5, "pulse/raw", b"not json").unwrap();
    store.insert(5, "skills/old", b"{\"updated_at\":1}").unwrap();
    store.insert(8, "pulse/stale", b"{\"updated_at\":100}").unwrap();
    let pruned = store.prune_older_than(5, "pulse/", "updated_at", 500).unwrap();
    assert_eq!(pruned, vec!["pulse/stale"]);
    let mut left = store.scan_keys(5).unwrap();
    left.sort();
    assert_eq!(left, vec!["pulse/edge", "pulse/fresh", "pulse/raw", "pulse/undated", "skills/old"]);
    assert_eq!(store.count(8).unwrap(), 1);
    assert!(store.prune_older_than(5, "pulse/", "updated_at", 500).unwrap().is_empty());
    let mut all = store.prune_older_than(5, "", "updated_at", i64::MAX).unwrap();
    all.sort();
    assert_eq!(all, vec!["pulse/edge", "pulse/fresh", "skills/old"]);
    assert_eq!(store.count(5).unwrap(), 2);
}

#[test]
fn events_can_be_pruned_by_their_timestamp() {
    let (_dir, mut store) = open();
    for ts in [10i64, 20, 30, 40] {
        store.append_chronos_event("A1", &EventRecord::at(ts, "Soma", "tick")).unwrap();
    }
    store.append_chronos_event("B2", &EventRecord::at(5, "Soma", "other agent")).unwrap();
    let pruned = store.prune_older_than(4, "event/A1/", "timestamp_ms", 30).unwrap();
    assert_eq!(pruned.len(), 2);
    let stamps: Vec<i64> =
        store.get_recent_chronos_events("A1", 10).unwrap().iter().map(|e| e.timestamp_ms).collect();
    assert_eq!(stamps, vec![40, 30]);
    assert_eq!(store.get_recent_chronos_events("B2", 10).unwrap().len(), 1);
}

#[test]
fn removing_many_keys_removes_each() {
    let (_dir, mut store) = open();
    for key in ["a", "b", "c", "d"] {
        store.insert(3, key, b"v").unwrap();
    }
    store
        .remove_all(3, &vec!["b".to_string(), "missing".to_string(), "d".to_string(), "b".to_string()])
        .unwrap();
    let mut left = store.scan_keys(3).unwrap();
    left.sort();
    assert_eq!(left, vec!["a", "c"]);
    let entries = vec![
        ("x/1".to_string(), b"{\"t\":1}".to_vec()),
        ("y/2".to_string(), b"{\"t\":2}".to_vec()),
        ("x/3".to_string(), b"{\"t\":3}".to_vec()),
        ("x/4".to_string(), b"{\"t\":-4}".to_vec()),
    ];
    assert_eq!(expired_among(&entries, "x/", "t", 3), vec!["x/1", "x/4"]);
}
