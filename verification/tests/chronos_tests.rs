use pagi_knowledge::chronos::{chronos_event_key, chronos_event_prefix, recent_events_among};
use pagi_knowledge::{EventRecord, KnowledgeStore};

fn open() -> (tempfile::TempDir, KnowledgeStore) {
    let dir = tempfile::tempdir().unwrap();
    let store = KnowledgeStore::open_with_key(dir.path().to_str().unwrap(), None).unwrap();
    (dir, store)
}

#[test]
fn event_keys_follow_the_template() {
    assert_eq!(chronos_event_prefix("A1"), "event/A1/");
    assert_eq!(chronos_event_prefix(""), "event/default/");
    assert_eq!(chronos_event_key("A1", 1700000000123, "abc"), "event/A1/1700000000123_abc");
    assert_eq!(chronos_event_key("", -5, "u"), "event/default/-5_u");
}

#[test]
fn builders_set_skill_and_outcome() {
    let event = EventRecord::at(100, "Soma", "did a thing").with_skill("heartbeat").with_outcome("ok");
    assert_eq!(event.timestamp_ms, 100);
    assert_eq!(event.source_kb, "Soma");
    assert_eq!(event.reflection, "did a thing");
    assert_eq!(event.skill_name.as_deref(), Some("heartbeat"));
    assert_eq!(event.outcome.as_deref(), Some("ok"));
    let now = EventRecord::now("Chronos", "now");
    assert!(now.timestamp_ms > 1_600_000_000_000);
    assert_eq!(now.skill_name, None);
    assert_eq!(now.outcome, None);
}

#[test]
fn event_is_written_as_a_json_object_without_absent_members() {
    let event = EventRecord::at(42, "Ethos", "Policy \"Violation\"\n");
    assert_eq!(
        String::from_utf8(event.to_bytes()).unwrap(),
        "{\"timestamp_ms\":42,\"source_kb\":\"Ethos\",\"reflection\":\"Policy \\\"Violation\\\"\\n\"}"
    );
    let full = event.with_skill("s").with_outcome("o");
    assert_eq!(
        String::from_utf8(full.to_bytes()).unwrap(),
        "{\"timestamp_ms\":42,\"source_kb\":\"Ethos\",\"skill_name\":\"s\",\"reflection\":\"Policy \\\"Violation\\\"\\n\",\"outcome\":\"o\"}"
    );
}

#[test]
fn event_bytes_read_back() {
    let event = EventRecord::at(-7, "Logos", "caf\u{e9} \\ \u{1f600}").with_outcome("done");
    let back = EventRecord::from_bytes(&event.to_bytes()).unwrap();
    assert_eq!(back.timestamp_ms, -7);
    assert_eq!(back.source_kb, "Logos");
    assert_eq!(back.skill_name, None);
    assert_eq!(back.reflection, "caf\u{e9} \\ \u{1f600}");
    assert_eq!(back.outcome.as_deref(), Some("done"));
}

#[test]
fn unknown_members_are_ignored_and_null_is_absent() {
    let bytes = b"{ \"reflection\": \"r\", \"future\": {\"a\": [1, 2]}, \"timestamp_ms\": 9, \"source_kb\": \"Soma\", \"skill_name\": null }";
    let event = EventRecord::from_bytes(bytes).unwrap();
    assert_eq!(event.timestamp_ms, 9);
    assert_eq!(event.skill_name, None);
    assert_eq!(event.outcome, None);
}

#[test]
fn malformed_events_do_not_read() {
    assert!(EventRecord::from_bytes(b"").is_none());
    assert!(EventRecord::from_bytes(b"not json").is_none());
    assert!(EventRecord::from_bytes(b"[1,2]").is_none());
    assert!(EventRecord::from_bytes(b"{\"source_kb\":\"S\",\"reflection\":\"r\"}").is_none());
    assert!(EventRecord::from_bytes(b"{\"timestamp_ms\":\"1\",\"source_kb\":\"S\",\"reflection\":\"r\"}").is_none());
    assert!(EventRecord::from_bytes(b"{\"timestamp_ms\":1.5,\"source_kb\":\"S\",\"reflection\":\"r\"}").is_none());
    assert!(EventRecord::from_bytes(b"{\"timestamp_ms\":1,\"source_kb\":\"S\",\"reflection\":\"r\",\"outcome\":3}").is_none());
}

#[test]
fn chronos_recency() {
    let (_dir, mut store) = open();
    store.append_chronos_event("A1", &EventRecord::at(100, "Soma", "first")).unwrap();
    store.append_chronos_event("A1", &EventRecord::at(200, "Soma", "second")).unwrap();
    store.append_chronos_event("A1", &EventRecord::at(150, "Soma", "third")).unwrap();
    let recent = store.get_recent_chronos_events("A1", 2).unwrap();
    assert_eq!(recent.len(), 2);
    assert_eq!(recent[0].timestamp_ms, 200);
    assert_eq!(recent[0].reflection, "second");
    assert_eq!(recent[1].timestamp_ms, 150);
    assert_eq!(recent[1].reflection, "third");
}

#[test]
fn appended_event_is_among_the_recent_events() {
    let (_dir, mut store) = open();
    for ts in [5i64, 1, 9, 3, 7] {
        store.append_chronos_event("scribe", &EventRecord::at(ts, "Chronos", "tick")).unwrap();
    }
    store.append_chronos_event("scribe", &EventRecord::at(4, "Chronos", "the one").with_skill("probe")).unwrap();
    let recent = store.get_recent_chronos_events("scribe", 100).unwrap();
    let stamps: Vec<i64> = recent.iter().map(|e| e.timestamp_ms).collect();
    assert_eq!(stamps, vec![9, 7, 5, 4, 3, 1]);
    assert!(recent.iter().any(|e| e.reflection == "the one" && e.skill_name.as_deref() == Some("probe")));
}

#[test]
fn streams_are_kept_apart_by_agent() {
    let (_dir, mut store) = open();
    store.append_chronos_event("A1", &EventRecord::at(1, "Soma", "mine")).unwrap();
    store.append_chronos_event("A10", &EventRecord::at(2, "Soma", "other")).unwrap();
    store.append_chronos_event("", &EventRecord::at(3, "Soma", "default one")).unwrap();
    let a1 = store.get_recent_chronos_events("A1", 10).unwrap();
    assert_eq!(a1.len(), 1);
    assert_eq!(a1[0].reflection, "mine");
    let default = store.get_recent_chronos_events("default", 10).unwrap();
    assert_eq!(default.len(), 1);
    assert_eq!(default[0].reflection, "default one");
    assert_eq!(store.get_recent_chronos_events("", 10).unwrap().len(), 1);
    assert_eq!(store.get_recent_chronos_events("nobody", 10).unwrap().len(), 0);
}

#[test]
fn events_of_one_millisecond_do_not_collide() {
    let (_dir, mut store) = open();
    store.append_chronos_event("A1", &EventRecord::at(77, "Soma", "a")).unwrap();
    store.append_chronos_event("A1", &EventRecord::at(77, "Soma", "b")).unwrap();
    assert_eq!(store.count(4).unwrap(), 2);
    assert_eq!(store.get_recent_chronos_events("A1", 0).unwrap().len(), 0);
}

#[test]
fn append_as_writes_under_the_given_key() {
    let (_dir, mut store) = open();
    let event = EventRecord::at(12, "Soma", "keyed");
    store.append_chronos_event_as("A1", &event, "fixed").unwrap();
    assert_eq!(store.get(4, "event/A1/12_fixed").unwrap(), Some(event.to_bytes()));
}

#[test]
fn unreadable_entries_are_skipped_in_listings() {
    let entries = vec![
        ("event/A1/1_x".to_string(), EventRecord::at(1, "Soma", "ok").to_bytes()),
        ("event/A1/2_y".to_string(), b"garbage".to_vec()),
        ("other/A1/3_z".to_string(), EventRecord::at(3, "Soma", "elsewhere").to_bytes()),
        ("event/A1/4_w".to_string(), EventRecord::at(4, "Soma", "ok too").to_bytes()),
    ];
    let recent = recent_events_among(&entries, "A1", 10);
    let stamps: Vec<i64> = recent.iter().map(|e| e.timestamp_ms).collect();
    assert_eq!(stamps, vec![4, 1]);
}
