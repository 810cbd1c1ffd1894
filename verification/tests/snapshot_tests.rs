use pagi_knowledge::source::text_from_read;
use pagi_knowledge::{
    EthosPolicy, GovernedTask, KbRecord, KbSlot, KbType, KnowledgeSource, KnowledgeStore,
    PersonRecord, SkillRecord, SomaState, StoreError, TaskDifficulty,
};

const KEY: [u8; 32] = [5u8; 32];

fn open(key: Option<&[u8; 32]>) -> (tempfile::TempDir, KnowledgeStore) {
    let dir = tempfile::tempdir().unwrap();
    let store = KnowledgeStore::open_with_key(dir.path().to_str().unwrap(), key).unwrap();
    (dir, store)
}

#[test]
fn snapshot_of_a_fresh_store_is_all_defaults() {
    let (_dir, store) = open(Some(&KEY));
    let state = store.get_full_sovereign_state("default");
    assert_eq!(state.kb_statuses.len(), 9);
    assert!(state.kb_statuses.iter().all(|s| s.connected && s.entry_count == 0 && s.error.is_none()));
    assert_eq!(state.soma, SomaState::default());
    assert!(!state.bio_gate_active);
    assert!(state.ethos.is_none());
    assert_eq!(state.mental.grace_multiplier, 1000);
    assert!(state.people.is_empty());
    assert_eq!(state.governance_summary, None);
    assert!(state.governed_tasks.is_empty());
    assert!(state.shadow_unlocked);
}

#[test]
fn snapshot_gathers_every_layer() {
    let (_dir, mut store) = open(None);
    store.set_soma_state(&SomaState { sleep_hours: 9000, readiness_score: 20, resting_hr: 70, hrv: 30 }).unwrap();
    store
        .set_ethos_philosophical_policy(&EthosPolicy {
            active_school: "Stoic".to_string(),
            core_maxims: Vec::new(),
            tone_weight: 0,
        })
        .unwrap();
    store.set_person(&PersonRecord::new("Zed")).unwrap();
    store.set_person(&PersonRecord::new("Amy")).unwrap();
    store.set_governed_task(&GovernedTask::new("t1", "", 1000, TaskDifficulty::Hard)).unwrap();
    store.evaluate_and_persist_tasks("default").unwrap();
    let state = store.get_full_sovereign_state("default");
    assert!(state.bio_gate_active);
    assert_eq!(state.bio_gate_active, state.soma.needs_biogate_adjustment());
    assert_eq!(state.mental.grace_multiplier, 1600);
    assert_eq!(state.mental.burnout_risk, 150);
    assert_eq!(state.ethos.unwrap().active_school, "Stoic");
    let names: Vec<&str> = state.people.iter().map(|p| p.name.as_str()).collect();
    assert_eq!(names, vec!["Amy", "Zed"]);
    assert_eq!(state.governed_tasks.len(), 1);
    assert_eq!(state.governed_tasks[0].effective_priority, 578);
    assert!(state.governance_summary.unwrap().starts_with("Task governance: 1 task(s) evaluated"));
    assert!(!state.shadow_unlocked);
    assert_eq!(state.kb_statuses[1].entry_count, 2);
    assert_eq!(state.kb_statuses[6].entry_count, 2);
    assert_eq!(state.kb_statuses[7].entry_count, 1);
}

#[test]
fn snapshot_is_a_pure_read() {
    let (_dir, mut store) = open(Some(&KEY));
    store.set_soma_state(&SomaState { sleep_hours: 4000, readiness_score: 90, resting_hr: 0, hrv: 0 }).unwrap();
    store.set_person(&PersonRecord::new("Ann")).unwrap();
    store.set_governed_task(&GovernedTask::new("t", "", 10, TaskDifficulty::Easy)).unwrap();
    store.insert(9, "anchor/x", b"sealed").unwrap();
    let counts: Vec<usize> = (1u8..=9).map(|s| store.count(s).unwrap()).collect();
    let sealed = store.get(9, "anchor/x").unwrap();
    let first = format!("{:?}", store.get_full_sovereign_state("default"));
    let second = format!("{:?}", store.get_full_sovereign_state("default"));
    assert_eq!(first, second);
    let after: Vec<usize> = (1u8..=9).map(|s| store.count(s).unwrap()).collect();
    assert_eq!(counts, after);
    assert_eq!(store.get(9, "anchor/x").unwrap(), sealed);
}

#[test]
fn skills_are_listed_by_slug() {
    let (_dir, mut store) = open(None);
    for slug in ["recall_past_actions", "analyze_sentiment", "fs_workspace_analyzer"] {
        let skill = SkillRecord {
            slug: slug.to_string(),
            description: format!("does {}", slug),
            schema: "{\"type\":\"object\"}".to_string(),
        };
        store.insert(5, &format!("skills/{}", slug), &skill.to_bytes()).unwrap();
    }
    store.insert(5, "skills/broken", b"1").unwrap();
    store.insert(5, "current_pulse", b"{\"slug\":\"x\",\"description\":\"y\"}").unwrap();
    let skills = store.get_skills().unwrap();
    let slugs: Vec<&str> = skills.iter().map(|s| s.slug.as_str()).collect();
    assert_eq!(slugs, vec!["analyze_sentiment", "fs_workspace_analyzer", "recall_past_actions"]);
    assert_eq!(skills[0].description, "does analyze_sentiment");
    assert_eq!(skills[0].schema, "{\"type\":\"object\"}");
    assert!(SkillRecord::from_bytes(b"{\"slug\":\"s\"}").is_none());
}

#[test]
fn generic_records_are_stored_and_scanned() {
    let (_dir, mut store) = open(None);
    let plain = KbRecord::new("Friendly and professional");
    assert_eq!(plain.id.len(), 32);
    assert_eq!(plain.metadata, "{}");
    assert_eq!(plain.embedding, None);
    assert!(plain.timestamp > 1_600_000_000_000);
    assert_eq!(store.insert_record(1, "brand_voice", &plain).unwrap(), None);
    let back = store.get_record(1, "brand_voice").unwrap().unwrap();
    assert_eq!(back.id, plain.id);
    assert_eq!(back.content, "Friendly and professional");
    assert_eq!(back.timestamp, plain.timestamp);
    let rich = KbRecord::with_embedding("vector", "{\"tags\":[\"a\"]}", "[0.25,-1.5,3]");
    store.insert_record(1, "embedded", &rich).unwrap();
    let back = store.get_record(1, "embedded").unwrap().unwrap();
    assert_eq!(back.metadata, "{\"tags\":[\"a\"]}");
    assert_eq!(back.embedding.as_deref(), Some("[0.25,-1.5,3]"));
    let tagged = KbRecord::with_metadata("c", "{\"type\":\"conversation\"}");
    assert_eq!(tagged.metadata, "{\"type\":\"conversation\"}");
    store.insert(1, "raw", b"plain bytes").unwrap();
    assert!(matches!(store.get_record(1, "raw"), Err(StoreError::Serialization)));
    assert!(matches!(store.get_record(1, "absent"), Ok(None)));
    let mut keys: Vec<String> = store.scan_records(1).unwrap().into_iter().map(|(k, _)| k).collect();
    keys.sort();
    assert_eq!(keys, vec!["brand_voice", "embedded"]);
    let fixed = KbRecord::with_parts("id-1", "c", "null", None, 7);
    assert_eq!(
        String::from_utf8(fixed.to_bytes()).unwrap(),
        "{\"id\":\"id-1\",\"content\":\"c\",\"metadata\":null,\"timestamp\":7}"
    );
}

#[test]
fn a_partition_answers_queries_as_a_source() {
    let (_dir, mut store) = open(None);
    store.insert(1, "brand_voice", "Friendly and professional".as_bytes()).unwrap();
    store.insert(1, "binary", &[0xff, 0x00]).unwrap();
    let source = KbSlot::new(&store, KbType::Pneuma);
    assert_eq!(source.slot_id(), 1);
    assert_eq!(source.name(), "Pneuma (Vision)");
    assert_eq!(source.query("brand_voice"), Some("Friendly and professional".to_string()));
    assert_eq!(source.query("binary"), None);
    assert_eq!(source.query("absent"), None);
    assert_eq!(KbSlot::new(&store, KbType::Oikos).query("brand_voice"), None);
    assert_eq!(text_from_read(Ok(Some(b"plain".to_vec()))), Some("plain".to_string()));
    assert_eq!(text_from_read(Ok(Some(vec![0xc3, 0x28]))), None);
    assert_eq!(text_from_read(Ok(None)), None);
    assert_eq!(text_from_read(Err(StoreError::Locked)), None);
}
