use pagi_knowledge::kardia::{bump_kardia_trust, bump_trust, calibrate_trust};
use pagi_knowledge::{
    kardia_relation_key, KnowledgeStore, MentalState, PersonRecord, RelationRecord, StoreError,
    TenantContext,
};

fn open() -> (tempfile::TempDir, KnowledgeStore) {
    let dir = tempfile::tempdir().unwrap();
    let store = KnowledgeStore::open_with_key(dir.path().to_str().unwrap(), None).unwrap();
    (dir, store)
}

#[test]
fn relation_keys_are_scoped_by_owner() {
    assert_eq!(kardia_relation_key("SAGE_BOT", "DEV_BOT"), "relation/SAGE_BOT/DEV_BOT");
    assert_eq!(kardia_relation_key("", "alice"), "relation/default/alice");
    assert_eq!(kardia_relation_key("default", ""), "relation/default/");
}

#[test]
fn agent_ids_resolve_to_default_when_empty() {
    let mut ctx = TenantContext { tenant_id: "t".to_string(), correlation_id: None, agent_id: None };
    assert_eq!(ctx.resolved_agent_id(), "default");
    ctx.agent_id = Some(String::new());
    assert_eq!(ctx.resolved_agent_id(), "default");
    ctx.agent_id = Some("A7".to_string());
    assert_eq!(ctx.resolved_agent_id(), "A7");
    assert_eq!(pagi_knowledge::DEFAULT_AGENT_ID, "default");
}

#[test]
fn new_relation_has_half_trust() {
    let relation = RelationRecord::new("alice");
    assert_eq!(relation.user_id, "alice");
    assert_eq!(relation.trust_score, 500);
    assert_eq!(relation.communication_style, "");
    assert_eq!(relation.last_sentiment, "");
    assert!(relation.last_updated_ms > 1_600_000_000_000);
}

#[test]
fn trust_is_confined_to_the_unit_interval() {
    assert_eq!(RelationRecord::new("a").with_trust_score(250).trust_score, 250);
    assert_eq!(RelationRecord::new("a").with_trust_score(1000).trust_score, 1000);
    assert_eq!(RelationRecord::new("a").with_trust_score(1001).trust_score, 1000);
    assert_eq!(RelationRecord::new("a").with_trust_score(u32::MAX).trust_score, 1000);
}

#[test]
fn set_relation_clamps_trust_before_it_stores() {
    let (_dir, mut store) = open();
    let mut relation = RelationRecord::new("bob");
    relation.trust_score = 7500;
    store.set_kardia_relation("agent", &relation).unwrap();
    let back = store.get_kardia_relation("agent", "bob").unwrap().unwrap();
    assert_eq!(back.trust_score, 1000);
    let stored = String::from_utf8(store.get(7, "relation/agent/bob").unwrap().unwrap()).unwrap();
    assert!(stored.contains("\"trust_score\":1.000"));
}

#[test]
fn relation_round_trips_through_the_store() {
    let (_dir, mut store) = open();
    assert!(matches!(store.get_kardia_relation("", "carol"), Ok(None)));
    let relation = RelationRecord::new("carol")
        .with_trust_score(550)
        .with_communication_style("witty")
        .with_sentiment("angry");
    store.set_kardia_relation("", &relation).unwrap();
    let back = store.get_kardia_relation("default", "carol").unwrap().unwrap();
    assert_eq!(back.user_id, "carol");
    assert_eq!(back.trust_score, 550);
    assert_eq!(back.communication_style, "witty");
    assert_eq!(back.last_sentiment, "angry");
    assert_eq!(back.last_updated_ms, relation.last_updated_ms);
    assert!(matches!(store.get_kardia_relation("other", "carol"), Ok(None)));
}

#[test]
fn relation_reads_real_numbers_and_defaults() {
    let full = RelationRecord::from_bytes(
        b"{\"user_id\":\"u\",\"trust_score\":0.55,\"communication_style\":\"formal\",\"last_sentiment\":\"neutral\",\"last_updated_ms\":12}",
    )
    .unwrap();
    assert_eq!(full.trust_score, 550);
    assert_eq!(full.last_updated_ms, 12);
    let sparse = RelationRecord::from_bytes(b"{\"user_id\":\"u\"}").unwrap();
    assert_eq!(sparse.trust_score, 500);
    assert_eq!(sparse.communication_style, "");
    assert_eq!(sparse.last_updated_ms, 0);
    let high = RelationRecord::from_bytes(b"{\"user_id\":\"u\",\"trust_score\":1.5}").unwrap();
    assert_eq!(high.trust_score, 1000);
    assert!(RelationRecord::from_bytes(b"{\"trust_score\":0.5}").is_none());
    assert!(RelationRecord::from_bytes(b"{\"user_id\":\"u\",\"trust_score\":-0.5}").is_none());
    assert!(RelationRecord::from_bytes(b"{\"user_id\":\"u\",\"trust_score\":\"high\"}").is_none());
}

#[test]
fn prompt_context_names_what_is_known() {
    let bare = RelationRecord::new("u");
    assert_eq!(bare.prompt_context(), "");
    let sentiment = RelationRecord::new("u").with_sentiment("frustrated");
    assert_eq!(
        sentiment.prompt_context(),
        "[Relationship context: User sentiment: frustrated. Adjust your tone accordingly.]\n\n"
    );
    let style = RelationRecord::new("u").with_communication_style("formal");
    assert_eq!(
        style.prompt_context(),
        "[Relationship context: Communication style: formal. Adjust your tone accordingly.]\n\n"
    );
    let both = RelationRecord::new("u").with_sentiment("angry").with_communication_style("urgent");
    assert_eq!(
        both.prompt_context(),
        "[Relationship context: User sentiment: angry. Communication style: urgent. Adjust your tone accordingly.]\n\n"
    );
}

#[test]
fn slugs_are_lowercase_with_runs_collapsed() {
    assert_eq!(PersonRecord::name_slug("Alice"), "alice");
    assert_eq!(PersonRecord::name_slug("Dr. Jane O'Neil"), "dr_jane_o_neil");
    assert_eq!(PersonRecord::name_slug("  spaced   out  "), "_spaced_out_");
    assert_eq!(PersonRecord::name_slug("R2-D2"), "r2_d2");
    assert_eq!(PersonRecord::name_slug("Zo\u{eb} B\u{e9}"), "zo_b_");
    assert_eq!(PersonRecord::name_slug(""), "");
    assert_eq!(KnowledgeStore::kardia_person_key("alice"), "people/alice");
}

#[test]
fn people_are_listed_by_name() {
    let (_dir, mut store) = open();
    for name in ["Mallory", "alice", "Bob", "Zed", "Carol"] {
        store.set_person(&PersonRecord::new(name)).unwrap();
    }
    store.insert(7, "people/broken", b"{not json").unwrap();
    store.set_kardia_relation("a", &RelationRecord::new("x")).unwrap();
    let names: Vec<String> = store.list_people().unwrap().into_iter().map(|p| p.name).collect();
    assert_eq!(names, vec!["Bob", "Carol", "Mallory", "Zed", "alice"]);
    let bob = store.get_person("bob").unwrap().unwrap();
    assert_eq!(bob.name, "Bob");
    assert_eq!(bob.attributes, "null");
    assert!(matches!(store.get_person("nobody"), Ok(None)));
    assert!(matches!(store.get_person("broken"), Err(StoreError::Serialization)));
}

#[test]
fn person_attributes_are_carried_as_json_text() {
    let person = PersonRecord {
        name: "Dana".to_string(),
        attributes: "{\"relationship\":\"sister\",\"trust\":0.9}".to_string(),
    };
    let bytes = person.to_bytes();
    assert_eq!(
        String::from_utf8(bytes.clone()).unwrap(),
        "{\"name\":\"Dana\",\"attributes\":{\"relationship\":\"sister\",\"trust\":0.9}}"
    );
    let back = PersonRecord::from_bytes(&bytes).unwrap();
    assert_eq!(back.name, "Dana");
    assert_eq!(back.attributes, "{\"relationship\":\"sister\",\"trust\":0.9}");
}

#[test]
fn mental_state_defaults_and_clamps() {
    let (_dir, mut store) = open();
    let fresh = store.get_mental_state("default").unwrap();
    assert_eq!(fresh, MentalState { relational_stress: 0, burnout_risk: 0, grace_multiplier: 1000 });
    assert_eq!(fresh, MentalState::default());
    let wild = MentalState { relational_stress: 1200, burnout_risk: 900, grace_multiplier: 400 };
    store.set_mental_state("default", &wild).unwrap();
    let back = store.get_mental_state("someone else").unwrap();
    assert_eq!(back, MentalState { relational_stress: 1000, burnout_risk: 900, grace_multiplier: 1000 });
    let mut clamped = wild;
    clamped.clamp();
    assert_eq!(clamped, back);
    store.insert(7, "mental_state/current", b"???").unwrap();
    assert!(matches!(store.get_mental_state("default"), Err(StoreError::Serialization)));
    assert_eq!(store.get_effective_mental_state("default"), MentalState::default());
}

#[test]
fn mental_flags_follow_their_thresholds() {
    let calm = MentalState { relational_stress: 0, burnout_risk: 699, grace_multiplier: 1000 };
    assert!(!calm.needs_empathetic_tone());
    assert!(!calm.has_physical_load_adjustment());
    let strained = MentalState { relational_stress: 0, burnout_risk: 700, grace_multiplier: 1001 };
    assert!(strained.needs_empathetic_tone());
    assert!(strained.has_physical_load_adjustment());
    assert!(!MentalState::EMPATHETIC_SYSTEM_INSTRUCTION.is_empty());
    assert!(!MentalState::PHYSICAL_LOAD_SYSTEM_INSTRUCTION.is_empty());
}

#[test]
fn mental_state_reads_real_numbers() {
    let state = MentalState::from_bytes(b"{\"relational_stress\":0.25,\"burnout_risk\":0.9,\"grace_multiplier\":1.5}").unwrap();
    assert_eq!(state, MentalState { relational_stress: 250, burnout_risk: 900, grace_multiplier: 1500 });
    assert_eq!(
        String::from_utf8(state.to_bytes()).unwrap(),
        "{\"relational_stress\":0.250,\"burnout_risk\":0.900,\"grace_multiplier\":1.500}"
    );
    assert_eq!(MentalState::from_bytes(b"{}"), Some(MentalState::default()));
    assert_eq!(MentalState::from_bytes(b"{\"burnout_risk\":\"x\"}"), None);
}

#[test]
fn trust_moves_by_the_delta_within_the_unit_interval() {
    assert_eq!(bump_trust(500, 50), 550);
    assert_eq!(bump_trust(500, -20), 480);
    assert_eq!(bump_trust(10, -20), 0);
    assert_eq!(bump_trust(990, 20), 1000);
    assert_eq!(bump_trust(u32::MAX, i32::MIN), 1000);
    assert_eq!(bump_trust(0, i32::MIN), 0);
    assert_eq!(bump_trust(0, i32::MAX), 1000);
}

#[test]
fn calibration_starts_from_half_and_is_recorded() {
    let (_dir, mut store) = open();
    let trust = bump_kardia_trust(
        &mut store,
        "SAGE_BOT",
        "DEV_BOT",
        50,
        "Trust increased due to successful maintenance resolution.",
    )
    .unwrap();
    assert_eq!(trust, 550);
    let relation = store.get_kardia_relation("SAGE_BOT", "DEV_BOT").unwrap().unwrap();
    assert_eq!(relation.trust_score, 550);
    assert_eq!(relation.user_id, "DEV_BOT");
    let events = store.get_recent_chronos_events("SAGE_BOT", 10).unwrap();
    assert_eq!(events.len(), 1);
    assert_eq!(events[0].source_kb, "Kardia");
    assert_eq!(events[0].reflection, "Trust increased due to successful maintenance resolution.");
    assert_eq!(events[0].skill_name.as_deref(), Some("heartbeat"));
    assert_eq!(events[0].outcome.as_deref(), Some("kardia_trust_calibrated"));
    assert_eq!(events[0].timestamp_ms, relation.last_updated_ms);
    assert_eq!(calibrate_trust(&mut store, "SAGE_BOT", "DEV_BOT", -20, 77).unwrap(), 530);
    assert_eq!(calibrate_trust(&mut store, "SAGE_BOT", "DEV_BOT", -2000, 78).unwrap(), 0);
    assert_eq!(calibrate_trust(&mut store, "SAGE_BOT", "DEV_BOT", 2000, 79).unwrap(), 1000);
    let relation = store.get_kardia_relation("SAGE_BOT", "DEV_BOT").unwrap().unwrap();
    assert_eq!(relation.last_updated_ms, 79);
    assert_eq!(store.count(4).unwrap(), 1);
}
