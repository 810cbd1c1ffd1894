use pagi_knowledge::prompt::{build_prompt_with_soma_kardia, compose_prompt};
use pagi_knowledge::vault::parse_master_key;
use pagi_knowledge::{
    EmotionalAnchor, KnowledgeStore, MentalState, RelationRecord, SomaState,
};

const KEY: [u8; 32] = [8u8; 32];

fn open(key: Option<&[u8; 32]>) -> (tempfile::TempDir, KnowledgeStore) {
    let dir = tempfile::tempdir().unwrap();
    let store = KnowledgeStore::open_with_key(dir.path().to_str().unwrap(), key).unwrap();
    (dir, store)
}

#[test]
fn a_prompt_with_nothing_known_stands_alone() {
    let silent = SomaState { sleep_hours: 0, readiness_score: 100, resting_hr: 0, hrv: 0 };
    assert_eq!(compose_prompt("", &silent, &MentalState::default(), None, "Hello?"), "Hello?");
}

#[test]
fn parts_are_joined_by_line_breaks_before_the_prompt() {
    let soma = SomaState { sleep_hours: 5250, readiness_score: 80, resting_hr: 61, hrv: 40 };
    let mental = MentalState { relational_stress: 0, burnout_risk: 800, grace_multiplier: 1600 };
    let prompt = compose_prompt("[ctx]", &soma, &mental, Some("[anchors]"), "Question");
    let expected = format!(
        "[ctx]\n[Current body state (Soma/BioGate): sleep 5.3h, readiness 80, resting HR 61 bpm, HRV 40 ms. BioGate adjustment: active (supportive tone).]\n{}\n{}\n[anchors]\n\nQuestion",
        MentalState::EMPATHETIC_SYSTEM_INSTRUCTION,
        MentalState::PHYSICAL_LOAD_SYSTEM_INSTRUCTION
    );
    assert_eq!(prompt, expected);
}

#[test]
fn the_body_line_rounds_hours_to_one_place() {
    let calm = MentalState::default();
    let line = |sleep_hours: u32| {
        compose_prompt(
            "",
            &SomaState { sleep_hours, readiness_score: 100, resting_hr: 0, hrv: 0 },
            &calm,
            None,
            "",
        )
    };
    assert!(line(8000).starts_with("[Current body state (Soma/BioGate): sleep 8.0h, readiness 100, resting HR 0 bpm, HRV 0 ms. BioGate adjustment: inactive.]"));
    assert!(line(7949).contains("sleep 7.9h"));
    assert!(line(7950).contains("sleep 8.0h"));
    assert!(line(49).contains("sleep 0.0h"));
    assert!(line(12_345).contains("sleep 12.3h"));
}

#[test]
fn the_store_supplies_every_part() {
    let (_dir, mut store) = open(Some(&KEY));
    store
        .set_kardia_relation("default", &RelationRecord::new("dana").with_sentiment("angry"))
        .unwrap();
    store.set_soma_state(&SomaState { sleep_hours: 4000, readiness_score: 90, resting_hr: 0, hrv: 0 }).unwrap();
    store.insert_shadow_anchor("anchor/grief", &EmotionalAnchor::new("grief", 900)).unwrap();
    let prompt = build_prompt_with_soma_kardia(&store, "default", "dana", "How are we doing?");
    assert!(prompt.starts_with("[Relationship context: User sentiment: angry. Adjust your tone accordingly.]\n\n\n[Current body state"));
    assert!(prompt.contains("sleep 4.0h"));
    assert!(prompt.contains(MentalState::PHYSICAL_LOAD_SYSTEM_INSTRUCTION));
    assert!(!prompt.contains(MentalState::EMPATHETIC_SYSTEM_INSTRUCTION));
    assert!(prompt.contains("(detected anchors: grief)"));
    assert!(prompt.ends_with("\n\nHow are we doing?"));
    let other = build_prompt_with_soma_kardia(&store, "default", "nobody", "Hi");
    assert!(other.starts_with("[Current body state"));
}

#[test]
fn master_keys_are_read_from_hex_or_taken_as_they_are() {
    let hex = "000102030405060708090a0b0c0d0e0f101112131415161718191A1B1C1D1E1F";
    let mut expected = [0u8; 32];
    for (i, byte) in expected.iter_mut().enumerate() {
        *byte = i as u8;
    }
    assert_eq!(parse_master_key(hex), Some(expected));
    assert_eq!(parse_master_key("abcdefghijklmnopqrstuvwxyz012345"), Some(*b"abcdefghijklmnopqrstuvwxyz012345"));
    assert_eq!(parse_master_key(""), None);
    assert_eq!(parse_master_key("too short"), None);
    assert_eq!(parse_master_key(&"g".repeat(64)), None);
    assert_eq!(parse_master_key(&"f".repeat(64)), Some([0xff; 32]));
    assert_eq!(parse_master_key(&"a".repeat(63)), None);
}

#[test]
fn partition_descriptions_are_written_into_eight_slots() {
    let (_dir, mut store) = open(None);
    store.insert(3, "kept", b"v").unwrap();
    store.init_kb_metadata_at(1234).unwrap();
    assert_eq!(
        String::from_utf8(store.get(1, "__kb_metadata__").unwrap().unwrap()).unwrap(),
        "{\"slot_id\":1,\"name\":\"Pneuma (Vision)\",\"tree_name\":\"kb1_identity\",\"purpose\":\"Pneuma (Vision)\",\"kb_type\":\"Pneuma\",\"initialized_at\":1234,\"vector_metadata\":{\"embedding_model\":null,\"vector_dims\":null,\"semantic_search_enabled\":false}}"
    );
    for slot in 1u8..=8 {
        assert!(store.get(slot, "__kb_metadata__").unwrap().is_some());
    }
    assert_eq!(store.get(9, "__kb_metadata__").unwrap(), None);
    assert_eq!(store.get(3, "kept").unwrap(), Some(b"v".to_vec()));
    store.pagi_init_kb_metadata().unwrap();
    assert_eq!(store.count(3).unwrap(), 2);
    assert_eq!(store.count(9).unwrap(), 0);
}
