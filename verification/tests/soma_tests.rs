use pagi_knowledge::derivation::effective_mental_state;
use pagi_knowledge::soma::{inbox_among, soma_inbox_key};
use pagi_knowledge::{
    AgentMessage, BiometricState, KnowledgeStore, MentalState, SomaState, StoreError,
};

fn open() -> (tempfile::TempDir, KnowledgeStore) {
    let dir = tempfile::tempdir().unwrap();
    let store = KnowledgeStore::open_with_key(dir.path().to_str().unwrap(), None).unwrap();
    (dir, store)
}

fn soma(sleep_hours: u32, readiness_score: u32) -> SomaState {
    SomaState { sleep_hours, readiness_score, resting_hr: 60, hrv: 45 }
}

#[test]
fn biogate_elevation() {
    let (_dir, mut store) = open();
    store.set_soma_state(&soma(5000, 80)).unwrap();
    let read = store.get_soma_state().unwrap();
    assert_eq!(read, soma(5000, 80));
    assert!(read.needs_biogate_adjustment());
    let effective = store.get_effective_mental_state("default");
    assert_eq!(effective.grace_multiplier, 1600);
    assert_eq!(effective.burnout_risk, 150);
    let snapshot = store.get_full_sovereign_state("default");
    assert!(snapshot.bio_gate_active);
    assert_eq!(snapshot.mental.grace_multiplier, 1600);
    assert_eq!(snapshot.soma, soma(5000, 80));
}

#[test]
fn biogate_needs_low_readiness_or_short_sleep() {
    assert!(soma(5999, 100).needs_biogate_adjustment());
    assert!(!soma(6000, 100).needs_biogate_adjustment());
    assert!(soma(8000, 49).needs_biogate_adjustment());
    assert!(!soma(8000, 50).needs_biogate_adjustment());
    assert!(!SomaState::default().needs_biogate_adjustment());
    assert_eq!(SomaState::BURNOUT_RISK_INCREMENT, 150);
    assert_eq!(SomaState::GRACE_MULTIPLIER_OVERRIDE, 1600);
}

#[test]
fn effective_state_raises_risk_by_the_increment_up_to_one() {
    let rested = BiometricState::default();
    let base = MentalState { relational_stress: 300, burnout_risk: 400, grace_multiplier: 1000 };
    let eased = effective_mental_state(base, &soma(4000, 90), &rested);
    assert_eq!(eased, MentalState { relational_stress: 300, burnout_risk: 550, grace_multiplier: 1600 });
    let near = MentalState { relational_stress: 0, burnout_risk: 900, grace_multiplier: 1200 };
    let capped = effective_mental_state(near, &soma(8000, 10), &rested);
    assert_eq!(capped, MentalState { relational_stress: 0, burnout_risk: 1000, grace_multiplier: 1600 });
    let edge = MentalState { relational_stress: 0, burnout_risk: 850, grace_multiplier: 1000 };
    assert_eq!(effective_mental_state(edge, &soma(1, 1), &rested).burnout_risk, 1000);
}

#[test]
fn poor_sleep_is_the_fallback() {
    let base = MentalState { relational_stress: 0, burnout_risk: 100, grace_multiplier: 1000 };
    let poor = BiometricState { sleep_score: 59_999 };
    assert!(poor.poor_sleep());
    assert!(!BiometricState { sleep_score: 60_000 }.poor_sleep());
    let fallback = effective_mental_state(base, &soma(8000, 90), &poor);
    assert_eq!(fallback, MentalState { relational_stress: 0, burnout_risk: 300, grace_multiplier: 1500 });
    let soma_first = effective_mental_state(base, &soma(3000, 90), &poor);
    assert_eq!(soma_first, MentalState { relational_stress: 0, burnout_risk: 250, grace_multiplier: 1600 });
    let neither = effective_mental_state(base, &soma(8000, 90), &BiometricState::default());
    assert_eq!(neither, base);
    let wild = MentalState { relational_stress: 5000, burnout_risk: 5000, grace_multiplier: 1 };
    assert_eq!(
        effective_mental_state(wild, &soma(8000, 90), &BiometricState::default()),
        MentalState { relational_stress: 1000, burnout_risk: 1000, grace_multiplier: 1000 }
    );
}

#[test]
fn effective_state_reads_all_three_layers() {
    let (_dir, mut store) = open();
    assert_eq!(store.get_effective_mental_state("a"), MentalState::default());
    store
        .set_mental_state("a", &MentalState { relational_stress: 100, burnout_risk: 200, grace_multiplier: 1100 })
        .unwrap();
    store.set_biometric_state(&BiometricState { sleep_score: 40_000 }).unwrap();
    assert_eq!(store.get_biometric_state().unwrap(), BiometricState { sleep_score: 40_000 });
    assert_eq!(
        store.get_effective_mental_state("a"),
        MentalState { relational_stress: 100, burnout_risk: 400, grace_multiplier: 1500 }
    );
    store.set_soma_state(&soma(7000, 30)).unwrap();
    assert_eq!(
        store.get_effective_mental_state("a"),
        MentalState { relational_stress: 100, burnout_risk: 350, grace_multiplier: 1600 }
    );
}

#[test]
fn soma_state_reads_real_numbers_and_defaults() {
    let state = SomaState::from_bytes(b"{\"sleep_hours\":5.0,\"readiness_score\":80}").unwrap();
    assert_eq!(state, SomaState { sleep_hours: 5000, readiness_score: 80, resting_hr: 0, hrv: 0 });
    let over = SomaState::from_bytes(b"{\"sleep_hours\":7.25,\"readiness_score\":250,\"resting_hr\":58,\"hrv\":41.7}").unwrap();
    assert_eq!(over, SomaState { sleep_hours: 7250, readiness_score: 100, resting_hr: 58, hrv: 41 });
    assert_eq!(SomaState::from_bytes(b"{}"), Some(SomaState::default()));
    assert_eq!(SomaState::default(), SomaState { sleep_hours: 8000, readiness_score: 100, resting_hr: 0, hrv: 0 });
    assert_eq!(SomaState::from_bytes(b"{\"sleep_hours\":\"long\"}"), None);
    assert_eq!(
        String::from_utf8(soma(5000, 80).to_bytes()).unwrap(),
        "{\"sleep_hours\":5.000,\"readiness_score\":80,\"resting_hr\":60,\"hrv\":45}"
    );
    assert_eq!(BiometricState::from_bytes(b"{\"sleep_score\":72.5}"), Some(BiometricState { sleep_score: 72_500 }));
    assert_eq!(BiometricState::from_bytes(b"{}"), Some(BiometricState { sleep_score: 100_000 }));
}

#[test]
fn absent_states_are_defaults_and_unreadable_ones_are_surfaced() {
    let (_dir, mut store) = open();
    assert_eq!(store.get_soma_state().unwrap(), SomaState::default());
    assert_eq!(store.get_biometric_state().unwrap(), BiometricState::default());
    store.insert(8, "soma/current", b"[]").unwrap();
    store.insert(8, "biometric/current", b"{\"sleep_score\":true}").unwrap();
    assert!(matches!(store.get_soma_state(), Err(StoreError::Serialization)));
    assert!(matches!(store.get_biometric_state(), Err(StoreError::Serialization)));
    assert_eq!(store.get_effective_mental_state("a"), MentalState::default());
    assert_eq!(store.get_full_sovereign_state("a").soma, SomaState::default());
    store.insert(8, "soma/current", b"{\"sleep_hours\":5.5}").unwrap();
    assert_eq!(
        store.get_soma_state().unwrap(),
        SomaState { sleep_hours: 5500, readiness_score: 100, resting_hr: 0, hrv: 0 }
    );
    assert_eq!(KnowledgeStore::SOMA_STATE_KEY, "soma/current");
    assert_eq!(KnowledgeStore::BIOMETRIC_STATE_KEY, "biometric/current");
}

#[test]
fn pushed_message_lands_in_the_inbox_of_the_target() {
    let (_dir, mut store) = open();
    let id = store.push_agent_message("SAGE_BOT", "DEV_BOT", "{\"type\":\"ping\",\"n\":1}").unwrap();
    assert_eq!(id.len(), 32);
    let inbox = store.get_agent_messages_with_keys("DEV_BOT", 10).unwrap();
    assert_eq!(inbox.len(), 1);
    let (key, message) = &inbox[0];
    assert_eq!(*key, soma_inbox_key("DEV_BOT", message.timestamp_ms, &id));
    assert_eq!(message.id, id);
    assert_eq!(message.from_agent_id, "SAGE_BOT");
    assert_eq!(message.target_agent_id, "DEV_BOT");
    assert_eq!(message.payload, "{\"n\":1,\"type\":\"ping\"}");
    assert!(!message.is_processed);
    assert!(store.get_agent_messages("SAGE_BOT", 10).unwrap().is_empty());
    assert!(store.get_agent_messages("DEV", 10).unwrap().is_empty());
}

#[test]
fn inbox_is_newest_first_and_limited() {
    let (_dir, mut store) = open();
    store.push_agent_message_as("a", "b", "1", "id1", 100).unwrap();
    store.push_agent_message_as("a", "b", "3", "id3", 300).unwrap();
    store.push_agent_message_as("a", "b", "2", "id2", 200).unwrap();
    let all = store.get_agent_messages("b", 10).unwrap();
    let stamps: Vec<i64> = all.iter().map(|m| m.timestamp_ms).collect();
    assert_eq!(stamps, vec![300, 200, 100]);
    let two = store.get_agent_messages_with_keys("b", 2).unwrap();
    assert_eq!(two.len(), 2);
    assert_eq!(two[0].0, "inbox/b/300_id3");
    assert_eq!(two[1].0, "inbox/b/200_id2");
    assert_eq!(two[0].1.payload, "3");
}

#[test]
fn a_message_is_acknowledged_by_rewriting_its_key() {
    let (_dir, mut store) = open();
    store.push_agent_message_as("a", "b", "{}", "m1", 5).unwrap();
    let (key, message) = store.get_agent_messages_with_keys("b", 1).unwrap().remove(0);
    let mut done = message.clone();
    done.is_processed = true;
    store.insert(8, &key, &done.to_bytes()).unwrap();
    let inbox = store.get_agent_messages("b", 10).unwrap();
    assert_eq!(inbox.len(), 1);
    assert!(inbox[0].is_processed);
    assert_eq!(inbox[0].id, "m1");
}

#[test]
fn messages_read_without_the_processed_flag() {
    let message = AgentMessage::from_bytes(
        b"{\"id\":\"i\",\"from_agent_id\":\"f\",\"target_agent_id\":\"t\",\"payload\":{\"text\":\"hi\"},\"timestamp_ms\":3}",
    )
    .unwrap();
    assert!(!message.is_processed);
    assert_eq!(message.payload, "{\"text\":\"hi\"}");
    assert_eq!(
        String::from_utf8(message.to_bytes()).unwrap(),
        "{\"id\":\"i\",\"from_agent_id\":\"f\",\"target_agent_id\":\"t\",\"payload\":{\"text\":\"hi\"},\"timestamp_ms\":3,\"is_processed\":false}"
    );
    assert!(AgentMessage::from_bytes(b"{\"id\":\"i\"}").is_none());
    let entries = vec![
        ("inbox/t/3_i".to_string(), message.to_bytes()),
        ("inbox/t/9_bad".to_string(), b"oops".to_vec()),
        ("inbox/tt/4_j".to_string(), message.to_bytes()),
    ];
    let inbox = inbox_among(&entries, "t", 10);
    assert_eq!(inbox.len(), 1);
    assert_eq!(inbox[0].0, "inbox/t/3_i");
}
