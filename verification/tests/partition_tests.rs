use pagi_knowledge::partition::{pagi_kb_slot_label, KbType};

#[test]
fn slot_ids_run_from_one_to_nine() {
    let all = KbType::all_with_shadow();
    for (i, kb) in all.iter().enumerate() {
        assert_eq!(kb.slot_id() as usize, i + 1);
        assert_eq!(KbType::from_slot_id(kb.slot_id()), Some(*kb));
    }
    assert_eq!(KbType::from_slot_id(0), None);
    assert_eq!(KbType::from_slot_id(10), None);
}

#[test]
fn labels_fall_back_to_unknown() {
    assert_eq!(pagi_kb_slot_label(1), "Pneuma (Vision)");
    assert_eq!(pagi_kb_slot_label(9), "Shadow (The Vault)");
    assert_eq!(pagi_kb_slot_label(0), "Unknown");
    assert_eq!(KbType::Shadow.tree_name(), "kb9_shadow");
}

#[test]
fn every_partition_has_a_name_a_purpose_and_one_sealed_slot() {
    let names: Vec<&str> = KbType::all_with_shadow().iter().map(|kb| kb.name()).collect();
    assert_eq!(
        names,
        vec!["Pneuma", "Oikos", "Logos", "Chronos", "Techne", "Ethos", "Kardia", "Soma", "Shadow"]
    );
    assert_eq!(KbType::Pneuma.purpose(), "Vision/Identity");
    assert_eq!(KbType::Oikos.purpose(), "Context/Workspace/Tasks");
    assert_eq!(KbType::Shadow.purpose(), "Emotional anchors");
    assert_eq!(KbType::Kardia.label(), "Kardia (Affective)");
    for kb in KbType::all() {
        assert!(!kb.is_encrypted());
    }
    assert!(KbType::Shadow.is_encrypted());
    assert_eq!(KbType::all().len(), 8);
    assert_eq!(pagi_knowledge::SHADOW_SLOT_ID, 9);
}
