use pagi_knowledge::snapshot::describe_slot;
use pagi_knowledge::{KnowledgeStore, StoreError};

const KEY: [u8; 32] = [42u8; 32];

fn open(key: Option<&[u8; 32]>) -> (tempfile::TempDir, KnowledgeStore) {
    let dir = tempfile::tempdir().unwrap();
    let store = KnowledgeStore::open_with_key(dir.path().to_str().unwrap(), key).unwrap();
    (dir, store)
}

#[test]
fn insert_then_get_returns_the_value_in_every_plain_slot() {
    let (_dir, mut store) = open(None);
    for slot in 1u8..=8 {
        let value = format!("value-{}", slot).into_bytes();
        assert_eq!(store.insert(slot, "k", &value).unwrap(), None);
        assert_eq!(store.get(slot, "k").unwrap(), Some(value));
    }
}

#[test]
fn insert_returns_the_previous_value() {
    let (_dir, mut store) = open(None);
    assert_eq!(store.insert(3, "topic", b"one").unwrap(), None);
    assert_eq!(store.insert(3, "topic", b"two").unwrap(), Some(b"one".to_vec()));
    assert_eq!(store.get(3, "topic").unwrap(), Some(b"two".to_vec()));
}

#[test]
fn partitions_are_isolated() {
    let (_dir, mut store) = open(None);
    store.insert(1, "shared", b"pneuma").unwrap();
    store.insert(2, "shared", b"oikos").unwrap();
    assert_eq!(store.get(1, "shared").unwrap(), Some(b"pneuma".to_vec()));
    assert_eq!(store.get(2, "shared").unwrap(), Some(b"oikos".to_vec()));
    assert_eq!(store.get(3, "shared").unwrap(), None);
    assert_eq!(store.count(1).unwrap(), 1);
    assert_eq!(store.count(3).unwrap(), 0);
}

#[test]
fn remove_returns_what_was_stored() {
    let (_dir, mut store) = open(None);
    store.insert(5, "gone", b"soon").unwrap();
    assert_eq!(store.remove(5, "gone").unwrap(), Some(b"soon".to_vec()));
    assert_eq!(store.remove(5, "gone").unwrap(), None);
    assert_eq!(store.get(5, "gone").unwrap(), None);
}

#[test]
fn scans_list_every_entry_once() {
    let (_dir, mut store) = open(None);
    store.insert(3, "b", b"2").unwrap();
    store.insert(3, "a", b"1").unwrap();
    store.insert(3, "c", b"3").unwrap();
    let mut keys = store.scan_keys(3).unwrap();
    keys.sort();
    assert_eq!(keys, vec!["a".to_string(), "b".to_string(), "c".to_string()]);
    let mut kv = store.scan_kv(3).unwrap();
    kv.sort();
    assert_eq!(
        kv,
        vec![
            ("a".to_string(), b"1".to_vec()),
            ("b".to_string(), b"2".to_vec()),
            ("c".to_string(), b"3".to_vec()),
        ]
    );
    assert_eq!(store.count(3).unwrap(), 3);
}

#[test]
fn out_of_range_slot_is_clamped_to_slot_one() {
    let (_dir, mut store) = open(None);
    store.insert(0, "stray", b"x").unwrap();
    assert_eq!(store.get(1, "stray").unwrap(), Some(b"x".to_vec()));
    assert_eq!(store.get(200, "stray").unwrap(), Some(b"x".to_vec()));
}

#[test]
fn shadow_insert_without_key_fails_locked_and_writes_nothing() {
    let (_dir, mut store) = open(None);
    assert!(!store.is_shadow_unlocked());
    assert!(matches!(store.insert(9, "anchor/x", b"plain"), Err(StoreError::Locked)));
    assert!(matches!(store.put(9, "anchor/x", b"plain"), Err(StoreError::Locked)));
    assert_eq!(store.get(9, "anchor/x").unwrap(), None);
    assert_eq!(store.count(9).unwrap(), 0);
}

#[test]
fn shadow_get_returns_ciphertext_that_opens_to_the_value() {
    let (_dir, mut store) = open(Some(&KEY));
    assert!(store.is_shadow_unlocked());
    store.insert(9, "note", b"plain text").unwrap();
    let blob = store.get(9, "note").unwrap().unwrap();
    assert_eq!(blob.len(), 12 + 10 + 16);
    assert_ne!(blob, b"plain text".to_vec());
    assert_eq!(store.vault().decrypt_blob(&blob), Ok(b"plain text".to_vec()));
    assert_eq!(store.get_shadow_decrypted("note").unwrap(), Some("plain text".to_string()));
}

#[test]
fn two_shadow_writes_of_one_key_differ_in_the_nonce() {
    let (_dir, mut store) = open(Some(&KEY));
    store.insert(9, "k", b"v1").unwrap();
    let first = store.get(9, "k").unwrap().unwrap();
    let previous = store.insert(9, "k", b"v2").unwrap();
    assert_eq!(previous, Some(first.clone()));
    let second = store.get(9, "k").unwrap().unwrap();
    assert_ne!(&first[..12], &second[..12]);
    assert_eq!(store.vault().decrypt_blob(&first), Ok(b"v1".to_vec()));
    assert_eq!(store.vault().decrypt_blob(&second), Ok(b"v2".to_vec()));
}

#[test]
fn opening_the_same_path_twice_fails() {
    let dir = tempfile::tempdir().unwrap();
    let path = dir.path().to_str().unwrap();
    let _first = KnowledgeStore::open_with_key(path, None).unwrap();
    assert!(matches!(KnowledgeStore::open_with_key(path, None), Err(StoreError::Open(_))));
}

#[test]
fn values_survive_reopening() {
    let dir = tempfile::tempdir().unwrap();
    let path = dir.path().to_str().unwrap();
    {
        let mut store = KnowledgeStore::open_with_key(path, Some(&KEY)).unwrap();
        store.insert(1, "mission", b"serve").unwrap();
        store.insert(9, "anchor/a", b"sealed").unwrap();
    }
    let store = KnowledgeStore::open_with_key(path, Some(&KEY)).unwrap();
    assert_eq!(store.get(1, "mission").unwrap(), Some(b"serve".to_vec()));
    assert_eq!(store.get_shadow_decrypted("anchor/a").unwrap(), Some("sealed".to_string()));
}

#[test]
fn status_lists_nine_slots_in_order() {
    let (_dir, mut store) = open(None);
    store.insert(4, "e1", b"x").unwrap();
    store.insert(4, "e2", b"y").unwrap();
    let statuses = store.get_all_status();
    assert_eq!(statuses.len(), 9);
    for (i, status) in statuses.iter().enumerate() {
        assert_eq!(status.slot_id as usize, i + 1);
        assert!(status.connected);
    }
    assert_eq!(statuses[0].name, "Pneuma (Vision)");
    assert_eq!(statuses[0].tree_name, "kb1_identity");
    assert_eq!(statuses[3].entry_count, 2);
    assert_eq!(statuses[3].error, None);
    assert_eq!(statuses[7].tree_name, "kb8_buffer");
    assert_eq!(statuses[8].tree_name, "kb9_shadow");
    assert_eq!(statuses[8].error, Some("LOCKED (no master key)".to_string()));
}

#[test]
fn status_of_an_unlocked_shadow_carries_no_error() {
    let (_dir, mut store) = open(Some(&KEY));
    store.insert(9, "anchor/a", b"x").unwrap();
    let status = store.get_status(9);
    assert!(status.connected);
    assert_eq!(status.entry_count, 1);
    assert_eq!(status.error, None);
}

#[test]
fn a_partition_that_cannot_be_read_is_not_connected() {
    let down = describe_slot(4, Err("IO error: disk gone".to_string()), true);
    assert_eq!(down.slot_id, 4);
    assert_eq!(down.name, "Chronos (Temporal)");
    assert_eq!(down.tree_name, "kb4_memory");
    assert!(!down.connected);
    assert_eq!(down.entry_count, 0);
    assert_eq!(down.error, Some("IO error: disk gone".to_string()));
    let up = describe_slot(4, Ok(17), false);
    assert!(up.connected);
    assert_eq!(up.entry_count, 17);
    assert_eq!(up.error, None);
    let locked = describe_slot(9, Ok(3), false);
    assert!(locked.connected);
    assert_eq!(locked.entry_count, 3);
    assert_eq!(locked.error, Some("LOCKED (no master key)".to_string()));
    assert_eq!(describe_slot(9, Ok(3), true).error, None);
}

#[test]
fn integers_and_flags_are_read_from_compact_text() {
    assert_eq!(pagi_knowledge::scalar::read_int("0"), Some(0));
    assert_eq!(pagi_knowledge::scalar::read_int("-17"), Some(-17));
    assert_eq!(pagi_knowledge::scalar::read_int("9223372036854775807"), Some(i64::MAX));
    assert_eq!(pagi_knowledge::scalar::read_int("9223372036854775808"), None);
    assert_eq!(pagi_knowledge::scalar::read_int("-9223372036854775808"), Some(i64::MIN));
    assert_eq!(pagi_knowledge::scalar::read_int("-9223372036854775809"), None);
    assert_eq!(pagi_knowledge::scalar::read_int("99999999999999999999999999999999999999999"), None);
    assert_eq!(pagi_knowledge::scalar::read_int(""), None);
    assert_eq!(pagi_knowledge::scalar::read_int("-"), None);
    assert_eq!(pagi_knowledge::scalar::read_int("1.0"), None);
    assert_eq!(pagi_knowledge::scalar::read_int("+1"), None);
    assert_eq!(pagi_knowledge::scalar::read_int("1e3"), None);
    assert_eq!(pagi_knowledge::scalar::read_int("12a"), None);
    assert_eq!(pagi_knowledge::json::read_bool("true"), Some(true));
    assert_eq!(pagi_knowledge::json::read_bool("false"), Some(false));
    assert_eq!(pagi_knowledge::json::read_bool("True"), None);
    assert_eq!(pagi_knowledge::json::read_bool("1"), None);
    for n in [0i64, 1, -1, 42, -1234567890123, i64::MAX, i64::MIN] {
        assert_eq!(pagi_knowledge::scalar::read_int(&pagi_knowledge::text::decimal(n)), Some(n));
    }
}

#[test]
fn the_vault_key_can_be_given_as_text() {
    let dir = tempfile::tempdir().unwrap();
    let path = dir.path().to_str().unwrap();
    {
        let mut store = KnowledgeStore::open_path(path, Some(&"2a".repeat(32))).unwrap();
        assert!(store.is_shadow_unlocked());
        store.insert(9, "k", b"v").unwrap();
    }
    {
        let same = KnowledgeStore::open_with_key(path, Some(&KEY)).unwrap();
        assert_eq!(same.get_shadow_decrypted("k").unwrap(), Some("v".to_string()));
    }
    {
        let locked = KnowledgeStore::open_path(path, Some("not a key")).unwrap();
        assert!(!locked.is_shadow_unlocked());
    }
    let locked = KnowledgeStore::open_path(path, None).unwrap();
    assert!(!locked.is_shadow_unlocked());
    assert!(!pagi_knowledge::SecretVault::from_key_text(None).is_unlocked());
    assert!(pagi_knowledge::SecretVault::from_key_text(Some("abcdefghijklmnopqrstuvwxyz012345")).is_unlocked());
    assert_eq!(pagi_knowledge::store::DEFAULT_PATH, "./data/pagi_knowledge");
}
