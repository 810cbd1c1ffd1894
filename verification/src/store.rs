//! The partitioned store: nine namespaces over one embedded engine, the
//! ninth sealed by the vault.

use crate::cipher::{MAX_PLAINTEXT_LEN, NONCE_LEN, TAG_LEN};
use crate::engine::{
    is_listing, lemma_listing_count, open_db, open_tree, raw_views, tree_entries, tree_get,
    tree_insert, tree_remove, tree_scan,
};
use crate::partition::{tree_name_of, valid_slot, SHADOW_SLOT_ID};
use crate::text::text_from_utf8;
use crate::vault::{blob_plaintext, configured_key, parse_master_key, SecretVault, VaultError};
use vstd::prelude::*;
use vstd::slice::slice_to_vec;
use vstd::utf8::{decode_utf8, encode_utf8, valid_utf8};

verus! {

/// Where the store lies unless a path is given.
pub const DEFAULT_PATH: &'static str = "./data/pagi_knowledge";

/// Why a store operation failed.
#[derive(Debug)]
pub enum StoreError {
    /// The database could not be opened: the path is locked or its data is corrupt.
    Open(sled::Error),
    /// A single read or write failed in the engine.
    Io(sled::Error),
    /// The Shadow partition was addressed without a master key.
    Locked,
    /// Sealing failed, or a sealed value did not authenticate.
    CryptoFailure,
    /// Stored bytes are not a record of the expected type.
    Serialization,
}

/// Status of one partition.
#[derive(Debug, Clone)]
pub struct KbStatus {
    /// Slot number, 1 to 9.
    pub slot_id: u8,
    /// Human-readable label of the partition.
    pub name: String,
    /// Name of the namespace that stores the partition.
    pub tree_name: String,
    /// Whether the partition could be read.
    pub connected: bool,
    /// Number of entries, zero where the partition could not be read.
    pub entry_count: usize,
    /// Why the partition could not be read, or that the vault is locked.
    pub error: Option<String>,
}

/// Nine namespaces, one per partition, and the vault that seals the ninth.
pub struct KnowledgeStore {
    /// The database, held open for as long as the store lives.
    #[allow(dead_code)]
    db: sled::Db,
    /// The namespaces of the slots 1 to 9, in slot order.
    trees: Vec<sled::Tree>,
    /// The vault that seals the ninth.
    vault: SecretVault,
}

/// The bytes under which a key is stored: its UTF-8 encoding.
pub open spec fn key_bytes(key: Seq<char>) -> Seq<u8> {
    encode_utf8(key)
}

/// The text of a stored key; a key that is not UTF-8 reads as the empty text.
pub open spec fn key_text(raw: Seq<u8>) -> Seq<char> {
    if valid_utf8(raw) {
        decode_utf8(raw)
    } else {
        Seq::empty()
    }
}

/// A raw listing with its keys read as text.
pub open spec fn readable(raw: Seq<(Seq<u8>, Seq<u8>)>) -> Seq<(Seq<char>, Seq<u8>)> {
    raw.map_values(|e: (Seq<u8>, Seq<u8>)| (key_text(e.0), e.1))
}

/// The keys of a raw listing that are UTF-8, read as text.
pub open spec fn readable_keys(raw: Seq<(Seq<u8>, Seq<u8>)>) -> Seq<Seq<char>> {
    raw.filter(|e: (Seq<u8>, Seq<u8>)| valid_utf8(e.0)).map_values(
        |e: (Seq<u8>, Seq<u8>)| decode_utf8(e.0),
    )
}

/// Scanned entries as pairs of a key text and value bytes.
pub open spec fn entry_views(entries: Seq<(String, Vec<u8>)>) -> Seq<(Seq<char>, Seq<u8>)> {
    entries.map_values(|e: (String, Vec<u8>)| (e.0@, e.1@))
}

/// Scanned keys as texts.
pub open spec fn text_views(texts: Seq<String>) -> Seq<Seq<char>> {
    texts.map_values(|t: String| t@)
}

/// The index of a slot's namespace. A slot number outside 1..=9 is clamped
/// to slot 1.
pub open spec fn slot_index(slot_id: u8) -> int {
    if valid_slot(slot_id) {
        slot_id - 1
    } else {
        0
    }
}

/// The text that the status of the Shadow partition carries while the vault
/// is locked.
pub open spec fn locked_notice() -> Seq<char> {
    "LOCKED (no master key)"@
}

/// What a write leaves under its key: the value itself, or in the Shadow
/// partition a sealed blob that opens to it.
pub open spec fn stored_form(
    slot_id: u8,
    shadow_key: Option<Seq<u8>>,
    value: Seq<u8>,
    stored: Seq<u8>,
) -> bool {
    if slot_id == SHADOW_SLOT_ID {
        &&& shadow_key is Some
        &&& stored.len() == NONCE_LEN + value.len() + TAG_LEN
        &&& blob_plaintext(shadow_key->Some_0, stored) == Some(value)
    } else {
        stored == value
    }
}

/// What an operation returns for the value under a key: the value, or
/// nothing where the key is absent.
pub open spec fn is_value_at(
    entries: Map<Seq<u8>, Seq<u8>>,
    key: Seq<u8>,
    found: Option<Vec<u8>>,
) -> bool {
    match found {
        Some(bytes) => entries.contains_key(key) && entries[key] == bytes@,
        None => !entries.contains_key(key),
    }
}

/// The outcome of an operation without the value it returned.
pub open spec fn outcome_of<T>(result: Result<T, StoreError>) -> Result<(), StoreError> {
    match result {
        Ok(_) => Ok(()),
        Err(e) => Err(e),
    }
}

impl KnowledgeStore {
    #[verifier::type_invariant]
    spec fn well_formed(&self) -> bool {
        self.trees@.len() == 9
    }

    /// What a partition holds, by slot number: a value for each key, both as bytes.
    pub closed spec fn partition(&self, slot_id: u8) -> Map<Seq<u8>, Seq<u8>> {
        tree_entries(self.trees@[slot_index(slot_id)])
    }

    /// Slot numbers with the same index name the same partition: a number
    /// outside 1..=9 names that of slot 1.
    pub proof fn lemma_partition_by_index(&self, slot_id: u8, other: u8)
        requires
            slot_index(slot_id) == slot_index(other),
        ensures
            self.partition(slot_id) == self.partition(other),
    {
    }

    /// The master key of the vault, if it is unlocked.
    pub closed spec fn shadow_key(&self) -> Option<Seq<u8>> {
        self.vault.master_key()
    }

    /// Whether the vault holds a master key.
    pub open spec fn spec_is_shadow_unlocked(&self) -> bool {
        self.shadow_key() is Some
    }

    /// Whether this store differs from `before` at most in one partition.
    pub open spec fn same_but(&self, before: &KnowledgeStore, slot_id: u8) -> bool {
        &&& self.shadow_key() == before.shadow_key()
        &&& forall|other: u8|
            slot_index(other) != slot_index(slot_id) ==> #[trigger] self.partition(other)
                == before.partition(other)
    }

    /// Whether this store is `before` with `value` written under `key`: as
    /// it is, or sealed in the Shadow partition.
    pub open spec fn holds_write(
        &self,
        before: &KnowledgeStore,
        slot_id: u8,
        key: Seq<char>,
        value: Seq<u8>,
    ) -> bool {
        let stored = self.partition(slot_id)[key_bytes(key)];
        &&& self.partition(slot_id) == before.partition(slot_id).insert(key_bytes(key), stored)
        &&& stored_form(slot_id, before.shadow_key(), value, stored)
    }

    /// How a write of `value` under `key` relates this store to the store
    /// `before` it, for each way the write can end.
    pub open spec fn wrote(
        &self,
        before: &KnowledgeStore,
        slot_id: u8,
        key: Seq<char>,
        value: Seq<u8>,
        outcome: Result<(), StoreError>,
    ) -> bool {
        &&& self.same_but(before, slot_id)
        &&& match outcome {
            Ok(_) => self.holds_write(before, slot_id, key, value),
            Err(StoreError::Locked) => {
                &&& slot_id == SHADOW_SLOT_ID
                &&& before.shadow_key() is None
                &&& self.partition(slot_id) == before.partition(slot_id)
            },
            Err(StoreError::CryptoFailure) => {
                &&& slot_id == SHADOW_SLOT_ID
                &&& before.shadow_key() is Some
                &&& value.len() > MAX_PLAINTEXT_LEN
                &&& self.partition(slot_id) == before.partition(slot_id)
            },
            Err(e) => e is Io,
        }
        &&& slot_id == SHADOW_SLOT_ID && before.shadow_key() is None ==> outcome is Err
            && outcome->Err_0 is Locked
        &&& slot_id == SHADOW_SLOT_ID && before.shadow_key() is Some && value.len()
            > MAX_PLAINTEXT_LEN ==> outcome is Err && outcome->Err_0 is CryptoFailure
    }

    /// Whether `entries` lists a partition with its keys read as text.
    pub open spec fn lists(&self, slot_id: u8, entries: Seq<(Seq<char>, Seq<u8>)>) -> bool {
        exists|raw: Seq<(Seq<u8>, Seq<u8>)>| #[trigger]
            is_listing(raw, self.partition(slot_id)) && entries == readable(raw)
    }

    /// Opens or creates the store at `path` with an explicit master key for
    /// the vault; `None` gives a store whose Shadow partition is locked.
    pub fn open_with_key(path: &str, master_key: Option<&[u8; 32]>) -> (opened: Result<
        KnowledgeStore,
        StoreError,
    >)
        ensures
            match opened {
                Ok(store) => match master_key {
                    Some(k) => store.shadow_key() == Some(k@),
                    None => store.shadow_key() is None,
                },
                Err(e) => e is Open,
            },
    {
        let db = match open_db(path) {
            Ok(db) => db,
            Err(e) => {
                return Err(StoreError::Open(e));
            },
        };
        let mut trees: Vec<sled::Tree> = Vec::new();
        let mut slot_id: u8 = 1;
        while slot_id <= 9
            invariant
                1 <= slot_id <= 10,
                trees@.len() == slot_id - 1,
            decreases 10 - slot_id,
        {
            match open_tree(&db, tree_name_of(slot_id)) {
                Ok(tree) => {
                    trees.push(tree);
                },
                Err(e) => {
                    return Err(StoreError::Open(e));
                },
            }
            slot_id = slot_id + 1;
        }
        Ok(KnowledgeStore { db, trees, vault: SecretVault::new(master_key) })
    }

    /// Opens or creates the store at `path`; the master key of the vault
    /// is read from the text that configures it, if there is one.
    pub fn open_path(path: &str, shadow_key: Option<&str>) -> (opened: Result<
        KnowledgeStore,
        StoreError,
    >)
        ensures
            match opened {
                Ok(store) => store.shadow_key() == configured_key(
                    match shadow_key {
                        Some(t) => Some(t@),
                        None => None,
                    },
                ),
                Err(e) => e is Open,
            },
    {
        let key = match shadow_key {
            Some(text) => parse_master_key(text),
            None => None,
        };
        match key {
            Some(k) => Self::open_with_key(path, Some(&k)),
            None => Self::open_with_key(path, None),
        }
    }

    /// Opens or creates the store at the default path, `./data/pagi_knowledge`.
    pub fn new(shadow_key: Option<&str>) -> (opened: Result<KnowledgeStore, StoreError>)
        ensures
            match opened {
                Ok(store) => store.shadow_key() == configured_key(
                    match shadow_key {
                        Some(t) => Some(t@),
                        None => None,
                    },
                ),
                Err(e) => e is Open,
            },
    {
        Self::open_path(DEFAULT_PATH, shadow_key)
    }

    /// Returns `true` if the Shadow partition is unlocked.
    #[verifier::when_used_as_spec(spec_is_shadow_unlocked)]
    pub fn is_shadow_unlocked(&self) -> (unlocked: bool)
        ensures
            unlocked == self.spec_is_shadow_unlocked(),
    {
        self.vault.is_unlocked()
    }

    /// Returns the vault, for direct sealing and opening.
    pub fn vault(&self) -> (vault: &SecretVault)
        ensures
            vault.master_key() == self.shadow_key(),
    {
        &self.vault
    }

    fn tree_index(slot_id: u8) -> (index: usize)
        ensures
            index == slot_index(slot_id),
            index < 9,
    {
        if 1 <= slot_id && slot_id <= 9 {
            (slot_id - 1) as usize
        } else {
            0
        }
    }

    /// Returns the value stored under `key` in a partition.
    ///
    /// For the Shadow partition this is the sealed blob as stored.
    pub fn get(&self, slot_id: u8, key: &str) -> (found: Result<Option<Vec<u8>>, StoreError>)
        ensures
            match found {
                Ok(value) => is_value_at(self.partition(slot_id), key_bytes(key@), value),
                Err(e) => e is Io,
            },
    {
        proof {
            use_type_invariant(self);
        }
        let index = Self::tree_index(slot_id);
        match tree_get(&self.trees[index], key.as_bytes()) {
            Ok(value) => Ok(value),
            Err(e) => Err(StoreError::Io(e)),
        }
    }

    /// Stores `value` under `key` in a partition and returns the value that
    /// the key had before.
    ///
    /// A value for the Shadow partition is sealed by the vault first; with
    /// the vault locked nothing is written and the call fails with `Locked`.
    pub fn insert(&mut self, slot_id: u8, key: &str, value: &[u8]) -> (previous: Result<
        Option<Vec<u8>>,
        StoreError,
    >)
        ensures
            final(self).wrote(old(self), slot_id, key@, value@, outcome_of(previous)),
            previous matches Ok(before) ==> is_value_at(
                old(self).partition(slot_id),
                key_bytes(key@),
                before,
            ),
    {
        proof {
            use_type_invariant(&*self);
        }
        let index = Self::tree_index(slot_id);
        if slot_id == SHADOW_SLOT_ID {
            match self.vault.encrypt_blob(value) {
                Ok(blob) => match tree_insert(
                    &mut self.trees[index],
                    key.as_bytes(),
                    blob.as_slice(),
                ) {
                    Ok(before) => Ok(before),
                    Err(e) => Err(StoreError::Io(e)),
                },
                Err(VaultError::Locked) => Err(StoreError::Locked),
                Err(_) => Err(StoreError::CryptoFailure),
            }
        } else {
            match tree_insert(&mut self.trees[index], key.as_bytes(), value) {
                Ok(before) => Ok(before),
                Err(e) => Err(StoreError::Io(e)),
            }
        }
    }

    /// Stores `value` under `key` in a partition, as [`KnowledgeStore::insert`]
    /// does, without returning the value that the key had before.
    pub fn put(&mut self, slot_id: u8, key: &str, value: &[u8]) -> (outcome: Result<(), StoreError>)
        ensures
            final(self).wrote(old(self), slot_id, key@, value@, outcome),
    {
        match self.insert(slot_id, key, value) {
            Ok(_) => Ok(()),
            Err(e) => Err(e),
        }
    }

    /// Removes `key` from a partition and returns the value that it had.
    pub fn remove(&mut self, slot_id: u8, key: &str) -> (previous: Result<
        Option<Vec<u8>>,
        StoreError,
    >)
        ensures
            final(self).same_but(old(self), slot_id),
            match previous {
                Ok(before) => {
                    &&& final(self).partition(slot_id) == old(self).partition(slot_id).remove(
                        key_bytes(key@),
                    )
                    &&& is_value_at(old(self).partition(slot_id), key_bytes(key@), before)
                },
                Err(e) => e is Io,
            },
    {
        proof {
            use_type_invariant(&*self);
        }
        let index = Self::tree_index(slot_id);
        match tree_remove(&mut self.trees[index], key.as_bytes()) {
            Ok(before) => Ok(before),
            Err(e) => Err(StoreError::Io(e)),
        }
    }

    /// Returns all entries of a partition, in no particular order. A key
    /// that is not UTF-8 is returned as the empty text.
    pub fn scan_kv(&self, slot_id: u8) -> (scanned: Result<Vec<(String, Vec<u8>)>, StoreError>)
        ensures
            match scanned {
                Ok(entries) => self.lists(slot_id, entry_views(entries@)),
                Err(e) => e is Io,
            },
    {
        proof {
            use_type_invariant(self);
        }
        let index = Self::tree_index(slot_id);
        let items = match tree_scan(&self.trees[index]) {
            Ok(items) => items,
            Err(e) => {
                return Err(StoreError::Io(e));
            },
        };
        let ghost raw = raw_views(items@);
        let mut entries: Vec<(String, Vec<u8>)> = Vec::new();
        let mut i: usize = 0;
        while i < items.len()
            invariant
                i <= items.len(),
                raw == raw_views(items@),
                entries@.len() == i,
                entry_views(entries@) =~= readable(raw).take(i as int),
            decreases items.len() - i,
        {
            let item = &items[i];
            let key = match text_from_utf8(item.0.as_slice()) {
                Some(text) => text,
                None => String::new(),
            };
            let value = slice_to_vec(item.1.as_slice());
            proof {
                assert(raw[i as int] == (item.0@, item.1@));
                assert(readable(raw)[i as int] == (key@, value@));
            }
            let ghost before = entries@;
            entries.push((key, value));
            proof {
                assert forall|j: int| 0 <= j < i + 1 implies entry_views(entries@)[j] == readable(
                    raw,
                ).take(i + 1)[j] by {
                    if j < i {
                        assert(entries@[j] == before[j]);
                        assert(entry_views(before)[j] == readable(raw).take(i as int)[j]);
                    }
                }
            }
            i = i + 1;
        }
        proof {
            assert(readable(raw).take(items.len() as int) =~= readable(raw));
            assert(is_listing(raw, self.partition(slot_id)));
        }
        Ok(entries)
    }

    /// Returns the keys of a partition that are UTF-8, in no particular order.
    pub fn scan_keys(&self, slot_id: u8) -> (scanned: Result<Vec<String>, StoreError>)
        ensures
            match scanned {
                Ok(keys) => exists|raw: Seq<(Seq<u8>, Seq<u8>)>| #[trigger]
                    is_listing(raw, self.partition(slot_id)) && text_views(keys@) == readable_keys(
                        raw,
                    ),
                Err(e) => e is Io,
            },
    {
        proof {
            use_type_invariant(self);
        }
        let index = Self::tree_index(slot_id);
        let items = match tree_scan(&self.trees[index]) {
            Ok(items) => items,
            Err(e) => {
                return Err(StoreError::Io(e));
            },
        };
        let ghost raw = raw_views(items@);
        let mut keys: Vec<String> = Vec::new();
        let mut i: usize = 0;
        while i < items.len()
            invariant
                i <= items.len(),
                raw == raw_views(items@),
                text_views(keys@) =~= readable_keys(raw.take(i as int)),
            decreases items.len() - i,
        {
            let item = &items[i];
            proof {
                let valid = |e: (Seq<u8>, Seq<u8>)| valid_utf8(e.0);
                let decode = |e: (Seq<u8>, Seq<u8>)| decode_utf8(e.0);
                let seen = raw.take(i as int);
                assert(raw[i as int] == (item.0@, item.1@));
                assert(raw.take(i + 1) =~= seen.push(raw[i as int]));
                seen.lemma_filter_push(raw[i as int], valid);
                seen.filter(valid).lemma_push_map_commute(decode, raw[i as int]);
            }
            match text_from_utf8(item.0.as_slice()) {
                Some(text) => {
                    keys.push(text);
                },
                None => {},
            }
            i = i + 1;
        }
        proof {
            assert(raw.take(items.len() as int) =~= raw);
            assert(is_listing(raw, self.partition(slot_id)));
        }
        Ok(keys)
    }

    /// Returns the number of entries in a partition.
    pub fn count(&self, slot_id: u8) -> (counted: Result<usize, StoreError>)
        ensures
            match counted {
                Ok(n) => self.partition(slot_id).dom().finite() && n == self.partition(
                    slot_id,
                ).dom().len(),
                Err(e) => e is Io,
            },
    {
        proof {
            use_type_invariant(self);
        }
        let index = Self::tree_index(slot_id);
        match tree_scan(&self.trees[index]) {
            Ok(items) => {
                proof {
                    lemma_listing_count(raw_views(items@), self.partition(slot_id));
                }
                Ok(items.len())
            },
            Err(e) => Err(StoreError::Io(e)),
        }
    }
}

} // verus!
