//! One partition seen as a source of text values.

use crate::partition::{slot_label, KbType};
use crate::json::text_opt;
use crate::store::{key_bytes, KnowledgeStore, StoreError};
use crate::text::text_from_utf8;
use vstd::prelude::*;
use vstd::utf8::{decode_utf8, valid_utf8};

verus! {

/// What all knowledge sources offer.
pub trait KnowledgeSource: Send + Sync {
    /// Slot number of the source.
    fn slot_id(&self) -> u8;

    /// Human-readable name of the source.
    fn name(&self) -> &str;

    /// Returns the value stored under `query_key` as text, if there is one
    /// and it is UTF-8.
    fn query(&self, query_key: &str) -> Option<String>;
}

/// The text that the outcome of a raw read stands for: the value as text
/// where one was found and is UTF-8, else none.
pub open spec fn text_of_read(found: Result<Option<Vec<u8>>, StoreError>) -> Option<Seq<char>> {
    match found {
        Ok(Some(bytes)) => if valid_utf8(bytes@) {
            Some(decode_utf8(bytes@))
        } else {
            None
        },
        _ => None,
    }
}

/// Turns the outcome of a raw read into the text that a query answers with.
pub fn text_from_read(found: Result<Option<Vec<u8>>, StoreError>) -> (value: Option<String>)
    ensures
        text_opt(value) == text_of_read(found),
{
    match found {
        Ok(Some(bytes)) => text_from_utf8(bytes.as_slice()),
        _ => None,
    }
}

/// A partition of a store as a knowledge source.
pub struct KbSlot<'a> {
    store: &'a KnowledgeStore,
    kind: KbType,
}

impl<'a> KbSlot<'a> {
    /// The store that the source reads.
    pub closed spec fn store(&self) -> &KnowledgeStore {
        self.store
    }

    /// The partition that the source reads.
    pub closed spec fn kind(&self) -> KbType {
        self.kind
    }

    /// Makes a source of one partition of a store.
    pub fn new(store: &'a KnowledgeStore, kind: KbType) -> (source: KbSlot<'a>)
        ensures
            source.store() == store,
            source.kind() == kind,
    {
        KbSlot { store, kind }
    }
}

impl<'a> KnowledgeSource for KbSlot<'a> {
    fn slot_id(&self) -> (id: u8)
        ensures
            id == self.kind().spec_slot_id(),
    {
        self.kind.slot_id()
    }

    fn name(&self) -> (label: &str)
        ensures
            label@ == slot_label(self.kind().spec_slot_id()),
    {
        self.kind.label()
    }

    /// A value that is absent, is not UTF-8 or cannot be read is `None`.
    /// For the Shadow partition the stored values are sealed blobs.
    fn query(&self, query_key: &str) -> (value: Option<String>)
        ensures
            value matches Some(text) ==> {
                let entries = self.store().partition(self.kind().spec_slot_id());
                let key = key_bytes(query_key@);
                entries.contains_key(key) && valid_utf8(entries[key]) && text@ == decode_utf8(
                    entries[key],
                )
            },
    {
        let found = self.store.get(self.kind.slot_id(), query_key);
        text_from_read(found)
    }
}

} // verus!
