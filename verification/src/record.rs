//! What all stored records share: a textual form, and listings by key prefix.

use crate::store::{entry_views, key_bytes, KnowledgeStore, StoreError};
use crate::text::starts_with;
use vstd::prelude::*;

verus! {

/// A record that is stored as bytes.
pub trait Stored: View + Sized {
    /// The record that stored bytes spell, if they spell one.
    spec fn decoded(bytes: Seq<u8>) -> Option<Self::V>;

    /// Reads a record from stored bytes.
    fn decode(bytes: &[u8]) -> (record: Option<Self>)
        ensures
            match record {
                Some(r) => Self::decoded(bytes@) == Some(r@),
                None => Self::decoded(bytes@) is None,
            },
    ;
}

/// What a point read of a record returns for the bytes found under its key:
/// the record, nothing where the key is absent, or an error where the bytes
/// do not read as a record.
pub open spec fn is_record_read<T: Stored>(
    entries: Map<Seq<u8>, Seq<u8>>,
    key: Seq<u8>,
    found: Result<Option<T>, StoreError>,
) -> bool {
    match found {
        Ok(Some(record)) => entries.contains_key(key) && T::decoded(entries[key]) == Some(record@),
        Ok(None) => !entries.contains_key(key),
        Err(StoreError::Serialization) => entries.contains_key(key) && T::decoded(entries[key])
            is None,
        Err(e) => e is Io,
    }
}

/// The current state that the outcome of a raw read stands for: the state
/// that the bytes spell, or the default where the key is absent. Bytes that
/// do not read as a state are an error, and a failed read stays one.
pub open spec fn state_of<T: Stored>(found: Result<Option<Vec<u8>>, StoreError>, default: T::V)
    -> Result<T::V, StoreError> {
    match found {
        Ok(Some(bytes)) => match T::decoded(bytes@) {
            Some(state) => Ok(state),
            None => Err(StoreError::Serialization),
        },
        Ok(None) => Ok(default),
        Err(e) => Err(e),
    }
}

/// What a read of a current state returns for what a partition holds under
/// its key: the state that the bytes spell, the default where the key is
/// absent, or an error where the bytes do not read as a state.
pub open spec fn is_state_outcome<T: Stored>(
    entries: Map<Seq<u8>, Seq<u8>>,
    key: Seq<u8>,
    default: T::V,
    found: Result<T, StoreError>,
) -> bool {
    match found {
        Ok(state) => if entries.contains_key(key) {
            T::decoded(entries[key]) == Some(state@)
        } else {
            state@ == default
        },
        Err(StoreError::Serialization) => entries.contains_key(key) && T::decoded(entries[key])
            is None,
        Err(e) => e is Io,
    }
}

/// What a current state is once a failed read was replaced by the default:
/// the default, or the state that the bytes under its key spell.
pub open spec fn is_state_read<T: Stored>(
    entries: Map<Seq<u8>, Seq<u8>>,
    key: Seq<u8>,
    default: T::V,
    state: T::V,
) -> bool {
    ||| entries.contains_key(key) && T::decoded(entries[key]) == Some(state)
    ||| state == default
}

/// Turns the outcome of a raw read into a current state.
pub fn state_from<T: Stored>(found: Result<Option<Vec<u8>>, StoreError>, default: T) -> (state:
    Result<T, StoreError>)
    ensures
        match state {
            Ok(s) => state_of::<T>(found, default@) == Ok::<T::V, StoreError>(s@),
            Err(e) => state_of::<T>(found, default@) == Err::<T::V, StoreError>(e),
        },
{
    match found {
        Ok(Some(bytes)) => match T::decode(bytes.as_slice()) {
            Some(state) => Ok(state),
            None => Err(StoreError::Serialization),
        },
        Ok(None) => Ok(default),
        Err(e) => Err(e),
    }
}

impl KnowledgeStore {
    /// Reads the current state stored under `key` in a partition. Where the
    /// key is absent the state is the default; bytes that do not read as a
    /// state and a failed read are surfaced.
    pub fn get_state<T: Stored>(&self, slot_id: u8, key: &str, default: T) -> (state: Result<
        T,
        StoreError,
    >)
        ensures
            is_state_outcome::<T>(self.partition(slot_id), key_bytes(key@), default@, state),
    {
        let found = self.get(slot_id, key);
        state_from(found, default)
    }

    /// Reads the record stored under `key` in a partition.
    pub fn get_stored<T: Stored>(&self, slot_id: u8, key: &str) -> (found: Result<
        Option<T>,
        StoreError,
    >)
        ensures
            is_record_read(self.partition(slot_id), key_bytes(key@), found),
    {
        match self.get(slot_id, key) {
            Ok(Some(bytes)) => match T::decode(bytes.as_slice()) {
                Some(record) => Ok(Some(record)),
                None => Err(StoreError::Serialization),
            },
            Ok(None) => Ok(None),
            Err(e) => Err(e),
        }
    }
}

/// Records as their mathematical values.
pub open spec fn record_views<T: View>(records: Seq<T>) -> Seq<T::V> {
    records.map_values(|r: T| r@)
}

/// Keyed records as pairs of a key text and a mathematical value.
pub open spec fn keyed_views<T: View>(records: Seq<(String, T)>) -> Seq<(Seq<char>, T::V)> {
    records.map_values(|r: (String, T)| (r.0@, r.1@))
}

/// Whether an entry lies under a key prefix and reads as a record.
pub open spec fn is_stored_under<T: Stored>(entry: (Seq<char>, Seq<u8>), prefix: Seq<char>) -> bool {
    prefix.is_prefix_of(entry.0) && T::decoded(entry.1) is Some
}

/// The records among `entries` whose key starts with `prefix`, in the order
/// of the entries, each with its key. Entries that do not read as a record
/// are skipped.
pub open spec fn keyed_under<T: Stored>(entries: Seq<(Seq<char>, Seq<u8>)>, prefix: Seq<char>) -> Seq<
    (Seq<char>, T::V),
>
    decreases entries.len(),
{
    if entries.len() == 0 {
        Seq::empty()
    } else if is_stored_under::<T>(entries.last(), prefix) {
        keyed_under::<T>(entries.drop_last(), prefix).push(
            (entries.last().0, T::decoded(entries.last().1)->Some_0),
        )
    } else {
        keyed_under::<T>(entries.drop_last(), prefix)
    }
}

/// The records among `entries` whose key starts with `prefix`, in the order
/// of the entries.
pub open spec fn stored_under<T: Stored>(entries: Seq<(Seq<char>, Seq<u8>)>, prefix: Seq<char>) -> Seq<
    T::V,
> {
    keyed_under::<T>(entries, prefix).map_values(|r: (Seq<char>, T::V)| r.1)
}

/// Collects the records under a key prefix, each with its key.
pub fn collect_keyed_under<T: Stored>(entries: &Vec<(String, Vec<u8>)>, prefix: &str) -> (records:
    Vec<(String, T)>)
    ensures
        keyed_views(records@) == keyed_under::<T>(entry_views(entries@), prefix@),
{
    let mut records: Vec<(String, T)> = Vec::new();
    let mut i: usize = 0;
    proof {
        assert(entry_views(entries@).take(0) =~= Seq::<(Seq<char>, Seq<u8>)>::empty());
    }
    while i < entries.len()
        invariant
            i <= entries.len(),
            keyed_views(records@) =~= keyed_under::<T>(
                entry_views(entries@).take(i as int),
                prefix@,
            ),
        decreases entries.len() - i,
    {
        let ghost seen = entry_views(entries@).take(i as int);
        let ghost next = entry_views(entries@).take(i + 1);
        proof {
            assert(next.drop_last() =~= seen);
            assert(next.last() == (entries@[i as int].0@, entries@[i as int].1@));
        }
        let entry = &entries[i];
        if starts_with(entry.0.as_str(), prefix) {
            match T::decode(entry.1.as_slice()) {
                Some(record) => {
                    let ghost before = records@;
                    records.push((entry.0.clone(), record));
                    proof {
                        assert(keyed_views(records@) =~= keyed_views(before).push(
                            (entry.0@, record@),
                        ));
                    }
                },
                None => {},
            }
        }
        i = i + 1;
    }
    proof {
        assert(entry_views(entries@).take(entries.len() as int) =~= entry_views(entries@));
    }
    records
}

/// Collects the records under a key prefix.
pub fn collect_under<T: Stored>(entries: &Vec<(String, Vec<u8>)>, prefix: &str) -> (records: Vec<T>)
    ensures
        record_views(records@) == stored_under::<T>(entry_views(entries@), prefix@),
{
    let mut records: Vec<T> = Vec::new();
    let mut i: usize = 0;
    proof {
        assert(entry_views(entries@).take(0) =~= Seq::<(Seq<char>, Seq<u8>)>::empty());
    }
    while i < entries.len()
        invariant
            i <= entries.len(),
            record_views(records@) =~= stored_under::<T>(
                entry_views(entries@).take(i as int),
                prefix@,
            ),
        decreases entries.len() - i,
    {
        let ghost seen = entry_views(entries@).take(i as int);
        let ghost next = entry_views(entries@).take(i + 1);
        proof {
            assert(next.drop_last() =~= seen);
            assert(next.last() == (entries@[i as int].0@, entries@[i as int].1@));
        }
        let entry = &entries[i];
        if starts_with(entry.0.as_str(), prefix) {
            match T::decode(entry.1.as_slice()) {
                Some(record) => {
                    let ghost before = records@;
                    records.push(record);
                    proof {
                        assert(record_views(records@) =~= record_views(before).push(record@));
                        assert(stored_under::<T>(next, prefix@) =~= stored_under::<T>(
                            seen,
                            prefix@,
                        ).push(record@));
                    }
                },
                None => {},
            }
        }
        i = i + 1;
    }
    proof {
        assert(entry_views(entries@).take(entries.len() as int) =~= entry_views(entries@));
    }
    records
}

} // verus!
