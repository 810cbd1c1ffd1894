//! Pruning: the store never forgets by itself; this removes the entries
//! under a key prefix whose recorded timestamp lies before a cutoff.

use crate::json::{find_member, json_int, json_members, member, member_views, read_members};
use crate::scalar::read_int;
use crate::store::{entry_views, key_bytes, text_views, KnowledgeStore, StoreError};
use crate::text::starts_with;
use vstd::prelude::*;

verus! {

/// The timestamp that stored bytes record under a member of their JSON
/// object, if they record one.
pub open spec fn recorded_stamp(bytes: Seq<u8>, stamp_member: Seq<char>) -> Option<i64> {
    match json_members(bytes) {
        Some(members) => match member(members, stamp_member) {
            Some(raw) => json_int(raw),
            None => None,
        },
        None => None,
    }
}

/// Whether an entry lies under a prefix and records a timestamp before a
/// cutoff.
pub open spec fn is_expired(
    entry: (Seq<char>, Seq<u8>),
    prefix: Seq<char>,
    stamp_member: Seq<char>,
    cutoff_ms: i64,
) -> bool {
    &&& prefix.is_prefix_of(entry.0)
    &&& recorded_stamp(entry.1, stamp_member) matches Some(stamp) && stamp < cutoff_ms
}

/// The keys of the expired entries, in the order of the entries.
pub open spec fn expired_keys(
    entries: Seq<(Seq<char>, Seq<u8>)>,
    prefix: Seq<char>,
    stamp_member: Seq<char>,
    cutoff_ms: i64,
) -> Seq<Seq<char>>
    decreases entries.len(),
{
    if entries.len() == 0 {
        Seq::empty()
    } else if is_expired(entries.last(), prefix, stamp_member, cutoff_ms) {
        expired_keys(entries.drop_last(), prefix, stamp_member, cutoff_ms).push(entries.last().0)
    } else {
        expired_keys(entries.drop_last(), prefix, stamp_member, cutoff_ms)
    }
}

/// The bytes under which a list of keys is stored.
pub open spec fn stored_keys(keys: Seq<Seq<char>>) -> Set<Seq<u8>> {
    Set::new(|raw: Seq<u8>| exists|i: int| 0 <= i < keys.len() && raw == key_bytes(#[trigger] keys[i]))
}

/// Reads the timestamp that stored bytes record under a member.
pub fn read_recorded_stamp(bytes: &[u8], stamp_member: &str) -> (stamp: Option<i64>)
    ensures
        stamp == recorded_stamp(bytes@, stamp_member@),
{
    match read_members(bytes) {
        Some(members) => match find_member(&members, stamp_member) {
            Some(raw) => read_int(raw.as_str()),
            None => None,
        },
        None => None,
    }
}

/// Selects among scanned entries the keys of those that are expired.
pub fn expired_among(
    entries: &Vec<(String, Vec<u8>)>,
    prefix: &str,
    stamp_member: &str,
    cutoff_ms: i64,
) -> (keys: Vec<String>)
    ensures
        text_views(keys@) == expired_keys(entry_views(entries@), prefix@, stamp_member@, cutoff_ms),
{
    let mut keys: Vec<String> = Vec::new();
    let mut i: usize = 0;
    proof {
        assert(entry_views(entries@).take(0) =~= Seq::<(Seq<char>, Seq<u8>)>::empty());
    }
    while i < entries.len()
        invariant
            i <= entries.len(),
            text_views(keys@) =~= expired_keys(
                entry_views(entries@).take(i as int),
                prefix@,
                stamp_member@,
                cutoff_ms,
            ),
        decreases entries.len() - i,
    {
        let ghost next = entry_views(entries@).take(i + 1);
        proof {
            assert(next.drop_last() =~= entry_views(entries@).take(i as int));
            assert(next.last() == (entries@[i as int].0@, entries@[i as int].1@));
        }
        let entry = &entries[i];
        if starts_with(entry.0.as_str(), prefix) {
            match read_recorded_stamp(entry.1.as_slice(), stamp_member) {
                Some(stamp) => {
                    if stamp < cutoff_ms {
                        let ghost before = keys@;
                        keys.push(entry.0.clone());
                        proof {
                            assert(text_views(keys@) =~= text_views(before).push(entry.0@));
                        }
                    }
                },
                None => {},
            }
        }
        i = i + 1;
    }
    proof {
        assert(entry_views(entries@).take(entries.len() as int) =~= entry_views(entries@));
    }
    keys
}

impl KnowledgeStore {
    /// Removes each of the given keys from a partition.
    pub fn remove_all(&mut self, slot_id: u8, keys: &Vec<String>) -> (outcome: Result<(), StoreError>)
        ensures
            final(self).same_but(old(self), slot_id),
            match outcome {
                Ok(_) => final(self).partition(slot_id) == old(self).partition(slot_id).remove_keys(
                    stored_keys(text_views(keys@)),
                ),
                Err(e) => e is Io,
            },
    {
        let mut i: usize = 0;
        proof {
            assert(stored_keys(text_views(keys@).take(0)) =~= Set::<Seq<u8>>::empty());
            assert(old(self).partition(slot_id).remove_keys(Set::<Seq<u8>>::empty()) =~= old(
                self,
            ).partition(slot_id));
        }
        while i < keys.len()
            invariant
                i <= keys.len(),
                self.same_but(old(self), slot_id),
                self.partition(slot_id) == old(self).partition(slot_id).remove_keys(
                    stored_keys(text_views(keys@).take(i as int)),
                ),
            decreases keys.len() - i,
        {
            let ghost done = text_views(keys@).take(i as int);
            let ghost next = text_views(keys@).take(i + 1);
            match self.remove(slot_id, keys[i].as_str()) {
                Ok(_) => {},
                Err(e) => {
                    return Err(e);
                },
            }
            proof {
                assert(next =~= done.push(keys@[i as int]@));
                assert(stored_keys(next) =~= stored_keys(done).insert(key_bytes(keys@[i as int]@)))
                    by {
                    assert forall|raw: Seq<u8>| stored_keys(next).contains(raw) implies stored_keys(
                        done,
                    ).insert(key_bytes(keys@[i as int]@)).contains(raw) by {
                        let k = choose|k: int|
                            0 <= k < next.len() && raw == key_bytes(#[trigger] next[k]);
                        if k < i {
                            assert(done[k] == next[k]);
                        }
                    }
                    assert forall|raw: Seq<u8>|
                        stored_keys(done).insert(key_bytes(keys@[i as int]@)).contains(
                            raw,
                        ) implies stored_keys(next).contains(raw) by {
                        if raw == key_bytes(keys@[i as int]@) {
                            assert(next[i as int] == keys@[i as int]@);
                        } else {
                            let k = choose|k: int|
                                0 <= k < done.len() && raw == key_bytes(#[trigger] done[k]);
                            assert(next[k] == done[k]);
                        }
                    }
                }
                assert(self.partition(slot_id) =~= old(self).partition(slot_id).remove_keys(
                    stored_keys(next),
                ));
            }
            i = i + 1;
        }
        proof {
            assert(text_views(keys@).take(keys.len() as int) =~= text_views(keys@));
        }
        Ok(())
    }

    /// Removes from a partition the entries under a key prefix that record,
    /// under the given member of their JSON object, a timestamp before the
    /// cutoff, and returns their keys. Entries that record none are kept.
    pub fn prune_older_than(
        &mut self,
        slot_id: u8,
        prefix: &str,
        stamp_member: &str,
        cutoff_ms: i64,
    ) -> (pruned: Result<Vec<String>, StoreError>)
        ensures
            final(self).same_but(old(self), slot_id),
            match pruned {
                Ok(keys) => exists|entries: Seq<(Seq<char>, Seq<u8>)>| #[trigger]
                    old(self).lists(slot_id, entries) && text_views(keys@) == expired_keys(
                        entries,
                        prefix@,
                        stamp_member@,
                        cutoff_ms,
                    ) && final(self).partition(slot_id) == old(self).partition(slot_id).remove_keys(
                        stored_keys(text_views(keys@)),
                    ),
                Err(e) => e is Io,
            },
    {
        let entries = match self.scan_kv(slot_id) {
            Ok(entries) => entries,
            Err(e) => {
                return Err(e);
            },
        };
        let keys = expired_among(&entries, prefix, stamp_member, cutoff_ms);
        match self.remove_all(slot_id, &keys) {
            Ok(_) => {},
            Err(e) => {
                return Err(e);
            },
        }
        proof {
            assert(old(self).lists(slot_id, entry_views(entries@)) && text_views(keys@)
                == expired_keys(entry_views(entries@), prefix@, stamp_member@, cutoff_ms)
                && self.partition(slot_id) == old(self).partition(slot_id).remove_keys(
                stored_keys(text_views(keys@)),
            ));
        }
        Ok(keys)
    }
}

} // verus!
