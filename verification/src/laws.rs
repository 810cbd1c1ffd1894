//! Laws that relate the operations of the store to one another.

use crate::chronos::{
    event_key, event_prefix, is_recent_selection, EventRecord, EventView, CHRONOS_SLOT_ID,
};
use crate::engine::is_listing;
use crate::partition::SHADOW_SLOT_ID;
use crate::ranking::{is_ranking_of, is_top_of, Ranked};
use crate::record::{is_stored_under, keyed_under, record_views, stored_under, Stored};
use crate::store::{
    is_value_at, key_bytes, key_text, readable, slot_index, stored_form, KnowledgeStore,
};
use crate::vault::blob_plaintext;
use vstd::prelude::*;
use vstd::seq_lib::{to_multiset_contains, to_multiset_len};
use vstd::utf8::{encode_utf8_decode_utf8, encode_utf8_valid_utf8};

verus! {

/// A read that follows a write of `value` under the same key finds a value:
/// `value` itself, or in the Shadow partition a sealed blob that opens to
/// `value` under the master key.
pub proof fn lemma_insert_then_get(
    before: &KnowledgeStore,
    after: &KnowledgeStore,
    slot_id: u8,
    key: Seq<char>,
    value: Seq<u8>,
    found: Option<Vec<u8>>,
)
    requires
        after.holds_write(before, slot_id, key, value),
        is_value_at(after.partition(slot_id), key_bytes(key), found),
    ensures
        found is Some,
        slot_id != SHADOW_SLOT_ID ==> found->Some_0@ == value,
        slot_id == SHADOW_SLOT_ID ==> before.shadow_key() is Some && blob_plaintext(
            before.shadow_key()->Some_0,
            found->Some_0@,
        ) == Some(value),
{
}

/// Two writes of one key to the Shadow partition each leave a blob that
/// opens to the value written, whatever nonces were drawn.
pub proof fn lemma_shadow_rewrite_opens(
    first: &KnowledgeStore,
    second: &KnowledgeStore,
    third: &KnowledgeStore,
    key: Seq<char>,
    v1: Seq<u8>,
    v2: Seq<u8>,
)
    requires
        second.holds_write(first, SHADOW_SLOT_ID, key, v1),
        second.shadow_key() == first.shadow_key(),
        third.holds_write(second, SHADOW_SLOT_ID, key, v2),
    ensures
        first.shadow_key() is Some,
        blob_plaintext(
            first.shadow_key()->Some_0,
            second.partition(SHADOW_SLOT_ID)[key_bytes(key)],
        ) == Some(v1),
        blob_plaintext(
            first.shadow_key()->Some_0,
            third.partition(SHADOW_SLOT_ID)[key_bytes(key)],
        ) == Some(v2),
{
}

/// A write leaves every other key of its partition, and every other
/// partition, as it was.
pub proof fn lemma_write_leaves_the_rest(
    before: &KnowledgeStore,
    after: &KnowledgeStore,
    slot_id: u8,
    key: Seq<char>,
    value: Seq<u8>,
    other_slot: u8,
    other_key: Seq<char>,
)
    requires
        after.same_but(before, slot_id),
        after.holds_write(before, slot_id, key, value),
        slot_index(other_slot) != slot_index(slot_id) || other_key != key,
    ensures
        after.partition(other_slot).contains_key(key_bytes(other_key)) == before.partition(
            other_slot,
        ).contains_key(key_bytes(other_key)),
        before.partition(other_slot).contains_key(key_bytes(other_key)) ==> after.partition(
            other_slot,
        )[key_bytes(other_key)] == before.partition(other_slot)[key_bytes(other_key)],
{
    if slot_index(other_slot) == slot_index(slot_id) {
        encode_utf8_decode_utf8(other_key);
        encode_utf8_decode_utf8(key);
        assert(key_bytes(other_key) != key_bytes(key));
        after.lemma_partition_by_index(other_slot, slot_id);
        before.lemma_partition_by_index(other_slot, slot_id);
    }
}

/// Every listing of a partition shows each of its keys that was written as
/// text, with its value.
pub proof fn lemma_listing_shows_key(
    store: &KnowledgeStore,
    slot_id: u8,
    entries: Seq<(Seq<char>, Seq<u8>)>,
    key: Seq<char>,
)
    requires
        store.lists(slot_id, entries),
        store.partition(slot_id).contains_key(key_bytes(key)),
    ensures
        exists|i: int|
            0 <= i < entries.len() && #[trigger] entries[i] == (
                key,
                store.partition(slot_id)[key_bytes(key)],
            ),
{
    let raw = choose|raw: Seq<(Seq<u8>, Seq<u8>)>| #[trigger]
        is_listing(raw, store.partition(slot_id)) && entries == readable(raw);
    let i = choose|i: int| 0 <= i < raw.len() && (#[trigger] raw[i]).0 == key_bytes(key);
    encode_utf8_decode_utf8(key);
    encode_utf8_valid_utf8(key);
    assert(key_text(key_bytes(key)) == key);
    assert(entries[i] == (key, store.partition(slot_id)[key_bytes(key)]));
}

/// Every entry under a prefix that reads as a record is among the records
/// collected under that prefix.
pub proof fn lemma_collected_holds_entry<T: Stored>(
    entries: Seq<(Seq<char>, Seq<u8>)>,
    prefix: Seq<char>,
    i: int,
)
    requires
        0 <= i < entries.len(),
        is_stored_under::<T>(entries[i], prefix),
    ensures
        exists|j: int|
            0 <= j < stored_under::<T>(entries, prefix).len() && #[trigger] stored_under::<T>(
                entries,
                prefix,
            )[j] == T::decoded(entries[i].1)->Some_0,
        stored_under::<T>(entries, prefix).len() <= entries.len(),
    decreases entries.len(),
{
    lemma_collected_is_bounded::<T>(entries, prefix);
    let rest = entries.drop_last();
    let all = keyed_under::<T>(entries, prefix);
    if i == entries.len() - 1 {
        assert(stored_under::<T>(entries, prefix)[all.len() - 1] == T::decoded(
            entries[i].1,
        )->Some_0);
    } else {
        assert(rest[i] == entries[i]);
        lemma_collected_holds_entry::<T>(rest, prefix, i);
        let j = choose|j: int|
            0 <= j < stored_under::<T>(rest, prefix).len() && #[trigger] stored_under::<T>(
                rest,
                prefix,
            )[j] == T::decoded(entries[i].1)->Some_0;
        assert(keyed_under::<T>(rest, prefix)[j] == all[j]);
        assert(stored_under::<T>(entries, prefix)[j] == T::decoded(entries[i].1)->Some_0);
    }
}

/// No more records are collected than there are entries.
pub proof fn lemma_collected_is_bounded<T: Stored>(
    entries: Seq<(Seq<char>, Seq<u8>)>,
    prefix: Seq<char>,
)
    ensures
        keyed_under::<T>(entries, prefix).len() <= entries.len(),
        stored_under::<T>(entries, prefix).len() == keyed_under::<T>(entries, prefix).len(),
    decreases entries.len(),
{
    if entries.len() > 0 {
        lemma_collected_is_bounded::<T>(entries.drop_last(), prefix);
    }
}

/// The recent events of an agent hold every entry of the agent's stream
/// that reads as an event, as long as the limit is no less than the number
/// of entries; and they are ranked newest first.
pub proof fn lemma_recent_events_hold_entry(
    events: Seq<EventRecord>,
    entries: Seq<(Seq<char>, Seq<u8>)>,
    agent_id: Seq<char>,
    limit: nat,
    i: int,
)
    requires
        is_recent_selection(events, entries, agent_id, limit),
        0 <= i < entries.len(),
        is_stored_under::<EventRecord>(entries[i], event_prefix(agent_id)),
        limit >= entries.len(),
    ensures
        exists|k: int|
            0 <= k < events.len() && (#[trigger] events[k])@ == EventView::of_bytes(
                entries[i].1,
            )->Some_0,
        crate::ranking::is_ranked(events),
{
    let found = choose|found: Seq<EventRecord>| #[trigger]
        record_views(found) == stored_under::<EventRecord>(entries, event_prefix(agent_id))
            && is_top_of(events, found, limit);
    let ranked = choose|ranked: Seq<EventRecord>| #[trigger]
        is_ranking_of(ranked, found) && events == ranked.take(
            if limit < ranked.len() {
                limit as int
            } else {
                ranked.len() as int
            },
        );
    lemma_collected_holds_entry::<EventRecord>(entries, event_prefix(agent_id), i);
    let j = choose|j: int|
        0 <= j < stored_under::<EventRecord>(entries, event_prefix(agent_id)).len()
            && #[trigger] stored_under::<EventRecord>(entries, event_prefix(agent_id))[j]
            == EventView::of_bytes(entries[i].1)->Some_0;
    assert(record_views(found).len() == found.len());
    assert(record_views(found)[j] == found[j]@);
    to_multiset_len(found);
    to_multiset_len(ranked);
    to_multiset_contains(found, found[j]);
    to_multiset_contains(ranked, found[j]);
    assert(found.contains(found[j]));
    assert(ranked.contains(found[j]));
    let k = choose|k: int| 0 <= k < ranked.len() && ranked[k] == found[j];
    assert(ranked.len() <= limit);
    assert(events =~= ranked);
    assert(events[k]@ == EventView::of_bytes(entries[i].1)->Some_0);
    assert forall|a: int, b: int|
        #![trigger events[a], events[b]]
        0 <= a < b < events.len() implies events[a].ranks_before(&events[b]) by {
        assert(events[a] == ranked[a]);
        assert(events[b] == ranked[b]);
    }
}

/// After an event was appended, every listing of the Chronos partition
/// shows it under its key, with the bytes it was written as.
pub proof fn lemma_appended_event_is_listed(
    before: &KnowledgeStore,
    after: &KnowledgeStore,
    agent_id: Seq<char>,
    event: EventView,
    unique: Seq<char>,
    entries: Seq<(Seq<char>, Seq<u8>)>,
)
    requires
        after.holds_write(
            before,
            CHRONOS_SLOT_ID,
            event_key(agent_id, event.timestamp_ms, unique),
            event.bytes(),
        ),
        after.lists(CHRONOS_SLOT_ID, entries),
    ensures
        exists|i: int|
            0 <= i < entries.len() && #[trigger] entries[i] == (
                event_key(agent_id, event.timestamp_ms, unique),
                event.bytes(),
            ) && event_prefix(agent_id).is_prefix_of(entries[i].0),
{
    let key = event_key(agent_id, event.timestamp_ms, unique);
    lemma_listing_shows_key(after, CHRONOS_SLOT_ID, entries, key);
    let i = choose|i: int|
        0 <= i < entries.len() && #[trigger] entries[i] == (
            key,
            after.partition(CHRONOS_SLOT_ID)[key_bytes(key)],
        );
    assert(event_prefix(agent_id).is_prefix_of(key));
    assert(entries[i] == (key, event.bytes()) && event_prefix(agent_id).is_prefix_of(entries[i].0));
}

} // verus!
