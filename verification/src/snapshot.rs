//! The status of the nine partitions and the sovereign snapshot: one read
//! of everything the outer layers show.

use crate::derivation::is_effective_read;
use crate::engine::error_text;
use crate::ethos::{EthosPolicy, EthosView, ETHOS_POLICY_KEY, ETHOS_SLOT_ID};
use crate::clock::now_ms;
use crate::json::{
    json_quoted, member_views, object_text, push_member, quote, text_opt, write_object,
};
use crate::text::{decimal, decimal_text};
use crate::kardia::{is_people_listing, MentalState, PersonRecord, KARDIA_SLOT_ID};
use crate::oikos::{
    is_task_listing, GovernedTask, OIKOS_GOVERNANCE_SUMMARY_KEY, OIKOS_SLOT_ID,
};
use crate::partition::{
    pagi_kb_slot_label, slot_label, slot_name, slot_name_of, slot_tree_name, tree_name_of,
    SHADOW_SLOT_ID,
};
use crate::record::is_state_read;
use crate::soma::{SomaState, SOMA_SLOT_ID};
use crate::store::{key_bytes, locked_notice, KbStatus, KnowledgeStore, StoreError};
use vstd::prelude::*;
use vstd::utf8::{decode_utf8, encode_utf8, valid_utf8};

verus! {

/// Everything the outer layers show, read at one time.
#[derive(Debug, Clone)]
pub struct SovereignState {
    /// Status of the nine partitions, in slot order.
    pub kb_statuses: Vec<KbStatus>,
    /// The current soma state.
    pub soma: SomaState,
    /// Whether the soma state calls for easing.
    pub bio_gate_active: bool,
    /// The philosophical policy, if one is stored and reads.
    pub ethos: Option<EthosPolicy>,
    /// The effective mental state under `soma`.
    pub mental: MentalState,
    /// The people in the relational map, by name.
    pub people: Vec<PersonRecord>,
    /// The last governance summary, if one is stored and reads.
    pub governance_summary: Option<String>,
    /// The governed tasks, highest effective priority first.
    pub governed_tasks: Vec<GovernedTask>,
    /// Whether the vault holds a master key.
    pub shadow_unlocked: bool,
}

/// Whether a status describes a partition of a store.
///
/// A partition that could be scanned is connected and its entries are
/// counted; the Shadow partition then carries the locked notice while the
/// vault is locked, and no other connected partition carries an error. A
/// partition that could not be scanned is not connected, counts nothing and
/// carries the error.
pub open spec fn is_status_of(store: &KnowledgeStore, slot_id: u8, status: KbStatus) -> bool {
    &&& status.slot_id == slot_id
    &&& status.name@ == slot_label(slot_id)
    &&& status.tree_name@ == slot_tree_name(slot_id)
    &&& if status.connected {
        &&& store.partition(slot_id).dom().finite()
        &&& status.entry_count == store.partition(slot_id).dom().len()
        &&& text_opt(status.error) == (if slot_id == SHADOW_SLOT_ID && store.shadow_key() is None {
            Some(locked_notice())
        } else {
            None
        })
    } else {
        status.entry_count == 0 && status.error is Some
    }
}

/// Whether `statuses` describe the nine partitions of a store, in slot order.
pub open spec fn is_status_listing(store: &KnowledgeStore, statuses: Seq<KbStatus>) -> bool {
    &&& statuses.len() == 9
    &&& forall|i: int| 0 <= i < 9 ==> is_status_of(store, (i + 1) as u8, #[trigger] statuses[i])
}

/// Whether a snapshot is consistent in itself and with a store: each part
/// is what the store holds, or the empty value where it could not be read,
/// and each derived part is computed from the parts beside it.
pub open spec fn is_snapshot_of(store: &KnowledgeStore, state: SovereignState) -> bool {
    &&& is_status_listing(store, state.kb_statuses@)
    &&& is_state_read::<SomaState>(
        store.partition(SOMA_SLOT_ID),
        key_bytes(KnowledgeStore::SOMA_STATE_KEY@),
        SomaState::spec_default(),
        state.soma,
    )
    &&& state.bio_gate_active == state.soma.spec_needs_biogate_adjustment()
    &&& is_effective_read(store, state.soma, state.mental)
    &&& state.mental.in_range()
    &&& state.ethos matches Some(policy) ==> {
        let entries = store.partition(ETHOS_SLOT_ID);
        let key = key_bytes(ETHOS_POLICY_KEY@);
        entries.contains_key(key) && EthosView::of_bytes(entries[key]) == Some(policy@)
    }
    &&& state.people@.len() == 0 || exists|entries: Seq<(Seq<char>, Seq<u8>)>| #[trigger]
        store.lists(KARDIA_SLOT_ID, entries) && is_people_listing(state.people@, entries)
    &&& state.governance_summary matches Some(text) ==> {
        let entries = store.partition(OIKOS_SLOT_ID);
        let key = key_bytes(OIKOS_GOVERNANCE_SUMMARY_KEY@);
        entries.contains_key(key) && valid_utf8(entries[key]) && text@ == decode_utf8(entries[key])
    }
    &&& state.governed_tasks@.len() == 0 || exists|entries: Seq<(Seq<char>, Seq<u8>)>| #[trigger]
        store.lists(OIKOS_SLOT_ID, entries) && is_task_listing(state.governed_tasks@, entries)
    &&& state.shadow_unlocked == store.spec_is_shadow_unlocked()
}

/// Key of the description that each unencrypted partition carries.
pub const KB_METADATA_KEY: &'static str = "__kb_metadata__";

/// The bytes of the description of a partition, written at a given time.
pub open spec fn metadata_bytes(slot_id: u8, now_ms: i64) -> Seq<u8> {
    encode_utf8(
        object_text(
            seq![
                ("slot_id"@, decimal_text(slot_id as int)),
                ("name"@, json_quoted(slot_label(slot_id))),
                ("tree_name"@, json_quoted(slot_tree_name(slot_id))),
                ("purpose"@, json_quoted(slot_label(slot_id))),
                ("kb_type"@, json_quoted(slot_name(slot_id))),
                ("initialized_at"@, decimal_text(now_ms as int)),
                (
                    "vector_metadata"@,
                    "{\"embedding_model\":null,\"vector_dims\":null,\"semantic_search_enabled\":false}"@,
                ),
            ],
        ),
    )
}

/// Writes the description of a partition.
pub fn write_metadata(slot_id: u8, now_ms: i64) -> (bytes: Vec<u8>)
    ensures
        bytes@ == metadata_bytes(slot_id, now_ms),
{
    let mut members: Vec<(String, String)> = Vec::new();
    push_member(&mut members, "slot_id", decimal(slot_id as i64));
    push_member(&mut members, "name", quote(pagi_kb_slot_label(slot_id)));
    push_member(&mut members, "tree_name", quote(tree_name_of(slot_id)));
    push_member(&mut members, "purpose", quote(pagi_kb_slot_label(slot_id)));
    push_member(&mut members, "kb_type", quote(slot_name_of(slot_id)));
    push_member(&mut members, "initialized_at", decimal(now_ms));
    push_member(
        &mut members,
        "vector_metadata",
        String::from_str(
            "{\"embedding_model\":null,\"vector_dims\":null,\"semantic_search_enabled\":false}",
        ),
    );
    proof {
        assert(member_views(members@) =~= seq![
            ("slot_id"@, decimal_text(slot_id as int)),
            ("name"@, json_quoted(slot_label(slot_id))),
            ("tree_name"@, json_quoted(slot_tree_name(slot_id))),
            ("purpose"@, json_quoted(slot_label(slot_id))),
            ("kb_type"@, json_quoted(slot_name(slot_id))),
            ("initialized_at"@, decimal_text(now_ms as int)),
            (
                "vector_metadata"@,
                "{\"embedding_model\":null,\"vector_dims\":null,\"semantic_search_enabled\":false}"@,
            ),
        ]);
    }
    write_object(&members).as_str().as_bytes_vec()
}

/// Whether `after` is `before` with the description dated `now_ms` written
/// into each of the eight unencrypted partitions.
pub open spec fn is_described(after: &KnowledgeStore, before: &KnowledgeStore, now_ms: i64) -> bool {
    forall|slot_id: u8|
        1 <= slot_id <= 8 ==> #[trigger] after.partition(slot_id) == before.partition(
            slot_id,
        ).insert(key_bytes(KB_METADATA_KEY@), metadata_bytes(slot_id, now_ms))
}

/// The status of a partition for the outcome of counting its entries: the
/// count, or why the partition could not be read.
pub open spec fn slot_status(
    slot_id: u8,
    counted: Result<usize, Seq<char>>,
    shadow_unlocked: bool,
    status: KbStatus,
) -> bool {
    &&& status.slot_id == slot_id
    &&& status.name@ == slot_label(slot_id)
    &&& status.tree_name@ == slot_tree_name(slot_id)
    &&& match counted {
        Ok(entry_count) => {
            &&& status.connected
            &&& status.entry_count == entry_count
            &&& text_opt(status.error) == (if slot_id == SHADOW_SLOT_ID && !shadow_unlocked {
                Some(locked_notice())
            } else {
                None
            })
        },
        Err(reason) => {
            &&& !status.connected
            &&& status.entry_count == 0
            &&& text_opt(status.error) == Some(reason)
        },
    }
}

/// Describes a partition from the outcome of counting its entries.
pub fn describe_slot(slot_id: u8, counted: Result<usize, String>, shadow_unlocked: bool) -> (status:
    KbStatus)
    ensures
        slot_status(
            slot_id,
            match counted {
                Ok(n) => Ok(n),
                Err(reason) => Err(reason@),
            },
            shadow_unlocked,
            status,
        ),
{
    let name = String::from_str(pagi_kb_slot_label(slot_id));
    let tree_name = String::from_str(tree_name_of(slot_id));
    match counted {
        Ok(entry_count) => {
            let error = if slot_id == SHADOW_SLOT_ID && !shadow_unlocked {
                Some(String::from_str("LOCKED (no master key)"))
            } else {
                None
            };
            KbStatus { slot_id, name, tree_name, connected: true, entry_count, error }
        },
        Err(reason) => KbStatus {
            slot_id,
            name,
            tree_name,
            connected: false,
            entry_count: 0,
            error: Some(reason),
        },
    }
}

impl KnowledgeStore {
    /// Writes into each of the eight unencrypted partitions a description
    /// of it, dated `now_ms`, over any earlier one.
    pub fn init_kb_metadata_at(&mut self, now_ms: i64) -> (outcome: Result<(), StoreError>)
        ensures
            final(self).shadow_key() == old(self).shadow_key(),
            final(self).partition(SHADOW_SLOT_ID) == old(self).partition(SHADOW_SLOT_ID),
            match outcome {
                Ok(_) => is_described(final(self), old(self), now_ms),
                Err(e) => e is Io,
            },
    {
        let mut slot_id: u8 = 1;
        while slot_id <= 8
            invariant
                1 <= slot_id <= 9,
                self.shadow_key() == old(self).shadow_key(),
                forall|done: u8|
                    1 <= done < slot_id ==> #[trigger] self.partition(done) == old(self).partition(
                        done,
                    ).insert(key_bytes(KB_METADATA_KEY@), metadata_bytes(done, now_ms)),
                forall|rest: u8|
                    slot_id <= rest <= 9 ==> #[trigger] self.partition(rest) == old(
                        self,
                    ).partition(rest),
            decreases 9 - slot_id,
        {
            let bytes = write_metadata(slot_id, now_ms);
            match self.put(slot_id, KB_METADATA_KEY, bytes.as_slice()) {
                Ok(_) => {},
                Err(e) => {
                    return Err(e);
                },
            }
            slot_id = slot_id + 1;
        }
        Ok(())
    }

    /// Writes into each of the eight unencrypted partitions a description
    /// of it, dated now. Safe to call again.
    pub fn pagi_init_kb_metadata(&mut self) -> (outcome: Result<(), StoreError>)
        ensures
            final(self).shadow_key() == old(self).shadow_key(),
            final(self).partition(SHADOW_SLOT_ID) == old(self).partition(SHADOW_SLOT_ID),
            match outcome {
                Ok(_) => exists|now_ms: i64| #[trigger] is_described(final(self), old(self), now_ms),
                Err(e) => e is Io,
            },
    {
        self.init_kb_metadata_at(now_ms())
    }

    /// Returns the status of one partition.
    pub fn get_status(&self, slot_id: u8) -> (status: KbStatus)
        ensures
            is_status_of(self, slot_id, status),
    {
        let counted = match self.count(slot_id) {
            Ok(entry_count) => Ok(entry_count),
            Err(StoreError::Io(inner)) => Err(error_text(&inner)),
            Err(StoreError::Open(inner)) => Err(error_text(&inner)),
            Err(_) => Err(String::from_str("unavailable")),
        };
        describe_slot(slot_id, counted, self.is_shadow_unlocked())
    }

    /// Returns the status of all nine partitions, in slot order.
    pub fn get_all_status(&self) -> (statuses: Vec<KbStatus>)
        ensures
            is_status_listing(self, statuses@),
    {
        let mut statuses: Vec<KbStatus> = Vec::new();
        let mut slot_id: u8 = 1;
        while slot_id <= 9
            invariant
                1 <= slot_id <= 10,
                statuses@.len() == slot_id - 1,
                forall|i: int|
                    0 <= i < statuses@.len() ==> is_status_of(
                        self,
                        (i + 1) as u8,
                        #[trigger] statuses@[i],
                    ),
            decreases 10 - slot_id,
        {
            let status = self.get_status(slot_id);
            statuses.push(status);
            slot_id = slot_id + 1;
        }
        statuses
    }

    /// Returns the sovereign snapshot. Nothing is written; the effective
    /// mental state and the bio gate are computed from the soma state that
    /// the snapshot carries.
    pub fn get_full_sovereign_state(&self, agent_id: &str) -> (state: SovereignState)
        ensures
            is_snapshot_of(self, state),
    {
        let kb_statuses = self.get_all_status();
        let soma = match self.get_soma_state() {
            Ok(soma) => soma,
            Err(_) => SomaState::default(),
        };
        let bio_gate_active = soma.needs_biogate_adjustment();
        let ethos = match self.get_ethos_philosophical_policy() {
            Ok(Some(policy)) => Some(policy),
            _ => None,
        };
        let mental = self.effective_mental_state_under(agent_id, &soma);
        let people = match self.list_people() {
            Ok(people) => people,
            Err(_) => Vec::new(),
        };
        let governance_summary = match self.get_governance_summary() {
            Ok(Some(text)) => Some(text),
            _ => None,
        };
        let governed_tasks = match self.list_governed_tasks() {
            Ok(tasks) => tasks,
            Err(_) => Vec::new(),
        };
        let shadow_unlocked = self.is_shadow_unlocked();
        SovereignState {
            kb_statuses,
            soma,
            bio_gate_active,
            ethos,
            mental,
            people,
            governance_summary,
            governed_tasks,
            shadow_unlocked,
        }
    }
}

} // verus!
