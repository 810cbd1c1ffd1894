//! Chronos, slot 4: episodic events, one stream per agent.
//!
//! An event is stored under `event/{agent}/{timestamp_ms}_{unique}`.

use crate::clock::now_ms;
use crate::ident::fresh_id;
use crate::json::{
    get_int, get_optional_text, get_text, json_members, json_quoted, member_views, object_text,
    optional_text, push_member, quote, read_members, required_int, required_text, text_opt,
    write_object,
};
use crate::ranking::{is_ranked, is_top_of, top_ranked, Ranked};
use crate::record::{collect_under, record_views, stored_under, Stored};
use crate::store::{entry_views, KnowledgeStore, StoreError};
use crate::tenant::{agent_or_default, resolved_agent};
use crate::text::{decimal, decimal_text};
use vstd::prelude::*;
use vstd::utf8::encode_utf8;

verus! {

/// Slot number of the Chronos partition.
pub const CHRONOS_SLOT_ID: u8 = 4;

/// An episodic memory event.
#[derive(Debug, Clone)]
pub struct EventRecord {
    /// Unix timestamp in milliseconds of when the event occurred.
    pub timestamp_ms: i64,
    /// Name of the partition that the event came from.
    pub source_kb: String,
    /// Skill or action name, if any.
    pub skill_name: Option<String>,
    /// Summary of what was done and why it matters.
    pub reflection: String,
    /// Summary of the outcome, if any.
    pub outcome: Option<String>,
}

/// The mathematical value of an [`EventRecord`].
pub struct EventView {
    pub timestamp_ms: i64,
    pub source_kb: Seq<char>,
    pub skill_name: Option<Seq<char>>,
    pub reflection: Seq<char>,
    pub outcome: Option<Seq<char>>,
}

impl View for EventRecord {
    type V = EventView;

    open spec fn view(&self) -> EventView {
        EventView {
            timestamp_ms: self.timestamp_ms,
            source_kb: self.source_kb@,
            skill_name: text_opt(self.skill_name),
            reflection: self.reflection@,
            outcome: text_opt(self.outcome),
        }
    }
}

/// A member that is written only where its value is present.
pub open spec fn optional_member(name: Seq<char>, value: Option<Seq<char>>) -> Seq<
    (Seq<char>, Seq<char>),
> {
    match value {
        Some(text) => seq![(name, json_quoted(text))],
        None => Seq::empty(),
    }
}

impl EventView {
    /// The members of the JSON object that an event is written as.
    pub open spec fn members(self) -> Seq<(Seq<char>, Seq<char>)> {
        seq![
            ("timestamp_ms"@, decimal_text(self.timestamp_ms as int)),
            ("source_kb"@, json_quoted(self.source_kb)),
        ] + optional_member("skill_name"@, self.skill_name) + seq![
            ("reflection"@, json_quoted(self.reflection)),
        ] + optional_member("outcome"@, self.outcome)
    }

    /// The event that the members of a JSON object spell. Timestamp, source
    /// and reflection are required; unknown members are ignored.
    pub open spec fn of_members(members: Seq<(Seq<char>, Seq<char>)>) -> Option<EventView> {
        match (
            required_int(members, "timestamp_ms"@),
            required_text(members, "source_kb"@),
            optional_text(members, "skill_name"@),
            required_text(members, "reflection"@),
            optional_text(members, "outcome"@),
        ) {
            (Some(timestamp_ms), Some(source_kb), Some(skill_name), Some(reflection), Some(outcome)) => Some(
                EventView { timestamp_ms, source_kb, skill_name, reflection, outcome },
            ),
            _ => None,
        }
    }

    /// The bytes that an event is stored as.
    pub open spec fn bytes(self) -> Seq<u8> {
        encode_utf8(object_text(self.members()))
    }

    /// The event that stored bytes spell.
    pub open spec fn of_bytes(bytes: Seq<u8>) -> Option<EventView> {
        match json_members(bytes) {
            Some(members) => EventView::of_members(members),
            None => None,
        }
    }
}

/// The key prefix of an agent's event stream.
pub open spec fn event_prefix(agent_id: Seq<char>) -> Seq<char> {
    "event/"@ + resolved_agent(agent_id) + "/"@
}

/// The key of an event.
pub open spec fn event_key(agent_id: Seq<char>, timestamp_ms: i64, unique: Seq<char>) -> Seq<char> {
    event_prefix(agent_id) + decimal_text(timestamp_ms as int) + "_"@ + unique
}

/// Returns the key prefix of an agent's event stream.
pub fn chronos_event_prefix(agent_id: &str) -> (prefix: String)
    ensures
        prefix@ == event_prefix(agent_id@),
{
    let mut prefix = String::from_str("event/");
    prefix.append(agent_or_default(agent_id));
    prefix.append("/");
    prefix
}

/// Returns the key of an event from its agent, its timestamp and a suffix
/// that makes it unique within the millisecond.
pub fn chronos_event_key(agent_id: &str, timestamp_ms: i64, unique: &str) -> (key: String)
    ensures
        key@ == event_key(agent_id@, timestamp_ms, unique@),
{
    let mut key = chronos_event_prefix(agent_id);
    let stamp = decimal(timestamp_ms);
    key.append(stamp.as_str());
    key.append("_");
    key.append(unique);
    key
}

impl EventRecord {
    /// Creates an event with the current timestamp.
    pub fn now(source_kb: &str, reflection: &str) -> (event: EventRecord)
        ensures
            event@.source_kb == source_kb@,
            event@.reflection == reflection@,
            event@.skill_name is None,
            event@.outcome is None,
    {
        EventRecord::at(now_ms(), source_kb, reflection)
    }

    /// Creates an event with a given timestamp.
    pub fn at(timestamp_ms: i64, source_kb: &str, reflection: &str) -> (event: EventRecord)
        ensures
            event@ == (EventView {
                timestamp_ms,
                source_kb: source_kb@,
                skill_name: None,
                reflection: reflection@,
                outcome: None,
            }),
    {
        EventRecord {
            timestamp_ms,
            source_kb: String::from_str(source_kb),
            skill_name: None,
            reflection: String::from_str(reflection),
            outcome: None,
        }
    }

    /// Sets the skill name.
    pub fn with_skill(self, name: &str) -> (event: EventRecord)
        ensures
            event@ == (EventView { skill_name: Some(name@), ..self@ }),
    {
        let mut event = self;
        event.skill_name = Some(String::from_str(name));
        event
    }

    /// Sets the outcome.
    pub fn with_outcome(self, outcome: &str) -> (event: EventRecord)
        ensures
            event@ == (EventView { outcome: Some(outcome@), ..self@ }),
    {
        let mut event = self;
        event.outcome = Some(String::from_str(outcome));
        event
    }

    /// Writes the event as the bytes of a JSON object.
    pub fn to_bytes(&self) -> (bytes: Vec<u8>)
        ensures
            bytes@ == self@.bytes(),
    {
        let mut members: Vec<(String, String)> = Vec::new();
        push_member(&mut members, "timestamp_ms", decimal(self.timestamp_ms));
        push_member(&mut members, "source_kb", quote(self.source_kb.as_str()));
        match &self.skill_name {
            Some(name) => {
                push_member(&mut members, "skill_name", quote(name.as_str()));
            },
            None => {},
        }
        push_member(&mut members, "reflection", quote(self.reflection.as_str()));
        match &self.outcome {
            Some(outcome) => {
                push_member(&mut members, "outcome", quote(outcome.as_str()));
            },
            None => {},
        }
        proof {
            assert(member_views(members@) =~= self@.members());
        }
        write_object(&members).as_str().as_bytes_vec()
    }

    /// Reads an event from the members of a JSON object.
    pub fn from_members(members: &Vec<(String, String)>) -> (event: Option<EventRecord>)
        ensures
            match event {
                Some(e) => EventView::of_members(member_views(members@)) == Some(e@),
                None => EventView::of_members(member_views(members@)) is None,
            },
    {
        let timestamp_ms = get_int(members, "timestamp_ms");
        let source_kb = get_text(members, "source_kb");
        let skill_name = get_optional_text(members, "skill_name");
        let reflection = get_text(members, "reflection");
        let outcome = get_optional_text(members, "outcome");
        match (timestamp_ms, source_kb, skill_name, reflection, outcome) {
            (Some(timestamp_ms), Some(source_kb), Some(skill_name), Some(reflection), Some(outcome)) => Some(
                EventRecord { timestamp_ms, source_kb, skill_name, reflection, outcome },
            ),
            _ => None,
        }
    }

    /// Reads an event from the bytes of a JSON object.
    pub fn from_bytes(bytes: &[u8]) -> (event: Option<EventRecord>)
        ensures
            match event {
                Some(e) => EventView::of_bytes(bytes@) == Some(e@),
                None => EventView::of_bytes(bytes@) is None,
            },
    {
        match read_members(bytes) {
            Some(members) => EventRecord::from_members(&members),
            None => None,
        }
    }
}

impl Stored for EventRecord {
    open spec fn decoded(bytes: Seq<u8>) -> Option<EventView> {
        EventView::of_bytes(bytes)
    }

    fn decode(bytes: &[u8]) -> (record: Option<EventRecord>) {
        EventRecord::from_bytes(bytes)
    }
}

impl Ranked for EventRecord {
    /// Newest first.
    open spec fn ranks_before(&self, other: &EventRecord) -> bool {
        self.timestamp_ms >= other.timestamp_ms
    }

    fn before(&self, other: &EventRecord) -> (yes: bool) {
        self.timestamp_ms >= other.timestamp_ms
    }

    proof fn lemma_total(a: &EventRecord, b: &EventRecord) {
    }

    proof fn lemma_transitive(a: &EventRecord, b: &EventRecord, c: &EventRecord) {
    }
}

/// Whether `events` are the `limit` newest events of an agent among
/// `entries`, newest first.
pub open spec fn is_recent_selection(
    events: Seq<EventRecord>,
    entries: Seq<(Seq<char>, Seq<u8>)>,
    agent_id: Seq<char>,
    limit: nat,
) -> bool {
    exists|found: Seq<EventRecord>| #[trigger]
        record_views(found) == stored_under::<EventRecord>(entries, event_prefix(agent_id))
            && is_top_of(events, found, limit)
}

/// Selects the `limit` newest events of an agent among scanned entries,
/// newest first.
pub fn recent_events_among(entries: &Vec<(String, Vec<u8>)>, agent_id: &str, limit: usize) -> (events:
    Vec<EventRecord>)
    ensures
        is_recent_selection(events@, entry_views(entries@), agent_id@, limit as nat),
        is_ranked(events@),
        events@.len() <= limit,
{
    let prefix = chronos_event_prefix(agent_id);
    let found = collect_under::<EventRecord>(entries, prefix.as_str());
    let ghost all = found@;
    let events = top_ranked(found, limit);
    proof {
        assert(record_views(all) == stored_under::<EventRecord>(
            entry_views(entries@),
            event_prefix(agent_id@),
        ) && is_top_of(events@, all, limit as nat));
    }
    events
}

impl KnowledgeStore {
    /// Appends an event to an agent's stream under a key with the given
    /// unique suffix.
    pub fn append_chronos_event_as(&mut self, agent_id: &str, event: &EventRecord, unique: &str) -> (outcome:
        Result<(), StoreError>)
        ensures
            final(self).wrote(
                old(self),
                CHRONOS_SLOT_ID,
                event_key(agent_id@, event.timestamp_ms, unique@),
                event@.bytes(),
                outcome,
            ),
    {
        let key = chronos_event_key(agent_id, event.timestamp_ms, unique);
        let bytes = event.to_bytes();
        self.put(CHRONOS_SLOT_ID, key.as_str(), bytes.as_slice())
    }

    /// Appends an event to an agent's stream. The key ends in a random
    /// identifier, so that events of one millisecond do not collide.
    pub fn append_chronos_event(&mut self, agent_id: &str, event: &EventRecord) -> (outcome: Result<
        (),
        StoreError,
    >)
        ensures
            exists|unique: Seq<char>| #[trigger]
                final(self).wrote(
                    old(self),
                    CHRONOS_SLOT_ID,
                    event_key(agent_id@, event.timestamp_ms, unique),
                    event@.bytes(),
                    outcome,
                ),
    {
        let unique = fresh_id();
        self.append_chronos_event_as(agent_id, event, unique.as_str())
    }

    /// Returns the most recent events of an agent, newest first, at most
    /// `limit` of them. Entries that do not read as events are skipped.
    pub fn get_recent_chronos_events(&self, agent_id: &str, limit: usize) -> (recent: Result<
        Vec<EventRecord>,
        StoreError,
    >)
        ensures
            match recent {
                Ok(events) => {
                    &&& exists|entries: Seq<(Seq<char>, Seq<u8>)>| #[trigger]
                        self.lists(CHRONOS_SLOT_ID, entries) && is_recent_selection(
                            events@,
                            entries,
                            agent_id@,
                            limit as nat,
                        )
                    &&& is_ranked(events@)
                    &&& events@.len() <= limit
                },
                Err(e) => e is Io,
            },
    {
        let entries = match self.scan_kv(CHRONOS_SLOT_ID) {
            Ok(entries) => entries,
            Err(e) => {
                return Err(e);
            },
        };
        let events = recent_events_among(&entries, agent_id, limit);
        proof {
            assert(self.lists(CHRONOS_SLOT_ID, entry_views(entries@)) && is_recent_selection(
                events@,
                entry_views(entries@),
                agent_id@,
                limit as nat,
            ));
        }
        Ok(events)
    }
}

} // verus!
