//! Soma, slot 8: biometric state and the agents' inboxes.
//!
//! A message to an agent is stored under `inbox/{agent}/{timestamp_ms}_{id}`.

use crate::clock::now_ms;
use crate::ident::fresh_id;
use crate::json::{
    bool_or, get_bool_or, get_int, get_milli_or, get_raw_or_null, get_text, json_members,
    json_quoted, member_views, milli_or, object_text, push_member, quote, raw_or_null,
    read_members, required_int, required_text, write_object,
};
use crate::ranking::{is_ranked, is_top_of, top_ranked, Ranked};
use crate::record::{
    collect_keyed_under, collect_under, is_state_outcome, keyed_under, keyed_views, record_views,
    stored_under, Stored,
};
use crate::scalar::{milli_text, write_milli};
use crate::store::{entry_views, key_bytes, KnowledgeStore, StoreError};
use crate::text::{decimal, decimal_text};
use vstd::prelude::*;
use vstd::utf8::encode_utf8;

verus! {

/// Slot number of the Soma partition.
pub const SOMA_SLOT_ID: u8 = 8;

/// Sleep score below which sleep counts as poor, in thousandths of a point.
pub const POOR_SLEEP_SCORE: u32 = 60_000;

/// Sleep score where none is known, in thousandths of a point.
pub const FULL_SLEEP_SCORE: u32 = 100_000;

/// Hours of sleep below which the body calls for easing, in thousandths.
pub const SHORT_SLEEP_HOURS: u32 = 6_000;

/// Hours of sleep where none are known, in thousandths.
pub const RESTED_SLEEP_HOURS: u32 = 8_000;

/// Readiness below which the body calls for easing.
pub const LOW_READINESS: u32 = 50;

/// The highest readiness score.
pub const FULL_READINESS: u32 = 100;

/// The older physiological signal: one sleep score.
#[derive(Debug, Clone, Copy, PartialEq, Eq, Structural)]
pub struct BiometricState {
    /// Sleep score from 0 to 100 points, in thousandths of a point.
    pub sleep_score: u32,
}

impl View for BiometricState {
    type V = BiometricState;

    open spec fn view(&self) -> BiometricState {
        *self
    }
}

impl BiometricState {
    /// The state with nothing known: a full sleep score.
    pub open spec fn spec_default() -> BiometricState {
        BiometricState { sleep_score: FULL_SLEEP_SCORE }
    }

    /// Whether the sleep score is below 60 points.
    pub open spec fn spec_poor_sleep(&self) -> bool {
        self.sleep_score < POOR_SLEEP_SCORE
    }

    /// The members of the JSON object that the state is written as.
    pub open spec fn members(self) -> Seq<(Seq<char>, Seq<char>)> {
        seq![("sleep_score"@, milli_text(self.sleep_score))]
    }

    /// The state that the members of a JSON object spell.
    pub open spec fn of_members(members: Seq<(Seq<char>, Seq<char>)>) -> Option<BiometricState> {
        match milli_or(members, "sleep_score"@, FULL_SLEEP_SCORE) {
            Some(sleep_score) => Some(BiometricState { sleep_score }),
            None => None,
        }
    }

    /// The bytes that the state is stored as.
    pub open spec fn bytes(self) -> Seq<u8> {
        encode_utf8(object_text(self.members()))
    }

    /// The state that stored bytes spell.
    pub open spec fn of_bytes(bytes: Seq<u8>) -> Option<BiometricState> {
        match json_members(bytes) {
            Some(members) => BiometricState::of_members(members),
            None => None,
        }
    }

    /// Returns `true` where the sleep score is below 60 points.
    #[verifier::when_used_as_spec(spec_poor_sleep)]
    pub fn poor_sleep(&self) -> (yes: bool)
        ensures
            yes == self.spec_poor_sleep(),
    {
        self.sleep_score < POOR_SLEEP_SCORE
    }

    /// Writes the state as the bytes of a JSON object.
    pub fn to_bytes(&self) -> (bytes: Vec<u8>)
        ensures
            bytes@ == self.bytes(),
    {
        let mut members: Vec<(String, String)> = Vec::new();
        push_member(&mut members, "sleep_score", write_milli(self.sleep_score));
        proof {
            assert(member_views(members@) =~= self.members());
        }
        write_object(&members).as_str().as_bytes_vec()
    }

    /// Reads the state from the members of a JSON object.
    pub fn from_members(members: &Vec<(String, String)>) -> (state: Option<BiometricState>)
        ensures
            state == BiometricState::of_members(member_views(members@)),
    {
        match get_milli_or(members, "sleep_score", FULL_SLEEP_SCORE) {
            Some(sleep_score) => Some(BiometricState { sleep_score }),
            None => None,
        }
    }

    /// Reads the state from the bytes of a JSON object.
    pub fn from_bytes(bytes: &[u8]) -> (state: Option<BiometricState>)
        ensures
            state == BiometricState::of_bytes(bytes@),
    {
        match read_members(bytes) {
            Some(members) => BiometricState::from_members(&members),
            None => None,
        }
    }
}

impl Default for BiometricState {
    fn default() -> (state: BiometricState)
        ensures
            state == BiometricState::spec_default(),
    {
        BiometricState { sleep_score: FULL_SLEEP_SCORE }
    }
}

impl Stored for BiometricState {
    open spec fn decoded(bytes: Seq<u8>) -> Option<BiometricState> {
        BiometricState::of_bytes(bytes)
    }

    fn decode(bytes: &[u8]) -> (record: Option<BiometricState>) {
        BiometricState::from_bytes(bytes)
    }
}

/// The physiological signal: sleep, readiness, heart.
#[derive(Debug, Clone, Copy, PartialEq, Eq, Structural)]
pub struct SomaState {
    /// Hours of sleep, in thousandths of an hour.
    pub sleep_hours: u32,
    /// Readiness score from 0 to 100.
    pub readiness_score: u32,
    /// Resting heart rate in beats per minute.
    pub resting_hr: u32,
    /// Heart rate variability in milliseconds.
    pub hrv: u32,
}

impl View for SomaState {
    type V = SomaState;

    open spec fn view(&self) -> SomaState {
        *self
    }
}

impl SomaState {
    /// What is added to the burnout risk while the body calls for easing,
    /// in thousandths.
    pub const BURNOUT_RISK_INCREMENT: u32 = 150;

    /// The grace multiplier while the body calls for easing, in thousandths.
    pub const GRACE_MULTIPLIER_OVERRIDE: u32 = 1600;

    /// The state with nothing known: rested, fully ready.
    pub open spec fn spec_default() -> SomaState {
        SomaState {
            sleep_hours: RESTED_SLEEP_HOURS,
            readiness_score: FULL_READINESS,
            resting_hr: 0,
            hrv: 0,
        }
    }

    /// Whether the body calls for easing: readiness below 50, or less than
    /// six hours of sleep.
    pub open spec fn spec_needs_biogate_adjustment(&self) -> bool {
        self.readiness_score < LOW_READINESS || self.sleep_hours < SHORT_SLEEP_HOURS
    }

    /// The members of the JSON object that the state is written as.
    pub open spec fn members(self) -> Seq<(Seq<char>, Seq<char>)> {
        seq![
            ("sleep_hours"@, milli_text(self.sleep_hours)),
            ("readiness_score"@, decimal_text(self.readiness_score as int)),
            ("resting_hr"@, decimal_text(self.resting_hr as int)),
            ("hrv"@, decimal_text(self.hrv as int)),
        ]
    }

    /// A whole number from a member that may carry decimals, with a default
    /// and an upper bound.
    pub open spec fn whole_or(
        members: Seq<(Seq<char>, Seq<char>)>,
        name: Seq<char>,
        default: u32,
        most: u32,
    ) -> Option<u32> {
        match milli_or(members, name, 0) {
            Some(milli) => if crate::json::member(members, name) is None {
                Some(default)
            } else if milli / 1000 > most {
                Some(most)
            } else {
                Some(milli / 1000)
            },
            None => None,
        }
    }

    /// The state that the members of a JSON object spell, with defaults for
    /// what is missing; readiness is at most 100.
    pub open spec fn of_members(members: Seq<(Seq<char>, Seq<char>)>) -> Option<SomaState> {
        match (
            milli_or(members, "sleep_hours"@, RESTED_SLEEP_HOURS),
            SomaState::whole_or(members, "readiness_score"@, FULL_READINESS, FULL_READINESS),
            SomaState::whole_or(members, "resting_hr"@, 0, u32::MAX),
            SomaState::whole_or(members, "hrv"@, 0, u32::MAX),
        ) {
            (Some(sleep_hours), Some(readiness_score), Some(resting_hr), Some(hrv)) => Some(
                SomaState { sleep_hours, readiness_score, resting_hr, hrv },
            ),
            _ => None,
        }
    }

    /// The bytes that the state is stored as.
    pub open spec fn bytes(self) -> Seq<u8> {
        encode_utf8(object_text(self.members()))
    }

    /// The state that stored bytes spell.
    pub open spec fn of_bytes(bytes: Seq<u8>) -> Option<SomaState> {
        match json_members(bytes) {
            Some(members) => SomaState::of_members(members),
            None => None,
        }
    }

    /// Returns `true` where the body calls for easing.
    #[verifier::when_used_as_spec(spec_needs_biogate_adjustment)]
    pub fn needs_biogate_adjustment(&self) -> (yes: bool)
        ensures
            yes == self.spec_needs_biogate_adjustment(),
    {
        self.readiness_score < LOW_READINESS || self.sleep_hours < SHORT_SLEEP_HOURS
    }

    fn get_whole_or(members: &Vec<(String, String)>, name: &str, default: u32, most: u32) -> (value:
        Option<u32>)
        ensures
            value == SomaState::whole_or(member_views(members@), name@, default, most),
    {
        let present = crate::json::find_member(members, name).is_some();
        match get_milli_or(members, name, 0) {
            Some(milli) => if !present {
                Some(default)
            } else if milli / 1000 > most {
                Some(most)
            } else {
                Some(milli / 1000)
            },
            None => None,
        }
    }

    /// Writes the state as the bytes of a JSON object.
    pub fn to_bytes(&self) -> (bytes: Vec<u8>)
        ensures
            bytes@ == self.bytes(),
    {
        let mut members: Vec<(String, String)> = Vec::new();
        push_member(&mut members, "sleep_hours", write_milli(self.sleep_hours));
        push_member(&mut members, "readiness_score", decimal(self.readiness_score as i64));
        push_member(&mut members, "resting_hr", decimal(self.resting_hr as i64));
        push_member(&mut members, "hrv", decimal(self.hrv as i64));
        proof {
            assert(member_views(members@) =~= self.members());
        }
        write_object(&members).as_str().as_bytes_vec()
    }

    /// Reads the state from the members of a JSON object.
    pub fn from_members(members: &Vec<(String, String)>) -> (state: Option<SomaState>)
        ensures
            state == SomaState::of_members(member_views(members@)),
    {
        let sleep_hours = get_milli_or(members, "sleep_hours", RESTED_SLEEP_HOURS);
        let readiness_score = Self::get_whole_or(
            members,
            "readiness_score",
            FULL_READINESS,
            FULL_READINESS,
        );
        let resting_hr = Self::get_whole_or(members, "resting_hr", 0, u32::MAX);
        let hrv = Self::get_whole_or(members, "hrv", 0, u32::MAX);
        match (sleep_hours, readiness_score, resting_hr, hrv) {
            (Some(sleep_hours), Some(readiness_score), Some(resting_hr), Some(hrv)) => Some(
                SomaState { sleep_hours, readiness_score, resting_hr, hrv },
            ),
            _ => None,
        }
    }

    /// Reads the state from the bytes of a JSON object.
    pub fn from_bytes(bytes: &[u8]) -> (state: Option<SomaState>)
        ensures
            state == SomaState::of_bytes(bytes@),
    {
        match read_members(bytes) {
            Some(members) => SomaState::from_members(&members),
            None => None,
        }
    }
}

impl Default for SomaState {
    fn default() -> (state: SomaState)
        ensures
            state == SomaState::spec_default(),
    {
        SomaState {
            sleep_hours: RESTED_SLEEP_HOURS,
            readiness_score: FULL_READINESS,
            resting_hr: 0,
            hrv: 0,
        }
    }
}

impl Stored for SomaState {
    open spec fn decoded(bytes: Seq<u8>) -> Option<SomaState> {
        SomaState::of_bytes(bytes)
    }

    fn decode(bytes: &[u8]) -> (record: Option<SomaState>) {
        SomaState::from_bytes(bytes)
    }
}

/// A message from one agent to another.
#[derive(Debug, Clone)]
pub struct AgentMessage {
    /// Unique identifier of the message.
    pub id: String,
    /// The agent that sent the message.
    pub from_agent_id: String,
    /// The agent in whose inbox the message lies.
    pub target_agent_id: String,
    /// The payload, as JSON text.
    pub payload: String,
    /// Unix timestamp in milliseconds of when the message was sent.
    pub timestamp_ms: i64,
    /// Set once the receiver has handled the message.
    pub is_processed: bool,
}

/// The mathematical value of an [`AgentMessage`].
pub struct MessageView {
    pub id: Seq<char>,
    pub from_agent_id: Seq<char>,
    pub target_agent_id: Seq<char>,
    pub payload: Seq<char>,
    pub timestamp_ms: i64,
    pub is_processed: bool,
}

impl View for AgentMessage {
    type V = MessageView;

    open spec fn view(&self) -> MessageView {
        MessageView {
            id: self.id@,
            from_agent_id: self.from_agent_id@,
            target_agent_id: self.target_agent_id@,
            payload: self.payload@,
            timestamp_ms: self.timestamp_ms,
            is_processed: self.is_processed,
        }
    }
}

impl MessageView {
    /// The members of the JSON object that a message is written as.
    pub open spec fn members(self) -> Seq<(Seq<char>, Seq<char>)> {
        seq![
            ("id"@, json_quoted(self.id)),
            ("from_agent_id"@, json_quoted(self.from_agent_id)),
            ("target_agent_id"@, json_quoted(self.target_agent_id)),
            ("payload"@, self.payload),
            ("timestamp_ms"@, decimal_text(self.timestamp_ms as int)),
            (
                "is_processed"@,
                if self.is_processed {
                    "true"@
                } else {
                    "false"@
                },
            ),
        ]
    }

    /// The message that the members of a JSON object spell. A message
    /// that does not say whether it was processed was not.
    pub open spec fn of_members(members: Seq<(Seq<char>, Seq<char>)>) -> Option<MessageView> {
        match (
            required_text(members, "id"@),
            required_text(members, "from_agent_id"@),
            required_text(members, "target_agent_id"@),
            required_int(members, "timestamp_ms"@),
            bool_or(members, "is_processed"@, false),
        ) {
            (
                Some(id),
                Some(from_agent_id),
                Some(target_agent_id),
                Some(timestamp_ms),
                Some(is_processed),
            ) => Some(
                MessageView {
                    id,
                    from_agent_id,
                    target_agent_id,
                    payload: raw_or_null(members, "payload"@),
                    timestamp_ms,
                    is_processed,
                },
            ),
            _ => None,
        }
    }

    /// The bytes that a message is stored as.
    pub open spec fn bytes(self) -> Seq<u8> {
        encode_utf8(object_text(self.members()))
    }

    /// The message that stored bytes spell.
    pub open spec fn of_bytes(bytes: Seq<u8>) -> Option<MessageView> {
        match json_members(bytes) {
            Some(members) => MessageView::of_members(members),
            None => None,
        }
    }
}

impl AgentMessage {
    /// Writes the message as the bytes of a JSON object.
    pub fn to_bytes(&self) -> (bytes: Vec<u8>)
        ensures
            bytes@ == self@.bytes(),
    {
        let mut members: Vec<(String, String)> = Vec::new();
        push_member(&mut members, "id", quote(self.id.as_str()));
        push_member(&mut members, "from_agent_id", quote(self.from_agent_id.as_str()));
        push_member(&mut members, "target_agent_id", quote(self.target_agent_id.as_str()));
        push_member(&mut members, "payload", self.payload.clone());
        push_member(&mut members, "timestamp_ms", decimal(self.timestamp_ms));
        let flag = if self.is_processed {
            "true"
        } else {
            "false"
        };
        push_member(&mut members, "is_processed", String::from_str(flag));
        proof {
            assert(member_views(members@) =~= self@.members());
        }
        write_object(&members).as_str().as_bytes_vec()
    }

    /// Reads a message from the members of a JSON object.
    pub fn from_members(members: &Vec<(String, String)>) -> (message: Option<AgentMessage>)
        ensures
            match message {
                Some(m) => MessageView::of_members(member_views(members@)) == Some(m@),
                None => MessageView::of_members(member_views(members@)) is None,
            },
    {
        let id = get_text(members, "id");
        let from_agent_id = get_text(members, "from_agent_id");
        let target_agent_id = get_text(members, "target_agent_id");
        let timestamp_ms = get_int(members, "timestamp_ms");
        let is_processed = get_bool_or(members, "is_processed", false);
        match (id, from_agent_id, target_agent_id, timestamp_ms, is_processed) {
            (
                Some(id),
                Some(from_agent_id),
                Some(target_agent_id),
                Some(timestamp_ms),
                Some(is_processed),
            ) => Some(
                AgentMessage {
                    id,
                    from_agent_id,
                    target_agent_id,
                    payload: get_raw_or_null(members, "payload"),
                    timestamp_ms,
                    is_processed,
                },
            ),
            _ => None,
        }
    }

    /// Reads a message from the bytes of a JSON object.
    pub fn from_bytes(bytes: &[u8]) -> (message: Option<AgentMessage>)
        ensures
            match message {
                Some(m) => MessageView::of_bytes(bytes@) == Some(m@),
                None => MessageView::of_bytes(bytes@) is None,
            },
    {
        match read_members(bytes) {
            Some(members) => AgentMessage::from_members(&members),
            None => None,
        }
    }
}

impl Stored for AgentMessage {
    open spec fn decoded(bytes: Seq<u8>) -> Option<MessageView> {
        MessageView::of_bytes(bytes)
    }

    fn decode(bytes: &[u8]) -> (record: Option<AgentMessage>) {
        AgentMessage::from_bytes(bytes)
    }
}

impl Ranked for (String, AgentMessage) {
    /// Newest first.
    open spec fn ranks_before(&self, other: &(String, AgentMessage)) -> bool {
        self.1.timestamp_ms >= other.1.timestamp_ms
    }

    fn before(&self, other: &(String, AgentMessage)) -> (yes: bool) {
        self.1.timestamp_ms >= other.1.timestamp_ms
    }

    proof fn lemma_total(a: &(String, AgentMessage), b: &(String, AgentMessage)) {
    }

    proof fn lemma_transitive(
        a: &(String, AgentMessage),
        b: &(String, AgentMessage),
        c: &(String, AgentMessage),
    ) {
    }
}

/// The key prefix of an agent's inbox.
pub open spec fn inbox_prefix(target_agent_id: Seq<char>) -> Seq<char> {
    "inbox/"@ + target_agent_id + "/"@
}

/// The key of a message in an agent's inbox.
pub open spec fn inbox_key(target_agent_id: Seq<char>, timestamp_ms: i64, id: Seq<char>) -> Seq<
    char,
> {
    inbox_prefix(target_agent_id) + decimal_text(timestamp_ms as int) + "_"@ + id
}

/// The message that an agent sends: not yet processed.
pub open spec fn sent_message(
    from_agent_id: Seq<char>,
    target_agent_id: Seq<char>,
    payload: Seq<char>,
    id: Seq<char>,
    timestamp_ms: i64,
) -> MessageView {
    MessageView { id, from_agent_id, target_agent_id, payload, timestamp_ms, is_processed: false }
}

/// Returns the key prefix of an agent's inbox.
pub fn soma_inbox_prefix(target_agent_id: &str) -> (prefix: String)
    ensures
        prefix@ == inbox_prefix(target_agent_id@),
{
    let mut prefix = String::from_str("inbox/");
    prefix.append(target_agent_id);
    prefix.append("/");
    prefix
}

/// Returns the key of a message in an agent's inbox.
pub fn soma_inbox_key(target_agent_id: &str, timestamp_ms: i64, id: &str) -> (key: String)
    ensures
        key@ == inbox_key(target_agent_id@, timestamp_ms, id@),
{
    let mut key = soma_inbox_prefix(target_agent_id);
    let stamp = decimal(timestamp_ms);
    key.append(stamp.as_str());
    key.append("_");
    key.append(id);
    key
}

/// Whether `messages` are the `limit` newest messages of an agent's inbox
/// among `entries`, newest first, each with its key.
pub open spec fn is_inbox_selection(
    messages: Seq<(String, AgentMessage)>,
    entries: Seq<(Seq<char>, Seq<u8>)>,
    target_agent_id: Seq<char>,
    limit: nat,
) -> bool {
    exists|found: Seq<(String, AgentMessage)>| #[trigger]
        keyed_views(found) == keyed_under::<AgentMessage>(entries, inbox_prefix(target_agent_id))
            && is_top_of(messages, found, limit)
}

/// Selects the `limit` newest messages of an agent's inbox among scanned
/// entries, newest first, each with its key.
pub fn inbox_among(entries: &Vec<(String, Vec<u8>)>, target_agent_id: &str, limit: usize) -> (messages:
    Vec<(String, AgentMessage)>)
    ensures
        is_inbox_selection(messages@, entry_views(entries@), target_agent_id@, limit as nat),
        is_ranked(messages@),
        messages@.len() <= limit,
{
    let prefix = soma_inbox_prefix(target_agent_id);
    let found = collect_keyed_under::<AgentMessage>(entries, prefix.as_str());
    let ghost all = found@;
    let messages = top_ranked(found, limit);
    proof {
        assert(keyed_views(all) == keyed_under::<AgentMessage>(
            entry_views(entries@),
            inbox_prefix(target_agent_id@),
        ) && is_top_of(messages@, all, limit as nat));
    }
    messages
}

impl Ranked for AgentMessage {
    /// Newest first.
    open spec fn ranks_before(&self, other: &AgentMessage) -> bool {
        self.timestamp_ms >= other.timestamp_ms
    }

    fn before(&self, other: &AgentMessage) -> (yes: bool) {
        self.timestamp_ms >= other.timestamp_ms
    }

    proof fn lemma_total(a: &AgentMessage, b: &AgentMessage) {
    }

    proof fn lemma_transitive(a: &AgentMessage, b: &AgentMessage, c: &AgentMessage) {
    }
}

/// Whether `messages` are the `limit` newest messages of an agent's inbox
/// among `entries`, newest first.
pub open spec fn is_message_selection(
    messages: Seq<AgentMessage>,
    entries: Seq<(Seq<char>, Seq<u8>)>,
    target_agent_id: Seq<char>,
    limit: nat,
) -> bool {
    exists|found: Seq<AgentMessage>| #[trigger]
        record_views(found) == stored_under::<AgentMessage>(entries, inbox_prefix(target_agent_id))
            && is_top_of(messages, found, limit)
}

/// Selects the `limit` newest messages of an agent's inbox among scanned
/// entries, newest first.
pub fn messages_among(entries: &Vec<(String, Vec<u8>)>, target_agent_id: &str, limit: usize) -> (messages:
    Vec<AgentMessage>)
    ensures
        is_message_selection(messages@, entry_views(entries@), target_agent_id@, limit as nat),
        is_ranked(messages@),
        messages@.len() <= limit,
{
    let prefix = soma_inbox_prefix(target_agent_id);
    let found = collect_under::<AgentMessage>(entries, prefix.as_str());
    let ghost all = found@;
    let messages = top_ranked(found, limit);
    proof {
        assert(record_views(all) == stored_under::<AgentMessage>(
            entry_views(entries@),
            inbox_prefix(target_agent_id@),
        ) && is_top_of(messages@, all, limit as nat));
    }
    messages
}

impl KnowledgeStore {
    /// Key of the current biometric state.
    pub const BIOMETRIC_STATE_KEY: &'static str = "biometric/current";

    /// Key of the current soma state.
    pub const SOMA_STATE_KEY: &'static str = "soma/current";

    /// Returns the current biometric state: the stored one, or the default
    /// where none is stored. A stored state that does not read and a failed
    /// read are surfaced.
    pub fn get_biometric_state(&self) -> (state: Result<BiometricState, StoreError>)
        ensures
            is_state_outcome::<BiometricState>(
                self.partition(SOMA_SLOT_ID),
                key_bytes(KnowledgeStore::BIOMETRIC_STATE_KEY@),
                BiometricState::spec_default(),
                state,
            ),
    {
        self.get_state::<BiometricState>(
            SOMA_SLOT_ID,
            Self::BIOMETRIC_STATE_KEY,
            BiometricState::default(),
        )
    }

    /// Stores the current biometric state.
    pub fn set_biometric_state(&mut self, state: &BiometricState) -> (outcome: Result<
        (),
        StoreError,
    >)
        ensures
            final(self).wrote(
                old(self),
                SOMA_SLOT_ID,
                KnowledgeStore::BIOMETRIC_STATE_KEY@,
                state.bytes(),
                outcome,
            ),
    {
        let bytes = state.to_bytes();
        self.put(SOMA_SLOT_ID, Self::BIOMETRIC_STATE_KEY, bytes.as_slice())
    }

    /// Returns the current soma state: the stored one, or the default where
    /// none is stored. A stored state that does not read and a failed read
    /// are surfaced.
    pub fn get_soma_state(&self) -> (state: Result<SomaState, StoreError>)
        ensures
            is_state_outcome::<SomaState>(
                self.partition(SOMA_SLOT_ID),
                key_bytes(KnowledgeStore::SOMA_STATE_KEY@),
                SomaState::spec_default(),
                state,
            ),
    {
        self.get_state::<SomaState>(SOMA_SLOT_ID, Self::SOMA_STATE_KEY, SomaState::default())
    }

    /// Stores the current soma state.
    pub fn set_soma_state(&mut self, state: &SomaState) -> (outcome: Result<(), StoreError>)
        ensures
            final(self).wrote(
                old(self),
                SOMA_SLOT_ID,
                KnowledgeStore::SOMA_STATE_KEY@,
                state.bytes(),
                outcome,
            ),
    {
        let bytes = state.to_bytes();
        self.put(SOMA_SLOT_ID, Self::SOMA_STATE_KEY, bytes.as_slice())
    }

    /// Puts a message with a given id and timestamp into the inbox of the
    /// target agent.
    pub fn push_agent_message_as(
        &mut self,
        from_agent_id: &str,
        target_agent_id: &str,
        payload: &str,
        id: &str,
        timestamp_ms: i64,
    ) -> (outcome: Result<(), StoreError>)
        ensures
            final(self).wrote(
                old(self),
                SOMA_SLOT_ID,
                inbox_key(target_agent_id@, timestamp_ms, id@),
                sent_message(from_agent_id@, target_agent_id@, payload@, id@, timestamp_ms).bytes(),
                outcome,
            ),
    {
        let message = AgentMessage {
            id: String::from_str(id),
            from_agent_id: String::from_str(from_agent_id),
            target_agent_id: String::from_str(target_agent_id),
            payload: String::from_str(payload),
            timestamp_ms,
            is_processed: false,
        };
        let key = soma_inbox_key(target_agent_id, timestamp_ms, id);
        let bytes = message.to_bytes();
        self.put(SOMA_SLOT_ID, key.as_str(), bytes.as_slice())
    }

    /// Puts a message into the inbox of the target agent, with a fresh id
    /// and the current time, and returns the id. The payload is JSON text.
    pub fn push_agent_message(&mut self, from_agent_id: &str, target_agent_id: &str, payload: &str) -> (sent:
        Result<String, StoreError>)
        ensures
            exists|timestamp_ms: i64, id: Seq<char>| #[trigger]
                final(self).wrote(
                    old(self),
                    SOMA_SLOT_ID,
                    inbox_key(target_agent_id@, timestamp_ms, id),
                    sent_message(from_agent_id@, target_agent_id@, payload@, id, timestamp_ms).bytes(),
                    crate::store::outcome_of(sent),
                ) && (sent matches Ok(returned) ==> returned@ == id),
    {
        let timestamp_ms = now_ms();
        let id = fresh_id();
        let ghost unique = id@;
        let outcome = self.push_agent_message_as(
            from_agent_id,
            target_agent_id,
            payload,
            id.as_str(),
            timestamp_ms,
        );
        let ghost ended = outcome;
        let sent = match outcome {
            Ok(_) => Ok(id),
            Err(e) => Err(e),
        };
        proof {
            assert(ended is Ok ==> ended->Ok_0 == ());
            assert(crate::store::outcome_of(sent) == ended);
            assert(self.wrote(
                old(self),
                SOMA_SLOT_ID,
                inbox_key(target_agent_id@, timestamp_ms, unique),
                sent_message(from_agent_id@, target_agent_id@, payload@, unique, timestamp_ms).bytes(),
                crate::store::outcome_of(sent),
            ) && (sent matches Ok(returned) ==> returned@ == unique));
        }
        sent
    }

    /// Returns the most recent messages in an agent's inbox, newest first,
    /// each with its key, so that the receiver can mark a message as
    /// processed by writing it back under the same key.
    pub fn get_agent_messages_with_keys(&self, target_agent_id: &str, limit: usize) -> (inbox: Result<
        Vec<(String, AgentMessage)>,
        StoreError,
    >)
        ensures
            match inbox {
                Ok(messages) => {
                    &&& exists|entries: Seq<(Seq<char>, Seq<u8>)>| #[trigger]
                        self.lists(SOMA_SLOT_ID, entries) && is_inbox_selection(
                            messages@,
                            entries,
                            target_agent_id@,
                            limit as nat,
                        )
                    &&& is_ranked(messages@)
                    &&& messages@.len() <= limit
                },
                Err(e) => e is Io,
            },
    {
        let entries = match self.scan_kv(SOMA_SLOT_ID) {
            Ok(entries) => entries,
            Err(e) => {
                return Err(e);
            },
        };
        let messages = inbox_among(&entries, target_agent_id, limit);
        proof {
            assert(self.lists(SOMA_SLOT_ID, entry_views(entries@)) && is_inbox_selection(
                messages@,
                entry_views(entries@),
                target_agent_id@,
                limit as nat,
            ));
        }
        Ok(messages)
    }

    /// Returns the most recent messages in an agent's inbox, newest first.
    pub fn get_agent_messages(&self, target_agent_id: &str, limit: usize) -> (inbox: Result<
        Vec<AgentMessage>,
        StoreError,
    >)
        ensures
            match inbox {
                Ok(messages) => {
                    &&& exists|entries: Seq<(Seq<char>, Seq<u8>)>| #[trigger]
                        self.lists(SOMA_SLOT_ID, entries) && is_message_selection(
                            messages@,
                            entries,
                            target_agent_id@,
                            limit as nat,
                        )
                    &&& is_ranked(messages@)
                    &&& messages@.len() <= limit
                },
                Err(e) => e is Io,
            },
    {
        let entries = match self.scan_kv(SOMA_SLOT_ID) {
            Ok(entries) => entries,
            Err(e) => {
                return Err(e);
            },
        };
        let messages = messages_among(&entries, target_agent_id, limit);
        proof {
            assert(self.lists(SOMA_SLOT_ID, entry_views(entries@)) && is_message_selection(
                messages@,
                entry_views(entries@),
                target_agent_id@,
                limit as nat,
            ));
        }
        Ok(messages)
    }
}

} // verus!
