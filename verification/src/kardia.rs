//! Kardia, slot 7: relations, the map of people, and the mental state.

use crate::chronos::{EventRecord, CHRONOS_SLOT_ID};
use crate::clock::now_ms;
use crate::json::{
    get_int_or, get_milli_or, get_raw_or_null, get_text, get_text_or_empty, int_or, json_members,
    json_quoted, member_views, milli_or, object_text, push_member, quote, raw_or_null,
    read_members, required_text, text_or_empty, write_object,
};
use crate::ranking::{is_ranking_of, sort_ranked, Ranked};
use crate::record::{
    collect_under, is_record_read, is_state_outcome, record_views, stored_under, Stored,
};
use crate::scalar::{clamp_milli, milli_text, write_milli, SCALE};
use crate::store::{entry_views, key_bytes, key_text, slot_index, KnowledgeStore, StoreError};
use crate::tenant::{agent_or_default, resolved_agent};
use crate::text::{
    decimal, decimal_text, lemma_text_le_total, lemma_text_le_transitive, lowercased, text_at_most,
    text_from_utf8, text_le, to_lowercase,
};
use vstd::prelude::*;
use vstd::utf8::encode_utf8;

verus! {

/// Slot number of the Kardia partition.
pub const KARDIA_SLOT_ID: u8 = 7;

/// Key prefix of the people in the relational map.
pub const KARDIA_PEOPLE_PREFIX: &'static str = "people/";

/// Key of the current mental state.
pub const MENTAL_STATE_KEY: &'static str = "mental_state/current";

/// Trust in a relation that states none, in thousandths.
pub const DEFAULT_TRUST: u32 = 500;

/// The key of a relation: `relation/{owner}/{target}`, with `default` for an
/// empty owner.
pub open spec fn relation_key(owner_agent_id: Seq<char>, target_id: Seq<char>) -> Seq<char> {
    "relation/"@ + resolved_agent(owner_agent_id) + "/"@ + target_id
}

/// Returns the key of the relation that an agent holds to a target.
pub fn kardia_relation_key(owner_agent_id: &str, target_id: &str) -> (key: String)
    ensures
        key@ == relation_key(owner_agent_id@, target_id@),
{
    let mut key = String::from_str("relation/");
    key.append(agent_or_default(owner_agent_id));
    key.append("/");
    key.append(target_id);
    key
}

/// How an agent stands to a user or to another agent.
#[derive(Debug, Clone)]
pub struct RelationRecord {
    /// User or tenant identifier.
    pub user_id: String,
    /// Trust in thousandths, from 0 to 1000.
    pub trust_score: u32,
    /// Detected or preferred communication style.
    pub communication_style: String,
    /// Last inferred sentiment.
    pub last_sentiment: String,
    /// Unix timestamp in milliseconds of the last update.
    pub last_updated_ms: i64,
}

/// The mathematical value of a [`RelationRecord`].
pub struct RelationView {
    pub user_id: Seq<char>,
    pub trust_score: u32,
    pub communication_style: Seq<char>,
    pub last_sentiment: Seq<char>,
    pub last_updated_ms: i64,
}

impl View for RelationRecord {
    type V = RelationView;

    open spec fn view(&self) -> RelationView {
        RelationView {
            user_id: self.user_id@,
            trust_score: self.trust_score,
            communication_style: self.communication_style@,
            last_sentiment: self.last_sentiment@,
            last_updated_ms: self.last_updated_ms,
        }
    }
}

/// A number of thousandths confined to the unit interval.
pub open spec fn unit_clamped(value: u32) -> u32 {
    if value > SCALE {
        SCALE
    } else {
        value
    }
}

impl RelationView {
    /// The relation with its trust confined to the unit interval.
    pub open spec fn clamped(self) -> RelationView {
        RelationView { trust_score: unit_clamped(self.trust_score), ..self }
    }

    /// The members of the JSON object that a relation is written as.
    pub open spec fn members(self) -> Seq<(Seq<char>, Seq<char>)> {
        seq![
            ("user_id"@, json_quoted(self.user_id)),
            ("trust_score"@, milli_text(self.trust_score)),
            ("communication_style"@, json_quoted(self.communication_style)),
            ("last_sentiment"@, json_quoted(self.last_sentiment)),
            ("last_updated_ms"@, decimal_text(self.last_updated_ms as int)),
        ]
    }

    /// The relation that the members of a JSON object spell. Only the user
    /// id is required; trust defaults to one half and is confined to the
    /// unit interval.
    pub open spec fn of_members(members: Seq<(Seq<char>, Seq<char>)>) -> Option<RelationView> {
        match (
            required_text(members, "user_id"@),
            milli_or(members, "trust_score"@, DEFAULT_TRUST),
            text_or_empty(members, "communication_style"@),
            text_or_empty(members, "last_sentiment"@),
            int_or(members, "last_updated_ms"@, 0),
        ) {
            (
                Some(user_id),
                Some(trust),
                Some(communication_style),
                Some(last_sentiment),
                Some(last_updated_ms),
            ) => Some(
                RelationView {
                    user_id,
                    trust_score: unit_clamped(trust),
                    communication_style,
                    last_sentiment,
                    last_updated_ms,
                },
            ),
            _ => None,
        }
    }

    /// The bytes that a relation is stored as.
    pub open spec fn bytes(self) -> Seq<u8> {
        encode_utf8(object_text(self.members()))
    }

    /// The relation that stored bytes spell.
    pub open spec fn of_bytes(bytes: Seq<u8>) -> Option<RelationView> {
        match json_members(bytes) {
            Some(members) => RelationView::of_members(members),
            None => None,
        }
    }

    /// The one-line context that a relation adds to a prompt: empty where
    /// neither sentiment nor style is known.
    pub open spec fn prompt_context(self) -> Seq<char> {
        if self.last_sentiment.len() == 0 && self.communication_style.len() == 0 {
            Seq::empty()
        } else {
            "[Relationship context: "@ + (if self.last_sentiment.len() > 0 {
                "User sentiment: "@ + self.last_sentiment
            } else {
                Seq::empty()
            }) + (if self.last_sentiment.len() > 0 && self.communication_style.len() > 0 {
                ". "@
            } else {
                Seq::empty()
            }) + (if self.communication_style.len() > 0 {
                "Communication style: "@ + self.communication_style
            } else {
                Seq::empty()
            }) + ". Adjust your tone accordingly.]\n\n"@
        }
    }
}

/// Every relation that is read from stored bytes has its trust in the unit
/// interval.
pub proof fn lemma_read_trust_in_unit_interval(bytes: Seq<u8>)
    ensures
        RelationView::of_bytes(bytes) matches Some(relation) ==> relation.trust_score <= SCALE,
{
}

impl RelationRecord {
    /// Creates a relation to `user_id` with trust one half, updated now.
    pub fn new(user_id: &str) -> (relation: RelationRecord)
        ensures
            relation@.user_id == user_id@,
            relation@.trust_score == DEFAULT_TRUST,
            relation@.communication_style.len() == 0,
            relation@.last_sentiment.len() == 0,
    {
        RelationRecord {
            user_id: String::from_str(user_id),
            trust_score: DEFAULT_TRUST,
            communication_style: String::new(),
            last_sentiment: String::new(),
            last_updated_ms: now_ms(),
        }
    }

    /// Sets the trust, confined to the unit interval.
    pub fn with_trust_score(self, score: u32) -> (relation: RelationRecord)
        ensures
            relation@ == (RelationView { trust_score: unit_clamped(score), ..self@ }),
            relation@.trust_score <= SCALE,
    {
        let mut relation = self;
        relation.trust_score = clamp_milli(score, 0, SCALE);
        relation
    }

    /// Sets the communication style.
    pub fn with_communication_style(self, style: &str) -> (relation: RelationRecord)
        ensures
            relation@ == (RelationView { communication_style: style@, ..self@ }),
    {
        let mut relation = self;
        relation.communication_style = String::from_str(style);
        relation
    }

    /// Sets the sentiment and marks the relation as updated now.
    pub fn with_sentiment(self, sentiment: &str) -> (relation: RelationRecord)
        ensures
            relation@ == (RelationView {
                last_sentiment: sentiment@,
                last_updated_ms: relation@.last_updated_ms,
                ..self@
            }),
    {
        let mut relation = self;
        relation.last_sentiment = String::from_str(sentiment);
        relation.last_updated_ms = now_ms();
        relation
    }

    /// Writes the relation as the bytes of a JSON object.
    pub fn to_bytes(&self) -> (bytes: Vec<u8>)
        ensures
            bytes@ == self@.bytes(),
    {
        let mut members: Vec<(String, String)> = Vec::new();
        push_member(&mut members, "user_id", quote(self.user_id.as_str()));
        push_member(&mut members, "trust_score", write_milli(self.trust_score));
        push_member(&mut members, "communication_style", quote(self.communication_style.as_str()));
        push_member(&mut members, "last_sentiment", quote(self.last_sentiment.as_str()));
        push_member(&mut members, "last_updated_ms", decimal(self.last_updated_ms));
        proof {
            assert(member_views(members@) =~= self@.members());
        }
        write_object(&members).as_str().as_bytes_vec()
    }

    /// Reads a relation from the members of a JSON object.
    pub fn from_members(members: &Vec<(String, String)>) -> (relation: Option<RelationRecord>)
        ensures
            match relation {
                Some(r) => RelationView::of_members(member_views(members@)) == Some(r@),
                None => RelationView::of_members(member_views(members@)) is None,
            },
            relation matches Some(r) ==> r.trust_score <= SCALE,
    {
        let user_id = get_text(members, "user_id");
        let trust = get_milli_or(members, "trust_score", DEFAULT_TRUST);
        let communication_style = get_text_or_empty(members, "communication_style");
        let last_sentiment = get_text_or_empty(members, "last_sentiment");
        let last_updated_ms = get_int_or(members, "last_updated_ms", 0);
        match (user_id, trust, communication_style, last_sentiment, last_updated_ms) {
            (
                Some(user_id),
                Some(trust),
                Some(communication_style),
                Some(last_sentiment),
                Some(last_updated_ms),
            ) => Some(
                RelationRecord {
                    user_id,
                    trust_score: clamp_milli(trust, 0, SCALE),
                    communication_style,
                    last_sentiment,
                    last_updated_ms,
                },
            ),
            _ => None,
        }
    }

    /// Reads a relation from the bytes of a JSON object.
    pub fn from_bytes(bytes: &[u8]) -> (relation: Option<RelationRecord>)
        ensures
            match relation {
                Some(r) => RelationView::of_bytes(bytes@) == Some(r@),
                None => RelationView::of_bytes(bytes@) is None,
            },
            relation matches Some(r) ==> r.trust_score <= SCALE,
    {
        match read_members(bytes) {
            Some(members) => RelationRecord::from_members(&members),
            None => None,
        }
    }

    /// Returns the one-line context that this relation adds to a prompt.
    pub fn prompt_context(&self) -> (context: String)
        ensures
            context@ == self@.prompt_context(),
    {
        let has_sentiment = !self.last_sentiment.as_str().is_empty();
        let has_style = !self.communication_style.as_str().is_empty();
        if !has_sentiment && !has_style {
            return String::new();
        }
        let mut context = String::from_str("[Relationship context: ");
        if has_sentiment {
            context.append("User sentiment: ");
            context.append(self.last_sentiment.as_str());
        }
        if has_sentiment && has_style {
            context.append(". ");
        }
        if has_style {
            context.append("Communication style: ");
            context.append(self.communication_style.as_str());
        }
        context.append(". Adjust your tone accordingly.]\n\n");
        proof {
            assert(context@ =~= self@.prompt_context());
        }
        context
    }
}

impl Stored for RelationRecord {
    open spec fn decoded(bytes: Seq<u8>) -> Option<RelationView> {
        RelationView::of_bytes(bytes)
    }

    fn decode(bytes: &[u8]) -> (record: Option<RelationRecord>) {
        RelationRecord::from_bytes(bytes)
    }
}

/// Whether a byte is an ASCII letter or digit.
pub open spec fn is_slug_byte(b: u8) -> bool {
    48 <= b <= 57 || 65 <= b <= 90 || 97 <= b <= 122
}

/// The slug of a run of bytes: letters and digits stay, every run of other
/// bytes becomes one underscore.
pub open spec fn slug_bytes(s: Seq<u8>) -> Seq<u8>
    decreases s.len(),
{
    if s.len() == 0 {
        Seq::empty()
    } else {
        let before = slug_bytes(s.drop_last());
        if is_slug_byte(s.last()) {
            before.push(s.last())
        } else if before.len() > 0 && before.last() == 95 {
            before
        } else {
            before.push(95)
        }
    }
}

/// The slug of a name: its lowercase form with every run of characters
/// other than ASCII letters and digits replaced by one underscore.
pub open spec fn slug_of(name: Seq<char>) -> Seq<char> {
    key_text(slug_bytes(encode_utf8(lowercased(name))))
}

/// A person in the relational map.
#[derive(Debug, Clone)]
pub struct PersonRecord {
    /// The person's name; the key is derived from it.
    pub name: String,
    /// What else is known of the person, as JSON text.
    pub attributes: String,
}

/// The mathematical value of a [`PersonRecord`].
pub struct PersonView {
    pub name: Seq<char>,
    pub attributes: Seq<char>,
}

impl View for PersonRecord {
    type V = PersonView;

    open spec fn view(&self) -> PersonView {
        PersonView { name: self.name@, attributes: self.attributes@ }
    }
}

impl PersonView {
    /// The members of the JSON object that a person is written as.
    pub open spec fn members(self) -> Seq<(Seq<char>, Seq<char>)> {
        seq![("name"@, json_quoted(self.name)), ("attributes"@, self.attributes)]
    }

    /// The person that the members of a JSON object spell.
    pub open spec fn of_members(members: Seq<(Seq<char>, Seq<char>)>) -> Option<PersonView> {
        match required_text(members, "name"@) {
            Some(name) => Some(PersonView { name, attributes: raw_or_null(members, "attributes"@) }),
            None => None,
        }
    }

    /// The bytes that a person is stored as.
    pub open spec fn bytes(self) -> Seq<u8> {
        encode_utf8(object_text(self.members()))
    }

    /// The person that stored bytes spell.
    pub open spec fn of_bytes(bytes: Seq<u8>) -> Option<PersonView> {
        match json_members(bytes) {
            Some(members) => PersonView::of_members(members),
            None => None,
        }
    }
}

/// The key of a person: `people/{slug}`.
pub open spec fn person_key(name_slug: Seq<char>) -> Seq<char> {
    "people/"@ + name_slug
}

impl PersonRecord {
    /// Creates a person with no attributes.
    pub fn new(name: &str) -> (person: PersonRecord)
        ensures
            person@ == (PersonView { name: name@, attributes: "null"@ }),
    {
        PersonRecord { name: String::from_str(name), attributes: String::from_str("null") }
    }

    /// Derives the slug of a name.
    pub fn name_slug(name: &str) -> (slug: String)
        ensures
            slug@ == slug_of(name@),
    {
        let lower = to_lowercase(name);
        let bytes = lower.as_str().as_bytes();
        let mut out: Vec<u8> = Vec::new();
        let mut i: usize = 0;
        proof {
            assert(bytes@.take(0) =~= Seq::<u8>::empty());
        }
        while i < bytes.len()
            invariant
                i <= bytes.len(),
                out@ == slug_bytes(bytes@.take(i as int)),
            decreases bytes.len() - i,
        {
            proof {
                assert(bytes@.take(i + 1).drop_last() =~= bytes@.take(i as int));
            }
            let b = bytes[i];
            if (48 <= b && b <= 57) || (65 <= b && b <= 90) || (97 <= b && b <= 122) {
                out.push(b);
            } else if out.len() == 0 || out[out.len() - 1] != 95 {
                out.push(95);
            }
            i = i + 1;
        }
        proof {
            assert(bytes@.take(bytes.len() as int) =~= bytes@);
        }
        match text_from_utf8(out.as_slice()) {
            Some(slug) => slug,
            None => String::new(),
        }
    }

    /// Writes the person as the bytes of a JSON object.
    pub fn to_bytes(&self) -> (bytes: Vec<u8>)
        ensures
            bytes@ == self@.bytes(),
    {
        let mut members: Vec<(String, String)> = Vec::new();
        push_member(&mut members, "name", quote(self.name.as_str()));
        push_member(&mut members, "attributes", self.attributes.clone());
        proof {
            assert(member_views(members@) =~= self@.members());
        }
        write_object(&members).as_str().as_bytes_vec()
    }

    /// Reads a person from the members of a JSON object.
    pub fn from_members(members: &Vec<(String, String)>) -> (person: Option<PersonRecord>)
        ensures
            match person {
                Some(p) => PersonView::of_members(member_views(members@)) == Some(p@),
                None => PersonView::of_members(member_views(members@)) is None,
            },
    {
        match get_text(members, "name") {
            Some(name) => Some(
                PersonRecord { name, attributes: get_raw_or_null(members, "attributes") },
            ),
            None => None,
        }
    }

    /// Reads a person from the bytes of a JSON object.
    pub fn from_bytes(bytes: &[u8]) -> (person: Option<PersonRecord>)
        ensures
            match person {
                Some(p) => PersonView::of_bytes(bytes@) == Some(p@),
                None => PersonView::of_bytes(bytes@) is None,
            },
    {
        match read_members(bytes) {
            Some(members) => PersonRecord::from_members(&members),
            None => None,
        }
    }
}

impl Stored for PersonRecord {
    open spec fn decoded(bytes: Seq<u8>) -> Option<PersonView> {
        PersonView::of_bytes(bytes)
    }

    fn decode(bytes: &[u8]) -> (record: Option<PersonRecord>) {
        PersonRecord::from_bytes(bytes)
    }
}

impl Ranked for PersonRecord {
    /// By name, ascending.
    open spec fn ranks_before(&self, other: &PersonRecord) -> bool {
        text_le(self.name@, other.name@)
    }

    fn before(&self, other: &PersonRecord) -> (yes: bool) {
        text_at_most(self.name.as_str(), other.name.as_str())
    }

    proof fn lemma_total(a: &PersonRecord, b: &PersonRecord) {
        lemma_text_le_total(a.name@, b.name@);
    }

    proof fn lemma_transitive(a: &PersonRecord, b: &PersonRecord, c: &PersonRecord) {
        lemma_text_le_transitive(a.name@, b.name@, c.name@);
    }
}

/// Whether `people` are the people among `entries`, by name.
pub open spec fn is_people_listing(people: Seq<PersonRecord>, entries: Seq<(Seq<char>, Seq<u8>)>)
    -> bool {
    exists|found: Seq<PersonRecord>| #[trigger]
        record_views(found) == stored_under::<PersonRecord>(entries, KARDIA_PEOPLE_PREFIX@)
            && is_ranking_of(people, found)
}

/// Lists the people among scanned entries, by name.
pub fn people_among(entries: &Vec<(String, Vec<u8>)>) -> (people: Vec<PersonRecord>)
    ensures
        is_people_listing(people@, entry_views(entries@)),
{
    let found = collect_under::<PersonRecord>(entries, KARDIA_PEOPLE_PREFIX);
    let ghost all = found@;
    let people = sort_ranked(found);
    proof {
        assert(record_views(all) == stored_under::<PersonRecord>(
            entry_views(entries@),
            KARDIA_PEOPLE_PREFIX@,
        ) && is_ranking_of(people@, all));
    }
    people
}

/// The emotional context: how much strain the agent should assume.
#[derive(Debug, Clone, Copy, PartialEq, Eq, Structural)]
pub struct MentalState {
    /// Relational stress in thousandths, from 0 to 1000.
    pub relational_stress: u32,
    /// Risk of burnout in thousandths, from 0 to 1000.
    pub burnout_risk: u32,
    /// Factor by which demands are eased, in thousandths, at least 1000.
    pub grace_multiplier: u32,
}

/// Burnout risk from which on an empathetic tone is called for, in thousandths.
pub const EMPATHY_THRESHOLD: u32 = 700;

impl View for MentalState {
    type V = MentalState;

    open spec fn view(&self) -> MentalState {
        *self
    }
}

impl MentalState {
    /// What is added to a prompt when an empathetic tone is called for.
    pub const EMPATHETIC_SYSTEM_INSTRUCTION: &'static str =
        "The user may be under emotional strain. Respond with empathy and patience";

    /// What is added to a prompt when physical load calls for easing.
    pub const PHYSICAL_LOAD_SYSTEM_INSTRUCTION: &'static str =
        "The user is physically depleted. Keep demands light and favor rest";

    /// The state with nothing known: no stress, no risk, no easing.
    pub open spec fn spec_default() -> MentalState {
        MentalState { relational_stress: 0, burnout_risk: 0, grace_multiplier: SCALE }
    }

    /// Whether every field lies in its range.
    pub open spec fn in_range(self) -> bool {
        &&& self.relational_stress <= SCALE
        &&& self.burnout_risk <= SCALE
        &&& self.grace_multiplier >= SCALE
    }

    /// The state with every field confined to its range.
    pub open spec fn spec_clamped(self) -> MentalState {
        MentalState {
            relational_stress: unit_clamped(self.relational_stress),
            burnout_risk: unit_clamped(self.burnout_risk),
            grace_multiplier: if self.grace_multiplier < SCALE {
                SCALE
            } else {
                self.grace_multiplier
            },
        }
    }

    /// Whether the burnout risk calls for an empathetic tone.
    pub open spec fn spec_needs_empathetic_tone(&self) -> bool {
        self.burnout_risk >= EMPATHY_THRESHOLD
    }

    /// Whether demands are eased for physical load.
    pub open spec fn spec_has_physical_load_adjustment(&self) -> bool {
        self.grace_multiplier > SCALE
    }

    /// The members of the JSON object that a mental state is written as.
    pub open spec fn members(self) -> Seq<(Seq<char>, Seq<char>)> {
        seq![
            ("relational_stress"@, milli_text(self.relational_stress)),
            ("burnout_risk"@, milli_text(self.burnout_risk)),
            ("grace_multiplier"@, milli_text(self.grace_multiplier)),
        ]
    }

    /// The mental state that the members of a JSON object spell, with
    /// defaults for what is missing, confined to the ranges of the fields.
    pub open spec fn of_members(members: Seq<(Seq<char>, Seq<char>)>) -> Option<MentalState> {
        match (
            milli_or(members, "relational_stress"@, 0),
            milli_or(members, "burnout_risk"@, 0),
            milli_or(members, "grace_multiplier"@, SCALE),
        ) {
            (Some(relational_stress), Some(burnout_risk), Some(grace_multiplier)) => Some(
                (MentalState { relational_stress, burnout_risk, grace_multiplier }).spec_clamped(),
            ),
            _ => None,
        }
    }

    /// The bytes that a mental state is stored as.
    pub open spec fn bytes(self) -> Seq<u8> {
        encode_utf8(object_text(self.members()))
    }

    /// The mental state that stored bytes spell.
    pub open spec fn of_bytes(bytes: Seq<u8>) -> Option<MentalState> {
        match json_members(bytes) {
            Some(members) => MentalState::of_members(members),
            None => None,
        }
    }

    /// Confines every field to its range.
    pub fn clamp(&mut self)
        ensures
            *final(self) == old(self).spec_clamped(),
            final(self).in_range(),
    {
        self.relational_stress = clamp_milli(self.relational_stress, 0, SCALE);
        self.burnout_risk = clamp_milli(self.burnout_risk, 0, SCALE);
        if self.grace_multiplier < SCALE {
            self.grace_multiplier = SCALE;
        }
    }

    /// Returns `true` where the burnout risk calls for an empathetic tone.
    #[verifier::when_used_as_spec(spec_needs_empathetic_tone)]
    pub fn needs_empathetic_tone(&self) -> (yes: bool)
        ensures
            yes == self.spec_needs_empathetic_tone(),
    {
        self.burnout_risk >= EMPATHY_THRESHOLD
    }

    /// Returns `true` where demands are eased for physical load.
    #[verifier::when_used_as_spec(spec_has_physical_load_adjustment)]
    pub fn has_physical_load_adjustment(&self) -> (yes: bool)
        ensures
            yes == self.spec_has_physical_load_adjustment(),
    {
        self.grace_multiplier > SCALE
    }

    /// Writes the mental state as the bytes of a JSON object.
    pub fn to_bytes(&self) -> (bytes: Vec<u8>)
        ensures
            bytes@ == self.bytes(),
    {
        let mut members: Vec<(String, String)> = Vec::new();
        push_member(&mut members, "relational_stress", write_milli(self.relational_stress));
        push_member(&mut members, "burnout_risk", write_milli(self.burnout_risk));
        push_member(&mut members, "grace_multiplier", write_milli(self.grace_multiplier));
        proof {
            assert(member_views(members@) =~= self.members());
        }
        write_object(&members).as_str().as_bytes_vec()
    }

    /// Reads a mental state from the members of a JSON object.
    pub fn from_members(members: &Vec<(String, String)>) -> (state: Option<MentalState>)
        ensures
            state == MentalState::of_members(member_views(members@)),
            state matches Some(s) ==> s.in_range(),
    {
        let relational_stress = get_milli_or(members, "relational_stress", 0);
        let burnout_risk = get_milli_or(members, "burnout_risk", 0);
        let grace_multiplier = get_milli_or(members, "grace_multiplier", SCALE);
        match (relational_stress, burnout_risk, grace_multiplier) {
            (Some(relational_stress), Some(burnout_risk), Some(grace_multiplier)) => {
                let mut state = MentalState { relational_stress, burnout_risk, grace_multiplier };
                state.clamp();
                Some(state)
            },
            _ => None,
        }
    }

    /// Reads a mental state from the bytes of a JSON object.
    pub fn from_bytes(bytes: &[u8]) -> (state: Option<MentalState>)
        ensures
            state == MentalState::of_bytes(bytes@),
            state matches Some(s) ==> s.in_range(),
    {
        match read_members(bytes) {
            Some(members) => MentalState::from_members(&members),
            None => None,
        }
    }
}

impl Default for MentalState {
    fn default() -> (state: MentalState)
        ensures
            state == MentalState::spec_default(),
    {
        MentalState { relational_stress: 0, burnout_risk: 0, grace_multiplier: SCALE }
    }
}

impl Stored for MentalState {
    open spec fn decoded(bytes: Seq<u8>) -> Option<MentalState> {
        MentalState::of_bytes(bytes)
    }

    fn decode(bytes: &[u8]) -> (record: Option<MentalState>) {
        MentalState::from_bytes(bytes)
    }
}

/// Trust moved by a signed amount and confined to the unit interval.
pub open spec fn bumped_trust(trust: u32, delta: i32) -> u32 {
    if trust + delta < 0 {
        0
    } else if trust + delta > SCALE {
        SCALE
    } else {
        (trust + delta) as u32
    }
}

/// Moves a trust by a signed amount of thousandths and confines it to the
/// unit interval.
pub fn bump_trust(trust: u32, delta: i32) -> (bumped: u32)
    ensures
        bumped == bumped_trust(trust, delta),
        bumped <= SCALE,
{
    let moved: i64 = trust as i64 + delta as i64;
    if moved < 0 {
        0
    } else if moved > SCALE as i64 {
        SCALE
    } else {
        moved as u32
    }
}

/// What a relation is before its trust is calibrated: the stored relation,
/// or a fresh one with trust one half where none is stored or it cannot be
/// read.
pub open spec fn is_calibration_base(
    entries: Map<Seq<u8>, Seq<u8>>,
    key: Seq<u8>,
    target_id: Seq<char>,
    base: RelationView,
) -> bool {
    ||| entries.contains_key(key) && RelationView::of_bytes(entries[key]) == Some(base)
    ||| base.user_id == target_id && base.trust_score == DEFAULT_TRUST
        && base.communication_style.len() == 0 && base.last_sentiment.len() == 0
}

/// Whether `after` is `before` with the trust that an agent holds in a
/// target moved by `delta` to `trust` and the relation marked as updated at
/// `now_ms`.
pub open spec fn is_calibrated(
    after: &KnowledgeStore,
    before: &KnowledgeStore,
    owner_agent_id: Seq<char>,
    target_id: Seq<char>,
    delta: i32,
    now_ms: i64,
    trust: u32,
) -> bool {
    &&& after.same_but(before, KARDIA_SLOT_ID)
    &&& trust <= SCALE
    &&& exists|base: RelationView| #[trigger]
        is_calibration_base(
            before.partition(KARDIA_SLOT_ID),
            key_bytes(relation_key(owner_agent_id, target_id)),
            target_id,
            base,
        ) && trust == bumped_trust(base.trust_score, delta) && after.holds_write(
            before,
            KARDIA_SLOT_ID,
            relation_key(owner_agent_id, base.user_id),
            (RelationView { trust_score: trust, last_updated_ms: now_ms, ..base }).bytes(),
        )
}

/// Calibrates the trust that an agent holds in a target: moves it by
/// `delta` thousandths within the unit interval, marks the relation as
/// updated at `now_ms`, stores it, and returns the new trust.
pub fn calibrate_trust(
    knowledge: &mut KnowledgeStore,
    owner_agent_id: &str,
    target_id: &str,
    delta: i32,
    now_ms: i64,
) -> (calibrated: Result<u32, StoreError>)
    ensures
        final(knowledge).same_but(old(knowledge), KARDIA_SLOT_ID),
        match calibrated {
            Ok(trust) => is_calibrated(
                final(knowledge),
                old(knowledge),
                owner_agent_id@,
                target_id@,
                delta,
                now_ms,
                trust,
            ),
            Err(e) => e is Io,
        },
{
    let mut relation = match knowledge.get_kardia_relation(owner_agent_id, target_id) {
        Ok(Some(relation)) => relation,
        _ => RelationRecord {
            user_id: String::from_str(target_id),
            trust_score: DEFAULT_TRUST,
            communication_style: String::new(),
            last_sentiment: String::new(),
            last_updated_ms: now_ms,
        },
    };
    let ghost base = relation@;
    relation.trust_score = bump_trust(relation.trust_score, delta);
    relation.last_updated_ms = now_ms;
    let trust = relation.trust_score;
    match knowledge.set_kardia_relation(owner_agent_id, &relation) {
        Ok(_) => {
            proof {
                assert(relation@.clamped() == relation@);
                assert(is_calibration_base(
                    old(knowledge).partition(KARDIA_SLOT_ID),
                    key_bytes(relation_key(owner_agent_id@, target_id@)),
                    target_id@,
                    base,
                ) && trust == bumped_trust(base.trust_score, delta) && knowledge.holds_write(
                    old(knowledge),
                    KARDIA_SLOT_ID,
                    relation_key(owner_agent_id@, base.user_id),
                    (RelationView { trust_score: trust, last_updated_ms: now_ms, ..base }).bytes(),
                ));
            }
            Ok(trust)
        },
        Err(e) => Err(e),
    }
}

/// Calibrates the trust that an agent holds in a target and records the
/// calibration in the agent's event stream. A failure to record it is
/// ignored.
pub fn bump_kardia_trust(
    knowledge: &mut KnowledgeStore,
    owner_agent_id: &str,
    target_id: &str,
    delta: i32,
    chronos_reflection: &str,
) -> (calibrated: Result<u32, StoreError>)
    ensures
        final(knowledge).shadow_key() == old(knowledge).shadow_key(),
        forall|other: u8|
            slot_index(other) != slot_index(KARDIA_SLOT_ID) && slot_index(other) != slot_index(
                CHRONOS_SLOT_ID,
            ) ==> #[trigger] final(knowledge).partition(other) == old(knowledge).partition(other),
        match calibrated {
            Ok(trust) => exists|mid: KnowledgeStore, now_ms: i64| #[trigger]
                is_calibrated(&mid, old(knowledge), owner_agent_id@, target_id@, delta, now_ms, trust)
                    && final(knowledge).same_but(&mid, CHRONOS_SLOT_ID),
            Err(e) => e is Io,
        },
{
    let now = now_ms();
    let trust = match calibrate_trust(knowledge, owner_agent_id, target_id, delta, now) {
        Ok(trust) => trust,
        Err(e) => {
            return Err(e);
        },
    };
    let ghost mid = *knowledge;
    let event = EventRecord::at(now, "Kardia", chronos_reflection).with_skill(
        "heartbeat",
    ).with_outcome("kardia_trust_calibrated");
    let _ = knowledge.append_chronos_event(owner_agent_id, &event);
    proof {
        assert(is_calibrated(&mid, old(knowledge), owner_agent_id@, target_id@, delta, now, trust)
            && knowledge.same_but(&mid, CHRONOS_SLOT_ID));
    }
    Ok(trust)
}

impl KnowledgeStore {
    /// Returns the relation that an agent holds to a target, if one is stored.
    pub fn get_kardia_relation(&self, owner_agent_id: &str, target_id: &str) -> (found: Result<
        Option<RelationRecord>,
        StoreError,
    >)
        ensures
            is_record_read(
                self.partition(KARDIA_SLOT_ID),
                key_bytes(relation_key(owner_agent_id@, target_id@)),
                found,
            ),
            found matches Ok(Some(relation)) ==> relation.trust_score <= SCALE,
    {
        let key = kardia_relation_key(owner_agent_id, target_id);
        let found = self.get_stored::<RelationRecord>(KARDIA_SLOT_ID, key.as_str());
        proof {
            if self.partition(KARDIA_SLOT_ID).contains_key(key_bytes(key@)) {
                lemma_read_trust_in_unit_interval(
                    self.partition(KARDIA_SLOT_ID)[key_bytes(key@)],
                );
            }
        }
        found
    }

    /// Stores the relation that an agent holds to `record.user_id`, with its
    /// trust confined to the unit interval.
    pub fn set_kardia_relation(&mut self, owner_agent_id: &str, record: &RelationRecord) -> (outcome:
        Result<(), StoreError>)
        ensures
            final(self).wrote(
                old(self),
                KARDIA_SLOT_ID,
                relation_key(owner_agent_id@, record@.user_id),
                record@.clamped().bytes(),
                outcome,
            ),
            record@.clamped().trust_score <= SCALE,
    {
        let key = kardia_relation_key(owner_agent_id, record.user_id.as_str());
        let clamped = RelationRecord {
            user_id: record.user_id.clone(),
            trust_score: clamp_milli(record.trust_score, 0, SCALE),
            communication_style: record.communication_style.clone(),
            last_sentiment: record.last_sentiment.clone(),
            last_updated_ms: record.last_updated_ms,
        };
        let bytes = clamped.to_bytes();
        self.put(KARDIA_SLOT_ID, key.as_str(), bytes.as_slice())
    }

    /// Returns the key of a person from the slug of the name.
    pub fn kardia_person_key(name_slug: &str) -> (key: String)
        ensures
            key@ == person_key(name_slug@),
    {
        let mut key = String::from_str(KARDIA_PEOPLE_PREFIX);
        key.append(name_slug);
        key
    }

    /// Returns a person from the relational map by the slug of the name.
    pub fn get_person(&self, name_slug: &str) -> (found: Result<Option<PersonRecord>, StoreError>)
        ensures
            is_record_read(self.partition(KARDIA_SLOT_ID), key_bytes(person_key(name_slug@)), found),
    {
        let key = Self::kardia_person_key(name_slug);
        self.get_stored::<PersonRecord>(KARDIA_SLOT_ID, key.as_str())
    }

    /// Stores a person in the relational map under the slug of the name.
    pub fn set_person(&mut self, record: &PersonRecord) -> (outcome: Result<(), StoreError>)
        ensures
            final(self).wrote(
                old(self),
                KARDIA_SLOT_ID,
                person_key(slug_of(record@.name)),
                record@.bytes(),
                outcome,
            ),
    {
        let slug = PersonRecord::name_slug(record.name.as_str());
        let key = Self::kardia_person_key(slug.as_str());
        let bytes = record.to_bytes();
        self.put(KARDIA_SLOT_ID, key.as_str(), bytes.as_slice())
    }

    /// Lists the people in the relational map, by name. Entries that do not
    /// read as a person are skipped.
    pub fn list_people(&self) -> (listed: Result<Vec<PersonRecord>, StoreError>)
        ensures
            match listed {
                Ok(people) => exists|entries: Seq<(Seq<char>, Seq<u8>)>| #[trigger]
                    self.lists(KARDIA_SLOT_ID, entries) && is_people_listing(people@, entries),
                Err(e) => e is Io,
            },
    {
        let entries = match self.scan_kv(KARDIA_SLOT_ID) {
            Ok(entries) => entries,
            Err(e) => {
                return Err(e);
            },
        };
        let people = people_among(&entries);
        proof {
            assert(self.lists(KARDIA_SLOT_ID, entry_views(entries@)) && is_people_listing(
                people@,
                entry_views(entries@),
            ));
        }
        Ok(people)
    }

    /// Returns the current mental state: the stored one, or the default
    /// where none is stored. A stored state that does not read and a failed
    /// read are surfaced. The state is global: the agent id is not used.
    pub fn get_mental_state(&self, _owner_agent_id: &str) -> (state: Result<
        MentalState,
        StoreError,
    >)
        ensures
            is_state_outcome::<MentalState>(
                self.partition(KARDIA_SLOT_ID),
                key_bytes(MENTAL_STATE_KEY@),
                MentalState::spec_default(),
                state,
            ),
            state matches Ok(s) ==> s.in_range(),
    {
        self.get_state::<MentalState>(KARDIA_SLOT_ID, MENTAL_STATE_KEY, MentalState::default())
    }

    /// Stores the current mental state.
    pub fn set_mental_state(&mut self, _owner_agent_id: &str, state: &MentalState) -> (outcome:
        Result<(), StoreError>)
        ensures
            final(self).wrote(old(self), KARDIA_SLOT_ID, MENTAL_STATE_KEY@, state.bytes(), outcome),
    {
        let bytes = state.to_bytes();
        self.put(KARDIA_SLOT_ID, MENTAL_STATE_KEY, bytes.as_slice())
    }
}

} // verus!
