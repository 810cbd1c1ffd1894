//! Techne, slot 5: skill manifests; and the generic record of any partition.

use crate::clock::now_ms;
use crate::ident::fresh_id;
use crate::json::{
    get_int, get_optional_raw, get_raw_or_null, get_text, json_members, json_quoted, member_views,
    object_text, optional_raw, push_member, quote, raw_or_null, read_members, required_int,
    required_text, text_opt, write_object,
};
use crate::ranking::{is_ranking_of, sort_ranked, Ranked};
use crate::record::{
    collect_keyed_under, collect_under, is_record_read, keyed_under, keyed_views, record_views,
    stored_under, Stored,
};
use crate::store::{entry_views, key_bytes, KnowledgeStore, StoreError};
use crate::text::{
    decimal, decimal_text, lemma_text_le_total, lemma_text_le_transitive, text_at_most, text_le,
};
use vstd::prelude::*;
use vstd::utf8::encode_utf8;

verus! {

/// Slot number of the Techne partition.
pub const TECHNE_SLOT_ID: u8 = 5;

/// Key prefix of the skill manifests.
pub const SKILL_PREFIX: &'static str = "skills/";

/// A skill manifest.
#[derive(Debug, Clone)]
pub struct SkillRecord {
    /// Stable identifier of the skill.
    pub slug: String,
    /// What the skill can do, in natural language.
    pub description: String,
    /// The schema of the arguments, as JSON text.
    pub schema: String,
}

/// The mathematical value of a [`SkillRecord`].
pub struct SkillView {
    pub slug: Seq<char>,
    pub description: Seq<char>,
    pub schema: Seq<char>,
}

impl View for SkillRecord {
    type V = SkillView;

    open spec fn view(&self) -> SkillView {
        SkillView { slug: self.slug@, description: self.description@, schema: self.schema@ }
    }
}

impl SkillView {
    /// The members of the JSON object that a manifest is written as.
    pub open spec fn members(self) -> Seq<(Seq<char>, Seq<char>)> {
        seq![
            ("slug"@, json_quoted(self.slug)),
            ("description"@, json_quoted(self.description)),
            ("schema"@, self.schema),
        ]
    }

    /// The manifest that the members of a JSON object spell.
    pub open spec fn of_members(members: Seq<(Seq<char>, Seq<char>)>) -> Option<SkillView> {
        match (required_text(members, "slug"@), required_text(members, "description"@)) {
            (Some(slug), Some(description)) => Some(
                SkillView { slug, description, schema: raw_or_null(members, "schema"@) },
            ),
            _ => None,
        }
    }

    /// The bytes that a manifest is stored as.
    pub open spec fn bytes(self) -> Seq<u8> {
        encode_utf8(object_text(self.members()))
    }

    /// The manifest that stored bytes spell.
    pub open spec fn of_bytes(bytes: Seq<u8>) -> Option<SkillView> {
        match json_members(bytes) {
            Some(members) => SkillView::of_members(members),
            None => None,
        }
    }
}

impl SkillRecord {
    /// Writes the manifest as the bytes of a JSON object.
    pub fn to_bytes(&self) -> (bytes: Vec<u8>)
        ensures
            bytes@ == self@.bytes(),
    {
        let mut members: Vec<(String, String)> = Vec::new();
        push_member(&mut members, "slug", quote(self.slug.as_str()));
        push_member(&mut members, "description", quote(self.description.as_str()));
        push_member(&mut members, "schema", self.schema.clone());
        proof {
            assert(member_views(members@) =~= self@.members());
        }
        write_object(&members).as_str().as_bytes_vec()
    }

    /// Reads a manifest from the members of a JSON object.
    pub fn from_members(members: &Vec<(String, String)>) -> (skill: Option<SkillRecord>)
        ensures
            match skill {
                Some(s) => SkillView::of_members(member_views(members@)) == Some(s@),
                None => SkillView::of_members(member_views(members@)) is None,
            },
    {
        match (get_text(members, "slug"), get_text(members, "description")) {
            (Some(slug), Some(description)) => Some(
                SkillRecord { slug, description, schema: get_raw_or_null(members, "schema") },
            ),
            _ => None,
        }
    }

    /// Reads a manifest from the bytes of a JSON object.
    pub fn from_bytes(bytes: &[u8]) -> (skill: Option<SkillRecord>)
        ensures
            match skill {
                Some(s) => SkillView::of_bytes(bytes@) == Some(s@),
                None => SkillView::of_bytes(bytes@) is None,
            },
    {
        match read_members(bytes) {
            Some(members) => SkillRecord::from_members(&members),
            None => None,
        }
    }
}

impl Stored for SkillRecord {
    open spec fn decoded(bytes: Seq<u8>) -> Option<SkillView> {
        SkillView::of_bytes(bytes)
    }

    fn decode(bytes: &[u8]) -> (record: Option<SkillRecord>) {
        SkillRecord::from_bytes(bytes)
    }
}

impl Ranked for SkillRecord {
    /// By slug, ascending.
    open spec fn ranks_before(&self, other: &SkillRecord) -> bool {
        text_le(self.slug@, other.slug@)
    }

    fn before(&self, other: &SkillRecord) -> (yes: bool) {
        text_at_most(self.slug.as_str(), other.slug.as_str())
    }

    proof fn lemma_total(a: &SkillRecord, b: &SkillRecord) {
        lemma_text_le_total(a.slug@, b.slug@);
    }

    proof fn lemma_transitive(a: &SkillRecord, b: &SkillRecord, c: &SkillRecord) {
        lemma_text_le_transitive(a.slug@, b.slug@, c.slug@);
    }
}

/// Whether `skills` are the manifests among `entries`, by slug.
pub open spec fn is_skill_listing(skills: Seq<SkillRecord>, entries: Seq<(Seq<char>, Seq<u8>)>)
    -> bool {
    exists|found: Seq<SkillRecord>| #[trigger]
        record_views(found) == stored_under::<SkillRecord>(entries, SKILL_PREFIX@) && is_ranking_of(
            skills,
            found,
        )
}

/// Lists the skill manifests among scanned entries, by slug.
pub fn skills_among(entries: &Vec<(String, Vec<u8>)>) -> (skills: Vec<SkillRecord>)
    ensures
        is_skill_listing(skills@, entry_views(entries@)),
{
    let found = collect_under::<SkillRecord>(entries, SKILL_PREFIX);
    let ghost all = found@;
    let skills = sort_ranked(found);
    proof {
        assert(record_views(all) == stored_under::<SkillRecord>(
            entry_views(entries@),
            SKILL_PREFIX@,
        ) && is_ranking_of(skills@, all));
    }
    skills
}

/// The generic record of any partition.
#[derive(Debug, Clone)]
pub struct KbRecord {
    /// Unique identifier of the record.
    pub id: String,
    /// The content of the record.
    pub content: String,
    /// Free-form metadata, as JSON text.
    pub metadata: String,
    /// An embedding vector of the content, as the JSON text of an array.
    pub embedding: Option<String>,
    /// Unix timestamp in milliseconds of when the record was created.
    pub timestamp: i64,
}

/// The mathematical value of a [`KbRecord`].
pub struct KbRecordView {
    pub id: Seq<char>,
    pub content: Seq<char>,
    pub metadata: Seq<char>,
    pub embedding: Option<Seq<char>>,
    pub timestamp: i64,
}

impl View for KbRecord {
    type V = KbRecordView;

    open spec fn view(&self) -> KbRecordView {
        KbRecordView {
            id: self.id@,
            content: self.content@,
            metadata: self.metadata@,
            embedding: text_opt(self.embedding),
            timestamp: self.timestamp,
        }
    }
}

impl KbRecordView {
    /// The members of the JSON object that a record is written as. The
    /// embedding is written only where there is one.
    pub open spec fn members(self) -> Seq<(Seq<char>, Seq<char>)> {
        seq![
            ("id"@, json_quoted(self.id)),
            ("content"@, json_quoted(self.content)),
            ("metadata"@, self.metadata),
        ] + (match self.embedding {
            Some(vector) => seq![("embedding"@, vector)],
            None => Seq::empty(),
        }) + seq![("timestamp"@, decimal_text(self.timestamp as int))]
    }

    /// The record that the members of a JSON object spell.
    pub open spec fn of_members(members: Seq<(Seq<char>, Seq<char>)>) -> Option<KbRecordView> {
        match (
            required_text(members, "id"@),
            required_text(members, "content"@),
            required_int(members, "timestamp"@),
        ) {
            (Some(id), Some(content), Some(timestamp)) => Some(
                KbRecordView {
                    id,
                    content,
                    metadata: raw_or_null(members, "metadata"@),
                    embedding: optional_raw(members, "embedding"@),
                    timestamp,
                },
            ),
            _ => None,
        }
    }

    /// The bytes that a record is stored as.
    pub open spec fn bytes(self) -> Seq<u8> {
        encode_utf8(object_text(self.members()))
    }

    /// The record that stored bytes spell.
    pub open spec fn of_bytes(bytes: Seq<u8>) -> Option<KbRecordView> {
        match json_members(bytes) {
            Some(members) => KbRecordView::of_members(members),
            None => None,
        }
    }
}

impl KbRecord {
    /// Creates a record with the given parts.
    pub fn with_parts(
        id: &str,
        content: &str,
        metadata: &str,
        embedding: Option<&str>,
        timestamp: i64,
    ) -> (record: KbRecord)
        ensures
            record@ == (KbRecordView {
                id: id@,
                content: content@,
                metadata: metadata@,
                embedding: match embedding {
                    Some(vector) => Some(vector@),
                    None => None,
                },
                timestamp,
            }),
    {
        KbRecord {
            id: String::from_str(id),
            content: String::from_str(content),
            metadata: String::from_str(metadata),
            embedding: match embedding {
                Some(vector) => Some(String::from_str(vector)),
                None => None,
            },
            timestamp,
        }
    }

    /// Creates a record with the given content, empty metadata, a fresh id
    /// and the current time.
    pub fn new(content: &str) -> (record: KbRecord)
        ensures
            record@.content == content@,
            record@.metadata == "{}"@,
            record@.embedding is None,
    {
        let id = fresh_id();
        KbRecord::with_parts(id.as_str(), content, "{}", None, now_ms())
    }

    /// Creates a record with content and metadata; the metadata is JSON text.
    pub fn with_metadata(content: &str, metadata: &str) -> (record: KbRecord)
        ensures
            record@.content == content@,
            record@.metadata == metadata@,
            record@.embedding is None,
    {
        let id = fresh_id();
        KbRecord::with_parts(id.as_str(), content, metadata, None, now_ms())
    }

    /// Creates a record with content, metadata and an embedding vector; the
    /// vector is the JSON text of an array of numbers.
    pub fn with_embedding(content: &str, metadata: &str, embedding: &str) -> (record: KbRecord)
        ensures
            record@.content == content@,
            record@.metadata == metadata@,
            record@.embedding == Some(embedding@),
    {
        let id = fresh_id();
        KbRecord::with_parts(id.as_str(), content, metadata, Some(embedding), now_ms())
    }

    /// Writes the record as the bytes of a JSON object.
    pub fn to_bytes(&self) -> (bytes: Vec<u8>)
        ensures
            bytes@ == self@.bytes(),
    {
        let mut members: Vec<(String, String)> = Vec::new();
        push_member(&mut members, "id", quote(self.id.as_str()));
        push_member(&mut members, "content", quote(self.content.as_str()));
        push_member(&mut members, "metadata", self.metadata.clone());
        match &self.embedding {
            Some(vector) => {
                push_member(&mut members, "embedding", vector.clone());
            },
            None => {},
        }
        push_member(&mut members, "timestamp", decimal(self.timestamp));
        proof {
            assert(member_views(members@) =~= self@.members());
        }
        write_object(&members).as_str().as_bytes_vec()
    }

    /// Reads a record from the members of a JSON object.
    pub fn from_members(members: &Vec<(String, String)>) -> (record: Option<KbRecord>)
        ensures
            match record {
                Some(r) => KbRecordView::of_members(member_views(members@)) == Some(r@),
                None => KbRecordView::of_members(member_views(members@)) is None,
            },
    {
        match (get_text(members, "id"), get_text(members, "content"), get_int(members, "timestamp")) {
            (Some(id), Some(content), Some(timestamp)) => Some(
                KbRecord {
                    id,
                    content,
                    metadata: get_raw_or_null(members, "metadata"),
                    embedding: get_optional_raw(members, "embedding"),
                    timestamp,
                },
            ),
            _ => None,
        }
    }

    /// Reads a record from the bytes of a JSON object.
    pub fn from_bytes(bytes: &[u8]) -> (record: Option<KbRecord>)
        ensures
            match record {
                Some(r) => KbRecordView::of_bytes(bytes@) == Some(r@),
                None => KbRecordView::of_bytes(bytes@) is None,
            },
    {
        match read_members(bytes) {
            Some(members) => KbRecord::from_members(&members),
            None => None,
        }
    }
}

impl Stored for KbRecord {
    open spec fn decoded(bytes: Seq<u8>) -> Option<KbRecordView> {
        KbRecordView::of_bytes(bytes)
    }

    fn decode(bytes: &[u8]) -> (record: Option<KbRecord>) {
        KbRecord::from_bytes(bytes)
    }
}

impl KnowledgeStore {
    /// Stores a record under `key` in a partition and returns the value
    /// that the key had before.
    pub fn insert_record(&mut self, slot_id: u8, key: &str, record: &KbRecord) -> (previous: Result<
        Option<Vec<u8>>,
        StoreError,
    >)
        ensures
            final(self).wrote(
                old(self),
                slot_id,
                key@,
                record@.bytes(),
                crate::store::outcome_of(previous),
            ),
            previous matches Ok(before) ==> crate::store::is_value_at(
                old(self).partition(slot_id),
                key_bytes(key@),
                before,
            ),
    {
        let bytes = record.to_bytes();
        self.insert(slot_id, key, bytes.as_slice())
    }

    /// Returns the record stored under `key` in a partition.
    pub fn get_record(&self, slot_id: u8, key: &str) -> (found: Result<Option<KbRecord>, StoreError>)
        ensures
            is_record_read(self.partition(slot_id), key_bytes(key@), found),
    {
        self.get_stored::<KbRecord>(slot_id, key)
    }

    /// Returns the entries of a partition that read as records, each with
    /// its key.
    pub fn scan_records(&self, slot_id: u8) -> (scanned: Result<Vec<(String, KbRecord)>, StoreError>)
        ensures
            match scanned {
                Ok(records) => exists|entries: Seq<(Seq<char>, Seq<u8>)>| #[trigger]
                    self.lists(slot_id, entries) && keyed_views(records@) == keyed_under::<
                        KbRecord,
                    >(entries, Seq::empty()),
                Err(e) => e is Io,
            },
    {
        let entries = match self.scan_kv(slot_id) {
            Ok(entries) => entries,
            Err(e) => {
                return Err(e);
            },
        };
        let records = collect_keyed_under::<KbRecord>(&entries, "");
        proof {
            reveal_strlit("");
            assert(""@ =~= Seq::<char>::empty());
            assert(self.lists(slot_id, entry_views(entries@)) && keyed_views(records@)
                == keyed_under::<KbRecord>(entry_views(entries@), Seq::empty()));
        }
        Ok(records)
    }

    /// Returns the skill manifests, by slug. Entries that do not read as a
    /// manifest are skipped; a failed scan is surfaced.
    pub fn get_skills(&self) -> (listed: Result<Vec<SkillRecord>, StoreError>)
        ensures
            match listed {
                Ok(skills) => exists|entries: Seq<(Seq<char>, Seq<u8>)>| #[trigger]
                    self.lists(TECHNE_SLOT_ID, entries) && is_skill_listing(skills@, entries),
                Err(e) => e is Io,
            },
    {
        let entries = match self.scan_kv(TECHNE_SLOT_ID) {
            Ok(entries) => entries,
            Err(e) => {
                return Err(e);
            },
        };
        let skills = skills_among(&entries);
        proof {
            assert(self.lists(TECHNE_SLOT_ID, entry_views(entries@)) && is_skill_listing(
                skills@,
                entry_views(entries@),
            ));
        }
        Ok(skills)
    }
}

} // verus!
