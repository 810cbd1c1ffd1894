//! Shadow, slot 9: emotional anchors, sealed by the vault.
//!
//! An anchor is stored under `anchor/{label}`.

use crate::json::{
    bool_or, get_bool_or, get_milli_or, get_raw_or_null, get_text, json_members, json_quoted,
    member_views, milli_or, object_text, push_member, quote, raw_or_null, read_members,
    required_text, text_opt, write_object,
};
use crate::kardia::unit_clamped;
use crate::partition::SHADOW_SLOT_ID;
use crate::scalar::{clamp_milli, milli_text, write_milli, SCALE};
use crate::store::{entry_views, key_bytes, KnowledgeStore, StoreError};
use crate::text::{starts_with, text_from_utf8};
use crate::vault::{blob_plaintext, SecretVault, VaultError};
use vstd::prelude::*;
use vstd::utf8::{decode_utf8, encode_utf8, valid_utf8};

verus! {

/// Key prefix of the emotional anchors.
pub const ANCHOR_PREFIX: &'static str = "anchor/";

/// Intensity above which an anchor weighs on the user, in thousandths.
pub const HEAVY_INTENSITY: u32 = 500;

/// An emotional anchor: something that weighs on the user.
#[derive(Debug, Clone)]
pub struct EmotionalAnchor {
    /// The kind of anchor, such as `grief`.
    pub anchor_type: String,
    /// Intensity in thousandths, from 0 to 1000.
    pub intensity: u32,
    /// Whether the anchor is in force.
    pub active: bool,
    /// What the anchor is about, as JSON text. It never leaves the vault in
    /// a directive.
    pub content: String,
}

/// The mathematical value of an [`EmotionalAnchor`].
pub struct AnchorView {
    pub anchor_type: Seq<char>,
    pub intensity: u32,
    pub active: bool,
    pub content: Seq<char>,
}

impl View for EmotionalAnchor {
    type V = AnchorView;

    open spec fn view(&self) -> AnchorView {
        AnchorView {
            anchor_type: self.anchor_type@,
            intensity: self.intensity,
            active: self.active,
            content: self.content@,
        }
    }
}

impl AnchorView {
    /// The members of the JSON object that an anchor is written as.
    pub open spec fn members(self) -> Seq<(Seq<char>, Seq<char>)> {
        seq![
            ("anchor_type"@, json_quoted(self.anchor_type)),
            ("intensity"@, milli_text(self.intensity)),
            (
                "active"@,
                if self.active {
                    "true"@
                } else {
                    "false"@
                },
            ),
            ("content"@, self.content),
        ]
    }

    /// The anchor that the members of a JSON object spell. The type is
    /// required; an anchor that does not say otherwise is active; intensity
    /// is confined to the unit interval.
    pub open spec fn of_members(members: Seq<(Seq<char>, Seq<char>)>) -> Option<AnchorView> {
        match (
            required_text(members, "anchor_type"@),
            milli_or(members, "intensity"@, 0),
            bool_or(members, "active"@, true),
        ) {
            (Some(anchor_type), Some(intensity), Some(active)) => Some(
                AnchorView {
                    anchor_type,
                    intensity: unit_clamped(intensity),
                    active,
                    content: raw_or_null(members, "content"@),
                },
            ),
            _ => None,
        }
    }

    /// The bytes that an anchor is written as before it is sealed.
    pub open spec fn bytes(self) -> Seq<u8> {
        encode_utf8(object_text(self.members()))
    }

    /// The anchor that opened bytes spell.
    pub open spec fn of_bytes(bytes: Seq<u8>) -> Option<AnchorView> {
        match json_members(bytes) {
            Some(members) => AnchorView::of_members(members),
            None => None,
        }
    }

    /// Whether the anchor is in force and weighs above the threshold.
    pub open spec fn is_heavy(self) -> bool {
        self.active && self.intensity > HEAVY_INTENSITY
    }
}

impl EmotionalAnchor {
    /// Creates an active anchor with no content.
    pub fn new(anchor_type: &str, intensity: u32) -> (anchor: EmotionalAnchor)
        ensures
            anchor@ == (AnchorView {
                anchor_type: anchor_type@,
                intensity: unit_clamped(intensity),
                active: true,
                content: "null"@,
            }),
    {
        EmotionalAnchor {
            anchor_type: String::from_str(anchor_type),
            intensity: clamp_milli(intensity, 0, SCALE),
            active: true,
            content: String::from_str("null"),
        }
    }

    /// Writes the anchor as the bytes of a JSON object.
    pub fn to_bytes(&self) -> (bytes: Vec<u8>)
        ensures
            bytes@ == self@.bytes(),
    {
        let mut members: Vec<(String, String)> = Vec::new();
        push_member(&mut members, "anchor_type", quote(self.anchor_type.as_str()));
        push_member(&mut members, "intensity", write_milli(self.intensity));
        let flag = if self.active {
            "true"
        } else {
            "false"
        };
        push_member(&mut members, "active", String::from_str(flag));
        push_member(&mut members, "content", self.content.clone());
        proof {
            assert(member_views(members@) =~= self@.members());
        }
        write_object(&members).as_str().as_bytes_vec()
    }

    /// Reads an anchor from the members of a JSON object.
    pub fn from_members(members: &Vec<(String, String)>) -> (anchor: Option<EmotionalAnchor>)
        ensures
            match anchor {
                Some(a) => AnchorView::of_members(member_views(members@)) == Some(a@),
                None => AnchorView::of_members(member_views(members@)) is None,
            },
    {
        let anchor_type = get_text(members, "anchor_type");
        let intensity = get_milli_or(members, "intensity", 0);
        let active = get_bool_or(members, "active", true);
        match (anchor_type, intensity, active) {
            (Some(anchor_type), Some(intensity), Some(active)) => Some(
                EmotionalAnchor {
                    anchor_type,
                    intensity: clamp_milli(intensity, 0, SCALE),
                    active,
                    content: get_raw_or_null(members, "content"),
                },
            ),
            _ => None,
        }
    }

    /// Reads an anchor from the bytes of a JSON object.
    pub fn from_bytes(bytes: &[u8]) -> (anchor: Option<EmotionalAnchor>)
        ensures
            match anchor {
                Some(a) => AnchorView::of_bytes(bytes@) == Some(a@),
                None => AnchorView::of_bytes(bytes@) is None,
            },
    {
        match read_members(bytes) {
            Some(members) => EmotionalAnchor::from_members(&members),
            None => None,
        }
    }
}

/// What opening a blob as an anchor gives: the anchor, or why there is none.
pub open spec fn opened_anchor(key: Option<Seq<u8>>, blob: Seq<u8>) -> Result<AnchorView, VaultError> {
    match key {
        None => Err(VaultError::Locked),
        Some(k) => match blob_plaintext(k, blob) {
            None => Err(VaultError::CorruptOrWrongKey),
            Some(plain) => match AnchorView::of_bytes(plain) {
                Some(anchor) => Ok(anchor),
                None => Err(VaultError::Malformed),
            },
        },
    }
}

/// What opening a blob as text gives: the text, or why there is none.
pub open spec fn opened_text(key: Option<Seq<u8>>, blob: Seq<u8>) -> Result<Seq<char>, VaultError> {
    match key {
        None => Err(VaultError::Locked),
        Some(k) => match blob_plaintext(k, blob) {
            None => Err(VaultError::CorruptOrWrongKey),
            Some(plain) => if valid_utf8(plain) {
                Ok(decode_utf8(plain))
            } else {
                Err(VaultError::Malformed)
            },
        },
    }
}

impl SecretVault {
    /// Opens a framed blob and reads the plaintext as an anchor.
    pub fn decrypt_anchor(&self, data: &[u8]) -> (opened: Result<EmotionalAnchor, VaultError>)
        ensures
            match opened {
                Ok(anchor) => opened_anchor(self.master_key(), data@) == Ok::<
                    AnchorView,
                    VaultError,
                >(anchor@),
                Err(e) => opened_anchor(self.master_key(), data@) == Err::<AnchorView, VaultError>(e),
            },
    {
        match self.decrypt_blob(data) {
            Ok(plain) => match EmotionalAnchor::from_bytes(plain.as_slice()) {
                Some(anchor) => Ok(anchor),
                None => Err(VaultError::Malformed),
            },
            Err(e) => Err(e),
        }
    }

    /// Opens a framed blob and reads the plaintext as UTF-8 text.
    pub fn decrypt_str(&self, data: &[u8]) -> (opened: Result<String, VaultError>)
        ensures
            match opened {
                Ok(text) => opened_text(self.master_key(), data@) == Ok::<Seq<char>, VaultError>(
                    text@,
                ),
                Err(e) => opened_text(self.master_key(), data@) == Err::<Seq<char>, VaultError>(e),
            },
    {
        match self.decrypt_blob(data) {
            Ok(plain) => match text_from_utf8(plain.as_slice()) {
                Some(text) => Ok(text),
                None => Err(VaultError::Malformed),
            },
            Err(e) => Err(e),
        }
    }
}

/// The error of the store that stands for an error of the vault.
pub open spec fn store_error_of(e: VaultError) -> StoreError {
    match e {
        VaultError::Locked => StoreError::Locked,
        VaultError::Encryption => StoreError::CryptoFailure,
        VaultError::CorruptOrWrongKey => StoreError::CryptoFailure,
        VaultError::Malformed => StoreError::Serialization,
    }
}

/// Returns the error of the store that stands for an error of the vault.
pub fn store_error_from(e: VaultError) -> (error: StoreError)
    ensures
        error == store_error_of(e),
{
    match e {
        VaultError::Locked => StoreError::Locked,
        VaultError::Encryption => StoreError::CryptoFailure,
        VaultError::CorruptOrWrongKey => StoreError::CryptoFailure,
        VaultError::Malformed => StoreError::Serialization,
    }
}

/// Whether an entry is an active anchor under the vault's key.
pub open spec fn is_active_anchor(key: Seq<u8>, entry: (Seq<char>, Seq<u8>)) -> bool {
    &&& ANCHOR_PREFIX@.is_prefix_of(entry.0)
    &&& opened_anchor(Some(key), entry.1) is Ok
    &&& opened_anchor(Some(key), entry.1)->Ok_0.active
}

/// The active anchors among `entries`, in the order of the entries, each
/// with its key. Entries that do not open or do not read are skipped.
pub open spec fn active_anchors(key: Seq<u8>, entries: Seq<(Seq<char>, Seq<u8>)>) -> Seq<
    (Seq<char>, AnchorView),
>
    decreases entries.len(),
{
    if entries.len() == 0 {
        Seq::empty()
    } else if is_active_anchor(key, entries.last()) {
        active_anchors(key, entries.drop_last()).push(
            (entries.last().0, opened_anchor(Some(key), entries.last().1)->Ok_0),
        )
    } else {
        active_anchors(key, entries.drop_last())
    }
}

/// Keyed anchors as pairs of a key text and a mathematical value.
pub open spec fn anchor_views(anchors: Seq<(String, EmotionalAnchor)>) -> Seq<
    (Seq<char>, AnchorView),
> {
    anchors.map_values(|a: (String, EmotionalAnchor)| (a.0@, a.1@))
}

/// The types of the heavy anchors, in order.
pub open spec fn heavy_types(anchors: Seq<(Seq<char>, AnchorView)>) -> Seq<Seq<char>>
    decreases anchors.len(),
{
    if anchors.len() == 0 {
        Seq::empty()
    } else if anchors.last().1.is_heavy() {
        heavy_types(anchors.drop_last()).push(anchors.last().1.anchor_type)
    } else {
        heavy_types(anchors.drop_last())
    }
}

/// Texts joined by a comma and a space.
pub open spec fn comma_joined(items: Seq<Seq<char>>) -> Seq<char>
    decreases items.len(),
{
    if items.len() == 0 {
        Seq::empty()
    } else if items.len() == 1 {
        items[0]
    } else {
        comma_joined(items.drop_last()) + ", "@ + items.last()
    }
}

/// The directive that anchors of the given types call for.
pub open spec fn directive_text(types: Seq<Seq<char>>) -> Seq<char> {
    "The user is currently handling heavy personal issues (detected anchors: "@ + comma_joined(
        types,
    )
        + "). Be supportive and prioritize cognitive ease over performance metrics. Use a warm, patient tone. Avoid adding pressure or urgency."@
}

/// The directive that a list of anchors calls for: none unless an active
/// anchor weighs above one half; else one that names the types of all such
/// anchors, and nothing of their content.
pub open spec fn mental_load(anchors: Seq<(Seq<char>, AnchorView)>) -> Option<Seq<char>> {
    if heavy_types(anchors).len() == 0 {
        None
    } else {
        Some(directive_text(heavy_types(anchors)))
    }
}

/// Collects the active anchors among scanned entries of the Shadow
/// partition, each with its key.
pub fn active_anchors_among(vault: &SecretVault, entries: &Vec<(String, Vec<u8>)>) -> (anchors: Vec<
    (String, EmotionalAnchor),
>)
    ensures
        match vault.master_key() {
            Some(key) => anchor_views(anchors@) == active_anchors(key, entry_views(entries@)),
            None => anchors@.len() == 0,
        },
{
    let mut anchors: Vec<(String, EmotionalAnchor)> = Vec::new();
    if !vault.is_unlocked() {
        return anchors;
    }
    let ghost key = vault.master_key()->Some_0;
    let mut i: usize = 0;
    proof {
        assert(entry_views(entries@).take(0) =~= Seq::<(Seq<char>, Seq<u8>)>::empty());
    }
    while i < entries.len()
        invariant
            i <= entries.len(),
            vault.master_key() == Some(key),
            anchor_views(anchors@) =~= active_anchors(key, entry_views(entries@).take(i as int)),
        decreases entries.len() - i,
    {
        let ghost next = entry_views(entries@).take(i + 1);
        proof {
            assert(next.drop_last() =~= entry_views(entries@).take(i as int));
            assert(next.last() == (entries@[i as int].0@, entries@[i as int].1@));
        }
        let entry = &entries[i];
        if starts_with(entry.0.as_str(), ANCHOR_PREFIX) {
            match vault.decrypt_anchor(entry.1.as_slice()) {
                Ok(anchor) => {
                    if anchor.active {
                        let ghost before = anchors@;
                        anchors.push((entry.0.clone(), anchor));
                        proof {
                            assert(anchor_views(anchors@) =~= anchor_views(before).push(
                                (entry.0@, anchor@),
                            ));
                        }
                    }
                },
                Err(_) => {},
            }
        }
        i = i + 1;
    }
    proof {
        assert(entry_views(entries@).take(entries.len() as int) =~= entry_views(entries@));
    }
    anchors
}

/// Returns the directive that a list of anchors calls for, if any.
pub fn mental_load_directive(anchors: &Vec<(String, EmotionalAnchor)>) -> (directive: Option<String>)
    ensures
        text_opt(directive) == mental_load(anchor_views(anchors@)),
{
    let mut joined = String::new();
    let mut count: usize = 0;
    let mut i: usize = 0;
    proof {
        assert(anchor_views(anchors@).take(0) =~= Seq::<(Seq<char>, AnchorView)>::empty());
    }
    while i < anchors.len()
        invariant
            i <= anchors.len(),
            count <= i,
            count == heavy_types(anchor_views(anchors@).take(i as int)).len(),
            joined@ == comma_joined(heavy_types(anchor_views(anchors@).take(i as int))),
        decreases anchors.len() - i,
    {
        let ghost seen = anchor_views(anchors@).take(i as int);
        let ghost next = anchor_views(anchors@).take(i + 1);
        proof {
            assert(next.drop_last() =~= seen);
            assert(next.last() == (anchors@[i as int].0@, anchors@[i as int].1@));
        }
        let anchor = &anchors[i].1;
        if anchor.active && anchor.intensity > HEAVY_INTENSITY {
            if count > 0 {
                joined.append(", ");
            }
            joined.append(anchor.anchor_type.as_str());
            proof {
                assert(heavy_types(next).drop_last() =~= heavy_types(seen));
                assert(joined@ =~= comma_joined(heavy_types(next)));
            }
            count = count + 1;
        }
        i = i + 1;
    }
    proof {
        assert(anchor_views(anchors@).take(anchors.len() as int) =~= anchor_views(anchors@));
    }
    if count == 0 {
        return None;
    }
    let mut directive = String::from_str(
        "The user is currently handling heavy personal issues (detected anchors: ",
    );
    directive.append(joined.as_str());
    directive.append(
        "). Be supportive and prioritize cognitive ease over performance metrics. Use a warm, patient tone. Avoid adding pressure or urgency.",
    );
    Some(directive)
}

/// What a typed read of the Shadow partition returns for the blob found
/// under its key. Without a master key it is `Locked`, whether or not the
/// key exists.
pub open spec fn is_shadow_read<V>(
    shadow_key: Option<Seq<u8>>,
    entries: Map<Seq<u8>, Seq<u8>>,
    key: Seq<u8>,
    found: Result<Option<V>, StoreError>,
    opened: spec_fn(Seq<u8>) -> Result<V, VaultError>,
) -> bool {
    if shadow_key is None {
        found matches Err(e) && e is Locked
    } else {
        match found {
            Ok(Some(value)) => entries.contains_key(key) && opened(entries[key]) == Ok::<
                V,
                VaultError,
            >(value),
            Ok(None) => !entries.contains_key(key),
            Err(StoreError::CryptoFailure) => entries.contains_key(key) && opened(entries[key])
                == Err::<V, VaultError>(VaultError::CorruptOrWrongKey),
            Err(StoreError::Serialization) => entries.contains_key(key) && opened(entries[key])
                == Err::<V, VaultError>(VaultError::Malformed),
            Err(e) => e is Io,
        }
    }
}

/// What a listing of the active anchors returns: none while the vault is
/// locked; else the active anchors among the entries of the Shadow
/// partition, in the order of some listing of it, or the failure of the scan.
pub open spec fn is_anchor_listing(
    store: &KnowledgeStore,
    anchors: Result<Vec<(String, EmotionalAnchor)>, StoreError>,
) -> bool {
    match anchors {
        Ok(found) => match store.shadow_key() {
            None => found@.len() == 0,
            Some(key) => exists|entries: Seq<(Seq<char>, Seq<u8>)>| #[trigger]
                store.lists(SHADOW_SLOT_ID, entries) && anchor_views(found@) == active_anchors(
                    key,
                    entries,
                ),
        },
        Err(e) => e is Io && store.shadow_key() is Some,
    }
}

impl KnowledgeStore {
    /// Seals an anchor and stores it in the Shadow partition. Fails with
    /// `Locked` where the vault holds no master key.
    pub fn insert_shadow_anchor(&mut self, key: &str, anchor: &EmotionalAnchor) -> (outcome: Result<
        (),
        StoreError,
    >)
        ensures
            final(self).wrote(old(self), SHADOW_SLOT_ID, key@, anchor@.bytes(), outcome),
    {
        let bytes = anchor.to_bytes();
        self.put(SHADOW_SLOT_ID, key, bytes.as_slice())
    }

    /// Reads and opens an anchor from the Shadow partition.
    pub fn get_shadow_anchor(&self, key: &str) -> (found: Result<
        Option<EmotionalAnchor>,
        StoreError,
    >)
        ensures
            is_shadow_read(
                self.shadow_key(),
                self.partition(SHADOW_SLOT_ID),
                key_bytes(key@),
                match found {
                    Ok(Some(anchor)) => Ok(Some(anchor@)),
                    Ok(None) => Ok(None),
                    Err(e) => Err(e),
                },
                |blob: Seq<u8>| opened_anchor(self.shadow_key(), blob),
            ),
    {
        if !self.is_shadow_unlocked() {
            return Err(StoreError::Locked);
        }
        match self.get(SHADOW_SLOT_ID, key) {
            Ok(Some(blob)) => match self.vault().decrypt_anchor(blob.as_slice()) {
                Ok(anchor) => Ok(Some(anchor)),
                Err(e) => Err(store_error_from(e)),
            },
            Ok(None) => Ok(None),
            Err(e) => Err(e),
        }
    }

    /// Reads and opens a text from the Shadow partition.
    pub fn get_shadow_decrypted(&self, key: &str) -> (found: Result<Option<String>, StoreError>)
        ensures
            is_shadow_read(
                self.shadow_key(),
                self.partition(SHADOW_SLOT_ID),
                key_bytes(key@),
                match found {
                    Ok(Some(text)) => Ok(Some(text@)),
                    Ok(None) => Ok(None),
                    Err(e) => Err(e),
                },
                |blob: Seq<u8>| opened_text(self.shadow_key(), blob),
            ),
    {
        if !self.is_shadow_unlocked() {
            return Err(StoreError::Locked);
        }
        match self.get(SHADOW_SLOT_ID, key) {
            Ok(Some(blob)) => match self.vault().decrypt_str(blob.as_slice()) {
                Ok(text) => Ok(Some(text)),
                Err(e) => Err(store_error_from(e)),
            },
            Ok(None) => Ok(None),
            Err(e) => Err(e),
        }
    }

    /// Returns the active anchors of the Shadow partition, each with its
    /// key. With the vault locked there are none, and nothing is read. A
    /// failed scan is surfaced; entries that do not open or do not read as
    /// an anchor are skipped.
    pub fn get_active_shadow_anchors(&self) -> (anchors: Result<
        Vec<(String, EmotionalAnchor)>,
        StoreError,
    >)
        ensures
            is_anchor_listing(self, anchors),
    {
        if !self.is_shadow_unlocked() {
            return Ok(Vec::new());
        }
        let entries = match self.scan_kv(SHADOW_SLOT_ID) {
            Ok(entries) => entries,
            Err(e) => {
                return Err(e);
            },
        };
        let anchors = active_anchors_among(self.vault(), &entries);
        proof {
            assert(self.lists(SHADOW_SLOT_ID, entry_views(entries@)) && anchor_views(anchors@)
                == active_anchors(self.shadow_key()->Some_0, entry_views(entries@)));
        }
        Ok(anchors)
    }

    /// Returns the directive that the active anchors call for, if any. With
    /// the vault locked there is none, and that is no failure. A failed scan
    /// of the Shadow partition is surfaced.
    pub fn check_mental_load(&self) -> (directive: Result<Option<String>, StoreError>)
        ensures
            match directive {
                Ok(text) => match self.shadow_key() {
                    None => text is None,
                    Some(key) => exists|entries: Seq<(Seq<char>, Seq<u8>)>| #[trigger]
                        self.lists(SHADOW_SLOT_ID, entries) && text_opt(text) == mental_load(
                            active_anchors(key, entries),
                        ),
                },
                Err(e) => e is Io && self.shadow_key() is Some,
            },
    {
        let anchors = match self.get_active_shadow_anchors() {
            Ok(anchors) => anchors,
            Err(e) => {
                return Err(e);
            },
        };
        let directive = mental_load_directive(&anchors);
        proof {
            if self.shadow_key() is None {
                assert(anchor_views(anchors@) =~= Seq::<(Seq<char>, AnchorView)>::empty());
            }
        }
        Ok(directive)
    }
}

} // verus!
