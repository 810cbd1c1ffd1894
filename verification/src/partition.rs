//! The nine partitions: slot numbers, labels and namespace names.

use vstd::prelude::*;

verus! {

/// Slot number of the encrypted partition.
pub const SHADOW_SLOT_ID: u8 = 9;

/// One of the nine partitions. The numbering is part of the external contract.
#[derive(Debug, Clone, Copy, PartialEq, Eq, Hash, Structural)]
pub enum KbType {
    /// Slot 1: identity, mission, evolving playbook.
    Pneuma,
    /// Slot 2: workspace context and governed tasks.
    Oikos,
    /// Slot 3: distilled knowledge.
    Logos,
    /// Slot 4: episodic memory.
    Chronos,
    /// Slot 5: skill manifests.
    Techne,
    /// Slot 6: safety and philosophical policies.
    Ethos,
    /// Slot 7: relations, people, mental state.
    Kardia,
    /// Slot 8: biometrics and agent inboxes.
    Soma,
    /// Slot 9: encrypted emotional anchors.
    Shadow,
}

/// True for the slot numbers that name a partition.
pub open spec fn valid_slot(slot_id: u8) -> bool {
    1 <= slot_id <= 9
}

/// The human-readable label of a slot, or `"Unknown"` outside 1..=9.
pub open spec fn slot_label(slot_id: u8) -> Seq<char> {
    if slot_id == 1 {
        "Pneuma (Vision)"@
    } else if slot_id == 2 {
        "Oikos (Context)"@
    } else if slot_id == 3 {
        "Logos (Knowledge)"@
    } else if slot_id == 4 {
        "Chronos (Temporal)"@
    } else if slot_id == 5 {
        "Techne (Capability)"@
    } else if slot_id == 6 {
        "Ethos (Guardrails)"@
    } else if slot_id == 7 {
        "Kardia (Affective)"@
    } else if slot_id == 8 {
        "Soma (Execution)"@
    } else if slot_id == 9 {
        "Shadow (The Vault)"@
    } else {
        "Unknown"@
    }
}

/// The name of the partition with a slot number; a number outside 1..=9
/// has the name `"Unknown"`.
pub open spec fn slot_name(slot_id: u8) -> Seq<char> {
    if slot_id == 1 {
        "Pneuma"@
    } else if slot_id == 2 {
        "Oikos"@
    } else if slot_id == 3 {
        "Logos"@
    } else if slot_id == 4 {
        "Chronos"@
    } else if slot_id == 5 {
        "Techne"@
    } else if slot_id == 6 {
        "Ethos"@
    } else if slot_id == 7 {
        "Kardia"@
    } else if slot_id == 8 {
        "Soma"@
    } else if slot_id == 9 {
        "Shadow"@
    } else {
        "Unknown"@
    }
}

/// What the partition with a slot number is for, in a few words.
pub open spec fn slot_purpose(slot_id: u8) -> Seq<char> {
    if slot_id == 1 {
        "Vision/Identity"@
    } else if slot_id == 2 {
        "Context/Workspace/Tasks"@
    } else if slot_id == 3 {
        "Distilled Knowledge"@
    } else if slot_id == 4 {
        "Temporal/Episodic"@
    } else if slot_id == 5 {
        "Skill manifests"@
    } else if slot_id == 6 {
        "Safety+philosophy"@
    } else if slot_id == 7 {
        "Relational+mental state"@
    } else if slot_id == 8 {
        "Biometric+agent inbox"@
    } else if slot_id == 9 {
        "Emotional anchors"@
    } else {
        "Unknown"@
    }
}

/// The namespace that stores a slot. A slot number outside 1..=9 falls back
/// to the namespace of slot 1.
pub open spec fn slot_tree_name(slot_id: u8) -> Seq<char> {
    if slot_id == 2 {
        "kb2_techdocs"@
    } else if slot_id == 3 {
        "kb3_research"@
    } else if slot_id == 4 {
        "kb4_memory"@
    } else if slot_id == 5 {
        "kb5_skills"@
    } else if slot_id == 6 {
        "kb6_security"@
    } else if slot_id == 7 {
        "kb7_personal"@
    } else if slot_id == 8 {
        "kb8_buffer"@
    } else if slot_id == 9 {
        "kb9_shadow"@
    } else {
        "kb1_identity"@
    }
}

impl KbType {
    /// The slot number as a specification value.
    pub open spec fn spec_slot_id(&self) -> u8 {
        match *self {
            KbType::Pneuma => 1,
            KbType::Oikos => 2,
            KbType::Logos => 3,
            KbType::Chronos => 4,
            KbType::Techne => 5,
            KbType::Ethos => 6,
            KbType::Kardia => 7,
            KbType::Soma => 8,
            KbType::Shadow => 9,
        }
    }

    /// The partition with a given slot number, if there is one.
    pub open spec fn spec_from_slot_id(slot_id: u8) -> Option<KbType> {
        if slot_id == 1 {
            Some(KbType::Pneuma)
        } else if slot_id == 2 {
            Some(KbType::Oikos)
        } else if slot_id == 3 {
            Some(KbType::Logos)
        } else if slot_id == 4 {
            Some(KbType::Chronos)
        } else if slot_id == 5 {
            Some(KbType::Techne)
        } else if slot_id == 6 {
            Some(KbType::Ethos)
        } else if slot_id == 7 {
            Some(KbType::Kardia)
        } else if slot_id == 8 {
            Some(KbType::Soma)
        } else if slot_id == 9 {
            Some(KbType::Shadow)
        } else {
            None
        }
    }

    /// Returns the slot number (1 to 9) of this partition.
    #[verifier::when_used_as_spec(spec_slot_id)]
    pub fn slot_id(&self) -> (id: u8)
        ensures
            id == self.spec_slot_id(),
            valid_slot(id),
    {
        match self {
            KbType::Pneuma => 1,
            KbType::Oikos => 2,
            KbType::Logos => 3,
            KbType::Chronos => 4,
            KbType::Techne => 5,
            KbType::Ethos => 6,
            KbType::Kardia => 7,
            KbType::Soma => 8,
            KbType::Shadow => 9,
        }
    }

    /// Returns the human-readable label of this partition.
    pub fn label(&self) -> (text: &'static str)
        ensures
            text@ == slot_label(self.spec_slot_id()),
    {
        pagi_kb_slot_label(self.slot_id())
    }

    /// Returns the name of this partition, such as `Pneuma`.
    pub fn name(&self) -> (text: &'static str)
        ensures
            text@ == slot_name(self.spec_slot_id()),
    {
        slot_name_of(self.slot_id())
    }

    /// Returns what this partition is for, in a few words.
    pub fn purpose(&self) -> (text: &'static str)
        ensures
            text@ == slot_purpose(self.spec_slot_id()),
    {
        match self {
            KbType::Pneuma => "Vision/Identity",
            KbType::Oikos => "Context/Workspace/Tasks",
            KbType::Logos => "Distilled Knowledge",
            KbType::Chronos => "Temporal/Episodic",
            KbType::Techne => "Skill manifests",
            KbType::Ethos => "Safety+philosophy",
            KbType::Kardia => "Relational+mental state",
            KbType::Soma => "Biometric+agent inbox",
            KbType::Shadow => "Emotional anchors",
        }
    }

    /// Returns the name of the namespace that stores this partition.
    pub fn tree_name(&self) -> (text: &'static str)
        ensures
            text@ == slot_tree_name(self.spec_slot_id()),
    {
        tree_name_of(self.slot_id())
    }

    /// Returns `true` for the one partition whose values are encrypted.
    pub fn is_encrypted(&self) -> (sealed: bool)
        ensures
            sealed == (self.spec_slot_id() == SHADOW_SLOT_ID),
    {
        match self {
            KbType::Shadow => true,
            _ => false,
        }
    }

    /// Returns the partition with the given slot number, `None` outside 1..=9.
    pub fn from_slot_id(slot_id: u8) -> (kb: Option<KbType>)
        ensures
            kb == KbType::spec_from_slot_id(slot_id),
            kb is Some <==> valid_slot(slot_id),
            kb matches Some(k) ==> k.spec_slot_id() == slot_id,
    {
        match slot_id {
            1 => Some(KbType::Pneuma),
            2 => Some(KbType::Oikos),
            3 => Some(KbType::Logos),
            4 => Some(KbType::Chronos),
            5 => Some(KbType::Techne),
            6 => Some(KbType::Ethos),
            7 => Some(KbType::Kardia),
            8 => Some(KbType::Soma),
            9 => Some(KbType::Shadow),
            _ => None,
        }
    }

    /// Returns the eight unencrypted partitions in slot order.
    pub fn all() -> (kbs: [KbType; 8])
        ensures
            forall|i: int| 0 <= i < 8 ==> (#[trigger] kbs@[i]).spec_slot_id() == i + 1,
    {
        [
            KbType::Pneuma,
            KbType::Oikos,
            KbType::Logos,
            KbType::Chronos,
            KbType::Techne,
            KbType::Ethos,
            KbType::Kardia,
            KbType::Soma,
        ]
    }

    /// Returns all nine partitions in slot order, the encrypted one last.
    pub fn all_with_shadow() -> (kbs: [KbType; 9])
        ensures
            forall|i: int| 0 <= i < 9 ==> (#[trigger] kbs@[i]).spec_slot_id() == i + 1,
    {
        [
            KbType::Pneuma,
            KbType::Oikos,
            KbType::Logos,
            KbType::Chronos,
            KbType::Techne,
            KbType::Ethos,
            KbType::Kardia,
            KbType::Soma,
            KbType::Shadow,
        ]
    }
}

/// Returns the descriptive label for a slot number, `"Unknown"` outside 1..=9.
pub fn pagi_kb_slot_label(slot_id: u8) -> (text: &'static str)
    ensures
        text@ == slot_label(slot_id),
{
    match slot_id {
        1 => "Pneuma (Vision)",
        2 => "Oikos (Context)",
        3 => "Logos (Knowledge)",
        4 => "Chronos (Temporal)",
        5 => "Techne (Capability)",
        6 => "Ethos (Guardrails)",
        7 => "Kardia (Affective)",
        8 => "Soma (Execution)",
        9 => "Shadow (The Vault)",
        _ => "Unknown",
    }
}

/// Returns the name of the partition with a slot number, `"Unknown"`
/// outside 1..=9.
pub fn slot_name_of(slot_id: u8) -> (text: &'static str)
    ensures
        text@ == slot_name(slot_id),
{
    match slot_id {
        1 => "Pneuma",
        2 => "Oikos",
        3 => "Logos",
        4 => "Chronos",
        5 => "Techne",
        6 => "Ethos",
        7 => "Kardia",
        8 => "Soma",
        9 => "Shadow",
        _ => "Unknown",
    }
}

/// Returns the namespace name for a slot number. A number outside 1..=9 is
/// clamped to slot 1.
pub fn tree_name_of(slot_id: u8) -> (text: &'static str)
    ensures
        text@ == slot_tree_name(slot_id),
{
    match slot_id {
        2 => "kb2_techdocs",
        3 => "kb3_research",
        4 => "kb4_memory",
        5 => "kb5_skills",
        6 => "kb6_security",
        7 => "kb7_personal",
        8 => "kb8_buffer",
        9 => "kb9_shadow",
        _ => "kb1_identity",
    }
}

/// Slot numbers and partitions correspond one to one.
pub proof fn lemma_slot_round_trip(kb: KbType)
    ensures
        KbType::spec_from_slot_id(kb.spec_slot_id()) == Some(kb),
{
}

} // verus!
