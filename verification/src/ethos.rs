//! Ethos, slot 6: the safety policy and the philosophical policy.

use crate::json::{
    bool_or, get_bool_or, get_milli_or, get_text_list_or_empty, get_text_or_empty, json_members,
    json_quoted, list_views, member_views, milli_or, object_text, push_member, quote, read_members,
    text_list_or_empty, text_list_text, text_or_empty, write_object, write_text_list,
};
use crate::record::{is_record_read, Stored};
use crate::scalar::{clamp_milli, milli_text, write_milli, SCALE};
use crate::store::{key_bytes, KnowledgeStore, StoreError};
use crate::text::{contains, is_substring, lowercased, to_lowercase};
use vstd::prelude::*;
use vstd::utf8::encode_utf8;

verus! {

/// Slot number of the Ethos partition.
pub const ETHOS_SLOT_ID: u8 = 6;

/// Key of the active safety policy.
pub const ETHOS_DEFAULT_POLICY_KEY: &'static str = "policy/default";

/// Key of the active philosophical policy.
pub const ETHOS_POLICY_KEY: &'static str = "ethos/current";

/// The safety policy that is consulted before a skill runs.
#[derive(Debug, Clone)]
pub struct PolicyRecord {
    /// Skill names or action patterns that are always forbidden.
    pub forbidden_actions: Vec<String>,
    /// Keywords that must not occur in payload content.
    pub sensitive_keywords: Vec<String>,
    /// When true, content with a sensitive keyword is blocked.
    pub approval_required: bool,
}

/// The mathematical value of a [`PolicyRecord`].
pub struct PolicyView {
    pub forbidden_actions: Seq<Seq<char>>,
    pub sensitive_keywords: Seq<Seq<char>>,
    pub approval_required: bool,
}

/// Result of an alignment check.
#[derive(Debug, Clone, PartialEq, Eq)]
pub enum AlignmentResult {
    Pass,
    Fail { reason: String },
}

/// The mathematical value of an [`AlignmentResult`].
pub enum Verdict {
    Pass,
    Fail { reason: Seq<char> },
}

impl View for AlignmentResult {
    type V = Verdict;

    open spec fn view(&self) -> Verdict {
        match self {
            AlignmentResult::Pass => Verdict::Pass,
            AlignmentResult::Fail { reason } => Verdict::Fail { reason: reason@ },
        }
    }
}

impl View for PolicyRecord {
    type V = PolicyView;

    open spec fn view(&self) -> PolicyView {
        PolicyView {
            forbidden_actions: list_views(self.forbidden_actions@),
            sensitive_keywords: list_views(self.sensitive_keywords@),
            approval_required: self.approval_required,
        }
    }
}

/// The index of the first pattern that a text contains, if it contains any.
pub open spec fn first_contained(patterns: Seq<Seq<char>>, text: Seq<char>) -> Option<int>
    decreases patterns.len(),
{
    if patterns.len() == 0 {
        None
    } else {
        match first_contained(patterns.drop_last(), text) {
            Some(i) => Some(i),
            None => if is_substring(patterns.last(), text) {
                Some(patterns.len() - 1)
            } else {
                None
            },
        }
    }
}

/// Texts in lowercase.
pub open spec fn lowered(items: Seq<Seq<char>>) -> Seq<Seq<char>> {
    items.map_values(|t: Seq<char>| lowercased(t))
}

/// The index of the first pattern that occurs in a text, both taken in
/// lowercase, if any does.
pub open spec fn first_occurring(patterns: Seq<Seq<char>>, text: Seq<char>) -> Option<int> {
    first_contained(lowered(patterns), lowercased(text))
}

/// The reason given for a forbidden skill.
pub open spec fn forbidden_reason(skill_name: Seq<char>) -> Seq<char> {
    "Skill '"@ + skill_name + "' is forbidden by policy"@
}

/// The reason given for content with a sensitive keyword.
pub open spec fn sensitive_reason(keyword: Seq<char>) -> Seq<char> {
    "Content contains sensitive keyword '"@ + keyword + "'; policy requires approval"@
}

impl PolicyView {
    /// The verdict on a skill for given findings: the index of a forbidden
    /// action found in its name, and the index of a sensitive keyword found
    /// in its content.
    pub open spec fn judged(
        self,
        skill_name: Seq<char>,
        forbidden_hit: Option<int>,
        sensitive_hit: Option<int>,
    ) -> Verdict {
        if forbidden_hit is Some {
            Verdict::Fail { reason: forbidden_reason(skill_name) }
        } else if self.approval_required && sensitive_hit is Some && 0 <= sensitive_hit->Some_0
            < self.sensitive_keywords.len() {
            Verdict::Fail {
                reason: sensitive_reason(self.sensitive_keywords[sensitive_hit->Some_0]),
            }
        } else {
            Verdict::Pass
        }
    }

    /// The verdict of the policy on a skill and the content it would handle.
    ///
    /// The skill fails where a forbidden action occurs in its name. Else the
    /// content fails where approval is required and a sensitive keyword
    /// occurs in it; the reason names the first such keyword.
    pub open spec fn verdict(self, skill_name: Seq<char>, content: Seq<char>) -> Verdict {
        self.judged(
            skill_name,
            first_occurring(self.forbidden_actions, skill_name),
            first_occurring(self.sensitive_keywords, content),
        )
    }

    /// The members of the JSON object that a policy is written as.
    pub open spec fn members(self) -> Seq<(Seq<char>, Seq<char>)> {
        seq![
            ("forbidden_actions"@, text_list_text(self.forbidden_actions)),
            ("sensitive_keywords"@, text_list_text(self.sensitive_keywords)),
            (
                "approval_required"@,
                if self.approval_required {
                    "true"@
                } else {
                    "false"@
                },
            ),
        ]
    }

    /// The policy that the members of a JSON object spell. Missing lists are
    /// empty; approval is required unless stated otherwise.
    pub open spec fn of_members(members: Seq<(Seq<char>, Seq<char>)>) -> Option<PolicyView> {
        match (
            text_list_or_empty(members, "forbidden_actions"@),
            text_list_or_empty(members, "sensitive_keywords"@),
            bool_or(members, "approval_required"@, true),
        ) {
            (Some(forbidden_actions), Some(sensitive_keywords), Some(approval_required)) => Some(
                PolicyView { forbidden_actions, sensitive_keywords, approval_required },
            ),
            _ => None,
        }
    }

    /// The bytes that a policy is stored as.
    pub open spec fn bytes(self) -> Seq<u8> {
        encode_utf8(object_text(self.members()))
    }

    /// The policy that stored bytes spell.
    pub open spec fn of_bytes(bytes: Seq<u8>) -> Option<PolicyView> {
        match json_members(bytes) {
            Some(members) => PolicyView::of_members(members),
            None => None,
        }
    }
}

/// Returns the index of the first pattern that `text` contains.
pub fn find_contained(patterns: &Vec<String>, text: &str) -> (found: Option<usize>)
    ensures
        match found {
            Some(i) => first_contained(list_views(patterns@), text@) == Some(i as int) && i
                < patterns@.len(),
            None => first_contained(list_views(patterns@), text@) is None,
        },
{
    let mut i: usize = 0;
    proof {
        assert(list_views(patterns@).take(0) =~= Seq::<Seq<char>>::empty());
    }
    while i < patterns.len()
        invariant
            i <= patterns.len(),
            first_contained(list_views(patterns@).take(i as int), text@) is None,
        decreases patterns.len() - i,
    {
        let ghost next = list_views(patterns@).take(i + 1);
        proof {
            assert(next.drop_last() =~= list_views(patterns@).take(i as int));
            assert(next.last() == patterns@[i as int]@);
        }
        if contains(text, patterns[i].as_str()) {
            proof {
                lemma_first_contained_extends(list_views(patterns@), text@, i + 1);
            }
            return Some(i);
        }
        i = i + 1;
    }
    proof {
        assert(list_views(patterns@).take(patterns.len() as int) =~= list_views(patterns@));
    }
    None
}

/// A pattern found among the first `n` patterns is the one found among all
/// of them.
pub proof fn lemma_first_contained_extends(patterns: Seq<Seq<char>>, text: Seq<char>, n: int)
    requires
        0 <= n <= patterns.len(),
        first_contained(patterns.take(n), text) is Some,
    ensures
        first_contained(patterns, text) == first_contained(patterns.take(n), text),
    decreases patterns.len() - n,
{
    if n < patterns.len() {
        assert(patterns.take(n + 1).drop_last() =~= patterns.take(n));
        lemma_first_contained_extends(patterns, text, n + 1);
    } else {
        assert(patterns.take(n) =~= patterns);
    }
}

/// Returns the texts in lowercase.
pub fn lowercase_all(items: &Vec<String>) -> (lower: Vec<String>)
    ensures
        list_views(lower@) == lowered(list_views(items@)),
{
    let mut lower: Vec<String> = Vec::new();
    let mut i: usize = 0;
    while i < items.len()
        invariant
            i <= items.len(),
            lower@.len() == i,
            forall|k: int| 0 <= k < i ==> (#[trigger] lower@[k])@ == lowercased(items@[k]@),
        decreases items.len() - i,
    {
        lower.push(to_lowercase(items[i].as_str()));
        i = i + 1;
    }
    proof {
        assert(list_views(lower@) =~= lowered(list_views(items@)));
    }
    lower
}

impl Default for PolicyRecord {
    /// The default policy: nothing is forbidden outright, and content with a
    /// credential-like keyword requires approval.
    fn default() -> (policy: PolicyRecord)
        ensures
            policy@.forbidden_actions.len() == 0,
            policy@.sensitive_keywords == seq![
                "api_key"@,
                "apikey"@,
                "secret"@,
                "password"@,
                "token"@,
                "credentials"@,
            ],
            policy@.approval_required,
    {
        let mut sensitive_keywords: Vec<String> = Vec::new();
        sensitive_keywords.push(String::from_str("api_key"));
        sensitive_keywords.push(String::from_str("apikey"));
        sensitive_keywords.push(String::from_str("secret"));
        sensitive_keywords.push(String::from_str("password"));
        sensitive_keywords.push(String::from_str("token"));
        sensitive_keywords.push(String::from_str("credentials"));
        let policy = PolicyRecord {
            forbidden_actions: Vec::new(),
            sensitive_keywords,
            approval_required: true,
        };
        proof {
            assert(policy@.sensitive_keywords =~= seq![
                "api_key"@,
                "apikey"@,
                "secret"@,
                "password"@,
                "token"@,
                "credentials"@,
            ]);
        }
        policy
    }
}

impl PolicyRecord {
    /// Gives the verdict on a skill for given findings: the index of a
    /// forbidden action found in its name, and the index of a sensitive
    /// keyword found in its content.
    pub fn judge(
        &self,
        skill_name: &str,
        forbidden_hit: Option<usize>,
        sensitive_hit: Option<usize>,
    ) -> (result: AlignmentResult)
        ensures
            result@ == self@.judged(
                skill_name@,
                match forbidden_hit {
                    Some(i) => Some(i as int),
                    None => None,
                },
                match sensitive_hit {
                    Some(i) => Some(i as int),
                    None => None,
                },
            ),
    {
        if forbidden_hit.is_some() {
            let mut reason = String::from_str("Skill '");
            reason.append(skill_name);
            reason.append("' is forbidden by policy");
            return AlignmentResult::Fail { reason };
        }
        if self.approval_required {
            match sensitive_hit {
                Some(i) => {
                    if i < self.sensitive_keywords.len() {
                        let mut reason = String::from_str("Content contains sensitive keyword '");
                        reason.append(self.sensitive_keywords[i].as_str());
                        reason.append("'; policy requires approval");
                        return AlignmentResult::Fail { reason };
                    }
                },
                None => {},
            }
        }
        AlignmentResult::Pass
    }

    /// Decides whether a skill may run on the given content. Names and
    /// content are compared in lowercase.
    pub fn allows(&self, skill_name: &str, content_for_scan: &str) -> (result: AlignmentResult)
        ensures
            result@ == self@.verdict(skill_name@, content_for_scan@),
    {
        let skill_lower = to_lowercase(skill_name);
        let forbidden_lower = lowercase_all(&self.forbidden_actions);
        let forbidden_hit = find_contained(&forbidden_lower, skill_lower.as_str());
        if forbidden_hit.is_some() {
            return self.judge(skill_name, forbidden_hit, None);
        }
        let content_lower = to_lowercase(content_for_scan);
        let keywords_lower = lowercase_all(&self.sensitive_keywords);
        let sensitive_hit = find_contained(&keywords_lower, content_lower.as_str());
        proof {
            assert(lowered(list_views(self.sensitive_keywords@)).len()
                == self.sensitive_keywords@.len());
        }
        self.judge(skill_name, None, sensitive_hit)
    }

    /// Writes the policy as the bytes of a JSON object.
    pub fn to_bytes(&self) -> (bytes: Vec<u8>)
        ensures
            bytes@ == self@.bytes(),
    {
        let mut members: Vec<(String, String)> = Vec::new();
        push_member(&mut members, "forbidden_actions", write_text_list(&self.forbidden_actions));
        push_member(&mut members, "sensitive_keywords", write_text_list(&self.sensitive_keywords));
        let flag = if self.approval_required {
            "true"
        } else {
            "false"
        };
        push_member(&mut members, "approval_required", String::from_str(flag));
        proof {
            assert(member_views(members@) =~= self@.members());
        }
        write_object(&members).as_str().as_bytes_vec()
    }

    /// Reads a policy from the members of a JSON object.
    pub fn from_members(members: &Vec<(String, String)>) -> (policy: Option<PolicyRecord>)
        ensures
            match policy {
                Some(p) => PolicyView::of_members(member_views(members@)) == Some(p@),
                None => PolicyView::of_members(member_views(members@)) is None,
            },
    {
        let forbidden_actions = get_text_list_or_empty(members, "forbidden_actions");
        let sensitive_keywords = get_text_list_or_empty(members, "sensitive_keywords");
        let approval_required = get_bool_or(members, "approval_required", true);
        match (forbidden_actions, sensitive_keywords, approval_required) {
            (Some(forbidden_actions), Some(sensitive_keywords), Some(approval_required)) => Some(
                PolicyRecord { forbidden_actions, sensitive_keywords, approval_required },
            ),
            _ => None,
        }
    }

    /// Reads a policy from the bytes of a JSON object.
    pub fn from_bytes(bytes: &[u8]) -> (policy: Option<PolicyRecord>)
        ensures
            match policy {
                Some(p) => PolicyView::of_bytes(bytes@) == Some(p@),
                None => PolicyView::of_bytes(bytes@) is None,
            },
    {
        match read_members(bytes) {
            Some(members) => PolicyRecord::from_members(&members),
            None => None,
        }
    }
}

impl Stored for PolicyRecord {
    open spec fn decoded(bytes: Seq<u8>) -> Option<PolicyView> {
        PolicyView::of_bytes(bytes)
    }

    fn decode(bytes: &[u8]) -> (record: Option<PolicyRecord>) {
        PolicyRecord::from_bytes(bytes)
    }
}

/// The philosophical policy: the lens through which tasks are weighed.
#[derive(Debug, Clone)]
pub struct EthosPolicy {
    /// Name of the school of thought in force.
    pub active_school: String,
    /// The maxims that the school is summed up in.
    pub core_maxims: Vec<String>,
    /// How much the lens shields against strain, in thousandths of 0 to 1.
    pub tone_weight: u32,
}

/// The mathematical value of an [`EthosPolicy`].
pub struct EthosView {
    pub active_school: Seq<char>,
    pub core_maxims: Seq<Seq<char>>,
    pub tone_weight: u32,
}

impl View for EthosPolicy {
    type V = EthosView;

    open spec fn view(&self) -> EthosView {
        EthosView {
            active_school: self.active_school@,
            core_maxims: list_views(self.core_maxims@),
            tone_weight: self.tone_weight,
        }
    }
}

impl EthosView {
    /// The members of the JSON object that a philosophical policy is written as.
    pub open spec fn members(self) -> Seq<(Seq<char>, Seq<char>)> {
        seq![
            ("active_school"@, json_quoted(self.active_school)),
            ("core_maxims"@, text_list_text(self.core_maxims)),
            ("tone_weight"@, milli_text(self.tone_weight)),
        ]
    }

    /// The philosophical policy that the members of a JSON object spell. A
    /// weight above one is taken as one.
    pub open spec fn of_members(members: Seq<(Seq<char>, Seq<char>)>) -> Option<EthosView> {
        match (
            text_or_empty(members, "active_school"@),
            text_list_or_empty(members, "core_maxims"@),
            milli_or(members, "tone_weight"@, 0),
        ) {
            (Some(active_school), Some(core_maxims), Some(weight)) => Some(
                EthosView {
                    active_school,
                    core_maxims,
                    tone_weight: if weight > SCALE {
                        SCALE
                    } else {
                        weight
                    },
                },
            ),
            _ => None,
        }
    }

    /// The bytes that a philosophical policy is stored as.
    pub open spec fn bytes(self) -> Seq<u8> {
        encode_utf8(object_text(self.members()))
    }

    /// The philosophical policy that stored bytes spell.
    pub open spec fn of_bytes(bytes: Seq<u8>) -> Option<EthosView> {
        match json_members(bytes) {
            Some(members) => EthosView::of_members(members),
            None => None,
        }
    }
}

impl EthosPolicy {
    /// Writes the policy as the bytes of a JSON object.
    pub fn to_bytes(&self) -> (bytes: Vec<u8>)
        ensures
            bytes@ == self@.bytes(),
    {
        let mut members: Vec<(String, String)> = Vec::new();
        push_member(&mut members, "active_school", quote(self.active_school.as_str()));
        push_member(&mut members, "core_maxims", write_text_list(&self.core_maxims));
        push_member(&mut members, "tone_weight", write_milli(self.tone_weight));
        proof {
            assert(member_views(members@) =~= self@.members());
        }
        write_object(&members).as_str().as_bytes_vec()
    }

    /// Reads a policy from the members of a JSON object.
    pub fn from_members(members: &Vec<(String, String)>) -> (policy: Option<EthosPolicy>)
        ensures
            match policy {
                Some(p) => EthosView::of_members(member_views(members@)) == Some(p@),
                None => EthosView::of_members(member_views(members@)) is None,
            },
    {
        let active_school = get_text_or_empty(members, "active_school");
        let core_maxims = get_text_list_or_empty(members, "core_maxims");
        let tone_weight = get_milli_or(members, "tone_weight", 0);
        match (active_school, core_maxims, tone_weight) {
            (Some(active_school), Some(core_maxims), Some(weight)) => Some(
                EthosPolicy {
                    active_school,
                    core_maxims,
                    tone_weight: clamp_milli(weight, 0, SCALE),
                },
            ),
            _ => None,
        }
    }

    /// Reads a policy from the bytes of a JSON object.
    pub fn from_bytes(bytes: &[u8]) -> (policy: Option<EthosPolicy>)
        ensures
            match policy {
                Some(p) => EthosView::of_bytes(bytes@) == Some(p@),
                None => EthosView::of_bytes(bytes@) is None,
            },
    {
        match read_members(bytes) {
            Some(members) => EthosPolicy::from_members(&members),
            None => None,
        }
    }
}

impl Stored for EthosPolicy {
    open spec fn decoded(bytes: Seq<u8>) -> Option<EthosView> {
        EthosView::of_bytes(bytes)
    }

    fn decode(bytes: &[u8]) -> (record: Option<EthosPolicy>) {
        EthosPolicy::from_bytes(bytes)
    }
}

impl KnowledgeStore {
    /// Returns the active safety policy, if one is stored.
    pub fn get_ethos_policy(&self) -> (found: Result<Option<PolicyRecord>, StoreError>)
        ensures
            is_record_read(
                self.partition(ETHOS_SLOT_ID),
                key_bytes(ETHOS_DEFAULT_POLICY_KEY@),
                found,
            ),
    {
        self.get_stored::<PolicyRecord>(ETHOS_SLOT_ID, ETHOS_DEFAULT_POLICY_KEY)
    }

    /// Stores the active safety policy.
    pub fn set_ethos_policy(&mut self, policy: &PolicyRecord) -> (outcome: Result<(), StoreError>)
        ensures
            final(self).wrote(
                old(self),
                ETHOS_SLOT_ID,
                ETHOS_DEFAULT_POLICY_KEY@,
                policy@.bytes(),
                outcome,
            ),
    {
        let bytes = policy.to_bytes();
        self.put(ETHOS_SLOT_ID, ETHOS_DEFAULT_POLICY_KEY, bytes.as_slice())
    }

    /// Returns the active philosophical policy, if one is stored.
    pub fn get_ethos_philosophical_policy(&self) -> (found: Result<Option<EthosPolicy>, StoreError>)
        ensures
            is_record_read(self.partition(ETHOS_SLOT_ID), key_bytes(ETHOS_POLICY_KEY@), found),
    {
        self.get_stored::<EthosPolicy>(ETHOS_SLOT_ID, ETHOS_POLICY_KEY)
    }

    /// Stores the philosophical policy.
    pub fn set_ethos_philosophical_policy(&mut self, policy: &EthosPolicy) -> (outcome: Result<
        (),
        StoreError,
    >)
        ensures
            final(self).wrote(old(self), ETHOS_SLOT_ID, ETHOS_POLICY_KEY@, policy@.bytes(), outcome),
    {
        let bytes = policy.to_bytes();
        self.put(ETHOS_SLOT_ID, ETHOS_POLICY_KEY, bytes.as_slice())
    }
}

} // verus!
