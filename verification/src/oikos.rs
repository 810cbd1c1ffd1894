//! Oikos, slot 2: governed tasks and the task governor.
//!
//! A task is stored under `oikos/tasks/{task_id}`, the last governance
//! summary under `oikos/governance/summary`.

use crate::derivation::is_effective_read;
use crate::ethos::{EthosPolicy, EthosView, ETHOS_POLICY_KEY, ETHOS_SLOT_ID};
use crate::json::{
    get_milli_or, get_text, get_text_or_empty, json_members, json_quoted, member,
    member_views, milli_or, object_text, push_member, quote, read_members, required_text,
    text_or_empty, write_object,
};
use crate::kardia::MentalState;
use crate::ranking::{is_ranked, is_ranking_of, sort_ranked, Ranked};
use crate::record::{
    collect_under, is_record_read, is_state_read, record_views, stored_under, Stored,
};
use crate::scalar::{milli_text, write_milli, SCALE};
use crate::soma::{SomaState, SOMA_SLOT_ID};
use crate::store::{entry_views, is_value_at, key_bytes, KnowledgeStore, StoreError};
use crate::text::{
    append_nat, lemma_text_le_total, lemma_text_le_transitive, nat_text, text_at_most,
    text_from_utf8, text_le,
};
use vstd::arithmetic::div_mod::{lemma_div_is_ordered, lemma_div_is_ordered_by_denominator};
use vstd::arithmetic::mul::lemma_mul_inequality;
use vstd::prelude::*;
use vstd::utf8::{decode_utf8, encode_utf8, encode_utf8_decode_utf8, valid_utf8};

verus! {

/// Slot number of the Oikos partition.
pub const OIKOS_SLOT_ID: u8 = 2;

/// Key prefix of the governed tasks.
pub const OIKOS_TASK_PREFIX: &'static str = "oikos/tasks/";

/// Key of the last governance summary.
pub const OIKOS_GOVERNANCE_SUMMARY_KEY: &'static str = "oikos/governance/summary";

/// How demanding a task is.
#[derive(Debug, Clone, Copy, PartialEq, Eq, Structural)]
pub enum TaskDifficulty {
    Easy,
    Medium,
    Hard,
}

impl TaskDifficulty {
    /// The name that a difficulty is written as.
    pub open spec fn name(self) -> Seq<char> {
        match self {
            TaskDifficulty::Easy => "easy"@,
            TaskDifficulty::Medium => "medium"@,
            TaskDifficulty::Hard => "hard"@,
        }
    }

    /// The difficulty that a name stands for.
    pub open spec fn of_name(name: Seq<char>) -> Option<TaskDifficulty> {
        if name == "easy"@ {
            Some(TaskDifficulty::Easy)
        } else if name == "medium"@ {
            Some(TaskDifficulty::Medium)
        } else if name == "hard"@ {
            Some(TaskDifficulty::Hard)
        } else {
            None
        }
    }

    /// Returns the name that the difficulty is written as.
    pub fn as_str(&self) -> (name: &'static str)
        ensures
            name@ == self.name(),
    {
        match self {
            TaskDifficulty::Easy => "easy",
            TaskDifficulty::Medium => "medium",
            TaskDifficulty::Hard => "hard",
        }
    }

    /// Returns the difficulty that a name stands for.
    pub fn from_name(name: &str) -> (difficulty: Option<TaskDifficulty>)
        ensures
            difficulty == TaskDifficulty::of_name(name@),
    {
        let name = String::from_str(name);
        if name == String::from_str("easy") {
            Some(TaskDifficulty::Easy)
        } else if name == String::from_str("medium") {
            Some(TaskDifficulty::Medium)
        } else if name == String::from_str("hard") {
            Some(TaskDifficulty::Hard)
        } else {
            None
        }
    }
}

/// A task whose priority follows the state of body and mind.
#[derive(Debug, Clone)]
pub struct GovernedTask {
    /// Identifier of the task; its key is derived from it.
    pub task_id: String,
    /// What the task is, in a few words.
    pub title: String,
    /// The priority as set, in thousandths.
    pub base_priority: u32,
    /// How demanding the task is.
    pub difficulty: TaskDifficulty,
    /// The priority as last evaluated, in thousandths.
    pub effective_priority: u32,
}

/// The mathematical value of a [`GovernedTask`].
pub struct TaskView {
    pub task_id: Seq<char>,
    pub title: Seq<char>,
    pub base_priority: u32,
    pub difficulty: TaskDifficulty,
    pub effective_priority: u32,
}

impl View for GovernedTask {
    type V = TaskView;

    open spec fn view(&self) -> TaskView {
        TaskView {
            task_id: self.task_id@,
            title: self.title@,
            base_priority: self.base_priority,
            difficulty: self.difficulty,
            effective_priority: self.effective_priority,
        }
    }
}

/// The difficulty that the members of a JSON object state: medium where
/// they state none.
pub open spec fn stated_difficulty(members: Seq<(Seq<char>, Seq<char>)>) -> Option<TaskDifficulty> {
    if member(members, "difficulty"@) is None {
        Some(TaskDifficulty::Medium)
    } else {
        match required_text(members, "difficulty"@) {
            Some(name) => TaskDifficulty::of_name(name),
            None => None,
        }
    }
}

impl TaskView {
    /// The members of the JSON object that a task is written as.
    pub open spec fn members(self) -> Seq<(Seq<char>, Seq<char>)> {
        seq![
            ("task_id"@, json_quoted(self.task_id)),
            ("title"@, json_quoted(self.title)),
            ("base_priority"@, milli_text(self.base_priority)),
            ("difficulty"@, json_quoted(self.difficulty.name())),
            ("effective_priority"@, milli_text(self.effective_priority)),
        ]
    }

    /// The task that the members of a JSON object spell. Only the task id
    /// is required; a task that was never evaluated has its base priority.
    pub open spec fn of_members(members: Seq<(Seq<char>, Seq<char>)>) -> Option<TaskView> {
        match (
            required_text(members, "task_id"@),
            text_or_empty(members, "title"@),
            milli_or(members, "base_priority"@, SCALE),
            stated_difficulty(members),
        ) {
            (Some(task_id), Some(title), Some(base_priority), Some(difficulty)) => match milli_or(
                members,
                "effective_priority"@,
                base_priority,
            ) {
                Some(effective_priority) => Some(
                    TaskView { task_id, title, base_priority, difficulty, effective_priority },
                ),
                None => None,
            },
            _ => None,
        }
    }

    /// The bytes that a task is stored as.
    pub open spec fn bytes(self) -> Seq<u8> {
        encode_utf8(object_text(self.members()))
    }

    /// The task that stored bytes spell.
    pub open spec fn of_bytes(bytes: Seq<u8>) -> Option<TaskView> {
        match json_members(bytes) {
            Some(members) => TaskView::of_members(members),
            None => None,
        }
    }
}

/// The key of a task.
pub open spec fn task_key(task_id: Seq<char>) -> Seq<char> {
    OIKOS_TASK_PREFIX@ + task_id
}

/// Returns the key of a task.
pub fn oikos_task_key(task_id: &str) -> (key: String)
    ensures
        key@ == task_key(task_id@),
{
    let mut key = String::from_str(OIKOS_TASK_PREFIX);
    key.append(task_id);
    key
}

impl GovernedTask {
    /// Creates a task that was not evaluated yet: its effective priority is
    /// its base priority.
    pub fn new(task_id: &str, title: &str, base_priority: u32, difficulty: TaskDifficulty) -> (task:
        GovernedTask)
        ensures
            task@ == (TaskView {
                task_id: task_id@,
                title: title@,
                base_priority,
                difficulty,
                effective_priority: base_priority,
            }),
    {
        GovernedTask {
            task_id: String::from_str(task_id),
            title: String::from_str(title),
            base_priority,
            difficulty,
            effective_priority: base_priority,
        }
    }

    /// Writes the task as the bytes of a JSON object.
    pub fn to_bytes(&self) -> (bytes: Vec<u8>)
        ensures
            bytes@ == self@.bytes(),
    {
        let mut members: Vec<(String, String)> = Vec::new();
        push_member(&mut members, "task_id", quote(self.task_id.as_str()));
        push_member(&mut members, "title", quote(self.title.as_str()));
        push_member(&mut members, "base_priority", write_milli(self.base_priority));
        push_member(&mut members, "difficulty", quote(self.difficulty.as_str()));
        push_member(&mut members, "effective_priority", write_milli(self.effective_priority));
        proof {
            assert(member_views(members@) =~= self@.members());
        }
        write_object(&members).as_str().as_bytes_vec()
    }

    /// Reads a task from the members of a JSON object.
    pub fn from_members(members: &Vec<(String, String)>) -> (task: Option<GovernedTask>)
        ensures
            match task {
                Some(t) => TaskView::of_members(member_views(members@)) == Some(t@),
                None => TaskView::of_members(member_views(members@)) is None,
            },
    {
        let task_id = get_text(members, "task_id");
        let title = get_text_or_empty(members, "title");
        let base_priority = get_milli_or(members, "base_priority", SCALE);
        let difficulty = if crate::json::find_member(members, "difficulty").is_none() {
            Some(TaskDifficulty::Medium)
        } else {
            match get_text(members, "difficulty") {
                Some(name) => TaskDifficulty::from_name(name.as_str()),
                None => None,
            }
        };
        match (task_id, title, base_priority, difficulty) {
            (Some(task_id), Some(title), Some(base_priority), Some(difficulty)) => match get_milli_or(
                members,
                "effective_priority",
                base_priority,
            ) {
                Some(effective_priority) => Some(
                    GovernedTask { task_id, title, base_priority, difficulty, effective_priority },
                ),
                None => None,
            },
            _ => None,
        }
    }

    /// Reads a task from the bytes of a JSON object.
    pub fn from_bytes(bytes: &[u8]) -> (task: Option<GovernedTask>)
        ensures
            match task {
                Some(t) => TaskView::of_bytes(bytes@) == Some(t@),
                None => TaskView::of_bytes(bytes@) is None,
            },
    {
        match read_members(bytes) {
            Some(members) => GovernedTask::from_members(&members),
            None => None,
        }
    }
}

impl Stored for GovernedTask {
    open spec fn decoded(bytes: Seq<u8>) -> Option<TaskView> {
        TaskView::of_bytes(bytes)
    }

    fn decode(bytes: &[u8]) -> (record: Option<GovernedTask>) {
        GovernedTask::from_bytes(bytes)
    }
}

impl Ranked for GovernedTask {
    /// By effective priority, highest first; among equals by task id,
    /// ascending.
    open spec fn ranks_before(&self, other: &GovernedTask) -> bool {
        self.effective_priority > other.effective_priority || (self.effective_priority
            == other.effective_priority && text_le(self.task_id@, other.task_id@))
    }

    fn before(&self, other: &GovernedTask) -> (yes: bool) {
        self.effective_priority > other.effective_priority || (self.effective_priority
            == other.effective_priority && text_at_most(
            self.task_id.as_str(),
            other.task_id.as_str(),
        ))
    }

    proof fn lemma_total(a: &GovernedTask, b: &GovernedTask) {
        lemma_text_le_total(a.task_id@, b.task_id@);
    }

    proof fn lemma_transitive(a: &GovernedTask, b: &GovernedTask, c: &GovernedTask) {
        if a.effective_priority == b.effective_priority && b.effective_priority
            == c.effective_priority {
            lemma_text_le_transitive(a.task_id@, b.task_id@, c.task_id@);
        }
    }
}

/// The share of full demand that remains under a grace multiplier, in
/// thousandths: the inverse of the multiplier.
pub open spec fn strain_share(grace_multiplier: u32) -> int {
    1_000_000int / (grace_multiplier as int)
}

/// The multiplier of a hard task, in thousandths: the strain share, lowered
/// by up to half for burnout risk and by up to half again for the weight of
/// the philosophical lens.
pub open spec fn hard_multiplier(grace_multiplier: u32, burnout_risk: u32, care: u32) -> int {
    (strain_share(grace_multiplier) * (2000 - burnout_risk) / 2000) * (2000 - care) / 2000
}

/// The multiplier of a task, in thousandths. An easy task keeps its
/// priority; a medium task gives up half of what a grace multiplier takes;
/// a hard task gives up all of it, and more under burnout risk.
pub open spec fn priority_multiplier(
    difficulty: TaskDifficulty,
    grace_multiplier: u32,
    burnout_risk: u32,
    care: u32,
) -> int {
    match difficulty {
        TaskDifficulty::Easy => 1000,
        TaskDifficulty::Medium => (1000 + strain_share(grace_multiplier)) / 2,
        TaskDifficulty::Hard => hard_multiplier(grace_multiplier, burnout_risk, care),
    }
}

/// The effective priority of a task: its base priority times its multiplier.
pub open spec fn governed_priority(
    base_priority: u32,
    difficulty: TaskDifficulty,
    grace_multiplier: u32,
    burnout_risk: u32,
    care: u32,
) -> int {
    base_priority * priority_multiplier(difficulty, grace_multiplier, burnout_risk, care) / 1000
}

/// No multiplier is negative, and none exceeds one.
pub proof fn lemma_multiplier_bounds(
    difficulty: TaskDifficulty,
    grace_multiplier: u32,
    burnout_risk: u32,
    care: u32,
)
    requires
        grace_multiplier >= SCALE,
        burnout_risk <= SCALE,
        care <= SCALE,
    ensures
        0 <= strain_share(grace_multiplier) <= 1000,
        0 <= priority_multiplier(difficulty, grace_multiplier, burnout_risk, care) <= 1000,
{
    let share = strain_share(grace_multiplier);
    lemma_div_is_ordered_by_denominator(1_000_000, 1000, grace_multiplier as int);
    vstd::arithmetic::div_mod::lemma_div_pos_is_pos(1_000_000, grace_multiplier as int);
    assert(0 <= share <= 1000);
    let lowered = share * (2000 - burnout_risk) / 2000;
    assert(0 <= share * (2000 - burnout_risk) <= 2_000_000) by (nonlinear_arith)
        requires
            0 <= share <= 1000,
            burnout_risk <= 1000,
    ;
    assert(0 <= lowered <= 1000);
    assert(0 <= lowered * (2000 - care) <= 2_000_000) by (nonlinear_arith)
        requires
            0 <= lowered <= 1000,
            care <= 1000,
    ;
}

/// A higher grace multiplier never raises the priority of a hard task.
pub proof fn lemma_hard_priority_falls_with_grace(
    base_priority: u32,
    lower_grace: u32,
    higher_grace: u32,
    burnout_risk: u32,
    care: u32,
)
    requires
        SCALE <= lower_grace <= higher_grace,
        burnout_risk <= SCALE,
        care <= SCALE,
    ensures
        governed_priority(base_priority, TaskDifficulty::Hard, higher_grace, burnout_risk, care)
            <= governed_priority(base_priority, TaskDifficulty::Hard, lower_grace, burnout_risk, care),
{
    let low = strain_share(higher_grace);
    let high = strain_share(lower_grace);
    lemma_div_is_ordered_by_denominator(1_000_000, lower_grace as int, higher_grace as int);
    lemma_multiplier_bounds(TaskDifficulty::Hard, higher_grace, burnout_risk, care);
    lemma_multiplier_bounds(TaskDifficulty::Hard, lower_grace, burnout_risk, care);
    lemma_mul_inequality(low, high, 2000 - burnout_risk);
    lemma_div_is_ordered(low * (2000 - burnout_risk), high * (2000 - burnout_risk), 2000);
    let low1 = low * (2000 - burnout_risk) / 2000;
    let high1 = high * (2000 - burnout_risk) / 2000;
    lemma_mul_inequality(low1, high1, 2000 - care);
    lemma_div_is_ordered(low1 * (2000 - care), high1 * (2000 - care), 2000);
    let low2 = hard_multiplier(higher_grace, burnout_risk, care);
    let high2 = hard_multiplier(lower_grace, burnout_risk, care);
    lemma_mul_inequality(low2, high2, base_priority as int);
    assert(base_priority * low2 == low2 * base_priority) by (nonlinear_arith);
    assert(base_priority * high2 == high2 * base_priority) by (nonlinear_arith);
    lemma_div_is_ordered(base_priority * low2, base_priority * high2, 1000);
}

/// A higher burnout risk never raises the priority of a hard task.
pub proof fn lemma_hard_priority_falls_with_burnout(
    base_priority: u32,
    grace_multiplier: u32,
    lower_risk: u32,
    higher_risk: u32,
    care: u32,
)
    requires
        grace_multiplier >= SCALE,
        lower_risk <= higher_risk <= SCALE,
        care <= SCALE,
    ensures
        governed_priority(base_priority, TaskDifficulty::Hard, grace_multiplier, higher_risk, care)
            <= governed_priority(
            base_priority,
            TaskDifficulty::Hard,
            grace_multiplier,
            lower_risk,
            care,
        ),
{
    let share = strain_share(grace_multiplier);
    lemma_multiplier_bounds(TaskDifficulty::Hard, grace_multiplier, higher_risk, care);
    lemma_multiplier_bounds(TaskDifficulty::Hard, grace_multiplier, lower_risk, care);
    lemma_mul_inequality(2000 - higher_risk, 2000 - lower_risk, share);
    assert(share * (2000 - higher_risk) == (2000 - higher_risk) * share) by (nonlinear_arith);
    assert(share * (2000 - lower_risk) == (2000 - lower_risk) * share) by (nonlinear_arith);
    lemma_div_is_ordered(share * (2000 - higher_risk), share * (2000 - lower_risk), 2000);
    let low1 = share * (2000 - higher_risk) / 2000;
    let high1 = share * (2000 - lower_risk) / 2000;
    lemma_mul_inequality(low1, high1, 2000 - care);
    lemma_div_is_ordered(low1 * (2000 - care), high1 * (2000 - care), 2000);
    let low2 = hard_multiplier(grace_multiplier, higher_risk, care);
    let high2 = hard_multiplier(grace_multiplier, lower_risk, care);
    lemma_mul_inequality(low2, high2, base_priority as int);
    assert(base_priority * low2 == low2 * base_priority) by (nonlinear_arith);
    assert(base_priority * high2 == high2 * base_priority) by (nonlinear_arith);
    lemma_div_is_ordered(base_priority * low2, base_priority * high2, 1000);
}

/// An easy task keeps its base priority whatever the grace multiplier, and
/// so never falls below a task of the same base priority.
pub proof fn lemma_easy_priority_is_kept(
    base_priority: u32,
    difficulty: TaskDifficulty,
    grace_multiplier: u32,
    burnout_risk: u32,
    care: u32,
)
    requires
        grace_multiplier >= SCALE,
        burnout_risk <= SCALE,
        care <= SCALE,
    ensures
        governed_priority(base_priority, TaskDifficulty::Easy, grace_multiplier, burnout_risk, care)
            == base_priority,
        governed_priority(base_priority, difficulty, grace_multiplier, burnout_risk, care)
            <= base_priority,
        0 <= governed_priority(base_priority, difficulty, grace_multiplier, burnout_risk, care),
{
    lemma_multiplier_bounds(difficulty, grace_multiplier, burnout_risk, care);
    let m = priority_multiplier(difficulty, grace_multiplier, burnout_risk, care);
    assert(0 <= base_priority * m <= base_priority * 1000) by (nonlinear_arith)
        requires
            0 <= m <= 1000,
    ;
    lemma_div_is_ordered(base_priority * m, base_priority * 1000, 1000);
    lemma_div_is_ordered(0, base_priority * m, 1000);
}

/// The state of body, mind and lens under which tasks are weighed.
pub struct TaskGovernor {
    soma: SomaState,
    mental: MentalState,
    ethos: Option<EthosPolicy>,
}

/// The text of a governance summary.
pub open spec fn summary_text(
    count: nat,
    mental: MentalState,
    bio_gate_active: bool,
    school: Option<Seq<char>>,
) -> Seq<char> {
    "Task governance: "@ + nat_text(count) + " task(s) evaluated; grace multiplier "@ + milli_text(
        mental.grace_multiplier,
    ) + "; burnout risk "@ + milli_text(mental.burnout_risk) + "; bio gate "@ + (if bio_gate_active {
        "active"@
    } else {
        "inactive"@
    }) + "; lens "@ + (match school {
        Some(name) => name,
        None => "none"@,
    })
}

impl TaskGovernor {
    #[verifier::type_invariant]
    spec fn well_formed(&self) -> bool {
        &&& self.mental.in_range()
        &&& self.ethos matches Some(policy) ==> policy.tone_weight <= SCALE
    }

    /// The soma state that the governor was made with.
    pub closed spec fn soma(&self) -> SomaState {
        self.soma
    }

    /// The mental state that the governor was made with, confined to the
    /// ranges of its fields.
    pub closed spec fn mental(&self) -> MentalState {
        self.mental
    }

    /// The philosophical policy that the governor was made with, its weight
    /// confined to the unit interval.
    pub closed spec fn ethos(&self) -> Option<EthosView> {
        match self.ethos {
            Some(policy) => Some(policy@),
            None => None,
        }
    }

    /// The weight of the philosophical lens, zero without one.
    pub open spec fn care(&self) -> u32 {
        match self.ethos() {
            Some(policy) => policy.tone_weight,
            None => 0,
        }
    }

    /// The task as the governor evaluates it.
    pub open spec fn evaluated(&self, task: TaskView) -> TaskView {
        TaskView {
            effective_priority: governed_priority(
                task.base_priority,
                task.difficulty,
                self.mental().grace_multiplier,
                self.mental().burnout_risk,
                self.care(),
            ) as u32,
            ..task
        }
    }

    /// Whether `job` holds the evaluation of each of `tasks`, in their order.
    pub open spec fn is_evaluation(&self, job: Seq<GovernedTask>, tasks: Seq<GovernedTask>) -> bool {
        &&& job.len() == tasks.len()
        &&& forall|i: int| 0 <= i < job.len() ==> (#[trigger] job[i])@ == self.evaluated(tasks[i]@)
    }

    /// The summary of an evaluation of `count` tasks.
    pub open spec fn summary(&self, count: nat) -> Seq<char> {
        summary_text(
            count,
            self.mental(),
            self.soma().spec_needs_biogate_adjustment(),
            match self.ethos() {
                Some(policy) => Some(policy.active_school),
                None => None,
            },
        )
    }

    /// Captures a view of body, mind and lens. The mental state is confined
    /// to the ranges of its fields, the weight of the lens to the unit
    /// interval.
    pub fn new(soma: SomaState, mental: MentalState, ethos: Option<EthosPolicy>) -> (governor:
        TaskGovernor)
        ensures
            governor.soma() == soma,
            governor.mental() == mental.spec_clamped(),
            match ethos {
                Some(policy) => governor.ethos() == Some(
                    EthosView {
                        tone_weight: crate::kardia::unit_clamped(policy.tone_weight),
                        ..policy@
                    },
                ),
                None => governor.ethos() is None,
            },
    {
        let mut mental = mental;
        mental.clamp();
        let ethos = match ethos {
            Some(policy) => {
                let mut policy = policy;
                policy.tone_weight = crate::scalar::clamp_milli(policy.tone_weight, 0, SCALE);
                Some(policy)
            },
            None => None,
        };
        TaskGovernor { soma, mental, ethos }
    }

    fn multiplier(&self, difficulty: TaskDifficulty) -> (m: u64)
        ensures
            m == priority_multiplier(
                difficulty,
                self.mental().grace_multiplier,
                self.mental().burnout_risk,
                self.care(),
            ),
            m <= 1000,
    {
        proof {
            use_type_invariant(self);
            lemma_multiplier_bounds(
                difficulty,
                self.mental().grace_multiplier,
                self.mental().burnout_risk,
                self.care(),
            );
        }
        let care: u64 = match &self.ethos {
            Some(policy) => policy.tone_weight as u64,
            None => 0,
        };
        let share: u64 = 1_000_000 / (self.mental.grace_multiplier as u64);
        match difficulty {
            TaskDifficulty::Easy => 1000,
            TaskDifficulty::Medium => (1000 + share) / 2,
            TaskDifficulty::Hard => {
                let burnout = self.mental.burnout_risk as u64;
                assert(share * (2000 - burnout) <= 2_000_000) by (nonlinear_arith)
                    requires
                        share <= 1000,
                        burnout <= 1000,
                ;
                let lowered = share * (2000 - burnout) / 2000;
                assert(lowered * (2000 - care) <= 2_000_000) by (nonlinear_arith)
                    requires
                        lowered <= 1000,
                        care <= 1000,
                ;
                lowered * (2000 - care) / 2000
            },
        }
    }

    /// Evaluates a task: sets its effective priority.
    pub fn evaluate(&self, task: &GovernedTask) -> (evaluated: GovernedTask)
        ensures
            evaluated@ == self.evaluated(task@),
            evaluated@.effective_priority <= task.base_priority,
    {
        let m = self.multiplier(task.difficulty);
        proof {
            use_type_invariant(self);
            lemma_easy_priority_is_kept(
                task.base_priority,
                task.difficulty,
                self.mental().grace_multiplier,
                self.mental().burnout_risk,
                self.care(),
            );
        }
        assert((task.base_priority as u64) * m <= 0xffff_ffff * 1000) by (nonlinear_arith)
            requires
                m <= 1000,
                task.base_priority <= 0xffff_ffff,
        ;
        let effective = (task.base_priority as u64) * m / 1000;
        GovernedTask {
            task_id: task.task_id.clone(),
            title: task.title.clone(),
            base_priority: task.base_priority,
            difficulty: task.difficulty,
            effective_priority: effective as u32,
        }
    }

    /// Evaluates tasks and ranks them: highest effective priority first,
    /// among equals by task id.
    pub fn evaluate_batch(&self, tasks: &Vec<GovernedTask>) -> (ranked: Vec<GovernedTask>)
        ensures
            exists|job: Seq<GovernedTask>| #[trigger]
                self.is_evaluation(job, tasks@) && is_ranking_of(ranked@, job),
            is_ranked(ranked@),
            ranked@.len() == tasks@.len(),
    {
        let mut job: Vec<GovernedTask> = Vec::new();
        let mut i: usize = 0;
        while i < tasks.len()
            invariant
                i <= tasks.len(),
                job@.len() == i,
                forall|k: int| 0 <= k < i ==> (#[trigger] job@[k])@ == self.evaluated(tasks@[k]@),
            decreases tasks.len() - i,
        {
            let evaluated = self.evaluate(&tasks[i]);
            job.push(evaluated);
            i = i + 1;
        }
        let ghost unranked = job@;
        let ranked = sort_ranked(job);
        proof {
            assert(self.is_evaluation(unranked, tasks@) && is_ranking_of(ranked@, unranked));
            vstd::seq_lib::to_multiset_len(ranked@);
            vstd::seq_lib::to_multiset_len(unranked);
        }
        ranked
    }

    /// Writes the summary of an evaluation of the given tasks.
    pub fn governance_summary(&self, tasks: &Vec<GovernedTask>) -> (summary: String)
        ensures
            summary@ == self.summary(tasks@.len()),
    {
        let mut summary = String::from_str("Task governance: ");
        append_nat(&mut summary, tasks.len() as u64);
        summary.append(" task(s) evaluated; grace multiplier ");
        let grace = write_milli(self.mental.grace_multiplier);
        summary.append(grace.as_str());
        summary.append("; burnout risk ");
        let risk = write_milli(self.mental.burnout_risk);
        summary.append(risk.as_str());
        summary.append("; bio gate ");
        if self.soma.needs_biogate_adjustment() {
            summary.append("active");
        } else {
            summary.append("inactive");
        }
        summary.append("; lens ");
        match &self.ethos {
            Some(policy) => {
                summary.append(policy.active_school.as_str());
            },
            None => {
                summary.append("none");
            },
        }
        proof {
            assert(summary@ =~= self.summary(tasks@.len()));
        }
        summary
    }
}

/// Whether `tasks` are the tasks among `entries`, highest effective
/// priority first.
pub open spec fn is_task_listing(tasks: Seq<GovernedTask>, entries: Seq<(Seq<char>, Seq<u8>)>)
    -> bool {
    exists|found: Seq<GovernedTask>| #[trigger]
        record_views(found) == stored_under::<GovernedTask>(entries, OIKOS_TASK_PREFIX@)
            && is_ranking_of(tasks, found)
}

/// Lists the tasks among scanned entries, highest effective priority first.
pub fn tasks_among(entries: &Vec<(String, Vec<u8>)>) -> (tasks: Vec<GovernedTask>)
    ensures
        is_task_listing(tasks@, entry_views(entries@)),
        is_ranked(tasks@),
{
    let found = collect_under::<GovernedTask>(entries, OIKOS_TASK_PREFIX);
    let ghost all = found@;
    let tasks = sort_ranked(found);
    proof {
        assert(record_views(all) == stored_under::<GovernedTask>(
            entry_views(entries@),
            OIKOS_TASK_PREFIX@,
        ) && is_ranking_of(tasks@, all));
    }
    tasks
}

/// The bytes under which the task at `index` is stored.
pub open spec fn stored_key(tasks: Seq<GovernedTask>, index: int) -> Seq<u8> {
    key_bytes(task_key(tasks[index]@.task_id))
}

/// Whether the partition holds, under the key of the task at `index`, the
/// bytes of one of the first `upto` tasks with that key.
pub open spec fn is_persisted_among(
    entries: Map<Seq<u8>, Seq<u8>>,
    tasks: Seq<GovernedTask>,
    index: int,
    upto: int,
) -> bool {
    exists|m: int|
        0 <= m < upto && #[trigger] stored_key(tasks, m) == stored_key(tasks, index)
            && entries.contains_key(stored_key(tasks, index)) && entries[stored_key(tasks, index)]
            == tasks[m]@.bytes()
}

/// Whether the partition holds, under the key of the task at `index`, the
/// bytes of a task of `tasks` with that key.
pub open spec fn is_persisted(entries: Map<Seq<u8>, Seq<u8>>, tasks: Seq<GovernedTask>, index: int)
    -> bool {
    is_persisted_among(entries, tasks, index, tasks.len() as int)
}

proof fn lemma_persist_step(
    before: Map<Seq<u8>, Seq<u8>>,
    after: Map<Seq<u8>, Seq<u8>>,
    tasks: Seq<GovernedTask>,
    i: int,
    upto: int,
)
    requires
        0 <= i < tasks.len(),
        upto == i + 1,
        after == before.insert(stored_key(tasks, i), tasks[i]@.bytes()),
        forall|k: int| 0 <= k < i ==> #[trigger] is_persisted_among(before, tasks, k, i),
    ensures
        forall|k: int| 0 <= k < upto ==> #[trigger] is_persisted_among(after, tasks, k, upto),
{
    assert forall|k: int| 0 <= k < upto implies #[trigger] is_persisted_among(
        after,
        tasks,
        k,
        upto,
    ) by {
        let own = stored_key(tasks, k);
        if own == stored_key(tasks, i) {
            assert(stored_key(tasks, i) == own && after.contains_key(own) && after[own]
                == tasks[i]@.bytes());
        } else {
            assert(is_persisted_among(before, tasks, k, i));
            let m = choose|m: int|
                0 <= m < i && #[trigger] stored_key(tasks, m) == own && before.contains_key(own)
                    && before[own] == tasks[m]@.bytes();
            assert(stored_key(tasks, m) == own && after.contains_key(own) && after[own]
                == tasks[m]@.bytes());
        }
    }
}

proof fn lemma_persisted_beside_summary(
    before: Map<Seq<u8>, Seq<u8>>,
    after: Map<Seq<u8>, Seq<u8>>,
    tasks: Seq<GovernedTask>,
    summary: Seq<u8>,
)
    requires
        after == before.insert(key_bytes(OIKOS_GOVERNANCE_SUMMARY_KEY@), summary),
        forall|k: int| 0 <= k < tasks.len() ==> is_persisted(before, tasks, k),
    ensures
        forall|k: int| 0 <= k < tasks.len() ==> is_persisted(after, tasks, k),
{
    assert forall|k: int| 0 <= k < tasks.len() implies is_persisted(after, tasks, k) by {
        lemma_summary_key_apart(tasks[k]@.task_id);
        let own = stored_key(tasks, k);
        assert(is_persisted(before, tasks, k));
        let m = choose|m: int|
            0 <= m < tasks.len() && #[trigger] stored_key(tasks, m) == own && before.contains_key(
                own,
            ) && before[own] == tasks[m]@.bytes();
        assert(stored_key(tasks, m) == own && after.contains_key(own) && after[own]
            == tasks[m]@.bytes());
    }
}

/// What an evaluation leaves in the store and returns: the tasks that were
/// listed before it, evaluated under a governor made from the store and
/// ranked, and the summary of that evaluation under its key.
pub open spec fn is_governed(
    before: &KnowledgeStore,
    after: Map<Seq<u8>, Seq<u8>>,
    ranked: Seq<GovernedTask>,
) -> bool {
    exists|
        governor: TaskGovernor,
        entries: Seq<(Seq<char>, Seq<u8>)>,
        listed: Seq<GovernedTask>,
        job: Seq<GovernedTask>,
    |
        {
            &&& is_governor_of(before, &governor)
            &&& #[trigger] before.lists(OIKOS_SLOT_ID, entries)
            &&& is_task_listing(listed, entries)
            &&& #[trigger] governor.is_evaluation(job, listed)
            &&& is_ranking_of(ranked, job)
            &&& after.contains_key(key_bytes(OIKOS_GOVERNANCE_SUMMARY_KEY@))
            &&& after[key_bytes(OIKOS_GOVERNANCE_SUMMARY_KEY@)] == encode_utf8(
                governor.summary(listed.len()),
            )
        }
}

/// The key of a task is never the key of the governance summary.
pub proof fn lemma_summary_key_apart(task_id: Seq<char>)
    ensures
        key_bytes(task_key(task_id)) != key_bytes(OIKOS_GOVERNANCE_SUMMARY_KEY@),
{
    reveal_strlit("oikos/tasks/");
    reveal_strlit("oikos/governance/summary");
    let a = task_key(task_id);
    let b = OIKOS_GOVERNANCE_SUMMARY_KEY@;
    assert(a[6] == 't');
    assert(b[6] == 'g');
    encode_utf8_decode_utf8(a);
    encode_utf8_decode_utf8(b);
}

/// What a governor made from a store was made with: the three states as
/// the store holds them, and its philosophical policy where it reads.
pub open spec fn is_governor_of(store: &KnowledgeStore, governor: &TaskGovernor) -> bool {
    &&& is_state_read::<SomaState>(
        store.partition(SOMA_SLOT_ID),
        key_bytes(KnowledgeStore::SOMA_STATE_KEY@),
        SomaState::spec_default(),
        governor.soma(),
    )
    &&& is_effective_read(store, governor.soma(), governor.mental())
    &&& governor.ethos() matches Some(policy) ==> {
        let entries = store.partition(ETHOS_SLOT_ID);
        let key = key_bytes(ETHOS_POLICY_KEY@);
        entries.contains_key(key) && EthosView::of_bytes(entries[key]) == Some(policy)
    }
}

impl KnowledgeStore {
    /// Stores a governed task under its id.
    pub fn set_governed_task(&mut self, task: &GovernedTask) -> (outcome: Result<(), StoreError>)
        ensures
            final(self).wrote(
                old(self),
                OIKOS_SLOT_ID,
                task_key(task@.task_id),
                task@.bytes(),
                outcome,
            ),
    {
        let key = oikos_task_key(task.task_id.as_str());
        let bytes = task.to_bytes();
        self.put(OIKOS_SLOT_ID, key.as_str(), bytes.as_slice())
    }

    /// Returns a governed task by its id, if it is stored.
    pub fn get_governed_task(&self, task_id: &str) -> (found: Result<
        Option<GovernedTask>,
        StoreError,
    >)
        ensures
            is_record_read(self.partition(OIKOS_SLOT_ID), key_bytes(task_key(task_id@)), found),
    {
        let key = oikos_task_key(task_id);
        self.get_stored::<GovernedTask>(OIKOS_SLOT_ID, key.as_str())
    }

    /// Lists the governed tasks, highest effective priority first. Entries
    /// that do not read as a task are skipped.
    pub fn list_governed_tasks(&self) -> (listed: Result<Vec<GovernedTask>, StoreError>)
        ensures
            match listed {
                Ok(tasks) => {
                    &&& exists|entries: Seq<(Seq<char>, Seq<u8>)>| #[trigger]
                        self.lists(OIKOS_SLOT_ID, entries) && is_task_listing(tasks@, entries)
                    &&& is_ranked(tasks@)
                },
                Err(e) => e is Io,
            },
    {
        let entries = match self.scan_kv(OIKOS_SLOT_ID) {
            Ok(entries) => entries,
            Err(e) => {
                return Err(e);
            },
        };
        let tasks = tasks_among(&entries);
        proof {
            assert(self.lists(OIKOS_SLOT_ID, entry_views(entries@)) && is_task_listing(
                tasks@,
                entry_views(entries@),
            ));
        }
        Ok(tasks)
    }

    /// Removes a governed task by its id and tells whether it was stored.
    pub fn remove_governed_task(&mut self, task_id: &str) -> (removed: Result<bool, StoreError>)
        ensures
            final(self).same_but(old(self), OIKOS_SLOT_ID),
            match removed {
                Ok(existed) => {
                    &&& final(self).partition(OIKOS_SLOT_ID) == old(self).partition(
                        OIKOS_SLOT_ID,
                    ).remove(key_bytes(task_key(task_id@)))
                    &&& existed == old(self).partition(OIKOS_SLOT_ID).contains_key(
                        key_bytes(task_key(task_id@)),
                    )
                },
                Err(e) => e is Io,
            },
    {
        let key = oikos_task_key(task_id);
        match self.remove(OIKOS_SLOT_ID, key.as_str()) {
            Ok(before) => Ok(before.is_some()),
            Err(e) => Err(e),
        }
    }

    /// Makes a task governor from the state of body, mind and lens as the
    /// store holds it.
    pub fn create_task_governor(&self, agent_id: &str) -> (governor: TaskGovernor)
        ensures
            is_governor_of(self, &governor),
    {
        let soma = match self.get_soma_state() {
            Ok(soma) => soma,
            Err(_) => SomaState::default(),
        };
        let mental = self.effective_mental_state_under(agent_id, &soma);
        let ethos = match self.get_ethos_philosophical_policy() {
            Ok(Some(policy)) => Some(policy),
            _ => None,
        };
        TaskGovernor::new(soma, mental, ethos)
    }

    /// Stores each of the given tasks under its id.
    pub fn persist_tasks(&mut self, tasks: &Vec<GovernedTask>) -> (outcome: Result<(), StoreError>)
        ensures
            final(self).same_but(old(self), OIKOS_SLOT_ID),
            match outcome {
                Ok(_) => forall|i: int|
                    0 <= i < tasks@.len() ==> is_persisted(
                        final(self).partition(OIKOS_SLOT_ID),
                        tasks@,
                        i,
                    ),
                Err(e) => e is Io,
            },
    {
        let mut i: usize = 0;
        while i < tasks.len()
            invariant
                i <= tasks.len(),
                self.same_but(old(self), OIKOS_SLOT_ID),
                forall|k: int|
                    0 <= k < i ==> #[trigger] is_persisted_among(
                        self.partition(OIKOS_SLOT_ID),
                        tasks@,
                        k,
                        i as int,
                    ),
            decreases tasks.len() - i,
        {
            let ghost before = self.partition(OIKOS_SLOT_ID);
            match self.set_governed_task(&tasks[i]) {
                Ok(_) => {},
                Err(e) => {
                    return Err(e);
                },
            }
            proof {
                lemma_persist_step(
                    before,
                    self.partition(OIKOS_SLOT_ID),
                    tasks@,
                    i as int,
                    i + 1,
                );
            }
            i = i + 1;
        }
        Ok(())
    }

    /// Evaluates all governed tasks under the current state of body, mind
    /// and lens, stores each with its new effective priority, stores the
    /// summary of the evaluation, and returns the tasks ranked.
    pub fn evaluate_and_persist_tasks(&mut self, agent_id: &str) -> (evaluated: Result<
        Vec<GovernedTask>,
        StoreError,
    >)
        ensures
            final(self).same_but(old(self), OIKOS_SLOT_ID),
            match evaluated {
                Ok(ranked) => {
                    &&& is_ranked(ranked@)
                    &&& is_governed(old(self), final(self).partition(OIKOS_SLOT_ID), ranked@)
                    &&& forall|i: int|
                        0 <= i < ranked@.len() ==> is_persisted(
                            final(self).partition(OIKOS_SLOT_ID),
                            ranked@,
                            i,
                        )
                },
                Err(e) => e is Io,
            },
    {
        let governor = self.create_task_governor(agent_id);
        let tasks = match self.list_governed_tasks() {
            Ok(tasks) => tasks,
            Err(e) => {
                return Err(e);
            },
        };
        let ghost entries = choose|entries: Seq<(Seq<char>, Seq<u8>)>| #[trigger]
            self.lists(OIKOS_SLOT_ID, entries) && is_task_listing(tasks@, entries);
        let ranked = governor.evaluate_batch(&tasks);
        let ghost job = choose|job: Seq<GovernedTask>| #[trigger]
            governor.is_evaluation(job, tasks@) && is_ranking_of(ranked@, job);
        match self.persist_tasks(&ranked) {
            Ok(_) => {},
            Err(e) => {
                return Err(e);
            },
        }
        let ghost persisted = self.partition(OIKOS_SLOT_ID);
        let summary = governor.governance_summary(&tasks);
        match self.put(OIKOS_SLOT_ID, OIKOS_GOVERNANCE_SUMMARY_KEY, summary.as_str().as_bytes()) {
            Ok(_) => {},
            Err(e) => {
                return Err(e);
            },
        }
        proof {
            let after = self.partition(OIKOS_SLOT_ID);
            lemma_persisted_beside_summary(persisted, after, ranked@, encode_utf8(summary@));
            assert(is_governor_of(old(self), &governor));
            assert(old(self).lists(OIKOS_SLOT_ID, entries));
            assert(governor.is_evaluation(job, tasks@));
            assert(is_governed(old(self), after, ranked@));
        }
        Ok(ranked)
    }

    /// Returns the last governance summary, if one is stored.
    pub fn get_governance_summary(&self) -> (found: Result<Option<String>, StoreError>)
        ensures
            match found {
                Ok(Some(text)) => {
                    let entries = self.partition(OIKOS_SLOT_ID);
                    let key = key_bytes(OIKOS_GOVERNANCE_SUMMARY_KEY@);
                    entries.contains_key(key) && valid_utf8(entries[key]) && text@ == decode_utf8(
                        entries[key],
                    )
                },
                Ok(None) => !self.partition(OIKOS_SLOT_ID).contains_key(
                    key_bytes(OIKOS_GOVERNANCE_SUMMARY_KEY@),
                ),
                Err(StoreError::Serialization) => {
                    let entries = self.partition(OIKOS_SLOT_ID);
                    let key = key_bytes(OIKOS_GOVERNANCE_SUMMARY_KEY@);
                    entries.contains_key(key) && !valid_utf8(entries[key])
                },
                Err(e) => e is Io,
            },
    {
        match self.get(OIKOS_SLOT_ID, OIKOS_GOVERNANCE_SUMMARY_KEY) {
            Ok(Some(bytes)) => match text_from_utf8(bytes.as_slice()) {
                Some(text) => Ok(Some(text)),
                None => Err(StoreError::Serialization),
            },
            Ok(None) => Ok(None),
            Err(e) => Err(e),
        }
    }
}

} // verus!
