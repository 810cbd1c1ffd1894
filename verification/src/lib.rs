//! A nine-partition knowledge substrate: typed slots over an embedded
//! key-value engine, one of them sealed with authenticated encryption.
//!
//! [`store`] holds the partitions and [`vault`] seals the ninth. One module
//! for each domain holds its records and the helpers that read and write
//! them: [`chronos`], [`ethos`], [`kardia`], [`oikos`], [`shadow`], [`soma`]
//! and [`techne`]. [`derivation`] merges body and mind into the effective
//! mental state, [`snapshot`] gathers all layers in one read, and [`prompt`]
//! says what of it stands in front of a user's prompt. [`pruning`] removes
//! what has expired. [`laws`] states what holds between the operations.
//!
//! Real numbers are held as thousandths ([`scalar`]). Records are stored as
//! JSON objects ([`json`]); the outside crates are reached through
//! [`engine`], [`cipher`], [`json`], [`text`], [`ident`] and [`clock`], whose
//! contracts are believed, not proved.

pub mod chronos;
pub mod cipher;
pub mod clock;
pub mod derivation;
pub mod engine;
pub mod ethos;
pub mod ident;
pub mod json;
pub mod kardia;
pub mod laws;
pub mod oikos;
pub mod partition;
pub mod prompt;
pub mod pruning;
pub mod ranking;
pub mod record;
pub mod scalar;
pub mod shadow;
pub mod snapshot;
pub mod soma;
pub mod source;
pub mod store;
pub mod techne;
pub mod tenant;
pub mod text;
pub mod vault;

pub use chronos::EventRecord;
pub use ethos::{AlignmentResult, EthosPolicy, PolicyRecord, ETHOS_DEFAULT_POLICY_KEY, ETHOS_POLICY_KEY};
pub use kardia::{
    kardia_relation_key, MentalState, PersonRecord, RelationRecord, KARDIA_PEOPLE_PREFIX,
    MENTAL_STATE_KEY,
};
pub use oikos::{
    GovernedTask, TaskDifficulty, TaskGovernor, OIKOS_GOVERNANCE_SUMMARY_KEY, OIKOS_TASK_PREFIX,
};
pub use partition::{pagi_kb_slot_label, KbType, SHADOW_SLOT_ID};
pub use shadow::EmotionalAnchor;
pub use snapshot::SovereignState;
pub use soma::{AgentMessage, BiometricState, SomaState};
pub use store::{KbStatus, KnowledgeStore, StoreError};
pub use techne::{KbRecord, SkillRecord};
pub use tenant::{TenantContext, DEFAULT_AGENT_ID};
pub use vault::{SecretVault, VaultError};
pub use source::{KbSlot, KnowledgeSource};
