//! The effective mental state: the stored mental state, raised by what the
//! body reports.

use crate::kardia::{MentalState, KARDIA_SLOT_ID, MENTAL_STATE_KEY};
use crate::record::is_state_read;
use crate::scalar::SCALE;
use crate::soma::{BiometricState, SomaState, SOMA_SLOT_ID};
use crate::store::{key_bytes, KnowledgeStore};
use vstd::prelude::*;

verus! {

/// What poor sleep adds to the burnout risk, in thousandths.
pub const POOR_SLEEP_BURNOUT_INCREMENT: u32 = 200;

/// The grace multiplier under poor sleep, in thousandths.
pub const POOR_SLEEP_GRACE_MULTIPLIER: u32 = 1500;

/// A burnout risk raised by an increment, at most one.
pub open spec fn raised_risk(risk: u32, increment: u32) -> u32 {
    if risk + increment >= SCALE {
        SCALE
    } else {
        (risk + increment) as u32
    }
}

/// The effective mental state.
///
/// Where the soma state calls for easing, the burnout risk rises by 0.15
/// and the grace multiplier becomes 1.6. Else, where the older biometric
/// state reports poor sleep, the risk rises by 0.2 and the multiplier
/// becomes 1.5. Every field is then confined to its range.
pub open spec fn effective_state(base: MentalState, soma: SomaState, bio: BiometricState)
    -> MentalState {
    if soma.spec_needs_biogate_adjustment() {
        (MentalState {
            burnout_risk: raised_risk(base.burnout_risk, SomaState::BURNOUT_RISK_INCREMENT),
            grace_multiplier: SomaState::GRACE_MULTIPLIER_OVERRIDE,
            ..base
        }).spec_clamped()
    } else if bio.spec_poor_sleep() {
        (MentalState {
            burnout_risk: raised_risk(base.burnout_risk, POOR_SLEEP_BURNOUT_INCREMENT),
            grace_multiplier: POOR_SLEEP_GRACE_MULTIPLIER,
            ..base
        }).spec_clamped()
    } else {
        base.spec_clamped()
    }
}

fn raise_risk(risk: u32, increment: u32) -> (raised: u32)
    requires
        increment <= SCALE,
    ensures
        raised == raised_risk(risk, increment),
{
    if risk >= SCALE - increment {
        SCALE
    } else {
        risk + increment
    }
}

/// Merges the stored mental state with what the body reports.
pub fn effective_mental_state(base: MentalState, soma: &SomaState, bio: &BiometricState) -> (state:
    MentalState)
    ensures
        state == effective_state(base, *soma, *bio),
        state.in_range(),
{
    let mut state = base;
    if soma.needs_biogate_adjustment() {
        state.burnout_risk = raise_risk(state.burnout_risk, SomaState::BURNOUT_RISK_INCREMENT);
        state.grace_multiplier = SomaState::GRACE_MULTIPLIER_OVERRIDE;
    } else if bio.poor_sleep() {
        state.burnout_risk = raise_risk(state.burnout_risk, POOR_SLEEP_BURNOUT_INCREMENT);
        state.grace_multiplier = POOR_SLEEP_GRACE_MULTIPLIER;
    }
    state.clamp();
    state
}

/// While the soma state calls for easing, the grace multiplier of the
/// effective state is 1.6 and its burnout risk is the base risk raised by
/// 0.15, as far as the unit interval has room for it.
pub proof fn lemma_biogate_elevation(base: MentalState, soma: SomaState, bio: BiometricState)
    requires
        soma.spec_needs_biogate_adjustment(),
        base.in_range(),
    ensures
        effective_state(base, soma, bio).grace_multiplier == 1600,
        effective_state(base, soma, bio).burnout_risk >= base.burnout_risk,
        base.burnout_risk + 150 <= SCALE ==> effective_state(base, soma, bio).burnout_risk
            == base.burnout_risk + 150,
        base.burnout_risk + 150 > SCALE ==> effective_state(base, soma, bio).burnout_risk == SCALE,
{
}

/// What a read of the effective mental state returns: the merge of three
/// current states as the store holds them, each replaced by its default
/// where it is absent or cannot be read.
pub open spec fn is_effective_read(store: &KnowledgeStore, soma: SomaState, state: MentalState)
    -> bool {
    exists|base: MentalState, bio: BiometricState| #[trigger]
        effective_state(base, soma, bio) == state && is_state_read::<MentalState>(
            store.partition(KARDIA_SLOT_ID),
            key_bytes(MENTAL_STATE_KEY@),
            MentalState::spec_default(),
            base,
        ) && is_state_read::<BiometricState>(
            store.partition(SOMA_SLOT_ID),
            key_bytes(KnowledgeStore::BIOMETRIC_STATE_KEY@),
            BiometricState::spec_default(),
            bio,
        )
}

impl KnowledgeStore {
    /// Returns the effective mental state for a given soma state: the stored
    /// mental state merged with it and with the stored biometric state.
    pub fn effective_mental_state_under(&self, owner_agent_id: &str, soma: &SomaState) -> (state:
        MentalState)
        ensures
            is_effective_read(self, *soma, state),
            state.in_range(),
            soma.spec_needs_biogate_adjustment() ==> state.grace_multiplier == 1600,
    {
        let base = match self.get_mental_state(owner_agent_id) {
            Ok(base) => base,
            Err(_) => MentalState::default(),
        };
        let bio = if soma.needs_biogate_adjustment() {
            BiometricState::default()
        } else {
            match self.get_biometric_state() {
                Ok(bio) => bio,
                Err(_) => BiometricState::default(),
            }
        };
        let state = effective_mental_state(base, soma, &bio);
        proof {
            assert(effective_state(base, *soma, bio) == state);
        }
        state
    }

    /// Returns the effective mental state: the stored mental state merged
    /// with the stored soma state and the stored biometric state.
    pub fn get_effective_mental_state(&self, owner_agent_id: &str) -> (state: MentalState)
        ensures
            exists|soma: SomaState| #[trigger]
                is_effective_read(self, soma, state) && is_state_read::<SomaState>(
                    self.partition(SOMA_SLOT_ID),
                    key_bytes(KnowledgeStore::SOMA_STATE_KEY@),
                    SomaState::spec_default(),
                    soma,
                ),
            state.in_range(),
    {
        let soma = match self.get_soma_state() {
            Ok(soma) => soma,
            Err(_) => SomaState::default(),
        };
        let state = self.effective_mental_state_under(owner_agent_id, &soma);
        proof {
            assert(is_effective_read(self, soma, state));
        }
        state
    }
}

} // verus!
