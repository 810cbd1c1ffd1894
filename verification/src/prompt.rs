//! What the substrate adds in front of a user's prompt: relation, body,
//! mind and, where the vault allows it, the weight of emotional anchors.

use crate::derivation::is_effective_read;
use crate::json::text_opt;
use crate::kardia::{relation_key, MentalState, RelationView, KARDIA_SLOT_ID};
use crate::partition::SHADOW_SLOT_ID;
use crate::record::is_state_read;
use crate::shadow::{active_anchors, mental_load};
use crate::soma::{SomaState, FULL_READINESS, SOMA_SLOT_ID};
use crate::store::{key_bytes, KnowledgeStore};
use crate::text::{append_nat, digit_char, nat_text};
use vstd::prelude::*;

verus! {

/// A number of thousandths of an hour as hours with one decimal place,
/// rounded half up.
pub open spec fn hours_text(sleep_hours: u32) -> Seq<char> {
    let tenths = (sleep_hours + 50) / 100;
    nat_text((tenths / 10) as nat) + seq!['.'] + nat_text((tenths % 10) as nat)
}

/// Whether a soma state carries any reading.
pub open spec fn has_soma_data(soma: SomaState) -> bool {
    soma.sleep_hours > 0 || soma.readiness_score < FULL_READINESS || soma.resting_hr > 0 || soma.hrv
        > 0
}

/// The line that states the body's readings.
pub open spec fn body_line(soma: SomaState) -> Seq<char> {
    "[Current body state (Soma/BioGate): sleep "@ + hours_text(soma.sleep_hours) + "h, readiness "@
        + nat_text(soma.readiness_score as nat) + ", resting HR "@ + nat_text(soma.resting_hr as nat)
        + " bpm, HRV "@ + nat_text(soma.hrv as nat) + " ms. BioGate adjustment: "@ + (
    if soma.spec_needs_biogate_adjustment() {
        "active (supportive tone)"@
    } else {
        "inactive"@
    }) + ".]"@
}

/// A part that is present under a condition.
pub open spec fn part_if(present: bool, part: Seq<char>) -> Seq<Seq<char>> {
    if present {
        seq![part]
    } else {
        Seq::empty()
    }
}

/// The parts that stand in front of a prompt, in order: the relation
/// context where there is one; the body line where the soma state carries a
/// reading; the empathetic and the physical-load instruction, each where
/// the mental state calls for it; the directive of the anchors where there
/// is one.
pub open spec fn prompt_parts(
    relation_context: Seq<char>,
    soma: SomaState,
    mental: MentalState,
    directive: Option<Seq<char>>,
) -> Seq<Seq<char>> {
    part_if(relation_context.len() > 0, relation_context) + part_if(
        has_soma_data(soma),
        body_line(soma),
    ) + part_if(mental.spec_needs_empathetic_tone(), MentalState::EMPATHETIC_SYSTEM_INSTRUCTION@)
        + part_if(
        mental.spec_has_physical_load_adjustment(),
        MentalState::PHYSICAL_LOAD_SYSTEM_INSTRUCTION@,
    ) + (match directive {
        Some(text) => seq![text],
        None => Seq::empty(),
    })
}

/// Parts joined by line breaks.
pub open spec fn lines_joined(parts: Seq<Seq<char>>) -> Seq<char>
    decreases parts.len(),
{
    if parts.len() == 0 {
        Seq::empty()
    } else if parts.len() == 1 {
        parts[0]
    } else {
        lines_joined(parts.drop_last()) + "\n"@ + parts.last()
    }
}

/// The prompt with its parts in front: the parts joined by line breaks, an
/// empty line, and the user's prompt; the user's prompt alone where there
/// are no parts.
pub open spec fn prompt_text(
    relation_context: Seq<char>,
    soma: SomaState,
    mental: MentalState,
    directive: Option<Seq<char>>,
    user_prompt: Seq<char>,
) -> Seq<char> {
    let parts = prompt_parts(relation_context, soma, mental, directive);
    if parts.len() == 0 {
        user_prompt
    } else {
        lines_joined(parts) + "\n\n"@ + user_prompt
    }
}

fn write_body_line(soma: &SomaState) -> (line: String)
    ensures
        line@ == body_line(*soma),
{
    let tenths: u64 = (soma.sleep_hours as u64 + 50) / 100;
    let mut line = String::from_str("[Current body state (Soma/BioGate): sleep ");
    append_nat(&mut line, tenths / 10);
    line.append(".");
    append_nat(&mut line, tenths % 10);
    line.append("h, readiness ");
    append_nat(&mut line, soma.readiness_score as u64);
    line.append(", resting HR ");
    append_nat(&mut line, soma.resting_hr as u64);
    line.append(" bpm, HRV ");
    append_nat(&mut line, soma.hrv as u64);
    line.append(" ms. BioGate adjustment: ");
    if soma.needs_biogate_adjustment() {
        line.append("active (supportive tone)");
    } else {
        line.append("inactive");
    }
    line.append(".]");
    proof {
        reveal_strlit(".");
        assert(line@ =~= body_line(*soma));
    }
    line
}

fn push_part(prefix: &mut String, count: &mut usize, part: &str, Ghost(parts): Ghost<Seq<Seq<char>>>)
    requires
        *old(count) == parts.len(),
        *old(count) < usize::MAX,
        old(prefix)@ == lines_joined(parts),
    ensures
        *final(count) == parts.len() + 1,
        final(prefix)@ == lines_joined(parts.push(part@)),
{
    if *count > 0 {
        prefix.append("\n");
    }
    prefix.append(part);
    *count = *count + 1;
    proof {
        assert(parts.push(part@).drop_last() =~= parts);
        assert(prefix@ =~= lines_joined(parts.push(part@)));
    }
}

/// Puts the parts that the given states call for in front of a prompt.
pub fn compose_prompt(
    relation_context: &str,
    soma: &SomaState,
    mental: &MentalState,
    directive: Option<&str>,
    user_prompt: &str,
) -> (prompt: String)
    ensures
        prompt@ == prompt_text(
            relation_context@,
            *soma,
            *mental,
            match directive {
                Some(text) => Some(text@),
                None => None,
            },
            user_prompt@,
        ),
{
    let mut prefix = String::new();
    let mut count: usize = 0;
    let ghost mut parts: Seq<Seq<char>> = Seq::empty();
    if !relation_context.is_empty() {
        push_part(&mut prefix, &mut count, relation_context, Ghost(parts));
        proof {
            parts = parts.push(relation_context@);
        }
    }
    if soma.sleep_hours > 0 || soma.readiness_score < FULL_READINESS || soma.resting_hr > 0
        || soma.hrv > 0 {
        let line = write_body_line(soma);
        push_part(&mut prefix, &mut count, line.as_str(), Ghost(parts));
        proof {
            parts = parts.push(line@);
        }
    }
    if mental.needs_empathetic_tone() {
        push_part(
            &mut prefix,
            &mut count,
            MentalState::EMPATHETIC_SYSTEM_INSTRUCTION,
            Ghost(parts),
        );
        proof {
            parts = parts.push(MentalState::EMPATHETIC_SYSTEM_INSTRUCTION@);
        }
    }
    if mental.has_physical_load_adjustment() {
        push_part(
            &mut prefix,
            &mut count,
            MentalState::PHYSICAL_LOAD_SYSTEM_INSTRUCTION,
            Ghost(parts),
        );
        proof {
            parts = parts.push(MentalState::PHYSICAL_LOAD_SYSTEM_INSTRUCTION@);
        }
    }
    match directive {
        Some(text) => {
            push_part(&mut prefix, &mut count, text, Ghost(parts));
            proof {
                parts = parts.push(text@);
            }
        },
        None => {},
    }
    proof {
        assert(parts =~= prompt_parts(
            relation_context@,
            *soma,
            *mental,
            match directive {
                Some(text) => Some(text@),
                None => None,
            },
        ));
    }
    if count == 0 {
        return String::from_str(user_prompt);
    }
    prefix.append("\n\n");
    prefix.append(user_prompt);
    prefix
}

/// What the parts in front of a prompt were read from: the relation that
/// the agent holds to the user, the soma state, the effective mental state
/// under it, and the active anchors; each left out where it is absent or
/// cannot be read.
pub open spec fn is_prompt_context(
    store: &KnowledgeStore,
    agent_id: Seq<char>,
    user_id: Seq<char>,
    relation_context: Seq<char>,
    soma: SomaState,
    mental: MentalState,
    directive: Option<Seq<char>>,
) -> bool {
    &&& relation_context.len() == 0 || {
        let entries = store.partition(KARDIA_SLOT_ID);
        let key = key_bytes(relation_key(agent_id, user_id));
        &&& entries.contains_key(key)
        &&& RelationView::of_bytes(entries[key]) matches Some(relation) && relation_context
            == relation.prompt_context()
    }
    &&& is_state_read::<SomaState>(
        store.partition(SOMA_SLOT_ID),
        key_bytes(KnowledgeStore::SOMA_STATE_KEY@),
        SomaState::spec_default(),
        soma,
    )
    &&& is_effective_read(store, soma, mental)
    &&& directive is None || exists|entries: Seq<(Seq<char>, Seq<u8>)>| #[trigger]
        store.lists(SHADOW_SLOT_ID, entries) && directive == mental_load(
            active_anchors(store.shadow_key()->Some_0, entries),
        )
}

/// Builds the prompt for a chat request: the user's prompt behind what the
/// store knows of relation, body, mind and anchors.
pub fn build_prompt_with_soma_kardia(
    knowledge: &KnowledgeStore,
    agent_id: &str,
    user_id: &str,
    user_prompt: &str,
) -> (prompt: String)
    ensures
        exists|
            relation_context: Seq<char>,
            soma: SomaState,
            mental: MentalState,
            directive: Option<Seq<char>>,
        | #[trigger]
            is_prompt_context(
                knowledge,
                agent_id@,
                user_id@,
                relation_context,
                soma,
                mental,
                directive,
            ) && prompt@ == prompt_text(relation_context, soma, mental, directive, user_prompt@),
{
    let relation_context = match knowledge.get_kardia_relation(agent_id, user_id) {
        Ok(Some(relation)) => relation.prompt_context(),
        _ => String::new(),
    };
    let soma = match knowledge.get_soma_state() {
        Ok(soma) => soma,
        Err(_) => SomaState::default(),
    };
    let mental = knowledge.effective_mental_state_under(agent_id, &soma);
    let directive = match knowledge.check_mental_load() {
        Ok(directive) => directive,
        Err(_) => None,
    };
    let prompt = compose_prompt(
        relation_context.as_str(),
        &soma,
        &mental,
        match &directive {
            Some(text) => Some(text.as_str()),
            None => None,
        },
        user_prompt,
    );
    proof {
        assert(is_prompt_context(
            knowledge,
            agent_id@,
            user_id@,
            relation_context@,
            soma,
            mental,
            text_opt(directive),
        ) && prompt@ == prompt_text(
            relation_context@,
            soma,
            mental,
            text_opt(directive),
            user_prompt@,
        ));
    }
    prompt
}

} // verus!
