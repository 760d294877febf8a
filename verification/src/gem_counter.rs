use vstd::prelude::*;

verus! {

/// How many of the level's entities `entities` (each given as whether it is a
/// gem and whether it is still in play) satisfy `counted`.
pub open spec fn count_where(entities: Seq<(bool, bool)>, counted: spec_fn((bool, bool)) -> bool) -> nat
    decreases entities.len(),
{
    if entities.len() == 0 {
        0
    } else {
        count_where(entities.drop_last(), counted) + if counted(entities.last()) {
            1nat
        } else {
            0nat
        }
    }
}

/// Whether a level entity is a gem.
pub open spec fn is_gem() -> spec_fn((bool, bool)) -> bool {
    |e: (bool, bool)| e.0
}

/// Whether a level entity is a gem still in play.
pub open spec fn is_remaining_gem() -> spec_fn((bool, bool)) -> bool {
    |e: (bool, bool)| e.0 && e.1
}

proof fn lemma_count_prefix(entities: Seq<(bool, bool)>, counted: spec_fn((bool, bool)) -> bool, i: int)
    requires
        0 <= i <= entities.len(),
    ensures
        count_where(entities.take(i), counted) <= count_where(entities, counted),
    decreases entities.len(),
{
    if i == entities.len() {
        assert(entities.take(i) =~= entities);
    } else {
        assert(entities.take(i) =~= entities.drop_last().take(i));
        lemma_count_prefix(entities.drop_last(), counted, i);
    }
}

proof fn lemma_remaining_among_gems(entities: Seq<(bool, bool)>)
    ensures
        count_where(entities, is_remaining_gem()) <= count_where(entities, is_gem()),
    decreases entities.len(),
{
    if entities.len() > 0 {
        lemma_remaining_among_gems(entities.drop_last());
    }
}

/// Counts the gems of a level, and those still in play, given for each entity
/// of the level whether it is a gem and whether it is still in play.
pub fn count_total_and_remaining_gems(entities: &Vec<(bool, bool)>) -> (result: (u32, u32))
    requires
        count_where(entities@, is_gem()) <= u32::MAX,
    ensures
        result.0 == count_where(entities@, is_gem()),
        result.1 == count_where(entities@, is_remaining_gem()),
        result.1 <= result.0,
{
    let mut total: u32 = 0;
    let mut remaining: u32 = 0;
    for i in 0..entities.len()
        invariant
            count_where(entities@, is_gem()) <= u32::MAX,
            total == count_where(entities@.take(i as int), is_gem()),
            remaining == count_where(entities@.take(i as int), is_remaining_gem()),
    {
        let (is_gem_entity, is_present) = entities[i];
        assert(entities@.take(i + 1).drop_last() =~= entities@.take(i as int));
        proof {
            lemma_count_prefix(entities@, is_gem(), i + 1);
            lemma_remaining_among_gems(entities@.take(i as int));
        }
        if is_gem_entity {
            if is_present {
                remaining = remaining + 1;
            }
            total = total + 1;
        }
    }
    assert(entities@.take(entities@.len() as int) =~= entities@);
    proof {
        lemma_remaining_among_gems(entities@);
    }
    (total, remaining)
}

/// What the gem counter says.
#[derive(Debug, Clone, Copy, PartialEq, Eq, Structural)]
pub enum GemCounterMessage {
    /// "You have collected all the gems!"
    AllCollected,
    /// "One gem remains."
    OneRemains,
    /// "{n} gems remain."
    SomeRemain(u32),
}

/// What the gem counter shows for a level with `total` gems of which
/// `remaining` are still in play: nothing while none has been collected (and
/// so in a level without gems).
pub fn gem_counter_message(total: u32, remaining: u32) -> (result: Option<GemCounterMessage>)
    ensures
        total == remaining ==> result is None,
        total != remaining && remaining == 0 ==> result == Some(GemCounterMessage::AllCollected),
        total != remaining && remaining == 1 ==> result == Some(GemCounterMessage::OneRemains),
        total != remaining && remaining > 1 ==> result == Some(
            GemCounterMessage::SomeRemain(remaining),
        ),
{
    if total == remaining {
        None
    } else if remaining == 0 {
        Some(GemCounterMessage::AllCollected)
    } else if remaining == 1 {
        Some(GemCounterMessage::OneRemains)
    } else {
        Some(GemCounterMessage::SomeRemain(remaining))
    }
}

} // verus!
