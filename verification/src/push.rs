use vstd::prelude::*;

verus! {

/// Whether an entity, given as its id and whether it can push others, can
/// push others.
pub open spec fn can_push() -> spec_fn((u64, bool)) -> bool {
    |e: (u64, bool)| e.1
}

/// Pushes pushable entities around; keeps the list of the pushers of a frame
/// so that it is allocated once.
pub struct PushSystem {
    entities_to_process: Vec<u64>,
}

impl PushSystem {
    /// The ids of the pushers of the current frame, in order.
    pub closed spec fn view(&self) -> Seq<u64> {
        self.entities_to_process@
    }

    pub fn with_capacity(capacity: usize) -> (result: Self)
        ensures
            result@ == Seq::<u64>::empty(),
    {
        PushSystem { entities_to_process: Vec::with_capacity(capacity) }
    }

    /// Replaces the pushers by the ids of the entities of `entities` (each
    /// given as its id and whether it can push others) that can push, in
    /// order.
    pub fn collect_pushers(&mut self, entities: &Vec<(u64, bool)>)
        ensures
            final(self)@ == entities@.filter(can_push()).map_values(|e: (u64, bool)| e.0),
    {
        self.entities_to_process.clear();
        let ghost pred = can_push();
        for i in 0..entities.len()
            invariant
                pred == can_push(),
                self.entities_to_process@ == entities@.take(i as int).filter(pred).map_values(
                    |e: (u64, bool)| e.0,
                ),
        {
            let (id, pushes) = entities[i];
            let ghost before = entities@.take(i as int);
            proof {
                assert(entities@.take(i + 1) =~= before.push(entities@[i as int]));
                before.lemma_filter_push(entities@[i as int], pred);
            }
            if pushes {
                self.entities_to_process.push(id);
                assert(self.entities_to_process@ =~= entities@.take(i + 1).filter(pred).map_values(
                    |e: (u64, bool)| e.0,
                ));
            }
        }
        assert(entities@.take(entities@.len() as int) =~= entities@);
    }

    /// The ids of the pushers of the current frame, in order.
    pub fn entities_to_process(&self) -> (result: &Vec<u64>)
        ensures
            result@ == self@,
    {
        &self.entities_to_process
    }
}

} // verus!
