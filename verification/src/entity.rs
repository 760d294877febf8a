use vstd::prelude::*;

use std::collections::HashMap;
use vstd::std_specs::hash::spec_keys_iter;
use vstd::std_specs::iter::IteratorSpec;

verus! {

broadcast use {vstd::std_specs::hash::group_hash_axioms, vstd::seq_lib::group_seq_properties};

/// The id of the entity that the player controls.
pub const MAIN_PLAYER_ENTITY_ID: u64 = 0;

/// Makes an entity follow another one (its parent).
#[derive(Debug, Clone, Copy, PartialEq, Eq, Structural)]
pub struct ChildComponent {
    /// The id of the parent entity.
    pub parent: u64,
}

/// What the entity map keeps of an entity: the id of the level-file entity it
/// was made from (a UUID, as its 128-bit value), if any, and the id of the
/// entity it follows, if any.
#[derive(Debug, Clone, Copy, PartialEq, Eq, Structural)]
pub struct EntityKeys {
    pub iid: Option<u128>,
    pub parent: Option<u64>,
}

/// The entities in play, by id, and the ids of those made from level-file
/// entities, by level-file id.
pub ghost struct EntityMapModel {
    pub entities: Map<u64, EntityKeys>,
    pub iids: Map<u128, u64>,
    pub next_id: u64,
}

/// The map after `keys` are put in under `id`: the level-file id, if any,
/// now names `id`.
pub open spec fn insert_spec(m: EntityMapModel, id: u64, keys: EntityKeys) -> EntityMapModel {
    EntityMapModel {
        entities: m.entities.insert(id, keys),
        iids: match keys.iid {
            Some(iid) => m.iids.insert(iid, id),
            None => m.iids,
        },
        next_id: m.next_id,
    }
}

/// The map after the entity `id` is taken out: its level-file id, if any, no
/// longer names anything.
pub open spec fn remove_spec(m: EntityMapModel, id: u64) -> EntityMapModel {
    if m.entities.contains_key(id) {
        EntityMapModel {
            entities: m.entities.remove(id),
            iids: match m.entities[id].iid {
                Some(iid) => m.iids.remove(iid),
                None => m.iids,
            },
            next_id: m.next_id,
        }
    } else {
        m
    }
}

/// Whether the entity `id` with keys `keys` stays when a level is left: the
/// main player and the entities that follow it directly.
pub open spec fn kept_across_levels(id: u64, keys: EntityKeys) -> bool {
    id == MAIN_PLAYER_ENTITY_ID || keys.parent == Some(MAIN_PLAYER_ENTITY_ID)
}

/// The entities in play, keyed by id.
#[derive(Clone)]
pub struct EntityMap {
    map: HashMap<u64, EntityKeys>,
    iid_map: HashMap<u128, u64>,
    next_id: u64,
}

impl EntityMap {
    pub closed spec fn view(&self) -> EntityMapModel {
        EntityMapModel { entities: self.map@, iids: self.iid_map@, next_id: self.next_id }
    }

    /// A fresh id: ids are handed out in increasing order.
    pub fn new_id(&mut self) -> (result: u64)
        requires
            old(self)@.next_id < u64::MAX,
        ensures
            result == old(self)@.next_id,
            final(self)@ == (EntityMapModel { next_id: (old(self)@.next_id + 1) as u64, ..old(self)@ }),
    {
        let id = self.next_id;
        self.next_id = self.next_id + 1;
        id
    }

    /// The id that `new_id` hands out next.
    pub fn next_id(&self) -> (result: u64)
        ensures
            result == self@.next_id,
    {
        self.next_id
    }

    /// Whether an entity with id `id` is in play.
    pub fn contains(&self, id: u64) -> (result: bool)
        ensures
            result == self@.entities.contains_key(id),
    {
        self.map.contains_key(&id)
    }

    /// Puts an entity in play under `id`, which must be free. Returns the id
    /// that its level-file id named before, if any (which now names `id`).
    pub fn insert(&mut self, id: u64, keys: EntityKeys) -> (result: Option<u64>)
        requires
            !old(self)@.entities.contains_key(id),
        ensures
            final(self)@ == insert_spec(old(self)@, id, keys),
            result == match keys.iid {
                Some(iid) => if old(self)@.iids.contains_key(iid) {
                    Some(old(self)@.iids[iid])
                } else {
                    None
                },
                None => None,
            },
    {
        self.map.insert(id, keys);
        match keys.iid {
            Some(iid) => self.iid_map.insert(iid, id),
            None => None,
        }
    }

    /// Takes the entity `id` out of play, and returns what was kept of it.
    pub fn remove(&mut self, id: u64) -> (result: Option<EntityKeys>)
        ensures
            final(self)@ == remove_spec(old(self)@, id),
            result == if old(self)@.entities.contains_key(id) {
                Some(old(self)@.entities[id])
            } else {
                None
            },
    {
        let ghost before = self.map@;
        let result = self.map.remove(&id);
        match result {
            Some(keys) => {
                match keys.iid {
                    Some(iid) => {
                        self.iid_map.remove(&iid);
                    },
                    None => {},
                }
            },
            None => {
                assert(self.map@ =~= before);
            },
        }
        result
    }

    /// The number of entities in play.
    pub fn len(&self) -> (result: usize)
        ensures
            result == self@.entities.len(),
    {
        self.map.len()
    }

    /// What is kept of the entity `id`, if it is in play.
    pub fn get(&self, id: u64) -> (result: Option<EntityKeys>)
        ensures
            result == if self@.entities.contains_key(id) {
                Some(self@.entities[id])
            } else {
                None
            },
    {
        match self.map.get(&id) {
            Some(keys) => Some(*keys),
            None => None,
        }
    }

    /// The id of the entity made from the level-file entity `iid`, if any.
    pub fn get_id_for_iid(&self, iid: u128) -> (result: Option<u64>)
        ensures
            result == if self@.iids.contains_key(iid) {
                Some(self@.iids[iid])
            } else {
                None
            },
    {
        match self.iid_map.get(&iid) {
            Some(id) => Some(*id),
            None => None,
        }
    }

    /// The ids of the entities in play, each once, in no particular order.
    pub fn ids(&self) -> (result: Vec<u64>)
        ensures
            result@.to_set() == self@.entities.dom(),
            result@.no_duplicates(),
            result@.len() == self@.entities.len(),
    {
        let mut result: Vec<u64> = Vec::new();
        let ghost all = spec_keys_iter(&self.map).remaining().unref();
        for k in it: self.map.keys()
            invariant
                it.seq().unref() == all,
                result@ == all.take(it.index()),
        {
            result.push(*k);
            assert(result@ =~= all.take(it.index() + 1));
        }
        assert(result@ =~= all);
        result
    }

    /// A map holding only the main player, with keys `main_player`; the next
    /// fresh id is 1.
    pub fn new_ex(main_player: EntityKeys, capacity: usize) -> (result: Self)
        ensures
            result@ == insert_spec(
                EntityMapModel { entities: Map::empty(), iids: Map::empty(), next_id: 1 },
                MAIN_PLAYER_ENTITY_ID,
                main_player,
            ),
    {
        let mut map = EntityMap {
            map: HashMap::with_capacity(capacity),
            iid_map: HashMap::with_capacity(capacity),
            next_id: 1,
        };
        map.insert(MAIN_PLAYER_ENTITY_ID, main_player);
        map
    }

    /// Takes out of play every entity but the main player and the entities
    /// that follow it directly. The level-file ids of the entities taken out
    /// that follow no entity are forgotten; those of entities that follow
    /// another entity stay in the map, naming an id no longer in play. Returns
    /// the ids of the entities taken out.
    pub fn clear_all_except_main_player(&mut self) -> (result: Vec<u64>)
        ensures
            final(self)@.next_id == old(self)@.next_id,
            forall|id: u64|
                #[trigger] final(self)@.entities.contains_key(id) <==> old(self)@.entities.contains_key(id)
                    && kept_across_levels(id, old(self)@.entities[id]),
            forall|id: u64|
                #[trigger] final(self)@.entities.contains_key(id) ==> final(self)@.entities[id] == old(
                    self,
                )@.entities[id],
            final(self)@.iids == old(self)@.iids.remove_keys(removed_iids(old(self)@.entities)),
            result@.to_set() == removed_ids(old(self)@.entities),
            result@.no_duplicates(),
    {
        let ids = self.ids();
        let ghost old_model = self@;
        let mut removed: Vec<u64> = Vec::new();
        for i in 0..ids.len()
            invariant
                ids@.to_set() == old_model.entities.dom(),
                ids@.no_duplicates(),
                self@.next_id == old_model.next_id,
                self@.entities == old_model.entities.remove_keys(removed@.to_set()),
                self@.iids == old_model.iids.remove_keys(removed_iids_among(old_model.entities, removed@.to_set())),
                removed@.no_duplicates(),
                removed@.to_set() == removed_ids(old_model.entities).intersect(ids@.take(i as int).to_set()),
        {
            let id = ids[i];
            let ghost prev_removed = removed@.to_set();
            assert(old_model.entities.contains_key(id)) by {
                assert(ids@.to_set().contains(ids@[i as int]));
            }
            assert(!prev_removed.contains(id)) by {
                if prev_removed.contains(id) {
                    let j = choose|j: int| 0 <= j < i && ids@.take(i as int)[j] == id;
                    assert(ids@[j] == ids@[i as int]);
                }
            }
            let keys = match self.get(id) {
                Some(keys) => keys,
                None => {
                    proof {
                        assert(false);
                    }
                    return removed;
                },
            };
            if !(id == MAIN_PLAYER_ENTITY_ID || keys.parent == Some(MAIN_PLAYER_ENTITY_ID)) {
                if keys.parent.is_none() {
                    self.remove(id);
                } else {
                    let ghost before = self.map@;
                    self.map.remove(&id);
                    assert(self.map@ =~= before.remove(id));
                }
                removed.push(id);
                proof {
                    assert(removed@.to_set() =~= prev_removed.insert(id));
                    assert(self@.entities =~= old_model.entities.remove_keys(removed@.to_set()));
                    assert(self@.iids =~= old_model.iids.remove_keys(removed_iids_among(old_model.entities, removed@.to_set())));
                }
            }
            assert(removed@.to_set() =~= removed_ids(old_model.entities).intersect(ids@.take(i + 1).to_set()));
        }
        assert(ids@.take(ids@.len() as int) =~= ids@);
        assert(removed@.to_set() =~= removed_ids(old_model.entities));
        assert forall|id: u64|
            #[trigger] self@.entities.contains_key(id) <==> old_model.entities.contains_key(id)
                && kept_across_levels(id, old_model.entities[id]) by {}
        assert(removed_iids_among(old_model.entities, removed@.to_set()) =~= removed_iids(old_model.entities));
        removed
    }
}

/// Hands out a fresh id to each entity of a level file, given their
/// level-file ids `iids` (which are all different), in order; returns which id
/// each level-file id got.
pub fn assign_entity_ids(entities: &mut EntityMap, iids: &Vec<u128>) -> (result: HashMap<u128, u64>)
    requires
        old(entities)@.next_id + iids@.len() <= u64::MAX,
        iids@.no_duplicates(),
    ensures
        final(entities)@ == (EntityMapModel {
            next_id: (old(entities)@.next_id + iids@.len()) as u64,
            ..old(entities)@
        }),
        result@.dom() == iids@.to_set(),
        forall|i: int| 0 <= i < iids@.len() ==> result@[#[trigger] iids@[i]] == old(entities)@.next_id + i,
{
    let mut iid_id_map: HashMap<u128, u64> = HashMap::with_capacity(iids.len());
    let ghost first = entities@.next_id;
    for k in 0..iids.len()
        invariant
            first == old(entities)@.next_id,
            first + iids@.len() <= u64::MAX,
            iids@.no_duplicates(),
            entities@ == (EntityMapModel { next_id: (first + k) as u64, ..old(entities)@ }),
            iid_id_map@.dom() == iids@.take(k as int).to_set(),
            forall|i: int| 0 <= i < k ==> iid_id_map@[#[trigger] iids@[i]] == first + i,
    {
        let iid = iids[k];
        let id = entities.new_id();
        assert(!iids@.take(k as int).contains(iid)) by {
            if iids@.take(k as int).contains(iid) {
                let j = choose|j: int| 0 <= j < k && iids@.take(k as int)[j] == iid;
                assert(iids@[j] == iids@[k as int]);
            }
        }
        let ghost before = iid_id_map@;
        iid_id_map.insert(iid, id);
        assert(iids@.take(k + 1) =~= iids@.take(k as int).push(iid));
        assert(iid_id_map@.dom() =~= iids@.take(k + 1).to_set());
        assert forall|i: int| 0 <= i < k + 1 implies iid_id_map@[#[trigger] iids@[i]] == first + i by {
            if i < k {
                assert(iids@.take(k as int).contains(iids@[i]));
                assert(iids@[i] != iid);
            }
        }
    }
    assert(iids@.take(iids@.len() as int) =~= iids@);
    iid_id_map
}

/// The ids of the entities of `entities` that are not kept across levels.
pub open spec fn removed_ids(entities: Map<u64, EntityKeys>) -> Set<u64> {
    Set::new(|id: u64| entities.contains_key(id) && !kept_across_levels(id, entities[id]))
}

/// The level-file ids of the entities of `entities` whose ids are in `ids`
/// and that follow no entity.
pub open spec fn removed_iids_among(entities: Map<u64, EntityKeys>, ids: Set<u64>) -> Set<u128> {
    Set::new(
        |iid: u128|
            exists|id: u64|
                ids.contains(id) && entities[id].parent is None && #[trigger] entities[id].iid
                    == Some(iid),
    )
}

/// The level-file ids that leaving a level forgets: those of the entities of
/// `entities` that are not kept across levels and follow no entity.
pub open spec fn removed_iids(entities: Map<u64, EntityKeys>) -> Set<u128> {
    removed_iids_among(entities, removed_ids(entities))
}

/// Taking out an entity just put in restores the map, provided its id was
/// free and its level-file id, if any, named nothing before.
pub proof fn remove_undoes_insert(m: EntityMapModel, id: u64, keys: EntityKeys)
    requires
        !m.entities.contains_key(id),
        keys.iid matches Some(iid) ==> !m.iids.contains_key(iid),
    ensures
        remove_spec(insert_spec(m, id, keys), id) == m,
{
    let after = insert_spec(m, id, keys);
    assert(after.entities.remove(id) =~= m.entities);
    match keys.iid {
        Some(iid) => {
            assert(after.iids.remove(iid) =~= m.iids);
        },
        None => {},
    }
}

/// After an entity made from a level-file entity is put in, that level-file
/// id names it, and every other entity keeps its keys.
pub proof fn insert_is_found(m: EntityMapModel, id: u64, keys: EntityKeys, other: u64)
    ensures
        insert_spec(m, id, keys).entities[id] == keys,
        keys.iid matches Some(iid) ==> insert_spec(m, id, keys).iids[iid] == id,
        other != id && m.entities.contains_key(other) ==> insert_spec(m, id, keys).entities[other]
            == m.entities[other],
{
}

} // verus!