use macroquad_fun::entity::{assign_entity_ids, EntityKeys, EntityMap, MAIN_PLAYER_ENTITY_ID};

fn keys(iid: Option<u128>, parent: Option<u64>) -> EntityKeys {
    EntityKeys { iid, parent }
}

#[test]
fn ids_are_handed_out_in_order() {
    let mut map = EntityMap::new_ex(keys(None, None), 10);
    assert!(map.contains(MAIN_PLAYER_ENTITY_ID));
    assert_eq!(map.next_id(), 1);
    assert_eq!(map.new_id(), 1);
    assert_eq!(map.new_id(), 2);
    assert_eq!(map.len(), 1);
}

#[test]
fn level_file_ids_are_tracked() {
    let mut map = EntityMap::new_ex(keys(None, None), 10);
    assert_eq!(map.insert(1, keys(Some(77), None)), None);
    assert_eq!(map.get_id_for_iid(77), Some(1));
    assert_eq!(map.insert(2, keys(Some(77), None)), Some(1));
    assert_eq!(map.get_id_for_iid(77), Some(2));
    assert_eq!(map.remove(2), Some(keys(Some(77), None)));
    assert_eq!(map.get_id_for_iid(77), None);
    assert_eq!(map.remove(2), None);
    assert_eq!(map.get(1), Some(keys(Some(77), None)));
}

#[test]
fn leaving_a_level_keeps_the_player_and_its_children() {
    let mut map = EntityMap::new_ex(keys(Some(1), None), 10);
    map.insert(1, keys(Some(10), Some(MAIN_PLAYER_ENTITY_ID)));
    map.insert(2, keys(Some(20), None));
    map.insert(3, keys(None, Some(2)));
    let mut removed = map.clear_all_except_main_player();
    removed.sort();
    assert_eq!(removed, vec![2, 3]);
    let mut ids = map.ids();
    ids.sort();
    assert_eq!(ids, vec![0, 1]);
    assert_eq!(map.get_id_for_iid(20), None);
    assert_eq!(map.get_id_for_iid(10), Some(1));
    assert_eq!(map.get_id_for_iid(1), Some(0));
}

#[test]
fn level_entities_get_consecutive_ids() {
    let mut map = EntityMap::new_ex(keys(None, None), 10);
    map.new_id();
    let ids = assign_entity_ids(&mut map, &vec![500, 42, 7]);
    assert_eq!(ids.get(&500), Some(&2));
    assert_eq!(ids.get(&42), Some(&3));
    assert_eq!(ids.get(&7), Some(&4));
    assert_eq!(ids.len(), 3);
    assert_eq!(map.new_id(), 5);
}

#[test]
fn leaving_a_level_keeps_ids_of_removed_followers() {
    let mut map = EntityMap::new_ex(keys(None, None), 10);
    map.insert(1, keys(Some(30), None));
    map.insert(2, keys(Some(40), Some(1)));
    let mut removed = map.clear_all_except_main_player();
    removed.sort();
    assert_eq!(removed, vec![1, 2]);
    assert_eq!(map.ids(), vec![0]);
    // The entity that followed entity 1 is gone, but its level-file id still
    // names it; that of the entity that followed nothing is forgotten.
    assert_eq!(map.get_id_for_iid(40), Some(2));
    assert_eq!(map.get_id_for_iid(30), None);
}
