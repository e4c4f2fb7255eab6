use replication::net_id::{Entity, NetId, NetIdMap};

#[test]
fn inserted_pair_is_found_both_ways() {
    let mut ids = NetIdMap::new();
    assert!(ids.insert(Entity(7), NetId(42)));
    assert_eq!(ids.get_net_id(Entity(7)), Some(NetId(42)));
    assert_eq!(ids.get_entity(NetId(42)), Some(Entity(7)));
    assert_eq!(ids.get_net_id(Entity(8)), None);
    assert_eq!(ids.get_entity(NetId(43)), None);
}

#[test]
fn removed_pair_is_gone_both_ways() {
    let mut ids = NetIdMap::new();
    assert!(ids.insert(Entity(7), NetId(42)));
    assert_eq!(ids.remove(Entity(7)), Some(NetId(42)));
    assert_eq!(ids.get_net_id(Entity(7)), None);
    assert_eq!(ids.get_entity(NetId(42)), None);
    assert_eq!(ids.remove(Entity(7)), None);
}

#[test]
fn insert_of_a_mapped_entity_is_refused() {
    let mut ids = NetIdMap::new();
    assert!(ids.insert(Entity(1), NetId(10)));
    assert!(!ids.insert(Entity(1), NetId(11)));
    assert_eq!(ids.get_net_id(Entity(1)), Some(NetId(10)));
    assert_eq!(ids.get_entity(NetId(11)), None);
}

#[test]
fn insert_of_a_mapped_net_id_is_refused() {
    let mut ids = NetIdMap::new();
    assert!(ids.insert(Entity(1), NetId(10)));
    assert!(!ids.insert(Entity(2), NetId(10)));
    assert_eq!(ids.get_entity(NetId(10)), Some(Entity(1)));
    assert_eq!(ids.get_net_id(Entity(2)), None);
}

#[test]
fn id_can_be_reused_after_removal() {
    let mut ids = NetIdMap::new();
    assert!(ids.insert(Entity(1), NetId(10)));
    ids.remove(Entity(1));
    assert!(ids.insert(Entity(2), NetId(10)));
    assert_eq!(ids.get_entity(NetId(10)), Some(Entity(2)));
}
