use engine::ecs::{
    Column,
    EntityManager, Signature, SystemManager, World, WorldManager, MAX_COMPONENTS, MAX_ENTITIES,
};

#[test]
fn entity_test() {
    let mut world = World::new();

    let (entity0, _) = world.create_entity();

    assert_eq!(entity0, 0);
}

#[test]
fn component_test() {
    let mut world = World::new();

    world.register_component("Health".to_string());

    let health_type = world.get_component_type_from_name("Health".to_string());

    let mut test = Signature::new();
    test.set(MAX_COMPONENTS - 1, true);
    assert_eq!(health_type, test);
}

#[test]
fn component_types_take_bits_from_the_top() {
    let mut world = World::new();
    world.register_component("Health".to_string());
    world.register_component("Armour".to_string());
    let armour = world.get_component_type_from_name("Armour".to_string());
    assert_eq!(armour, Signature::single(MAX_COMPONENTS - 2));
    assert_eq!(world.get_component_index(&armour), 1);
    let health = world.get_component_type_from_name("Health".to_string());
    assert_eq!(world.get_component_index(&health), 0);
}

#[test]
fn signature_operations() {
    let a = Signature::single(0);
    let b = Signature::single(3);
    let ab = a.union(b);
    assert_eq!(ab.bits, 0b1001);
    assert!(ab.covers(a));
    assert!(!a.covers(ab));
    assert_eq!(ab.symmetric_difference(b), a);
    assert_eq!(ab.difference(b), a);
    assert_eq!(a.difference(b), a);
    let mut c = ab;
    c.set(0, false);
    assert_eq!(c, b);
}

#[test]
fn entities_are_handed_out_in_order_and_come_back_last() {
    let mut em = EntityManager::new();
    let (e0, _) = em.create_entity();
    let (e1, _) = em.create_entity();
    assert_eq!((e0, e1), (0, 1));
    em.destroy_entity(e0);
    let (e2, _) = em.create_entity();
    assert_eq!(e2, 2);
}

#[test]
fn uuids_map_both_ways() {
    let mut em = EntityManager::new();
    let (e, uuid) = em.create_entity();
    assert_eq!(uuid.len(), 36);
    assert_eq!(em.get_uuid(e), &uuid);
    assert_eq!(em.get_entity_from_uuid(&uuid), e);
    let loaded = em.load_entity("0190b6a2-0000-7000-8000-000000000000".to_string());
    assert_eq!(loaded, 1);
    assert_eq!(
        em.get_entity_from_uuid(&"0190b6a2-0000-7000-8000-000000000000".to_string()),
        1
    );
}

#[test]
fn destroy_clears_the_signature() {
    let mut em = EntityManager::new();
    let (e, _) = em.create_entity();
    em.set_signature(e, Signature::single(5));
    assert_eq!(em.get_signature(e), Signature::single(5));
    em.destroy_entity(e);
    assert_eq!(em.get_signature(e), Signature::new());
}

#[test]
fn assign_has_and_remove() {
    let mut world = World::new();
    world.register_component("Health".to_string());
    world.register_component("Armour".to_string());
    let (e, _) = world.create_entity();
    assert!(!world.has(e, "Health".to_string()));
    world.assign(e, "Health".to_string());
    assert!(world.has(e, "Health".to_string()));
    assert!(!world.has(e, "Armour".to_string()));
    world.remove(e, "Health".to_string());
    assert!(!world.has(e, "Health".to_string()));
    // removing a component the entity does not have changes nothing
    let before = world.get_signature(e);
    world.remove(e, "Armour".to_string());
    assert!(!world.has(e, "Armour".to_string()));
    assert_eq!(world.get_signature(e), before);
    // removing one component keeps the others
    world.assign(e, "Health".to_string());
    world.assign(e, "Armour".to_string());
    world.remove(e, "Armour".to_string());
    assert!(world.has(e, "Health".to_string()));
    assert!(!world.has(e, "Armour".to_string()));
    assert!(world.is_dirty(e));
    assert!(!world.is_dirty(e + 1));
}

#[test]
fn systems_track_the_entities_that_match_them() {
    let mut wm = WorldManager::new();
    wm.register_component("Health".to_string());
    wm.register_component("Armour".to_string());
    wm.register_system(
        "HealthSystem".to_string(),
        vec!["Health".to_string()],
    );
    wm.register_system(
        "BattleSystem".to_string(),
        vec!["Health".to_string(), "Armour".to_string()],
    );
    let (e0, _) = wm.create_entity();
    let (e1, _) = wm.create_entity();
    wm.assign(e0, "Health".to_string());
    wm.assign(e1, "Health".to_string());
    wm.assign(e1, "Armour".to_string());
    let sm = wm.system_manager();
    assert_eq!(sm.len(), 2);
    assert_eq!(sm.entities_of(0).iter().copied().collect::<Vec<_>>(), vec![e0, e1]);
    assert_eq!(sm.entities_of(1).iter().copied().collect::<Vec<_>>(), vec![e1]);
    wm.remove(e1, "Armour".to_string());
    assert_eq!(
        wm.system_manager().entities_of(1).iter().copied().collect::<Vec<_>>(),
        Vec::<usize>::new()
    );
    assert!(wm.matches(e1, wm.get_signature(e0)));
}

#[test]
fn clean_brings_system_sets_up_to_date() {
    let mut wm = WorldManager::new();
    wm.register_component("Health".to_string());
    wm.register_system("HealthSystem".to_string(), vec!["Health".to_string()]);
    let (e0, _) = wm.create_entity();
    // a system changing the world directly
    wm.world_mut().assign(e0, "Health".to_string());
    assert!(wm.system_manager().entities_of(0).is_empty());
    wm.clean();
    assert!(wm.system_manager().entities_of(0).contains(&e0));
}

#[test]
fn destroyed_entities_leave_every_system() {
    let mut wm = WorldManager::new();
    wm.register_component("Health".to_string());
    wm.register_system("HealthSystem".to_string(), vec!["Health".to_string()]);
    wm.register_system("Everything".to_string(), vec![]);
    let (e0, _) = wm.create_entity();
    let (e1, _) = wm.create_entity();
    wm.assign(e0, "Health".to_string());
    wm.assign(e1, "Health".to_string());
    assert!(wm.system_manager().entities_of(0).contains(&e0));
    assert!(wm.system_manager().entities_of(1).contains(&e0));
    wm.destroy_entity(e0);
    assert!(!wm.system_manager().entities_of(0).contains(&e0));
    assert!(!wm.system_manager().entities_of(1).contains(&e0));
    assert!(wm.system_manager().entities_of(0).contains(&e1));
    wm.clean();
    assert!(!wm.system_manager().entities_of(0).contains(&e0));
}

#[test]
fn registering_a_system_again_keeps_its_slot_and_empties_it() {
    let mut sm = SystemManager::new();
    sm.register("A".to_string(), Signature::single(1));
    sm.register("B".to_string(), Signature::single(2));
    sm.index(4, Signature::single(1));
    assert!(sm.entities_of(0).contains(&4));
    sm.register("A".to_string(), Signature::single(3));
    assert_eq!(sm.len(), 2);
    assert_eq!(sm.instance_of(0), 2);
    assert!(sm.entities_of(0).is_empty());
    sm.index(4, Signature::single(3));
    sm.deindex(4, Signature::single(2));
    assert!(sm.entities_of(0).is_empty());
    sm.clean(4, Signature::single(3));
    assert!(sm.entities_of(0).contains(&4));
}

#[test]
fn get_all_matches_looks_at_every_identifier() {
    let mut wm = WorldManager::new();
    wm.register_component("Health".to_string());
    let (e0, _) = wm.create_entity();
    let (_e1, _) = wm.create_entity();
    wm.assign(e0, "Health".to_string());
    let health = wm.world().get_component_type_from_name("Health".to_string());
    let matched = wm.get_all_matches(health);
    assert_eq!(matched.into_iter().collect::<Vec<_>>(), vec![e0]);
    // every identifier matches the empty signature
    assert_eq!(wm.get_all_matches(Signature::new()).len(), MAX_ENTITIES);
}

#[test]
fn get_all_matches_finds_high_identifiers() {
    let mut wm = WorldManager::new();
    wm.register_component("Health".to_string());
    let mut last = 0;
    for _ in 0..(MAX_COMPONENTS + 6) {
        let (e, _) = wm.create_entity();
        last = e;
    }
    assert!(last >= MAX_COMPONENTS);
    wm.assign(last, "Health".to_string());
    let health = wm.world().get_component_type_from_name("Health".to_string());
    let matched = wm.get_all_matches(health);
    assert_eq!(matched.into_iter().collect::<Vec<_>>(), vec![last]);
}

#[test]
fn every_identifier_can_be_alive_at_once() {
    let mut em = EntityManager::new();
    for i in 0..MAX_ENTITIES {
        let (e, _) = em.create_entity();
        assert_eq!(e, i);
    }
    assert_eq!(em.living_count(), MAX_ENTITIES);
    em.destroy_entity(3);
    let (again, _) = em.create_entity();
    assert_eq!(again, 3);
}

#[test]
fn a_column_keeps_one_value_per_entity() {
    let mut healths: Column<i32> = Column::new();
    assert_eq!(healths.get(0), None);
    assert_eq!(healths.get(MAX_ENTITIES - 1), None);
    healths.set(4, Some(10));
    healths.set(MAX_ENTITIES - 1, Some(3));
    assert_eq!(healths.get(4), Some(&10));
    assert_eq!(healths.get(5), None);
    healths.set(4, Some(7));
    assert_eq!(healths.get(4), Some(&7));
    healths.set(4, None);
    assert_eq!(healths.get(4), None);
    assert_eq!(healths.get(MAX_ENTITIES - 1), Some(&3));
}
