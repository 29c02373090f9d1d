use engine::ecs_thread::{EntityManager, World, WorldManager, MAX_ENTITIES};

#[test]
fn destroyed_identifiers_go_to_the_back_of_the_shelf() {
    let mut em = EntityManager::new();
    let (e0, uuid) = em.spawn();
    assert_eq!(e0, 0);
    assert_eq!(em.get_uuid(e0), Some(uuid));
    assert_eq!(em.shelf_len(), MAX_ENTITIES - 1);
    em.destroy(e0);
    assert_eq!(em.get_uuid(e0), None);
    assert_eq!(em.shelf_len(), MAX_ENTITIES);
    assert_eq!(em.living_count(), 0);
    let (e1, _) = em.spawn();
    assert_eq!(e1, 1);
    let loaded = em.load("saved".to_string());
    assert_eq!(loaded, 2);
    assert_eq!(em.get_uuid(loaded), Some("saved".to_string()));
    assert!(loaded < MAX_ENTITIES);
}

#[test]
fn a_full_world_can_destroy_and_spawn_again() {
    let mut em = EntityManager::new();
    for i in 0..MAX_ENTITIES {
        let (e, _) = em.spawn();
        assert_eq!(e, i);
    }
    assert_eq!(em.living_count(), MAX_ENTITIES);
    assert_eq!(em.shelf_len(), 0);
    em.destroy(7);
    assert_eq!(em.living_count(), MAX_ENTITIES - 1);
    let (again, _) = em.spawn();
    assert_eq!(again, 7);
    assert_eq!(em.living_count(), MAX_ENTITIES);
}

#[test]
fn assign_and_unassign_change_the_signature() {
    let mut world = World::new();
    world.register("Health".to_string());
    world.register("Shield".to_string());
    let (e, _) = world.create_entity();
    world.assign(e, "Shield".to_string());
    let shield = world.get_component_signature_from_name("Shield".to_string());
    assert_eq!(world.get_signature(e), shield);
    assert_eq!(world.get_component_index(&"Shield".to_string()), 1);
    world.unassign(e, "Shield".to_string());
    assert_eq!(world.get_signature(e).bits, 0);
    assert!(world.is_dirty(e));
    world.clear_dirty();
    assert!(!world.is_dirty(e));
}

#[test]
fn assign_cleans_at_once() {
    let mut wm = WorldManager::new();
    wm.register_component("Health".to_string());
    wm.register_component("Shield".to_string());
    wm.register_system(
        "BattleSystem".to_string(),
        vec!["Health".to_string(), "Shield".to_string()],
    );
    let (e, _) = wm.create_entity();
    wm.assign(e, "Health".to_string());
    assert!(wm.system_manager().entities_of(0).is_empty());
    wm.assign(e, "Shield".to_string());
    assert!(wm.system_manager().entities_of(0).contains(&e));
    assert!(!wm.world().is_dirty(e));
    wm.unassign(e, "Health".to_string());
    assert!(wm.system_manager().entities_of(0).is_empty());
}
