use ecs_core::EntityManager;

#[test]
fn entity_ids_increase_from_zero() {
    let mut entities = EntityManager::new();

    let e0 = entities.next_entity();
    let e1 = entities.next_entity();
    let e2 = entities.next_entity();

    assert_eq!(e0.id, 0);
    assert_eq!(e1.id, 1);
    assert_eq!(e2.id, 2);
    assert_ne!(e0.id, e1.id);
    assert_ne!(e0.id, e2.id);
    assert_ne!(e1.id, e2.id);
}
