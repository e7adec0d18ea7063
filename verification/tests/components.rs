use ecs_core::sample::Color;
use ecs_core::sample::ColorNameStorages;
use ecs_core::sample::Name;
use ecs_core::ComponentManager;
use ecs_core::Entity;
use ecs_core::Storage;

#[test]
fn component_multiple_read_storages() {
    let mut components: ComponentManager<ColorNameStorages> = ComponentManager::new();

    let _colors = components.read_storage::<Color>();
    let _names = components.read_storage::<Name>();
}

#[test]
fn component_multiple_write_storages() {
    let mut components: ComponentManager<ColorNameStorages> = ComponentManager::new();

    let _colors = components.write_storage::<Color>();
    let _names = components.write_storage::<Name>();
}

#[test]
fn mod_multiple_read_storages() {
    let mut components: ComponentManager<ColorNameStorages> = ComponentManager::new();

    let _colors = components.read_storage::<Color>();
    let _names = components.read_storage::<Name>();
}

#[test]
fn mod_multiple_write_storages() {
    let mut components: ComponentManager<ColorNameStorages> = ComponentManager::new();

    let _colors = components.write_storage::<Color>();
    let _names = components.write_storage::<Name>();
}

#[test]
fn insert_then_get_returns_value() {
    let mut components: ComponentManager<ColorNameStorages> = ComponentManager::new();

    let entity = Entity { id: 2 };
    components.write_storage::<Color>().insert(&entity, Color { name: "blue".to_string() });

    assert_eq!(components.get::<Color>(&entity).unwrap().name, "blue");
    // entities never inserted read back as absent
    assert!(components.get::<Color>(&Entity { id: 0 }).is_none());
    assert!(components.get::<Color>(&Entity { id: 9 }).is_none());
}

#[test]
fn insert_twice_overwrites() {
    let mut components: ComponentManager<ColorNameStorages> = ComponentManager::new();

    let entity = Entity { id: 3 };
    components.write_storage::<Color>().insert(&entity, Color { name: "blue".to_string() });
    components.write_storage::<Color>().insert(&entity, Color { name: "red".to_string() });

    assert_eq!(components.get::<Color>(&entity).unwrap().name, "red");
}

#[test]
fn component_types_do_not_interfere() {
    let mut components: ComponentManager<ColorNameStorages> = ComponentManager::new();

    let entity = Entity { id: 1 };
    components.write_storage::<Color>().insert(&entity, Color { name: "blue".to_string() });

    assert!(components.get::<Name>(&entity).is_none());

    components.write_storage::<Name>().insert(&entity, Name { name: "ada".to_string() });

    assert_eq!(components.get::<Color>(&entity).unwrap().name, "blue");
    assert_eq!(components.get::<Name>(&entity).unwrap().name, "ada");
}

#[test]
fn get_mut_updates_component() {
    let mut components: ComponentManager<ColorNameStorages> = ComponentManager::new();

    let entity = Entity { id: 0 };
    components.write_storage::<Color>().insert(&entity, Color { name: "blue".to_string() });

    components.get_mut::<Color>(&entity).unwrap().name = "red".to_string();

    assert_eq!(components.get::<Color>(&entity).unwrap().name, "red");
    assert!(components.get_mut::<Color>(&Entity { id: 5 }).is_none());
}

#[test]
fn storages_are_reused_across_accesses() {
    let mut components: ComponentManager<ColorNameStorages> = ComponentManager::new();

    let entity = Entity { id: 0 };
    components.write_storage::<Color>().insert(&entity, Color { name: "blue".to_string() });

    // the lazily created backend is the one seen by every later access
    assert_eq!(components.read_storage::<Color>().len(), 1);
    assert_eq!(components.write_storage::<Color>().len(), 1);
    assert_eq!(components.read_storage::<Name>().len(), 0);
}
