use ecs_core::sample::Color;
use ecs_core::Entity;
use ecs_core::SparseVecStorage;
use ecs_core::Storage;

#[test]
fn insert() {
    let mut colors: SparseVecStorage<Color> = SparseVecStorage::new();

    let entity = Entity { id: 0 };
    colors.insert(&entity, Color { name: "blue".to_string() });

    assert_eq!(colors.len(), 1)
}

#[test]
fn insert_non_contiguous() {
    let mut colors: SparseVecStorage<Color> = SparseVecStorage::new();

    let entity1 = Entity { id: 0 };
    let entity2 = Entity { id: 4 };
    colors.insert(&entity1, Color { name: "blue".to_string() });
    colors.insert(&entity2, Color { name: "red".to_string() });

    assert_eq!(colors.len(), 5)
}

#[test]
fn sparse_storage_insert() {
    let mut colors: SparseVecStorage<Color> = SparseVecStorage::new();

    let entity = Entity { id: 0 };
    colors.insert(&entity, Color { name: "blue".to_string() });

    assert_eq!(colors.len(), 1)
}

#[test]
fn sparse_storage_insert_non_contiguous() {
    let mut colors: SparseVecStorage<Color> = SparseVecStorage::new();

    let entity1 = Entity { id: 0 };
    let entity2 = Entity { id: 4 };
    colors.insert(&entity1, Color { name: "blue".to_string() });
    colors.insert(&entity2, Color { name: "red".to_string() });

    assert_eq!(colors.len(), 5)
}

#[test]
fn read_and_write_of_absent_slots() {
    let mut colors: SparseVecStorage<Color> = SparseVecStorage::new();

    let entity1 = Entity { id: 0 };
    let entity2 = Entity { id: 4 };
    colors.insert(&entity1, Color { name: "blue".to_string() });
    colors.insert(&entity2, Color { name: "red".to_string() });

    // the gap is implicitly absent, and ids beyond the length are absent
    // too, not errors
    assert!(colors.read(&Entity { id: 2 }).is_none());
    assert!(colors.write(&Entity { id: 2 }).is_none());
    assert!(colors.read(&Entity { id: 100 }).is_none());
    assert!(colors.write(&Entity { id: 100 }).is_none());
    assert_eq!(colors.read(&entity1).unwrap().name, "blue");
    assert_eq!(colors.read(&entity2).unwrap().name, "red");
}

#[test]
fn write_mutates_slot() {
    let mut colors: SparseVecStorage<Color> = SparseVecStorage::new();

    let entity = Entity { id: 1 };
    colors.insert(&entity, Color { name: "blue".to_string() });

    colors.write(&entity).unwrap().name = "green".to_string();

    assert_eq!(colors.read(&entity).unwrap().name, "green");
    assert_eq!(colors.len(), 2);
}
