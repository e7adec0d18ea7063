use ecs_core::sample::Color;
use ecs_core::sample::ColorNameStorages;
use ecs_core::sample::Config;
use ecs_core::sample::ConfigResources;
use ecs_core::Entity;
use ecs_core::ResourceError;
use ecs_core::Storage;
use ecs_core::System;
use ecs_core::World;
use ecs_core::sample::Name;

type SampleWorld = World<ColorNameStorages, ConfigResources>;

#[test]
fn names_scenario() {
    let mut world: SampleWorld = World::new();

    let e0 = world.entities.next_entity();
    let e1 = world.entities.next_entity();
    let e2 = world.entities.next_entity();
    assert_eq!(e0.id, 0);
    assert_eq!(e1.id, 1);
    assert_eq!(e2.id, 2);

    world.components.write_storage::<Name>().insert(&e0, Name { name: "a".to_string() });
    world.components.write_storage::<Name>().insert(&e2, Name { name: "c".to_string() });

    assert!(world.components.get::<Name>(&e1).is_none());
    assert_eq!(world.components.get::<Name>(&e0).unwrap().name, "a");
    assert_eq!(world.components.read_storage::<Name>().len(), 3);
}

#[test]
fn write_resource_mutates() {
    let mut world: SampleWorld = World::new();

    world.insert_resource(Config { max: 10 });
    world.write_resource::<Config>().unwrap().max = 20;

    assert_eq!(world.read_resource::<Config>().unwrap().max, 20);
}

#[test]
fn world_missing_resource_not_found() {
    let mut world: SampleWorld = World::new();

    assert!(matches!(world.read_resource::<Config>(), Err(ResourceError::NotFound)));
    assert!(matches!(world.write_resource::<Config>(), Err(ResourceError::NotFound)));

    world.insert_resource(Config { max: 1 });
    assert!(world.read_resource::<Config>().is_ok());
}

struct PaintEverything {
    painted: usize,
}

impl System<ColorNameStorages, ConfigResources> for PaintEverything {
    fn run(&mut self, world: &mut SampleWorld) {
        let entity = world.entities.next_entity();
        world.components.write_storage::<Color>().insert(
            &entity,
            Color { name: "blue".to_string() },
        );
        self.painted += 1;
    }
}

#[test]
fn system_runs_against_world() {
    let mut world: SampleWorld = World::new();
    let mut painter = PaintEverything { painted: 0 };

    painter.init(&mut world);
    painter.run(&mut world);
    painter.run(&mut world);

    assert_eq!(painter.painted, 2);
    assert_eq!(world.components.get::<Color>(&Entity { id: 0 }).unwrap().name, "blue");
    assert_eq!(world.components.get::<Color>(&Entity { id: 1 }).unwrap().name, "blue");
}
