use ecs_core::sample::Config;
use ecs_core::sample::ConfigResources;
use ecs_core::ResourceError;
use ecs_core::ResourceManager;

#[test]
fn resource_round_trip() {
    let mut resources: ResourceManager<ConfigResources> = ResourceManager::new();

    resources.insert(Config { max: 10 });
    assert_eq!(*resources.read::<Config>().unwrap(), Config { max: 10 });
}

#[test]
fn resource_insert_replaces() {
    let mut resources: ResourceManager<ConfigResources> = ResourceManager::new();

    resources.insert(Config { max: 10 });
    resources.insert(Config { max: 42 });

    assert_eq!(*resources.read::<Config>().unwrap(), Config { max: 42 });
}

#[test]
fn missing_resource_not_found() {
    let mut resources: ResourceManager<ConfigResources> = ResourceManager::new();

    assert!(matches!(resources.read::<Config>(), Err(ResourceError::NotFound)));
    assert!(matches!(resources.write::<Config>(), Err(ResourceError::NotFound)));
}

#[test]
fn write_mutates_resource() {
    let mut resources: ResourceManager<ConfigResources> = ResourceManager::new();

    resources.insert(Config { max: 10 });
    resources.write::<Config>().unwrap().max = 20;

    assert_eq!(resources.read::<Config>().unwrap().max, 20);
}
