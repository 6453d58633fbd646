use bevy::ecs::component::{Component, StorageType};
use bevy::ecs::entity::Entity;
use bevy::ecs::system::Commands;
use bevy::ecs::world::{CommandQueue, World};
use marked_commands::marking::{get_or_marked, marked_batch, marked_with};

#[derive(Debug, Default, PartialEq)]
struct Tagged;

impl Component for Tagged {
    const STORAGE_TYPE: StorageType = StorageType::Table;
}

#[derive(Debug, PartialEq)]
struct Position(i32, i32);

impl Component for Position {
    const STORAGE_TYPE: StorageType = StorageType::Table;
}

#[derive(Debug, PartialEq)]
struct Health(u32);

impl Component for Health {
    const STORAGE_TYPE: StorageType = StorageType::Table;
}

#[derive(Debug, Default, PartialEq)]
struct Level(u32);

impl Component for Level {
    const STORAGE_TYPE: StorageType = StorageType::Table;
}

fn component_count(world: &World, entity: Entity) -> usize {
    world.entity(entity).archetype().components().count()
}

fn entities_in_creation_order(world: &World) -> Vec<Entity> {
    let mut entities: Vec<Entity> = world.iter_entities().map(|e| e.id()).collect();
    entities.sort_by_key(|e| e.index());
    entities
}

#[test]
fn marked_with_gives_payload_and_marker() {
    let mut world = World::new();
    let mut queue = CommandQueue::default();
    let entity = {
        let mut commands = Commands::new(&mut queue, &world);
        marked_with::<Tagged, _>(&mut commands, Position(0, 0)).id()
    };
    assert!(world.get_entity(entity).is_none());
    queue.apply(&mut world);
    assert_eq!(world.get::<Position>(entity), Some(&Position(0, 0)));
    assert_eq!(world.get::<Tagged>(entity), Some(&Tagged));
    assert_eq!(component_count(&world, entity), 2);
    assert_eq!(world.iter_entities().count(), 1);
}

#[test]
fn marked_batch_creates_one_entity_per_payload_in_order() {
    let mut world = World::new();
    let mut queue = CommandQueue::default();
    {
        let mut commands = Commands::new(&mut queue, &world);
        marked_batch::<Tagged, _>(&mut commands, vec![Health(10), Health(20)]);
    }
    assert_eq!(world.iter_entities().count(), 0);
    queue.apply(&mut world);
    let created = entities_in_creation_order(&world);
    assert_eq!(created.len(), 2);
    assert_eq!(world.get::<Health>(created[0]), Some(&Health(10)));
    assert_eq!(world.get::<Tagged>(created[0]), Some(&Tagged));
    assert_eq!(component_count(&world, created[0]), 2);
    assert_eq!(world.get::<Health>(created[1]), Some(&Health(20)));
    assert_eq!(world.get::<Tagged>(created[1]), Some(&Tagged));
    assert_eq!(component_count(&world, created[1]), 2);
}

#[test]
fn get_or_marked_creates_an_unknown_entity_with_the_marker_only() {
    let mut world = World::new();
    let mut queue = CommandQueue::default();
    let id = Entity::from_raw(42);
    let handle_id = {
        let mut commands = Commands::new(&mut queue, &world);
        get_or_marked::<Tagged>(&mut commands, id).id()
    };
    assert_eq!(handle_id, id);
    assert!(world.get_entity(id).is_none());
    queue.apply(&mut world);
    assert_eq!(world.get::<Tagged>(id), Some(&Tagged));
    assert_eq!(component_count(&world, id), 1);
}

#[test]
fn marked_with_keeps_every_component_of_a_payload() {
    let mut world = World::new();
    let mut queue = CommandQueue::default();
    let entity = {
        let mut commands = Commands::new(&mut queue, &world);
        marked_with::<Tagged, _>(&mut commands, (Position(-1, 8), Health(6))).id()
    };
    queue.apply(&mut world);
    assert_eq!(world.get::<Position>(entity), Some(&Position(-1, 8)));
    assert_eq!(world.get::<Health>(entity), Some(&Health(6)));
    assert_eq!(world.get::<Tagged>(entity), Some(&Tagged));
    assert_eq!(component_count(&world, entity), 3);
}

#[test]
fn a_marker_of_two_components_gives_both() {
    let mut world = World::new();
    let mut queue = CommandQueue::default();
    let entity = {
        let mut commands = Commands::new(&mut queue, &world);
        marked_with::<(Tagged, Level), _>(&mut commands, Health(2)).id()
    };
    queue.apply(&mut world);
    assert_eq!(world.get::<Health>(entity), Some(&Health(2)));
    assert_eq!(world.get::<Tagged>(entity), Some(&Tagged));
    assert_eq!(world.get::<Level>(entity), Some(&Level(0)));
    assert_eq!(component_count(&world, entity), 3);
}

#[test]
fn an_empty_payload_gives_the_marker_only() {
    let mut world = World::new();
    let mut queue = CommandQueue::default();
    let entity = {
        let mut commands = Commands::new(&mut queue, &world);
        marked_with::<Tagged, _>(&mut commands, ()).id()
    };
    queue.apply(&mut world);
    assert_eq!(world.get::<Tagged>(entity), Some(&Tagged));
    assert_eq!(component_count(&world, entity), 1);
}
