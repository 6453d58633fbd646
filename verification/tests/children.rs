use bevy::ecs::component::{Component, StorageType};
use bevy::ecs::entity::Entity;
use bevy::ecs::system::Commands;
use bevy::ecs::world::{CommandQueue, World};
use bevy::hierarchy::{BuildChildren, Children, Parent};
use marked_commands::marking::{marked_child, marked_child_with};

#[derive(Debug, Default, PartialEq)]
struct Tagged;

impl Component for Tagged {
    const STORAGE_TYPE: StorageType = StorageType::Table;
}

#[derive(Debug, PartialEq)]
struct Health(u32);

impl Component for Health {
    const STORAGE_TYPE: StorageType = StorageType::Table;
}

#[test]
fn marked_child_is_attached_and_marked() {
    let mut world = World::new();
    let mut queue = CommandQueue::default();
    let mut child = Entity::PLACEHOLDER;
    let parent = {
        let mut commands = Commands::new(&mut queue, &world);
        commands
            .spawn_empty()
            .with_children(|builder| {
                child = marked_child::<Tagged>(builder).id();
            })
            .id()
    };
    assert!(world.get_entity(child).is_none());
    queue.apply(&mut world);
    assert_eq!(world.get::<Tagged>(child), Some(&Tagged));
    assert_eq!(world.get::<Parent>(child).map(|p| p.get()), Some(parent));
    assert_eq!(world.get::<Health>(child), None);
    let children: Vec<Entity> = world.get::<Children>(parent).unwrap().iter().copied().collect();
    assert_eq!(children, vec![child]);
}

#[test]
fn marked_children_keep_their_order() {
    let mut world = World::new();
    let mut queue = CommandQueue::default();
    let mut made: Vec<Entity> = Vec::new();
    let parent = {
        let mut commands = Commands::new(&mut queue, &world);
        commands
            .spawn(Health(0))
            .with_children(|builder| {
                made.push(marked_child_with::<Tagged, _>(builder, Health(1)).id());
                made.push(marked_child::<Tagged>(builder).id());
                made.push(marked_child_with::<Tagged, _>(builder, Health(3)).id());
            })
            .id()
    };
    queue.apply(&mut world);
    let children: Vec<Entity> = world.get::<Children>(parent).unwrap().iter().copied().collect();
    assert_eq!(children, made);
    assert_eq!(world.get::<Health>(made[0]), Some(&Health(1)));
    assert_eq!(world.get::<Health>(made[1]), None);
    assert_eq!(world.get::<Health>(made[2]), Some(&Health(3)));
    for child in &made {
        assert_eq!(world.get::<Tagged>(*child), Some(&Tagged));
        assert_eq!(world.get::<Parent>(*child).map(|p| p.get()), Some(parent));
    }
    assert_eq!(world.get::<Tagged>(parent), None);
}
