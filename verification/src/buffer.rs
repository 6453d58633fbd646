//! The deferred command buffer of the store, as this library sees it: the
//! sequence of mutations that are pending on it, and the store's own
//! operations that append to it.
//!
//! The buffer and its handles are the store's types. What is said of them
//! here is taken on trust from the store's source; the rest of the library is
//! proved from it.

use bevy::ecs::bundle::Bundle;
use bevy::ecs::entity::Entity;
use bevy::ecs::system::Commands;
use bevy::ecs::system::EntityCommands;
use bevy::hierarchy::ChildBuilder;
use vstd::prelude::*;

use crate::bundle::components_of;
use crate::bundle::components_of_each;
use crate::bundle::Components;
use crate::bundle::MarkedBundle;

verus! {

/// The store's identifier of an entity. The library hands it on and never
/// looks into it.
#[verifier::external_type_specification]
#[verifier::external_body]
pub struct ExEntity(Entity);

/// The store's command buffer.
#[verifier::external_type_specification]
#[verifier::external_body]
pub struct ExCommands<'w, 's>(Commands<'w, 's>);

/// The store's handle to one entity under construction. It holds the buffer
/// that it came from until it is dropped.
#[verifier::external_type_specification]
#[verifier::external_body]
pub struct ExEntityCommands<'a>(EntityCommands<'a>);

/// The store's builder for the children of one entity. It appends to the
/// buffer of the handle that it was made from, and collects the entities to
/// attach to the parent when it is done.
#[verifier::external_type_specification]
#[verifier::external_body]
pub struct ExChildBuilder<'a>(ChildBuilder<'a>);

/// One pending mutation of the store.
pub enum Mutation {
    /// Give `entity` these components, in place of any that it has of the
    /// same kinds.
    Insert { entity: Entity, components: Components },
    /// Make sure that `entity` exists, creating it without components if it
    /// does not.
    GetOrSpawn { entity: Entity },
    /// Create one new entity for each of `bundles`, in this order, with those
    /// components.
    SpawnBatch { bundles: Seq<Components> },
    /// Any other command that a buffer may hold. This library appends none,
    /// and says nothing of what one does.
    Other,
}

/// Whether `after` is `before` with exactly one more mutation at its end.
pub open spec fn grown_by_one(before: Seq<Mutation>, after: Seq<Mutation>) -> bool {
    after.len() == before.len() + 1 && after == before.push(after.last())
}

/// The mutations pending on a buffer, oldest first.
pub uninterp spec fn pending(commands: Commands) -> Seq<Mutation>;

/// The mutations pending on the buffer that a handle holds, oldest first.
pub uninterp spec fn handle_pending(handle: EntityCommands) -> Seq<Mutation>;

/// The entity that a handle stands for.
pub uninterp spec fn handle_entity(handle: EntityCommands) -> Entity;

/// The mutations pending on the buffer that a child builder appends to,
/// oldest first.
pub uninterp spec fn builder_pending(builder: ChildBuilder) -> Seq<Mutation>;

/// The entities that a child builder has collected as children, in the order
/// in which they were created.
pub uninterp spec fn builder_children(builder: ChildBuilder) -> Seq<Entity>;

/// `Commands::spawn_empty`: reserves an entity at the store and returns a
/// handle to it. Nothing is appended to the buffer, which the handle now
/// holds. Which entity was reserved is the store's choice.
#[verifier::external_body]
pub(crate) fn spawn_empty<'a>(commands: &'a mut Commands) -> (handle: EntityCommands<'a>)
    ensures
        handle_pending(handle) == pending(*old(commands)),
{
    commands.spawn_empty()
}

/// `Commands::get_or_spawn`: appends the mutation that makes sure `entity`
/// exists, and returns a handle to `entity` that holds the buffer.
#[verifier::external_body]
pub(crate) fn get_or_spawn<'a>(commands: &'a mut Commands, entity: Entity) -> (handle:
    EntityCommands<'a>)
    ensures
        handle_entity(handle) == entity,
        handle_pending(handle) == pending(*old(commands)).push(Mutation::GetOrSpawn { entity }),
{
    commands.get_or_spawn(entity)
}

/// `Commands::spawn`, with the composite handed over as the pair of its
/// payload and its marker: reserves an entity and appends one insertion, of
/// the payload's and the marker's components together, on that entity. The
/// handle that is returned stands for that entity and holds the buffer.
#[verifier::external_body]
pub(crate) fn spawn_composite<'a, B: Bundle, M: Bundle>(
    commands: &'a mut Commands,
    composite: MarkedBundle<B, M>,
) -> (handle: EntityCommands<'a>)
    ensures
        handle_pending(handle) == pending(*old(commands)).push(
            Mutation::Insert {
                entity: handle_entity(handle),
                components: composite.components(),
            },
        ),
{
    commands.spawn((composite.bundle, composite.marker))
}

/// `Commands::spawn` as `spawn_composite` calls it, then `EntityCommands::id`
/// on the handle, which is given up at once: what is returned is the entity
/// that was reserved, and the buffer is free again, one insertion longer.
#[verifier::external_body]
pub(crate) fn spawn_composite_entity<B: Bundle, M: Bundle>(
    commands: &mut Commands,
    composite: MarkedBundle<B, M>,
) -> (entity: Entity)
    ensures
        pending(*final(commands)) == pending(*old(commands)).push(
            Mutation::Insert { entity, components: composite.components() },
        ),
{
    commands.spawn((composite.bundle, composite.marker)).id()
}

/// `EntityCommands::insert`: appends the insertion of `bundle`'s components
/// on the handle's entity. The handle stands for the same entity afterwards.
#[verifier::external_body]
pub(crate) fn insert<T: Bundle>(handle: &mut EntityCommands, bundle: T)
    ensures
        handle_entity(*final(handle)) == handle_entity(*old(handle)),
        handle_pending(*final(handle)) == handle_pending(*old(handle)).push(
            Mutation::Insert {
                entity: handle_entity(*old(handle)),
                components: components_of(bundle),
            },
        ),
{
    handle.insert(bundle);
}

/// `EntityCommands::insert`, with the composite handed over as the pair of
/// its payload and its marker: appends one insertion, of the payload's and
/// the marker's components together, on the handle's entity.
#[verifier::external_body]
pub(crate) fn insert_composite<B: Bundle, M: Bundle>(
    handle: &mut EntityCommands,
    composite: MarkedBundle<B, M>,
)
    ensures
        handle_entity(*final(handle)) == handle_entity(*old(handle)),
        handle_pending(*final(handle)) == handle_pending(*old(handle)).push(
            Mutation::Insert {
                entity: handle_entity(*old(handle)),
                components: composite.components(),
            },
        ),
{
    handle.insert((composite.bundle, composite.marker));
}

/// `Commands::spawn_batch`, with each composite handed over as the pair of
/// its payload and its marker: appends one mutation that creates an entity
/// for each composite, in the order of `composites`.
#[verifier::external_body]
pub(crate) fn spawn_batch<B: Bundle, M: Bundle>(
    commands: &mut Commands,
    composites: Vec<MarkedBundle<B, M>>,
)
    ensures
        pending(*final(commands)) == pending(*old(commands)).push(
            Mutation::SpawnBatch {
                bundles: components_of_each(composites@),
            },
        ),
{
    commands.spawn_batch(composites.into_iter().map(|c| (c.bundle, c.marker)));
}

/// `ChildBuilder::spawn_empty`: reserves an entity at the store, adds it to
/// the builder's children and returns a handle to it. Nothing is appended to
/// the buffer, which the handle now holds.
#[verifier::external_body]
pub(crate) fn child_spawn_empty<'a>(builder: &'a mut ChildBuilder) -> (handle: EntityCommands<'a>)
    ensures
        handle_pending(handle) == builder_pending(*old(builder)),
        builder_children(*final(builder)) == builder_children(*old(builder)).push(
            handle_entity(handle),
        ),
{
    builder.spawn_empty()
}

/// `ChildBuilder::spawn`, with the composite handed over as the pair of its
/// payload and its marker: reserves an entity, appends one insertion, of the
/// payload's and the marker's components together, on that entity, and adds
/// the entity to the builder's children. The handle that is returned stands
/// for that entity and holds the buffer.
#[verifier::external_body]
pub(crate) fn child_spawn_composite<'a, B: Bundle, M: Bundle>(
    builder: &'a mut ChildBuilder,
    composite: MarkedBundle<B, M>,
) -> (handle: EntityCommands<'a>)
    ensures
        handle_pending(handle) == builder_pending(*old(builder)).push(
            Mutation::Insert {
                entity: handle_entity(handle),
                components: composite.components(),
            },
        ),
        builder_children(*final(builder)) == builder_children(*old(builder)).push(
            handle_entity(handle),
        ),
{
    builder.spawn((composite.bundle, composite.marker))
}

} // verus!
