//! The marking operations, each generic in the marker type `M`.
//!
//! The marker type comes first among an operation's type parameters, so that
//! a caller names it and leaves the payload's type to be inferred. A marker
//! is built from `M`'s default anew for every entity.
//!
//! An operation that returns a handle leaves the buffer with the handle, so
//! its contract speaks of the buffer as the handle holds it.

use bevy::ecs::bundle::Bundle;
use bevy::ecs::entity::Entity;
use bevy::ecs::system::Commands;
use bevy::ecs::system::EntityCommands;
use bevy::hierarchy::ChildBuilder;
use vstd::prelude::*;

use crate::buffer::builder_children;
use crate::buffer::builder_pending;
use crate::buffer::child_spawn_composite;
use crate::buffer::child_spawn_empty;
use crate::buffer::get_or_spawn;
use crate::buffer::grown_by_one;
use crate::buffer::handle_entity;
use crate::buffer::handle_pending;
use crate::buffer::insert;
use crate::buffer::insert_composite;
use crate::buffer::pending;
use crate::buffer::spawn_batch;
use crate::buffer::spawn_composite;
use crate::buffer::spawn_composite_entity;
use crate::buffer::spawn_empty;
use crate::buffer::Mutation;
use crate::bundle::components_of_each;
use crate::bundle::is_default;
use crate::bundle::is_marked;
use crate::bundle::is_marker;
use crate::bundle::mark_all;
use crate::bundle::MarkedBundle;

verus! {

/// Whether `mutation` inserts, on `entity`, a default marker of type `M` and
/// nothing else.
pub open spec fn inserts_marker<M: Default>(mutation: Mutation, entity: Entity) -> bool {
    mutation matches Mutation::Insert { entity: on, components } && on == entity
        && is_marker::<M>(components)
}

/// Whether `mutation` inserts, on `entity`, `payload` and a default marker of
/// type `M` as one composite.
pub open spec fn inserts_marked<B, M: Default>(
    mutation: Mutation,
    entity: Entity,
    payload: B,
) -> bool {
    mutation matches Mutation::Insert { entity: on, components } && on == entity
        && is_marked::<B, M>(components, payload)
}

/// Whether `mutation` creates one entity for each of `payloads`, in their
/// order, each from the composite of its payload and a default marker of type
/// `M`.
pub open spec fn spawns_marked<B, M: Default>(mutation: Mutation, payloads: Seq<B>) -> bool {
    mutation matches Mutation::SpawnBatch { bundles } && bundles.len() == payloads.len()
        && forall|i: int|
        0 <= i < payloads.len() ==> is_marked::<B, M>(#[trigger] bundles[i], payloads[i])
}

/// Appends the insertion of a default marker on the handle's entity, and
/// returns the handle for further chaining.
pub fn mark<'h, 'a, M: Bundle + Default>(handle: &'h mut EntityCommands<'a>) -> (chained:
    &'h mut EntityCommands<'a>)
    ensures
        handle_entity(*chained) == handle_entity(*old(handle)),
        grown_by_one(handle_pending(*old(handle)), handle_pending(*chained)),
        inserts_marker::<M>(handle_pending(*chained).last(), handle_entity(*old(handle))),
        *final(handle) == *final(chained),
{
    let marker = M::default();
    proof {
        assert(is_default(marker));
    }
    insert(handle, marker);
    handle
}

/// Creates an entity that carries a default marker and nothing else: reserves
/// the entity and appends the marker's insertion on it. The handle that is
/// returned stands for the new entity.
pub fn marked<'a, M: Bundle + Default>(commands: &'a mut Commands) -> (handle: EntityCommands<'a>)
    ensures
        grown_by_one(pending(*old(commands)), handle_pending(handle)),
        inserts_marker::<M>(handle_pending(handle).last(), handle_entity(handle)),
{
    let mut handle = spawn_empty(commands);
    let marker = M::default();
    proof {
        assert(is_default(marker));
    }
    insert(&mut handle, marker);
    handle
}

/// Creates an entity from the composite of `payload` and a default marker:
/// reserves the entity and appends one insertion that carries both. The
/// handle that is returned stands for the new entity.
pub fn marked_with<'a, M: Bundle + Default, B: Bundle>(
    commands: &'a mut Commands,
    payload: B,
) -> (handle: EntityCommands<'a>)
    ensures
        grown_by_one(pending(*old(commands)), handle_pending(handle)),
        inserts_marked::<B, M>(handle_pending(handle).last(), handle_entity(handle), payload),
{
    let composite = MarkedBundle::<B, M>::new(payload);
    spawn_composite(commands, composite)
}

/// Appends, on the handle's entity, one insertion of the composite of
/// `payload` and a default marker, and returns the handle for further
/// chaining.
pub fn marked_bundle<'a, M: Bundle + Default, B: Bundle>(
    handle: EntityCommands<'a>,
    payload: B,
) -> (chained: EntityCommands<'a>)
    ensures
        handle_entity(chained) == handle_entity(handle),
        grown_by_one(handle_pending(handle), handle_pending(chained)),
        inserts_marked::<B, M>(handle_pending(chained).last(), handle_entity(handle), payload),
{
    let mut chained = handle;
    let composite = MarkedBundle::<B, M>::new(payload);
    insert_composite(&mut chained, composite);
    chained
}

/// Makes sure that `entity` exists and marks it: appends the mutation that
/// creates `entity` without components if the store does not hold it, and
/// then the insertion of a default marker on it. The handle that is returned
/// stands for `entity`.
pub fn get_or_marked<'a, M: Bundle + Default>(
    commands: &'a mut Commands,
    entity: Entity,
) -> (handle: EntityCommands<'a>)
    ensures
        handle_entity(handle) == entity,
        grown_by_one(
            pending(*old(commands)).push(Mutation::GetOrSpawn { entity }),
            handle_pending(handle),
        ),
        inserts_marker::<M>(handle_pending(handle).last(), entity),
{
    let mut handle = get_or_spawn(commands, entity);
    let marker = M::default();
    proof {
        assert(is_default(marker));
    }
    insert(&mut handle, marker);
    handle
}

/// Creates an entity from the composite of `payload` and a default marker,
/// as `marked_with` does, and keeps no handle to it.
pub fn mark_and_forget<M: Bundle + Default, B: Bundle>(commands: &mut Commands, payload: B)
    ensures
        grown_by_one(pending(*old(commands)), pending(*final(commands))),
        exists|entity: Entity|
            inserts_marked::<B, M>(pending(*final(commands)).last(), entity, payload),
{
    let composite = MarkedBundle::<B, M>::new(payload);
    let ghost handed = composite;
    let entity = spawn_composite_entity(commands, composite);
    proof {
        assert(handed.marks(payload));
        assert(inserts_marked::<B, M>(pending(*commands).last(), entity, payload));
    }
}

/// Creates one entity for each payload, in the order of `payloads`, each
/// from the composite of its payload and a default marker of its own. The
/// whole batch is one mutation.
pub fn marked_batch<M: Bundle + Default, B: Bundle>(commands: &mut Commands, payloads: Vec<B>)
    ensures
        grown_by_one(pending(*old(commands)), pending(*final(commands))),
        spawns_marked::<B, M>(pending(*final(commands)).last(), payloads@),
{
    let composites = mark_all::<B, M>(payloads);
    let ghost handed = composites@;
    spawn_batch(commands, composites);
    proof {
        let bundles = components_of_each(handed);
        assert forall|i: int| 0 <= i < payloads@.len() implies is_marked::<B, M>(
            #[trigger] bundles[i],
            payloads@[i],
        ) by {
            assert(handed[i].marks(payloads@[i]));
        }
    }
}

/// Creates a child that carries a default marker and nothing else, as
/// `marked` creates an entity: reserves the child, appends the marker's
/// insertion on it, and has the builder attach it to the parent after the
/// children before it.
pub fn marked_child<'a, M: Bundle + Default>(builder: &'a mut ChildBuilder) -> (handle:
    EntityCommands<'a>)
    ensures
        grown_by_one(builder_pending(*old(builder)), handle_pending(handle)),
        inserts_marker::<M>(handle_pending(handle).last(), handle_entity(handle)),
        builder_children(*final(builder)) == builder_children(*old(builder)).push(
            handle_entity(handle),
        ),
{
    let mut handle = child_spawn_empty(builder);
    let marker = M::default();
    proof {
        assert(is_default(marker));
    }
    insert(&mut handle, marker);
    handle
}

/// Creates a child from the composite of `payload` and a default marker, as
/// `marked_with` creates an entity: reserves the child, appends one
/// insertion that carries both, and has the builder attach the child to the
/// parent after the children before it.
pub fn marked_child_with<'a, M: Bundle + Default, B: Bundle>(
    builder: &'a mut ChildBuilder,
    payload: B,
) -> (handle: EntityCommands<'a>)
    ensures
        grown_by_one(builder_pending(*old(builder)), handle_pending(handle)),
        inserts_marked::<B, M>(handle_pending(handle).last(), handle_entity(handle), payload),
        builder_children(*final(builder)) == builder_children(*old(builder)).push(
            handle_entity(handle),
        ),
{
    let composite = MarkedBundle::<B, M>::new(payload);
    child_spawn_composite(builder, composite)
}

} // verus!
