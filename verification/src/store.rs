//! What the store makes of the pending mutations.
//!
//! The store applies a buffer's mutations in the order in which they were
//! appended. `applies` states the effect of one mutation on a store that
//! accepts it, as the store documents it, and `applies_all` that of a whole
//! buffer. A store may refuse a mutation when its turn comes: an insertion
//! whose bundle names one kind of component twice, one on an identifier that
//! it neither holds nor has reserved, or the creation of an entity at an
//! identifier whose place another entity holds. What it does then is its own
//! concern, and nothing here speaks of it.

use bevy::ecs::entity::Entity;
use vstd::prelude::*;

use crate::buffer::Mutation;
use crate::bundle::Components;

verus! {

/// The store as the laws see it: the entities that exist, each with its
/// components.
pub type Store = Map<Entity, Components>;

/// The components that `entity` has in `store`: none if it does not exist
/// there.
pub open spec fn components_at(store: Store, entity: Entity) -> Components {
    if store.dom().contains(entity) {
        store[entity]
    } else {
        Map::empty()
    }
}

/// The store after `components` were inserted on `entity`: they replace what
/// the entity had of the same kinds, and its other components stay. An entity
/// that was reserved for the insertion and does not exist yet starts without
/// components.
pub open spec fn inserted(store: Store, entity: Entity, components: Components) -> Store {
    store.insert(entity, components_at(store, entity).union_prefer_right(components))
}

/// The store after it was made sure that `entity` exists: unchanged if it
/// did, and with `entity` added without components if it did not.
pub open spec fn ensured(store: Store, entity: Entity) -> Store {
    store.insert(entity, components_at(store, entity))
}

/// Whether `after` is `before` with one new entity for each of `bundles`:
/// `created` lists the new entities in the order of their bundles.
pub open spec fn batch_spawned(
    before: Store,
    bundles: Seq<Components>,
    created: Seq<Entity>,
    after: Store,
) -> bool {
    &&& created.len() == bundles.len()
    &&& created.no_duplicates()
    &&& forall|i: int| 0 <= i < created.len() ==> !before.dom().contains(#[trigger] created[i])
    &&& after.dom() == before.dom().union(created.to_set())
    &&& forall|entity: Entity|
        before.dom().contains(entity) ==> #[trigger] after[entity] == before[entity]
    &&& forall|i: int| 0 <= i < created.len() ==> after[#[trigger] created[i]] == bundles[i]
}

/// Whether applying `mutation` to the store `before` may leave it as `after`.
/// Which entities a batch creates is the store's choice, and so is all that
/// a command of another kind does.
pub open spec fn applies(before: Store, mutation: Mutation, after: Store) -> bool {
    match mutation {
        Mutation::Insert { entity, components } => after == inserted(before, entity, components),
        Mutation::GetOrSpawn { entity } => after == ensured(before, entity),
        Mutation::SpawnBatch { bundles } => exists|created: Seq<Entity>|
            batch_spawned(before, bundles, created, after),
        Mutation::Other => true,
    }
}

/// Whether applying the mutations of `log`, oldest first, to the store
/// `start` may leave it as `after`.
pub open spec fn applies_all(start: Store, log: Seq<Mutation>, after: Store) -> bool
    decreases log.len(),
{
    if log.len() == 0 {
        after == start
    } else {
        exists|before: Store|
            applies_all(start, log.drop_last(), before) && applies(before, log.last(), after)
    }
}

} // verus!
