//! What holds of the entities that the marking operations create or tag,
//! once the store has applied the buffer.
//!
//! Each law is proved from the contract of the operation that it names and
//! from `store::applies`. The store in which a mutation is applied is the
//! store as the mutations pending before it have left it:
//! `lemma_applies_all_grown` takes a buffer apart into those and the last.

use bevy::ecs::entity::Entity;
use vstd::prelude::*;
use vstd::set_lib::lemma_set_disjoint_lens;

use crate::buffer::grown_by_one;
use crate::buffer::Mutation;
use crate::bundle::components_of;
use crate::bundle::is_default;
use crate::bundle::is_marked;
use crate::bundle::is_marker;
use crate::bundle::MarkedBundle;
use crate::marking::inserts_marked;
use crate::marking::inserts_marker;
use crate::marking::spawns_marked;
use crate::store::applies;
use crate::store::applies_all;
use crate::store::batch_spawned;
use crate::store::components_at;
use crate::store::ensured;
use crate::store::inserted;
use crate::store::Store;

verus! {

/// A buffer that has grown by one mutation holds what was pending before,
/// unchanged and in the same places, ahead of the new mutation: nothing was
/// reordered, merged or dropped.
pub proof fn lemma_grown_keeps_earlier(earlier: Seq<Mutation>, log: Seq<Mutation>)
    requires
        grown_by_one(earlier, log),
    ensures
        earlier.is_prefix_of(log),
        forall|i: int| 0 <= i < earlier.len() ==> log[i] == earlier[i],
        log.drop_last() == earlier,
{
}

/// Applying a buffer that has grown by one mutation is applying the buffer
/// as it was and then that mutation.
pub proof fn lemma_applies_all_grown(
    start: Store,
    earlier: Seq<Mutation>,
    log: Seq<Mutation>,
    after: Store,
)
    requires
        grown_by_one(earlier, log),
    ensures
        applies_all(start, log, after) <==> exists|before: Store|
            applies_all(start, earlier, before) && applies(before, log.last(), after),
{
    assert(log.drop_last() == earlier);
    if applies_all(start, log, after) {
        let before = choose|before: Store|
            applies_all(start, log.drop_last(), before) && applies(before, log.last(), after);
        assert(applies_all(start, earlier, before) && applies(before, log.last(), after));
    }
}

/// A composite holds every kind of its payload and of its marker and no
/// other. The marker's components are in it as they are. If no kind occurs
/// on both sides, so are the payload's, and the composite has as many
/// components as the payload and the marker together: none is lost and none
/// occurs twice.
pub proof fn lemma_composite_is_union<B, M>(composite: MarkedBundle<B, M>)
    ensures
        composite.components().dom() == components_of(composite.bundle).dom().union(
            components_of(composite.marker).dom(),
        ),
        components_of(composite.marker).submap_of(composite.components()),
        composite.is_disjoint() ==> components_of(composite.bundle).submap_of(
            composite.components(),
        ),
        composite.is_disjoint() && components_of(composite.bundle).dom().finite()
            && components_of(composite.marker).dom().finite() ==> composite.components().dom().len()
            == components_of(composite.bundle).dom().len() + components_of(
            composite.marker,
        ).dom().len(),
{
    let payload = components_of(composite.bundle).dom();
    let marker = components_of(composite.marker).dom();
    if composite.is_disjoint() && payload.finite() && marker.finite() {
        lemma_set_disjoint_lens(payload, marker);
        assert(composite.components().dom() == payload + marker);
    }
}

/// Creating an entity from a payload and a marker gives it the union of
/// their components. Let `composite` be what `marked_with` made of `payload`,
/// with no kind of component on both sides. Once the insertion that
/// `marked_with` appends is applied to a store that does not hold the new
/// entity yet, the entity exists, its kinds of component are those of the
/// payload and those of the marker, each with its value, and no other entity
/// has changed.
pub proof fn lemma_marked_with_gives_the_union<B, M: Default>(
    before: Store,
    mutation: Mutation,
    entity: Entity,
    payload: B,
    composite: MarkedBundle<B, M>,
    after: Store,
)
    requires
        composite.marks(payload),
        composite.is_disjoint(),
        mutation == (Mutation::Insert { entity, components: composite.components() }),
        !before.dom().contains(entity),
        applies(before, mutation, after),
    ensures
        inserts_marked::<B, M>(mutation, entity, payload),
        after.dom() == before.dom().insert(entity),
        after[entity] == composite.components(),
        after[entity].dom() == components_of(payload).dom().union(
            components_of(composite.marker).dom(),
        ),
        components_of(payload).submap_of(after[entity]),
        components_of(composite.marker).submap_of(after[entity]),
        forall|other: Entity| before.dom().contains(other) ==> after[other] == before[other],
{
    lemma_composite_is_union(composite);
    assert(after[entity] == composite.components());
    assert(composite.marks(payload));
}

/// Whether `after` is `before` with one new entity for each of `payloads`,
/// `created[i]` for `payloads[i]`, each holding the components of its payload
/// and of a default marker of type `M`.
pub open spec fn batch_marked<B, M: Default>(
    before: Store,
    payloads: Seq<B>,
    created: Seq<Entity>,
    after: Store,
) -> bool {
    &&& created.len() == payloads.len()
    &&& created.no_duplicates()
    &&& after.dom() == before.dom().union(created.to_set())
    &&& forall|entity: Entity|
        before.dom().contains(entity) ==> #[trigger] after[entity] == before[entity]
    &&& forall|i: int|
        0 <= i < payloads.len() ==> !before.dom().contains(#[trigger] created[i])
            && is_marked::<B, M>(after[created[i]], payloads[i])
}

/// A marked batch creates one entity for each payload, in the payloads'
/// order: once the mutation that `marked_batch` appends is applied, the store
/// holds, beside what it held, as many new entities as there were payloads,
/// and the entity created for a payload has that payload's components and a
/// default marker's.
pub proof fn lemma_marked_batch_creates_each<B, M: Default>(
    before: Store,
    mutation: Mutation,
    payloads: Seq<B>,
    after: Store,
)
    requires
        spawns_marked::<B, M>(mutation, payloads),
        applies(before, mutation, after),
    ensures
        exists|created: Seq<Entity>| #[trigger]
            batch_marked::<B, M>(before, payloads, created, after),
        before.dom().finite() ==> after.dom().finite() && after.dom().len() == before.dom().len()
            + payloads.len(),
{
    let bundles = mutation->bundles;
    let created = choose|created: Seq<Entity>| batch_spawned(before, bundles, created, after);
    assert forall|i: int| 0 <= i < payloads.len() implies !before.dom().contains(
        #[trigger] created[i],
    ) && is_marked::<B, M>(after[created[i]], payloads[i]) by {
        assert(after[created[i]] == bundles[i]);
    }
    assert(batch_marked::<B, M>(before, payloads, created, after));
    if before.dom().finite() {
        created.unique_seq_to_set();
        assert(before.dom().disjoint(created.to_set()));
        lemma_set_disjoint_lens(before.dom(), created.to_set());
    }
}

/// Marking is atomic for `marked`: the one mutation that it appends both
/// creates the entity and gives it the marker. Whatever the store held, it
/// leaves the entity with a default marker's components; applied to a store
/// that does not hold the entity, it leaves the entity with those and no
/// others. So no state of the store has the entity without its marker.
pub proof fn lemma_marked_has_its_marker<M: Default>(
    before: Store,
    mutation: Mutation,
    entity: Entity,
    after: Store,
)
    requires
        inserts_marker::<M>(mutation, entity),
        applies(before, mutation, after),
    ensures
        after.dom() == before.dom().insert(entity),
        exists|marker: M|
            #![trigger is_default(marker)]
            is_default(marker) && components_of(marker).submap_of(after[entity]),
        !before.dom().contains(entity) ==> is_marker::<M>(after[entity]),
{
    let marker = choose|marker: M|
        #![trigger is_default(marker)]
        is_default(marker) && mutation->components == components_of(marker);
    assert(is_default(marker));
    assert(components_of(marker).submap_of(after[entity]));
    if !before.dom().contains(entity) {
        assert(after[entity] == components_of(marker));
    }
}

/// Marking is atomic for `marked_with`: the one mutation that it appends
/// creates the entity with its payload and its marker together. Whatever the
/// store held, it leaves the entity with a default marker's components, so
/// that no state of the store has the entity without its marker.
pub proof fn lemma_marked_with_has_its_marker<B, M: Default>(
    before: Store,
    mutation: Mutation,
    entity: Entity,
    payload: B,
    after: Store,
)
    requires
        inserts_marked::<B, M>(mutation, entity, payload),
        applies(before, mutation, after),
    ensures
        after.dom() == before.dom().insert(entity),
        exists|marker: M|
            #![trigger is_default(marker)]
            is_default(marker) && components_of(marker).submap_of(after[entity]),
        !before.dom().contains(entity) ==> is_marked::<B, M>(after[entity], payload),
{
    let composite = choose|composite: MarkedBundle<B, M>|
        #![trigger composite.marks(payload)]
        composite.marks(payload) && mutation->components == composite.components();
    assert(is_default(composite.marker));
    assert(components_of(composite.marker).submap_of(after[entity]));
    if !before.dom().contains(entity) {
        assert(composite.marks(payload));
        assert(after[entity] == composite.components());
    }
}

/// Whether `log` is what `get_or_marked` leaves on an empty buffer for
/// `entity`: the mutation that makes sure the entity exists, then the
/// insertion of a default marker of type `M` on it.
pub open spec fn gets_or_marks<M: Default>(log: Seq<Mutation>, entity: Entity) -> bool {
    &&& grown_by_one(Seq::<Mutation>::empty().push(Mutation::GetOrSpawn { entity }), log)
    &&& inserts_marker::<M>(log.last(), entity)
}

/// What `get_or_marked` does to a store, once its buffer is applied: the
/// entity exists afterwards, with what it had if it existed, and with a
/// default marker's components in place of any that it had of the same
/// kinds. An entity that the store did not hold has the marker's components
/// and no others. No other entity has changed.
pub proof fn lemma_get_or_marked_applied<M: Default>(
    start: Store,
    entity: Entity,
    log: Seq<Mutation>,
    after: Store,
)
    requires
        gets_or_marks::<M>(log, entity),
        applies_all(start, log, after),
    ensures
        after == inserted(start, entity, log.last()->components),
        after.dom() == start.dom().insert(entity),
        is_marker::<M>(log.last()->components),
        after[entity] == components_at(start, entity).union_prefer_right(log.last()->components),
        !start.dom().contains(entity) ==> is_marker::<M>(after[entity]),
        forall|other: Entity|
            other != entity && start.dom().contains(other) ==> after[other] == start[other],
{
    let none = Seq::<Mutation>::empty();
    let known = none.push(Mutation::GetOrSpawn { entity });
    assert(grown_by_one(none, known));
    lemma_applies_all_grown(start, known, log, after);
    let before = choose|before: Store|
        applies_all(start, known, before) && applies(before, log.last(), after);
    lemma_applies_all_grown(start, none, known, before);
    assert(forall|first: Store| applies_all(start, none, first) ==> first == start);
    assert(before == ensured(start, entity));
    assert(components_at(before, entity) == components_at(start, entity));
    assert(after == inserted(start, entity, log.last()->components));
    if !start.dom().contains(entity) {
        assert(after[entity] == log.last()->components);
    }
}

/// Marking an entity again overwrites its marker and adds nothing. Let
/// `get_or_marked` run twice on `entity`, each time on an empty buffer that
/// is applied after the run: `once` is the store after the first run, `twice`
/// after the second. Then `twice` holds the entities of `once`, every other
/// entity is as it was, and `entity` has what it had with the second
/// marker's components in place of the first's. If the two markers have the
/// same kinds, the entity has the kinds that it had; if they have the same
/// components, the second run has changed nothing.
pub proof fn lemma_get_or_marked_again<M: Default>(
    start: Store,
    entity: Entity,
    first: Seq<Mutation>,
    once: Store,
    second: Seq<Mutation>,
    twice: Store,
)
    requires
        gets_or_marks::<M>(first, entity),
        gets_or_marks::<M>(second, entity),
        applies_all(start, first, once),
        applies_all(once, second, twice),
    ensures
        twice.dom() == once.dom(),
        forall|other: Entity|
            other != entity && once.dom().contains(other) ==> twice[other] == once[other],
        twice[entity] == once[entity].union_prefer_right(second.last()->components),
        first.last()->components.dom() == second.last()->components.dom() ==> twice[entity].dom()
            == once[entity].dom(),
        first.last() == second.last() ==> twice == once,
{
    lemma_get_or_marked_applied::<M>(start, entity, first, once);
    lemma_get_or_marked_applied::<M>(once, entity, second, twice);
    assert(once.dom().contains(entity));
    assert(twice.dom() == once.dom());
    if first.last()->components.dom() == second.last()->components.dom() {
        assert(twice[entity].dom() == once[entity].dom());
    }
    if first.last() == second.last() {
        assert(twice[entity] == once[entity]);
        assert(twice == once);
    }
}

} // verus!
