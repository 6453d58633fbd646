//! Component sets as the contracts see them, and the composite of a payload
//! and a marker.

use vstd::prelude::*;

verus! {

/// A component set as plain values: each kind of component that it holds,
/// with the value of that component.
pub type Components = Map<int, int>;

/// The components that inserting `bundle` gives an entity.
///
/// The operations of this library are generic in their payloads and markers
/// and never look into one, so nothing is known of this function but that it
/// is one: the same value always stands for the same components.
pub closed spec fn components_of<T>(bundle: T) -> Components {
    arbitrary::<spec_fn(T) -> Components>()(bundle)
}

/// Whether `marker` is a value that `M::default` may return.
pub open spec fn is_default<M: Default>(marker: M) -> bool {
    call_ensures(M::default, (), marker)
}

/// A payload component set together with a marker, inserted as one unit.
pub struct MarkedBundle<B, M> {
    /// The payload.
    pub bundle: B,
    /// The marker that tags the payload's entity.
    pub marker: M,
}

impl<B, M> MarkedBundle<B, M> {
    /// The components of the composite: those of the payload and those of the
    /// marker. A store refuses a composite in which one kind occurs on both
    /// sides; `is_disjoint` tells whether none does.
    pub open spec fn components(self) -> Components {
        components_of(self.bundle).union_prefer_right(components_of(self.marker))
    }

    /// Whether no kind of component occurs both in the payload and in the
    /// marker.
    pub open spec fn is_disjoint(self) -> bool {
        components_of(self.bundle).dom().disjoint(components_of(self.marker).dom())
    }
}

impl<B, M: Default> MarkedBundle<B, M> {
    /// Whether this composite is `payload` paired with a default marker.
    pub open spec fn marks(self, payload: B) -> bool {
        self.bundle == payload && is_default(self.marker)
    }

    /// Pairs `bundle` with a marker built from `M`'s default.
    pub fn new(bundle: B) -> (composite: Self)
        ensures
            composite.marks(bundle),
    {
        MarkedBundle { bundle, marker: M::default() }
    }
}

/// Whether `components` are those of a default marker of type `M`.
pub open spec fn is_marker<M: Default>(components: Components) -> bool {
    exists|marker: M|
        #![trigger is_default(marker)]
        is_default(marker) && components == components_of(marker)
}

/// Whether `components` are those of `payload` and of a default marker of
/// type `M` together: those of a composite that marks `payload`.
pub open spec fn is_marked<B, M: Default>(components: Components, payload: B) -> bool {
    exists|composite: MarkedBundle<B, M>|
        #![trigger composite.marks(payload)]
        composite.marks(payload) && components == composite.components()
}

/// Whether `composites` are `payloads`, one for one and in the same order, each
/// paired with a default marker of its own.
pub open spec fn marks_each<B, M: Default>(
    composites: Seq<MarkedBundle<B, M>>,
    payloads: Seq<B>,
) -> bool {
    &&& composites.len() == payloads.len()
    &&& forall|i: int|
        0 <= i < payloads.len() ==> (#[trigger] composites[i]).marks(payloads[i])
}

/// The components of each composite, in the order of `composites`.
pub open spec fn components_of_each<B, M>(composites: Seq<MarkedBundle<B, M>>) -> Seq<
    Components,
> {
    Seq::new(composites.len(), |i: int| composites[i].components())
}

/// Pairs every payload with a default marker of its own, keeping the order of
/// `payloads`.
pub fn mark_all<B, M: Default>(payloads: Vec<B>) -> (composites: Vec<MarkedBundle<B, M>>)
    ensures
        marks_each(composites@, payloads@),
{
    let mut composites: Vec<MarkedBundle<B, M>> = Vec::new();
    for payload in it: payloads.into_iter()
        invariant
            it.seq() == payloads@,
            composites.len() == it.index(),
            forall|i: int|
                0 <= i < composites.len() ==> (#[trigger] composites@[i]).marks(payloads@[i]),
    {
        composites.push(MarkedBundle::new(payload));
    }
    composites
}

} // verus!
