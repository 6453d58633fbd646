//! Marking for an entity-component store: operations that queue, on the
//! store's deferred command buffer, the creation or the tagging of entities
//! with a marker, a component set that is built from its type's default.
//!
//! Every operation only appends to the buffer. Its contract says which
//! mutations it appends, over a model of the buffer as a sequence (`buffer`).
//! `store` states what the store makes of those mutations when it applies
//! them, and `laws` proves what follows for the marked entities.

pub mod buffer;
pub mod bundle;
pub mod laws;
pub mod marking;
pub mod store;

pub use bundle::MarkedBundle;
