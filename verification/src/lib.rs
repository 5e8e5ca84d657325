//! Capability-scoped views over a shared mutable slot store.
//!
//! A store holds resource slots (keyed by a type identifier) and component
//! slots (keyed by an entity identifier plus a type identifier).  A
//! [`view::RestrictedWorldView`] couples capability sets over both kinds of
//! keys; splitting a view partitions its capabilities into provably disjoint
//! children, so that independent consumers can each be handed write access to
//! their own slots without ever overlapping.

pub mod allowed;
pub mod keys;
pub mod laws;
pub mod registry;
pub mod store;
pub mod view;

pub use allowed::Allowed;
pub use registry::TypeRegistry;
pub use view::Error;
pub use view::RestrictedWorldView;
pub use keys::EntityComponent;
pub use keys::EntityId;
pub use keys::TypeKey;
pub use store::SetChanged;
pub use store::SlotRef;
pub use store::SlotState;
pub use store::Store;
