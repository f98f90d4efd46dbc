//! A profile document store over a dynamically typed, map-shaped node model.
//!
//! The library projects a typed [`Profile`] record onto a store node whose
//! slots are dynamically typed scalars plus one nested map of tag keys, and
//! back. On top of the projection it implements the collection operations of
//! a profile service: list (drafts filtered out), find by username, get and
//! put by identifier, and the scan-based protocol that keeps usernames
//! unique across profiles.

pub mod codec;
pub mod laws;
pub mod node;
pub mod profile;
pub mod store;
pub mod value;

pub use node::ProfileNode;
pub use profile::Profile;
pub use profile::ProfileError;
pub use profile::WorkCapacity;
pub use profile::WorkCompensation;
pub use store::ProfileStore;
pub use value::Value;
