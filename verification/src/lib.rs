//! A local index of package metadata harvested from a declarative package
//! registry, with an exact-lookup and fuzzy-ranked query engine on top.
//!
//! The build path normalizes raw registry entries into canonical package
//! records and loads them into an [`store::IndexStore`] in a single
//! all-or-nothing step.  The query path answers exact attribute lookups
//! ([`exact::search`]) and ranked fuzzy name searches ([`fuzzy::search`])
//! against a built store.

pub mod errors;
pub mod laws;
pub mod package;
pub mod exact;
pub mod fuzzy;
pub mod registry;
pub mod store;
pub mod text;

pub use package::Package;
