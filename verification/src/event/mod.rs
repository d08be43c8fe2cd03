//! Protocol primitives: signed events, kinds, tags, filters and profiles.
#[allow(clippy::module_inception)]
pub mod event;
pub mod filters;
pub mod kinds;
pub mod tags;
pub mod profile;
