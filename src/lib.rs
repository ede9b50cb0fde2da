//! Inspect installed Homebrew formulae and pick a formula for removal together
//! with everything that transitively depends on it.

pub mod client;
pub mod events;
pub mod formula;
pub mod graph;
pub mod registry;
pub mod state;
pub mod store;
pub mod view;
