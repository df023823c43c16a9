//! Turn-based simulation kernel: a component store with a spatial index,
//! transactional diffs validated by an ordered rule pipeline, a breadth-first
//! cascade processor, event derivation listeners, and an energy scheduler.

pub mod action;
pub mod components;
pub mod events;
pub mod laws;
pub mod rules;
pub mod spatial;
pub mod store;
pub mod table;
pub mod turn;
pub mod world;
