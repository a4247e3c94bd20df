//! Ingestion pipeline for an anime catalog snapshot: a typed document model
//! for the external JSON shape, a verified decoder for that shape, a pure
//! row mapper, the exact SQL statements and bind order for persistence, and
//! a loader state machine that a thin runtime drives against a real store.

pub mod model;
pub mod decode;
pub mod mapper;
pub mod store;
pub mod loader;
