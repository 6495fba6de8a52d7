//! Commands: the store-backed operations for each entity.
//!
//! Each module bundles the write commands (check intent, append a single event
//! to the [`EventStore`](crate::events::EventStore), return the rebuilt
//! projection) and the reads (`load`/`list`/`is_present`) the writes use to
//! check and that callers use to serve views. Every operation is generic over
//! the store, so the same logic runs against any backend.

pub mod project;
pub mod status;
pub mod task;
