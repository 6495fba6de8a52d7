//! Storage: the backends that persist and load events, and the built-in
//! seeds the store serves without anything written.

pub mod fs;
pub mod memory;
pub mod seeds;

pub use fs::{FsEventStore, Workspace};
pub use memory::InMemoryEventStore;
pub use seeds::{load_stream, stream_ids, Seeded};
