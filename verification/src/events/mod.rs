//! Events: the definitions of the domain events that are appended to the
//! store and are the source of truth.
//!
//! Each entity's events are an enum wrapped in the generic [`Event`] envelope:
//! [`ProjectEventKind`], [`TaskEventKind`] and [`StatusEventKind`].

pub mod envelope;
pub mod project;
pub mod status;
pub mod store;
pub mod task;

pub use envelope::{Event, EventKind};
pub use project::{ProjectEvent, ProjectEventKind};
pub use status::{StatusEvent, StatusEventKind};
pub use store::{collections, EventStore};
pub use task::{TaskEvent, TaskEventKind};
