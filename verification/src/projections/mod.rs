//! Projections: the fully reconstructed, read-side objects.
//!
//! Each entity owns its typed ID and its reconstructed shape; the folding
//! logic that produces them lives in the `reconstruction` layer.

pub mod project;
pub mod status;
pub mod task;

pub use project::{Project, ProjectId};
pub use status::{Status, StatusId, StatusKind};
pub use task::{Task, TaskId};
