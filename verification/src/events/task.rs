//! Task events.
//!
//! The task-to-project relationship lives in the event payload (not in the
//! storage layout), so `Moved` can change the owning project.

use vstd::prelude::*;

use crate::events::envelope::{Event, EventKind};
use crate::projections::project::ProjectId;
use crate::projections::status::StatusId;

verus! {

/// The event-store collection holding task event streams.
pub const COLLECTION: &'static str = "tasks";

/// An event in a task's history.
#[derive(Debug)]
pub enum TaskEventKind {
    Created { project_id: ProjectId, name: String },
    Renamed { new_name: String },
    Moved { new_project_id: ProjectId },
    Closed,
    Reopened,
    DescriptionUpdated { description: String },
    /// `None` means "no status" (explicitly cleared).
    StatusChanged { status_id: Option<StatusId> },
    /// Sets the entire task state at once: every mutable attribute.
    /// Bootstraps the task if it's the first event; otherwise overwrites.
    Snapshot {
        project_id: ProjectId,
        name: String,
        description: String,
        status_id: Option<StatusId>,
        closed: bool,
    },
}

impl Clone for TaskEventKind {
    fn clone(&self) -> (r: Self)
        ensures
            r == *self,
    {
        match self {
            TaskEventKind::Created { project_id, name } => TaskEventKind::Created {
                project_id: *project_id,
                name: name.clone(),
            },
            TaskEventKind::Renamed { new_name } => TaskEventKind::Renamed {
                new_name: new_name.clone(),
            },
            TaskEventKind::Moved { new_project_id } => TaskEventKind::Moved {
                new_project_id: *new_project_id,
            },
            TaskEventKind::Closed => TaskEventKind::Closed,
            TaskEventKind::Reopened => TaskEventKind::Reopened,
            TaskEventKind::DescriptionUpdated { description } => TaskEventKind::DescriptionUpdated {
                description: description.clone(),
            },
            TaskEventKind::StatusChanged { status_id } => TaskEventKind::StatusChanged {
                status_id: *status_id,
            },
            TaskEventKind::Snapshot { project_id, name, description, status_id, closed } =>
                TaskEventKind::Snapshot {
                project_id: *project_id,
                name: name.clone(),
                description: description.clone(),
                status_id: *status_id,
                closed: *closed,
            },
        }
    }
}

impl EventKind for TaskEventKind {
    open spec fn tag(&self) -> Seq<char> {
        match self {
            TaskEventKind::Created { .. } => "created"@,
            TaskEventKind::Renamed { .. } => "renamed"@,
            TaskEventKind::Moved { .. } => "moved"@,
            TaskEventKind::Closed => "closed"@,
            TaskEventKind::Reopened => "reopened"@,
            TaskEventKind::DescriptionUpdated { .. } => "description_updated"@,
            TaskEventKind::StatusChanged { .. } => "status_changed"@,
            TaskEventKind::Snapshot { .. } => "snapshot"@,
        }
    }

    fn event_type(&self) -> (r: &'static str) {
        match self {
            TaskEventKind::Created { .. } => "created",
            TaskEventKind::Renamed { .. } => "renamed",
            TaskEventKind::Moved { .. } => "moved",
            TaskEventKind::Closed => "closed",
            TaskEventKind::Reopened => "reopened",
            TaskEventKind::DescriptionUpdated { .. } => "description_updated",
            TaskEventKind::StatusChanged { .. } => "status_changed",
            TaskEventKind::Snapshot { .. } => "snapshot",
        }
    }

    proof fn lemma_clone_exact(a: Self, b: Self) {
    }
}

/// A task event.
pub type TaskEvent = Event<TaskEventKind>;

/// Each kind of task event has a type tag of its own, so two events of
/// different kinds never share a file name, whatever their IDs.
pub proof fn lemma_tags_name_the_kind(a: TaskEventKind, b: TaskEventKind)
    ensures
        a.tag() == b.tag() ==> (a is Created <==> b is Created),
        a.tag() == b.tag() ==> (a is Renamed <==> b is Renamed),
        a.tag() == b.tag() ==> (a is Moved <==> b is Moved),
        a.tag() == b.tag() ==> (a is Closed <==> b is Closed),
        a.tag() == b.tag() ==> (a is Reopened <==> b is Reopened),
        a.tag() == b.tag() ==> (a is DescriptionUpdated <==> b is DescriptionUpdated),
        a.tag() == b.tag() ==> (a is StatusChanged <==> b is StatusChanged),
        a.tag() == b.tag() ==> (a is Snapshot <==> b is Snapshot),
{
    reveal_strlit("created");
    reveal_strlit("renamed");
    reveal_strlit("moved");
    reveal_strlit("closed");
    reveal_strlit("reopened");
    reveal_strlit("description_updated");
    reveal_strlit("status_changed");
    reveal_strlit("snapshot");
    if a.tag() == b.tag() {
        let (x, y) = (a.tag(), b.tag());
        assert(x.len() == y.len());
        assert(x[0] == y[0]);
        assert(x[2] == y[2]);
    }
}

} // verus!
