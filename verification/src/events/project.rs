//! Project events.

use vstd::prelude::*;

use crate::events::envelope::{Event, EventKind};

verus! {

/// The event-store collection holding project event streams.
pub const COLLECTION: &'static str = "projects";

/// An event in a project's history.
#[derive(Debug)]
pub enum ProjectEventKind {
    Created { name: String },
    Renamed { new_name: String },
    Closed,
    Reopened,
    /// Sets the entire project state at once: every mutable attribute.
    /// Bootstraps the project if it's the first event; otherwise overwrites.
    Snapshot { name: String, closed: bool },
}

impl Clone for ProjectEventKind {
    fn clone(&self) -> (r: Self)
        ensures
            r == *self,
    {
        match self {
            ProjectEventKind::Created { name } => ProjectEventKind::Created { name: name.clone() },
            ProjectEventKind::Renamed { new_name } => ProjectEventKind::Renamed {
                new_name: new_name.clone(),
            },
            ProjectEventKind::Closed => ProjectEventKind::Closed,
            ProjectEventKind::Reopened => ProjectEventKind::Reopened,
            ProjectEventKind::Snapshot { name, closed } => ProjectEventKind::Snapshot {
                name: name.clone(),
                closed: *closed,
            },
        }
    }
}

impl EventKind for ProjectEventKind {
    open spec fn tag(&self) -> Seq<char> {
        match self {
            ProjectEventKind::Created { .. } => "created"@,
            ProjectEventKind::Renamed { .. } => "renamed"@,
            ProjectEventKind::Closed => "closed"@,
            ProjectEventKind::Reopened => "reopened"@,
            ProjectEventKind::Snapshot { .. } => "snapshot"@,
        }
    }

    fn event_type(&self) -> (r: &'static str) {
        match self {
            ProjectEventKind::Created { .. } => "created",
            ProjectEventKind::Renamed { .. } => "renamed",
            ProjectEventKind::Closed => "closed",
            ProjectEventKind::Reopened => "reopened",
            ProjectEventKind::Snapshot { .. } => "snapshot",
        }
    }

    proof fn lemma_clone_exact(a: Self, b: Self) {
    }
}

/// A project event.
pub type ProjectEvent = Event<ProjectEventKind>;

/// Each kind of project event has a type tag of its own, so two events of
/// different kinds never share a file name, whatever their IDs.
pub proof fn lemma_tags_name_the_kind(a: ProjectEventKind, b: ProjectEventKind)
    ensures
        a.tag() == b.tag() ==> (a is Created <==> b is Created),
        a.tag() == b.tag() ==> (a is Renamed <==> b is Renamed),
        a.tag() == b.tag() ==> (a is Closed <==> b is Closed),
        a.tag() == b.tag() ==> (a is Reopened <==> b is Reopened),
        a.tag() == b.tag() ==> (a is Snapshot <==> b is Snapshot),
{
    reveal_strlit("created");
    reveal_strlit("renamed");
    reveal_strlit("closed");
    reveal_strlit("reopened");
    reveal_strlit("snapshot");
    if a.tag() == b.tag() {
        let (x, y) = (a.tag(), b.tag());
        assert(x.len() == y.len());
        assert(x[0] == y[0]);
        assert(x[2] == y[2]);
    }
}

} // verus!
