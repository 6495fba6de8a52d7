//! Status events.

use vstd::prelude::*;

use crate::events::envelope::{Event, EventKind};
use crate::projections::status::{clone_opt_string, StatusKind};

verus! {

/// The event-store collection holding status event streams.
pub const COLLECTION: &'static str = "statuses";

/// An event in a status's history.
///
/// Seed statuses never have a `Created` event: their stored history starts
/// empty and only accumulates update and remove events. User-created statuses
/// always start with a `Created` event.
#[derive(Debug)]
pub enum StatusEventKind {
    /// Only written for user-created statuses; seeds have no created event.
    Created { name: String, kind: StatusKind, description: Option<String> },
    Renamed { new_name: String },
    DescriptionUpdated { description: Option<String> },
    KindChanged { new_kind: StatusKind },
    Removed,
    /// Sets the entire status state at once: every mutable attribute.
    /// Bootstraps the status if it's the first event; otherwise overwrites.
    /// Seed statuses are expressed as a snapshot.
    Snapshot { name: String, kind: StatusKind, description: Option<String>, removed: bool },
}

impl Clone for StatusEventKind {
    fn clone(&self) -> (r: Self)
        ensures
            r == *self,
    {
        match self {
            StatusEventKind::Created { name, kind, description } => StatusEventKind::Created {
                name: name.clone(),
                kind: *kind,
                description: clone_opt_string(description),
            },
            StatusEventKind::Renamed { new_name } => StatusEventKind::Renamed {
                new_name: new_name.clone(),
            },
            StatusEventKind::DescriptionUpdated { description } =>
                StatusEventKind::DescriptionUpdated { description: clone_opt_string(description) },
            StatusEventKind::KindChanged { new_kind } => StatusEventKind::KindChanged {
                new_kind: *new_kind,
            },
            StatusEventKind::Removed => StatusEventKind::Removed,
            StatusEventKind::Snapshot { name, kind, description, removed } =>
                StatusEventKind::Snapshot {
                name: name.clone(),
                kind: *kind,
                description: clone_opt_string(description),
                removed: *removed,
            },
        }
    }
}

impl EventKind for StatusEventKind {
    open spec fn tag(&self) -> Seq<char> {
        match self {
            StatusEventKind::Created { .. } => "created"@,
            StatusEventKind::Renamed { .. } => "renamed"@,
            StatusEventKind::DescriptionUpdated { .. } => "description_updated"@,
            StatusEventKind::KindChanged { .. } => "kind_changed"@,
            StatusEventKind::Removed => "removed"@,
            StatusEventKind::Snapshot { .. } => "snapshot"@,
        }
    }

    fn event_type(&self) -> (r: &'static str) {
        match self {
            StatusEventKind::Created { .. } => "created",
            StatusEventKind::Renamed { .. } => "renamed",
            StatusEventKind::DescriptionUpdated { .. } => "description_updated",
            StatusEventKind::KindChanged { .. } => "kind_changed",
            StatusEventKind::Removed => "removed",
            StatusEventKind::Snapshot { .. } => "snapshot",
        }
    }

    proof fn lemma_clone_exact(a: Self, b: Self) {
    }
}

/// A status event.
pub type StatusEvent = Event<StatusEventKind>;

/// Each kind of status event has a type tag of its own, so two events of
/// different kinds never share a file name, whatever their IDs.
pub proof fn lemma_tags_name_the_kind(a: StatusEventKind, b: StatusEventKind)
    ensures
        a.tag() == b.tag() ==> (a is Created <==> b is Created),
        a.tag() == b.tag() ==> (a is Renamed <==> b is Renamed),
        a.tag() == b.tag() ==> (a is DescriptionUpdated <==> b is DescriptionUpdated),
        a.tag() == b.tag() ==> (a is KindChanged <==> b is KindChanged),
        a.tag() == b.tag() ==> (a is Removed <==> b is Removed),
        a.tag() == b.tag() ==> (a is Snapshot <==> b is Snapshot),
{
    reveal_strlit("created");
    reveal_strlit("renamed");
    reveal_strlit("description_updated");
    reveal_strlit("kind_changed");
    reveal_strlit("removed");
    reveal_strlit("snapshot");
    if a.tag() == b.tag() {
        let (x, y) = (a.tag(), b.tag());
        assert(x.len() == y.len());
        assert(x[0] == y[0]);
        assert(x[2] == y[2]);
    }
}

} // verus!
