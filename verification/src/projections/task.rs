//! The `Task` projection: a task as rebuilt from its event history.

use vstd::prelude::*;

use crate::error::IdError;
use crate::shared::id::{format_id, id_text, lemma_prefix_mismatch, millis_from_uuid_v7, new_uuid, parse_id, parse_id_value, uuid_millis, uuid_version};
use crate::projections::project::ProjectId;
use crate::projections::status::StatusId;

verus! {

/// Identifier for a task (`task_<hex>`).
#[derive(Clone, Copy, PartialEq, Eq, Structural, Hash, PartialOrd, Ord, Debug)]
pub struct TaskId(pub u128);

impl TaskId {
    /// The textual prefix written before the hex.
    pub const PREFIX: &'static str = "task_";

    /// Mints a fresh, time-ordered ID.
    pub fn new() -> (id: Self)
        ensures
            uuid_version(id.0) == 7,
    {
        TaskId(new_uuid())
    }

    /// Wraps an existing UUID (used for deterministic seed IDs).
    pub fn from_uuid(uuid: u128) -> (id: Self)
        ensures
            id.0 == uuid,
    {
        TaskId(uuid)
    }

    /// The underlying UUID.
    pub fn as_uuid(&self) -> (uuid: u128)
        ensures
            uuid == self.0,
    {
        self.0
    }

    /// The text form of the ID: `task_` followed by the hex digits.
    pub open spec fn text(self) -> Seq<char> {
        id_text("task_"@, self.0)
    }

    /// Writes the ID as `task_<hex>`.
    pub fn to_string(&self) -> (text: String)
        ensures
            text@ == self.text(),
    {
        format_id("task_", self.0)
    }

    /// Parses an ID written as `task_<uuid>`.
    pub fn parse(text: &str) -> (r: core::result::Result<Self, IdError>)
        ensures
            r is Ok <==> parse_id_value("task_"@, text@) is Some,
            r matches Ok(id) ==> parse_id_value("task_"@, text@) == Some(id.0),
            r matches Err(e) ==> (match e {
                IdError::MissingPrefix(p) => p@ == "task_"@ && !"task_"@.is_prefix_of(text@),
                IdError::InvalidUuid => "task_"@.is_prefix_of(text@),
            }),
            forall|id: Self| text@ == id.text() ==> r == Ok::<Self, IdError>(id),
    {
        match parse_id(text, "task_") {
            Ok(u) => Ok(TaskId(u)),
            Err(e) => Err(e),
        }
    }

    /// Creation time (ms since the Unix epoch) decoded from the UUID.
    pub fn created_at_millis(&self) -> (r: Option<u64>)
        ensures
            r == uuid_millis(self.0),
    {
        millis_from_uuid_v7(self.0)
    }
}

impl core::str::FromStr for TaskId {
    type Err = IdError;

    fn from_str(s: &str) -> (r: core::result::Result<Self, IdError>)
        ensures
            r is Ok <==> parse_id_value("task_"@, s@) is Some,
            r matches Ok(id) ==> parse_id_value("task_"@, s@) == Some(id.0),
            r matches Err(e) ==> (match e {
                IdError::MissingPrefix(p) => p@ == "task_"@ && !"task_"@.is_prefix_of(s@),
                IdError::InvalidUuid => "task_"@.is_prefix_of(s@),
            }),
            forall|id: Self| s@ == id.text() ==> r == Ok::<Self, IdError>(id),
    {
        TaskId::parse(s)
    }
}

/// The text of one kind of ID never parses as an ID of another kind: project,
/// task and status IDs are told apart by their prefixes.
pub proof fn lemma_id_kinds_distinct(uuid: u128)
    ensures
        parse_id_value("project_"@, id_text("task_"@, uuid)) is None,
        parse_id_value("project_"@, id_text("status_"@, uuid)) is None,
        parse_id_value("task_"@, id_text("project_"@, uuid)) is None,
        parse_id_value("task_"@, id_text("status_"@, uuid)) is None,
        parse_id_value("status_"@, id_text("project_"@, uuid)) is None,
        parse_id_value("status_"@, id_text("task_"@, uuid)) is None,
{
    reveal_strlit("project_");
    reveal_strlit("task_");
    reveal_strlit("status_");
    lemma_prefix_mismatch("project_"@, "task_"@, uuid);
    lemma_prefix_mismatch("project_"@, "status_"@, uuid);
    lemma_prefix_mismatch("task_"@, "project_"@, uuid);
    lemma_prefix_mismatch("task_"@, "status_"@, uuid);
    lemma_prefix_mismatch("status_"@, "project_"@, uuid);
    lemma_prefix_mismatch("status_"@, "task_"@, uuid);
}

/// A task, fully reconstructed from its events.
///
/// This is pure read-side data: the shape of a task after all its events have
/// been folded. The folding itself lives in the `reconstruction` layer.
#[derive(Debug)]
pub struct Task {
    pub id: TaskId,
    /// The owning project (reassigned by a move event).
    pub project_id: ProjectId,
    pub name: String,
    pub description: String,
    /// `None` means the task has no status assigned.
    pub status_id: Option<StatusId>,
    pub closed: bool,
    /// Creation time (ms since the Unix epoch), decoded from the `created` event.
    pub created_at_millis: Option<u64>,
}

/// The mathematical value of a [`Task`]: its fields, with the texts as
/// character sequences.
pub struct TaskView {
    pub id: TaskId,
    pub project_id: ProjectId,
    pub name: Seq<char>,
    pub description: Seq<char>,
    pub status_id: Option<StatusId>,
    pub closed: bool,
    pub created_at_millis: Option<u64>,
}

impl DeepView for Task {
    type V = TaskView;

    open spec fn deep_view(&self) -> TaskView {
        TaskView {
            id: self.id,
            project_id: self.project_id,
            name: self.name@,
            description: self.description@,
            status_id: self.status_id,
            closed: self.closed,
            created_at_millis: self.created_at_millis,
        }
    }
}

impl Clone for Task {
    fn clone(&self) -> (r: Self)
        ensures
            r == *self,
    {
        Task {
            id: self.id,
            project_id: self.project_id,
            name: self.name.clone(),
            description: self.description.clone(),
            status_id: self.status_id,
            closed: self.closed,
            created_at_millis: self.created_at_millis,
        }
    }
}

} // verus!
