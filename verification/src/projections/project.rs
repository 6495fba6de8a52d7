//! The `Project` projection: a project as rebuilt from its event history.

use vstd::prelude::*;

use crate::error::IdError;
use crate::shared::id::{format_id, id_text, millis_from_uuid_v7, new_uuid, parse_id, parse_id_value, uuid_millis, uuid_version};

verus! {

/// Identifier for a project (`project_<hex>`).
#[derive(Clone, Copy, PartialEq, Eq, Structural, Hash, PartialOrd, Ord, Debug)]
pub struct ProjectId(pub u128);

impl ProjectId {
    /// The textual prefix written before the hex.
    pub const PREFIX: &'static str = "project_";

    /// Mints a fresh, time-ordered ID.
    pub fn new() -> (id: Self)
        ensures
            uuid_version(id.0) == 7,
    {
        ProjectId(new_uuid())
    }

    /// Wraps an existing UUID (used for deterministic seed IDs).
    pub fn from_uuid(uuid: u128) -> (id: Self)
        ensures
            id.0 == uuid,
    {
        ProjectId(uuid)
    }

    /// The underlying UUID.
    pub fn as_uuid(&self) -> (uuid: u128)
        ensures
            uuid == self.0,
    {
        self.0
    }

    /// The text form of the ID: `project_` followed by the hex digits.
    pub open spec fn text(self) -> Seq<char> {
        id_text("project_"@, self.0)
    }

    /// Writes the ID as `project_<hex>`.
    pub fn to_string(&self) -> (text: String)
        ensures
            text@ == self.text(),
    {
        format_id("project_", self.0)
    }

    /// Parses an ID written as `project_<uuid>`.
    pub fn parse(text: &str) -> (r: core::result::Result<Self, IdError>)
        ensures
            r is Ok <==> parse_id_value("project_"@, text@) is Some,
            r matches Ok(id) ==> parse_id_value("project_"@, text@) == Some(id.0),
            r matches Err(e) ==> (match e {
                IdError::MissingPrefix(p) => p@ == "project_"@ && !"project_"@.is_prefix_of(text@),
                IdError::InvalidUuid => "project_"@.is_prefix_of(text@),
            }),
            forall|id: Self| text@ == id.text() ==> r == Ok::<Self, IdError>(id),
    {
        match parse_id(text, "project_") {
            Ok(u) => Ok(ProjectId(u)),
            Err(e) => Err(e),
        }
    }

    /// Creation time (ms since the Unix epoch) decoded from the UUID.
    pub fn created_at_millis(&self) -> (r: Option<u64>)
        ensures
            r == uuid_millis(self.0),
    {
        millis_from_uuid_v7(self.0)
    }
}

impl core::str::FromStr for ProjectId {
    type Err = IdError;

    fn from_str(s: &str) -> (r: core::result::Result<Self, IdError>)
        ensures
            r is Ok <==> parse_id_value("project_"@, s@) is Some,
            r matches Ok(id) ==> parse_id_value("project_"@, s@) == Some(id.0),
            r matches Err(e) ==> (match e {
                IdError::MissingPrefix(p) => p@ == "project_"@ && !"project_"@.is_prefix_of(s@),
                IdError::InvalidUuid => "project_"@.is_prefix_of(s@),
            }),
            forall|id: Self| s@ == id.text() ==> r == Ok::<Self, IdError>(id),
    {
        ProjectId::parse(s)
    }
}

/// A project, fully reconstructed from its events.
///
/// This is pure read-side data: the shape of a project after all its events
/// have been folded. The folding itself lives in the `reconstruction` layer.
#[derive(Debug)]
pub struct Project {
    pub id: ProjectId,
    pub name: String,
    pub closed: bool,
    /// Creation time (ms since the Unix epoch), decoded from the `created` event.
    pub created_at_millis: Option<u64>,
}

/// The mathematical value of a [`Project`]: its fields, with the name as a
/// character sequence.
pub struct ProjectView {
    pub id: ProjectId,
    pub name: Seq<char>,
    pub closed: bool,
    pub created_at_millis: Option<u64>,
}

impl DeepView for Project {
    type V = ProjectView;

    open spec fn deep_view(&self) -> ProjectView {
        ProjectView {
            id: self.id,
            name: self.name@,
            closed: self.closed,
            created_at_millis: self.created_at_millis,
        }
    }
}

impl Clone for Project {
    fn clone(&self) -> (r: Self)
        ensures
            r == *self,
    {
        Project {
            id: self.id,
            name: self.name.clone(),
            closed: self.closed,
            created_at_millis: self.created_at_millis,
        }
    }
}

} // verus!
