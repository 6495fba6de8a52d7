//! The `Status` projection: a workflow status as rebuilt from its event history.

use vstd::prelude::*;

use crate::error::IdError;
use crate::shared::id::{format_id, id_text, millis_from_uuid_v7, new_uuid, parse_id, parse_id_value, uuid_millis, uuid_version};

verus! {

/// Identifier for a status (`status_<hex>`).
#[derive(Clone, Copy, PartialEq, Eq, Structural, Hash, PartialOrd, Ord, Debug)]
pub struct StatusId(pub u128);

impl StatusId {
    /// The textual prefix written before the hex.
    pub const PREFIX: &'static str = "status_";

    /// Mints a fresh, time-ordered ID.
    pub fn new() -> (id: Self)
        ensures
            uuid_version(id.0) == 7,
    {
        StatusId(new_uuid())
    }

    /// Wraps an existing UUID (used for deterministic seed IDs).
    pub fn from_uuid(uuid: u128) -> (id: Self)
        ensures
            id.0 == uuid,
    {
        StatusId(uuid)
    }

    /// The underlying UUID.
    pub fn as_uuid(&self) -> (uuid: u128)
        ensures
            uuid == self.0,
    {
        self.0
    }

    /// The text form of the ID: `status_` followed by the hex digits.
    pub open spec fn text(self) -> Seq<char> {
        id_text("status_"@, self.0)
    }

    /// Writes the ID as `status_<hex>`.
    pub fn to_string(&self) -> (text: String)
        ensures
            text@ == self.text(),
    {
        format_id("status_", self.0)
    }

    /// Parses an ID written as `status_<uuid>`.
    pub fn parse(text: &str) -> (r: core::result::Result<Self, IdError>)
        ensures
            r is Ok <==> parse_id_value("status_"@, text@) is Some,
            r matches Ok(id) ==> parse_id_value("status_"@, text@) == Some(id.0),
            r matches Err(e) ==> (match e {
                IdError::MissingPrefix(p) => p@ == "status_"@ && !"status_"@.is_prefix_of(text@),
                IdError::InvalidUuid => "status_"@.is_prefix_of(text@),
            }),
            forall|id: Self| text@ == id.text() ==> r == Ok::<Self, IdError>(id),
    {
        match parse_id(text, "status_") {
            Ok(u) => Ok(StatusId(u)),
            Err(e) => Err(e),
        }
    }

    /// Creation time (ms since the Unix epoch) decoded from the UUID.
    pub fn created_at_millis(&self) -> (r: Option<u64>)
        ensures
            r == uuid_millis(self.0),
    {
        millis_from_uuid_v7(self.0)
    }
}

impl core::str::FromStr for StatusId {
    type Err = IdError;

    fn from_str(s: &str) -> (r: core::result::Result<Self, IdError>)
        ensures
            r is Ok <==> parse_id_value("status_"@, s@) is Some,
            r matches Ok(id) ==> parse_id_value("status_"@, s@) == Some(id.0),
            r matches Err(e) ==> (match e {
                IdError::MissingPrefix(p) => p@ == "status_"@ && !"status_"@.is_prefix_of(s@),
                IdError::InvalidUuid => "status_"@.is_prefix_of(s@),
            }),
            forall|id: Self| s@ == id.text() ==> r == Ok::<Self, IdError>(id),
    {
        StatusId::parse(s)
    }
}

/// The semantic role of a status.
#[derive(Clone, Copy, Debug, PartialEq, Eq, Structural)]
pub enum StatusKind {
    Unstarted,
    Started,
    Complete,
    Canceled,
}

/// Clones an optional string, keeping it equal to the original.
pub fn clone_opt_string(s: &Option<String>) -> (r: Option<String>)
    ensures
        r == *s,
{
    match s {
        Some(v) => Some(v.clone()),
        None => None,
    }
}

/// A status, fully reconstructed from its events (or as a seed default).
///
/// This is pure read-side data: the shape of a status after all its events
/// have been folded. The folding itself lives in the `reconstruction` layer.
#[derive(Debug)]
pub struct Status {
    pub id: StatusId,
    pub name: String,
    pub kind: StatusKind,
    pub description: Option<String>,
    pub removed: bool,
    /// `None` for seed statuses that have never been written to disk.
    pub created_at_millis: Option<u64>,
}

/// The character sequence of an optional text.
pub open spec fn opt_text(s: Option<String>) -> Option<Seq<char>> {
    match s {
        Some(v) => Some(v@),
        None => None,
    }
}

/// The mathematical value of a [`Status`]: its fields, with the texts as
/// character sequences.
pub struct StatusView {
    pub id: StatusId,
    pub name: Seq<char>,
    pub kind: StatusKind,
    pub description: Option<Seq<char>>,
    pub removed: bool,
    pub created_at_millis: Option<u64>,
}

impl DeepView for Status {
    type V = StatusView;

    open spec fn deep_view(&self) -> StatusView {
        StatusView {
            id: self.id,
            name: self.name@,
            kind: self.kind,
            description: opt_text(self.description),
            removed: self.removed,
            created_at_millis: self.created_at_millis,
        }
    }
}

impl Clone for Status {
    fn clone(&self) -> (r: Self)
        ensures
            r == *self,
    {
        Status {
            id: self.id,
            name: self.name.clone(),
            kind: self.kind,
            description: clone_opt_string(&self.description),
            removed: self.removed,
            created_at_millis: self.created_at_millis,
        }
    }
}

} // verus!
