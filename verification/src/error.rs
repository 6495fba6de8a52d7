//! Error types for the crate.

use vstd::prelude::*;

use crate::shared::text::concat;

use crate::projections::project::ProjectId;
use crate::projections::status::StatusId;
use crate::projections::task::TaskId;

verus! {

/// The crate-wide error type.
///
/// The store surfaces filesystem and (de)serialization failures, ID parsing
/// flows in from [`IdError`], and the commands raise the "not found" / "not
/// created" failures when an operation references an entity that doesn't
/// exist or produces a stream that can't be rebuilt.
#[derive(Debug)]
pub enum Error {
    /// A parsed ID was malformed.
    Id(IdError),
    /// The underlying store failed a filesystem operation (with the I/O
    /// error's message).
    Io(String),
    /// An event could not be serialized to or deserialized from JSON (with
    /// the serializer's message).
    Serde(String),
    /// An entity's event history did not fold into a projection: its stream
    /// does not begin with a `created` (or bootstrapping `snapshot`) event.
    NotCreated,
    /// A command referenced a project that has no stream in the store.
    ProjectNotFound(ProjectId),
    /// A command referenced a task that has no stream in the store.
    TaskNotFound(TaskId),
    /// A command referenced a status that is neither a seed nor stored (or has
    /// been removed, where an active status was required).
    StatusNotFound(StatusId),
}

/// Errors raised while parsing prefixed entity IDs.
#[derive(Debug, Clone, Copy, PartialEq, Eq)]
pub enum IdError {
    /// The text does not start with the ID type's prefix.
    MissingPrefix(&'static str),
    /// The text after the prefix is not a valid UUID.
    InvalidUuid,
}

/// The text of an ID error.
pub open spec fn id_error_text(e: IdError) -> Seq<char> {
    match e {
        IdError::MissingPrefix(p) => "id is missing the `"@ + p@ + "` prefix"@,
        IdError::InvalidUuid => "id does not contain a valid uuid"@,
    }
}

/// The text of an error, as reported to users.
pub open spec fn error_text(e: Error) -> Seq<char> {
    match e {
        Error::Id(i) => id_error_text(i),
        Error::Io(m) => "event store i/o failed: "@ + m@,
        Error::Serde(m) => "event (de)serialization failed: "@ + m@,
        Error::NotCreated => "could not rebuild entity: its event history has no bootstrapping event"@,
        Error::ProjectNotFound(id) => "project "@ + id.text() + " does not exist"@,
        Error::TaskNotFound(id) => "task "@ + id.text() + " does not exist"@,
        Error::StatusNotFound(id) => "status "@ + id.text() + " does not exist"@,
    }
}

impl IdError {
    /// The error's message.
    pub fn message(&self) -> (r: String)
        ensures
            r@ == id_error_text(*self),
    {
        match self {
            IdError::MissingPrefix(p) => {
                let head = concat("id is missing the `", p);
                concat(head.as_str(), "` prefix")
            },
            IdError::InvalidUuid => String::from_str("id does not contain a valid uuid"),
        }
    }
}

impl Error {
    /// The error's message.
    pub fn message(&self) -> (r: String)
        ensures
            r@ == error_text(*self),
    {
        match self {
            Error::Id(i) => i.message(),
            Error::Io(m) => concat("event store i/o failed: ", m.as_str()),
            Error::Serde(m) => concat("event (de)serialization failed: ", m.as_str()),
            Error::NotCreated => String::from_str(
                "could not rebuild entity: its event history has no bootstrapping event",
            ),
            Error::ProjectNotFound(id) => {
                let text = id.to_string();
                let head = concat("project ", text.as_str());
                concat(head.as_str(), " does not exist")
            },
            Error::TaskNotFound(id) => {
                let text = id.to_string();
                let head = concat("task ", text.as_str());
                concat(head.as_str(), " does not exist")
            },
            Error::StatusNotFound(id) => {
                let text = id.to_string();
                let head = concat("status ", text.as_str());
                concat(head.as_str(), " does not exist")
            },
        }
    }
}

/// A `Result` whose error is the crate-wide [`Error`].
pub type Result<T> = core::result::Result<T, Error>;

} // verus!
