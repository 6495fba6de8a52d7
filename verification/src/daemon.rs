//! The tasks daemon's request logic: which store operation each route runs,
//! and which HTTP status each failure is answered with. Listening, parsing
//! requests and writing JSON responses are left to the program.

use vstd::prelude::*;

use crate::commands::{project, status, task};
use crate::error::Error as CoreError;
use crate::events::project::ProjectEventKind;
use crate::events::status::StatusEventKind;
use crate::events::store::{lists, EventStore};
use crate::events::task::{TaskEvent, TaskEventKind, COLLECTION as TASKS};
use crate::projections::project::{Project, ProjectId};
use crate::projections::status::Status;
use crate::projections::task::{Task, TaskId};
use crate::shared::id::{listed_uuids, EventId};

verus! {

/// HTTP 400 Bad Request.
pub const BAD_REQUEST: u16 = 400;

/// HTTP 404 Not Found.
pub const NOT_FOUND: u16 = 404;

/// HTTP 500 Internal Server Error.
pub const INTERNAL_SERVER_ERROR: u16 = 500;

/// The daemon-wide error type: the one precondition the daemon itself
/// enforces, plus everything that comes up from the library's operations.
#[derive(Debug)]
pub enum Error {
    /// A request referenced a workspace root that doesn't exist on disk.
    WorkspaceNotFound(String),
    /// A domain or storage failure.
    Core(CoreError),
}

/// The HTTP status a failure is answered with: 404 when the request
/// referenced something that doesn't exist, 400 for a malformed ID, and 500
/// for storage or rebuild failures (the daemon's fault).
pub open spec fn status_of(e: Error) -> u16 {
    match e {
        Error::WorkspaceNotFound(_) => NOT_FOUND,
        Error::Core(c) => match c {
            CoreError::ProjectNotFound(_) | CoreError::TaskNotFound(_) | CoreError::StatusNotFound(
                _,
            ) => NOT_FOUND,
            CoreError::Id(_) => BAD_REQUEST,
            _ => INTERNAL_SERVER_ERROR,
        },
    }
}

/// The text of a daemon failure, as sent in `{ "error": … }`.
pub open spec fn daemon_error_text(e: Error) -> Seq<char> {
    match e {
        Error::WorkspaceNotFound(root) => "workspace root does not exist: "@ + root@,
        Error::Core(c) => crate::error::error_text(c),
    }
}

impl Error {
    /// The failure's message.
    pub fn message(&self) -> (r: String)
        ensures
            r@ == daemon_error_text(*self),
    {
        match self {
            Error::WorkspaceNotFound(root) => crate::shared::text::concat(
                "workspace root does not exist: ",
                root.as_str(),
            ),
            Error::Core(c) => c.message(),
        }
    }

    /// The HTTP status this failure is answered with.
    pub fn status(&self) -> (r: u16)
        ensures
            r == status_of(*self),
    {
        match self {
            Error::WorkspaceNotFound(_) => NOT_FOUND,
            Error::Core(c) => match c {
                CoreError::ProjectNotFound(_) | CoreError::TaskNotFound(_) | CoreError::StatusNotFound(_) =>
                    NOT_FOUND,
                CoreError::Id(_) => BAD_REQUEST,
                _ => INTERNAL_SERVER_ERROR,
            },
        }
    }
}

/// `GET /projects`: open projects, or closed ones with `closed`.
pub fn list_projects<S: EventStore<ProjectEventKind>>(store: &S, closed: bool) -> (r: Result<Vec<Project>, CoreError>)
    ensures
        store.infallible() ==> r is Ok,
        r matches Err(e) ==> e is Io || e is Serde,
        r matches Ok(v) ==> exists|names: Seq<Seq<char>>| #[trigger]
            project::listing(*store, names) && v.deep_view() == project::collect(
                *store,
                listed_uuids(names, "project_"@),
                closed,
            ),
{
    if closed {
        project::list_closed(store)
    } else {
        project::list(store)
    }
}

/// `GET /statuses`: active statuses, or removed ones with `removed`, seeds
/// first.
pub fn list_statuses<S: EventStore<StatusEventKind>>(store: &S, removed: bool) -> (r: Result<Vec<Status>, CoreError>)
    ensures
        store.infallible() ==> r is Ok,
        r matches Err(e) ==> e is Io || e is Serde,
        r matches Ok(v) ==> exists|names: Seq<Seq<char>>| #[trigger]
            lists(*store, crate::events::status::COLLECTION@, names) && v.deep_view() == status::collect(
                *store,
                status::canonical_uuids(names),
                removed,
            ),
{
    if removed {
        status::list_removed(store)
    } else {
        status::list(store)
    }
}

/// `GET /tasks`: open tasks (closed ones with `closed`), only those of
/// `project_id` when given, oldest first.
pub fn list_tasks<S: EventStore<TaskEventKind>>(store: &S, project_id: Option<ProjectId>, closed: bool) -> (r: Result<Vec<Task>, CoreError>)
    ensures
        store.infallible() ==> r is Ok,
        r matches Err(e) ==> e is Io || e is Serde,
        r matches Ok(v) ==> exists|names: Seq<Seq<char>>| #[trigger]
            lists(*store, TASKS@, names) && v.deep_view() == (match project_id {
                Some(p) => task::in_project(task::collect(*store, listed_uuids(names, "task_"@), closed), p),
                None => task::collect(*store, listed_uuids(names, "task_"@), closed),
            }),
{
    match (project_id, closed) {
        (Some(p), false) => task::list_in_project(store, p),
        (Some(p), true) => task::list_closed_in_project(store, p),
        (None, false) => task::list(store),
        (None, true) => task::list_closed(store),
    }
}

/// `GET /tasks/{id}/events`: the raw history of an existing task, oldest
/// first.
pub fn task_events<S: EventStore<TaskEventKind>>(store: &S, id: TaskId) -> (r: Result<Vec<TaskEvent>, CoreError>)
    ensures
        store.infallible() ==> (r is Ok <==> task::loaded(*store, id) is Some),
        r matches Err(CoreError::TaskNotFound(x)) ==> x == id && task::loaded(*store, id) is None,
        r matches Err(e) ==> e is TaskNotFound || e is Io || e is Serde,
        r matches Ok(v) ==> task::loaded(*store, id) is Some && v@ == task::stream_of(*store, id),
{
    match task::load(store, id) {
        Ok(Some(_)) => {},
        Ok(None) => {
            return Err(CoreError::TaskNotFound(id));
        },
        Err(e) => {
            return Err(e);
        },
    }
    task::load_events(store, id)
}

/// `POST /tasks/{id}/rename`: renames a task, in place when `event_id` names
/// the `renamed` event to overwrite.
pub fn rename_task<S: EventStore<TaskEventKind>>(
    store: &mut S,
    id: TaskId,
    new_name: &str,
    event_id: Option<EventId>,
) -> (r: Result<Task, CoreError>)
    ensures
        task::updated(
            *old(store),
            *final(store),
            id,
            r,
            |e: TaskEvent|
                (e.kind matches TaskEventKind::Renamed { new_name: n } && n@ == new_name@) && match event_id {
                    Some(eid) => e.id == eid,
                    None => crate::shared::id::uuid_version(e.id.0) == 7,
                },
        ),
        task::plain_outcome(r),
        old(store).infallible() && task::loaded(*old(store), id) is Some ==> r is Ok || r matches Err(
            CoreError::NotCreated,
        ),
{
    match event_id {
        Some(eid) => task::rename_in_place(store, id, eid, new_name),
        None => task::rename(store, id, new_name),
    }
}

/// `POST /tasks/{id}/description`: replaces a task's description, in place
/// when `event_id` names the `description_updated` event to overwrite.
pub fn describe_task<S: EventStore<TaskEventKind>>(
    store: &mut S,
    id: TaskId,
    description: &str,
    event_id: Option<EventId>,
) -> (r: Result<Task, CoreError>)
    ensures
        task::updated(
            *old(store),
            *final(store),
            id,
            r,
            |e: TaskEvent|
                (e.kind matches TaskEventKind::DescriptionUpdated { description: d } && d@
                    == description@) && match event_id {
                    Some(eid) => e.id == eid,
                    None => crate::shared::id::uuid_version(e.id.0) == 7,
                },
        ),
        task::plain_outcome(r),
        old(store).infallible() && task::loaded(*old(store), id) is Some ==> r is Ok || r matches Err(
            CoreError::NotCreated,
        ),
{
    match event_id {
        Some(eid) => task::update_description_in_place(store, id, eid, description),
        None => task::update_description(store, id, description),
    }
}

/// `GET /projects/{id}`: one project, or `ProjectNotFound`.
pub fn show_project<S: EventStore<ProjectEventKind>>(store: &S, id: ProjectId) -> (r: Result<Project, CoreError>)
    ensures
        store.infallible() ==> (r is Ok <==> project::loaded(*store, id) is Some),
        r matches Ok(p) ==> Some(p.deep_view()) == project::loaded(*store, id),
        r matches Err(CoreError::ProjectNotFound(x)) ==> x == id && project::loaded(*store, id) is None,
        r matches Err(e) ==> e is ProjectNotFound || e is Io || e is Serde,
{
    match project::load(store, id) {
        Ok(Some(p)) => Ok(p),
        Ok(None) => Err(CoreError::ProjectNotFound(id)),
        Err(e) => Err(e),
    }
}

/// `GET /tasks/{id}`: one task, or `TaskNotFound`.
pub fn show_task<S: EventStore<TaskEventKind>>(store: &S, id: TaskId) -> (r: Result<Task, CoreError>)
    ensures
        store.infallible() ==> (r is Ok <==> task::loaded(*store, id) is Some),
        r matches Ok(t) ==> Some(t.deep_view()) == task::loaded(*store, id),
        r matches Err(CoreError::TaskNotFound(x)) ==> x == id && task::loaded(*store, id) is None,
        r matches Err(e) ==> e is TaskNotFound || e is Io || e is Serde,
{
    match task::load(store, id) {
        Ok(Some(t)) => Ok(t),
        Ok(None) => Err(CoreError::TaskNotFound(id)),
        Err(e) => Err(e),
    }
}

} // verus!
