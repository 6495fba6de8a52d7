//! Task commands: the store-backed operations for the task entity.
//!
//! A task always belongs to a project, so [`create`] and [`move_to_project`]
//! check the target project through the project commands, and [`set_status`]
//! checks the status through the status commands. Each write appends a single
//! event and returns the rebuilt [`Task`]; the load/list reads used to check
//! them (and to serve views) live here too.

use vstd::prelude::*;

use crate::commands::{project, status};
use crate::error::{Error, Result};
use crate::events::project::ProjectEventKind;
use crate::events::status::StatusEventKind;
use crate::events::store::{insert_event, lists, wrote, EventStore};
use crate::events::task::{TaskEvent, TaskEventKind, COLLECTION};
use crate::projections::project::ProjectId;
use crate::projections::status::StatusId;
use crate::projections::task::{Task, TaskId, TaskView};
use crate::reconstruction::task::{apply_event, lemma_replay_push, replay, replay_spec};
use crate::shared::id::{lemma_listed_uuids_order_free, listed_uuids, parse_uuids, uuid_v7_millis, uuid_version, lemma_v7_created_at, EventId};
use crate::shared::sort::sort_uuids;
use crate::shared::text::string_views;

verus! {

/// The stored history of task `id`.
pub open spec fn stream_of<S: EventStore<TaskEventKind>>(store: S, id: TaskId) -> Seq<TaskEvent> {
    store.stream(COLLECTION@, id.text())
}

/// The task `id` as the store rebuilds it.
pub open spec fn loaded<S: EventStore<TaskEventKind>>(store: S, id: TaskId) -> Option<TaskView> {
    replay_spec(id, stream_of(store, id))
}

/// The tasks rebuilt from `uuids`, in that order, keeping those whose
/// `closed` flag is `closed`.
pub open spec fn collect<S: EventStore<TaskEventKind>>(store: S, uuids: Seq<u128>, closed: bool) -> Seq<TaskView>
    decreases uuids.len(),
{
    if uuids.len() == 0 {
        Seq::empty()
    } else {
        let prev = collect(store, uuids.drop_last(), closed);
        match loaded(store, TaskId(uuids.last())) {
            Some(t) => if t.closed == closed {
                prev.push(t)
            } else {
                prev
            },
            None => prev,
        }
    }
}

/// The tasks of `tasks` that belong to `project_id`, in order.
pub open spec fn in_project(tasks: Seq<TaskView>, project_id: ProjectId) -> Seq<TaskView> {
    tasks.filter(belongs_to(project_id))
}

/// Whether a task belongs to `project_id`.
pub open spec fn belongs_to(project_id: ProjectId) -> spec_fn(TaskView) -> bool {
    |t: TaskView| t.project_id == project_id
}

/// Whether `e` is a fresh `created` event for a task named `name` in
/// `project_id`.
pub open spec fn creates(e: TaskEvent, project_id: ProjectId, name: Seq<char>) -> bool {
    &&& e.kind matches TaskEventKind::Created { project_id: p, name: n } && p == project_id && n@
        == name
    &&& uuid_version(e.id.0) == 7
}

/// What a write of `e` to an existing task left behind: the event is in the
/// task's stream, and the result is the task rebuilt from it (or `NotCreated`
/// when the new stream no longer starts with a bootstrapping event).
pub open spec fn written<S: EventStore<TaskEventKind>>(
    before: S,
    after: S,
    id: TaskId,
    e: TaskEvent,
    r: Result<Task>,
) -> bool {
    &&& loaded(before, id) is Some
    &&& wrote(before, after, COLLECTION@, id.text(), e)
    &&& (r matches Ok(t) ==> Some(t.deep_view()) == loaded(after, id))
    &&& (r matches Err(Error::NotCreated) ==> loaded(after, id) is None)
}

/// The contract shared by every write to an existing task: a missing task is
/// reported as `TaskNotFound` and leaves the store untouched; a successful
/// write wrote one event satisfying `expected` and rebuilt the task.
pub open spec fn updated<S: EventStore<TaskEventKind>>(
    before: S,
    after: S,
    id: TaskId,
    r: Result<Task>,
    expected: spec_fn(TaskEvent) -> bool,
) -> bool {
    &&& (r matches Err(Error::TaskNotFound(x)) ==> x == id && loaded(before, id) is None && after
        == before)
    &&& (before.infallible() ==> (loaded(before, id) is None <==> r matches Err(
        Error::TaskNotFound(_),
    )))
    &&& ((r is Ok || r matches Err(Error::NotCreated)) ==> exists|e: TaskEvent|
        #[trigger] written(before, after, id, e, r) && expected(e))
}

/// Whether a task write ended in one of its own outcomes: written (or not
/// rebuildable afterwards), the task missing, or the store failing.
pub open spec fn plain_outcome(r: Result<Task>) -> bool {
    r matches Err(e) ==> e is TaskNotFound || e is NotCreated || e is Io || e is Serde
}

/// Create a task within an existing project, returning the rebuilt task.
///
/// Fails with [`Error::ProjectNotFound`] if `project_id` doesn't exist, so a
/// task can never reference a missing project.
pub fn create<S: EventStore<TaskEventKind> + EventStore<ProjectEventKind>>(
    store: &mut S,
    project_id: ProjectId,
    name: &str,
) -> (r: Result<Task>)
    ensures
        EventStore::<ProjectEventKind>::infallible(old(store)) && EventStore::<TaskEventKind>::infallible(
            old(store),
        ) ==> (r is Ok <==> project::loaded(*old(store), project_id) is Some),
        EventStore::<ProjectEventKind>::infallible(old(store)) && EventStore::<TaskEventKind>::infallible(
            old(store),
        ) ==> (r matches Err(Error::ProjectNotFound(_)) <==> project::loaded(*old(store), project_id) is None),
        EventStore::<ProjectEventKind>::infallible(old(store)) && EventStore::<TaskEventKind>::infallible(
            old(store),
        ) ==> (r matches Err(e) ==> e is ProjectNotFound),
        r matches Err(Error::ProjectNotFound(x)) ==> x == project_id && project::loaded(
            *old(store),
            project_id,
        ) is None && *final(store) == *old(store),
        r matches Err(e) ==> e is ProjectNotFound || e is Io || e is Serde,
        r matches Ok(t) ==> project::loaded(*old(store), project_id) is Some && uuid_version(t.id.0)
            == 7 && (exists|e: TaskEvent| #[trigger]
            wrote(*old(store), *final(store), COLLECTION@, t.id.text(), e) && creates(
                e,
                project_id,
                name@,
            ) && t.deep_view() == (TaskView {
                id: t.id,
                project_id,
                name: name@,
                description: Seq::empty(),
                status_id: None,
                closed: false,
                created_at_millis: Some(uuid_v7_millis(e.id.0) as u64),
            })),
        r matches Ok(t) ==> (stream_of(*old(store), t.id).len() == 0 ==> loaded(*final(store), t.id) == Some(
            t.deep_view(),
        )),
{
    match project::is_present(&*store, project_id) {
        Ok(true) => {},
        Ok(false) => {
            return Err(Error::ProjectNotFound(project_id));
        },
        Err(e) => {
            return Err(e);
        },
    }
    let id = TaskId::new();
    let event = TaskEvent::new(TaskEventKind::Created { project_id, name: String::from_str(name) });
    let id_text = id.to_string();
    match store.append(COLLECTION, id_text.as_str(), &event) {
        Ok(()) => {},
        Err(e) => {
            return Err(e);
        },
    }
    let events = vec![event.clone()];
    proof {
        assert(events@ =~= seq![event]);
        assert(events@.drop_last() =~= Seq::<TaskEvent>::empty());
        lemma_v7_created_at(event.id.0);
        assert(wrote(*old(store), *store, COLLECTION@, id.text(), event));
    }
    match replay(id, events.as_slice()) {
        Some(t) => Ok(t),
        None => Err(Error::NotCreated),
    }
}

/// Writes `event` to the stream of the existing task `id` and rebuilds it.
fn write_and_reload<S: EventStore<TaskEventKind>>(store: &mut S, id: TaskId, event: &TaskEvent) -> (r: Result<Task>)
    requires
        loaded(*old(store), id) is Some,
    ensures
        old(store).infallible() ==> r is Ok || r matches Err(Error::NotCreated),
        (r is Ok || r matches Err(Error::NotCreated)) ==> written(*old(store), *final(store), id, *event, r),
        r matches Err(e) ==> e is NotCreated || e is Io || e is Serde,
{
    let id_text = id.to_string();
    match store.append(COLLECTION, id_text.as_str(), event) {
        Ok(()) => {},
        Err(e) => {
            return Err(e);
        },
    }
    match load(&*store, id) {
        Ok(Some(t)) => Ok(t),
        Ok(None) => Err(Error::NotCreated),
        Err(e) => Err(e),
    }
}

/// Checks that task `id` exists before a write.
fn require_task<S: EventStore<TaskEventKind>>(store: &S, id: TaskId) -> (r: Result<()>)
    ensures
        r is Ok ==> loaded(*store, id) is Some,
        r matches Err(Error::TaskNotFound(x)) ==> x == id && loaded(*store, id) is None,
        r matches Err(e) ==> e is TaskNotFound || e is Io || e is Serde,
        store.infallible() ==> (r is Ok <==> loaded(*store, id) is Some),
        store.infallible() ==> (r is Ok || r matches Err(Error::TaskNotFound(_))),
{
    match load(store, id) {
        Ok(Some(_)) => Ok(()),
        Ok(None) => Err(Error::TaskNotFound(id)),
        Err(e) => Err(e),
    }
}

/// Writes `event` to the existing task `id`, or reports it missing.
fn update_with<S: EventStore<TaskEventKind>>(store: &mut S, id: TaskId, event: &TaskEvent) -> (r: Result<Task>)
    ensures
        updated(*old(store), *final(store), id, r, |e: TaskEvent| e == *event),
        old(store).infallible() && loaded(*old(store), id) is Some ==> r is Ok || r matches Err(
            Error::NotCreated,
        ),
        plain_outcome(r),
{
    match require_task(&*store, id) {
        Ok(()) => {},
        Err(e) => {
            return Err(e);
        },
    }
    let ghost before = *store;
    let r = write_and_reload(store, id, event);
    proof {
        if r is Ok || r matches Err(Error::NotCreated) {
            assert(written(before, *store, id, *event, r));
        }
    }
    r
}

/// Rename a task, returning the rebuilt task.
///
/// Fails with [`Error::TaskNotFound`] if the task doesn't exist.
pub fn rename<S: EventStore<TaskEventKind>>(store: &mut S, id: TaskId, new_name: &str) -> (r: Result<Task>)
    ensures
        updated(
            *old(store),
            *final(store),
            id,
            r,
            |e: TaskEvent|
                e.kind matches TaskEventKind::Renamed { new_name: n } && n@ == new_name@
                    && uuid_version(e.id.0) == 7,
        ),
        old(store).infallible() && loaded(*old(store), id) is Some ==> r is Ok || r matches Err(
            Error::NotCreated,
        ),
        plain_outcome(r),
{
    let event = TaskEvent::new(TaskEventKind::Renamed { new_name: String::from_str(new_name) });
    update_with(store, id, &event)
}

/// Move a task to a different project, returning the rebuilt task.
///
/// Fails with [`Error::TaskNotFound`] or [`Error::ProjectNotFound`] if either
/// entity doesn't exist.
pub fn move_to_project<S: EventStore<TaskEventKind> + EventStore<ProjectEventKind>>(
    store: &mut S,
    id: TaskId,
    new_project_id: ProjectId,
) -> (r: Result<Task>)
    ensures
        updated(
            *old(store),
            *final(store),
            id,
            r,
            |e: TaskEvent|
                e.kind == (TaskEventKind::Moved { new_project_id }) && uuid_version(e.id.0) == 7,
        ),
        r matches Err(Error::ProjectNotFound(x)) ==> x == new_project_id && loaded(*old(store), id)
            is Some && project::loaded(*old(store), new_project_id) is None && *final(store)
            == *old(store),
        (r is Ok || r matches Err(Error::NotCreated)) ==> project::loaded(
            *old(store),
            new_project_id,
        ) is Some,
        EventStore::<ProjectEventKind>::infallible(old(store)) && EventStore::<TaskEventKind>::infallible(
            old(store),
        ) ==> (r matches Err(Error::ProjectNotFound(_)) <==> loaded(*old(store), id) is Some
            && project::loaded(*old(store), new_project_id) is None),
        EventStore::<ProjectEventKind>::infallible(old(store)) && EventStore::<TaskEventKind>::infallible(
            old(store),
        ) && loaded(*old(store), id) is Some && project::loaded(*old(store), new_project_id) is Some
            ==> r is Ok || r matches Err(Error::NotCreated),
        r matches Err(e) ==> e is TaskNotFound || e is ProjectNotFound || e is NotCreated || e is Io
            || e is Serde,
{
    match require_task(&*store, id) {
        Ok(()) => {},
        Err(e) => {
            return Err(e);
        },
    }
    match project::is_present(&*store, new_project_id) {
        Ok(true) => {},
        Ok(false) => {
            return Err(Error::ProjectNotFound(new_project_id));
        },
        Err(e) => {
            return Err(e);
        },
    }
    let event = TaskEvent::new(TaskEventKind::Moved { new_project_id });
    let ghost before = *store;
    let r = write_and_reload(store, id, &event);
    proof {
        if r is Ok || r matches Err(Error::NotCreated) {
            assert(written(before, *store, id, event, r));
        }
    }
    r
}

/// Close a task, returning the rebuilt task.
///
/// Fails with [`Error::TaskNotFound`] if the task doesn't exist.
pub fn close<S: EventStore<TaskEventKind>>(store: &mut S, id: TaskId) -> (r: Result<Task>)
    ensures
        updated(
            *old(store),
            *final(store),
            id,
            r,
            |e: TaskEvent| e.kind is Closed && uuid_version(e.id.0) == 7,
        ),
        old(store).infallible() && loaded(*old(store), id) is Some ==> r is Ok || r matches Err(
            Error::NotCreated,
        ),
        plain_outcome(r),
{
    let event = TaskEvent::new(TaskEventKind::Closed);
    update_with(store, id, &event)
}

/// Reopen a closed task, returning the rebuilt task.
///
/// Fails with [`Error::TaskNotFound`] if the task doesn't exist.
pub fn reopen<S: EventStore<TaskEventKind>>(store: &mut S, id: TaskId) -> (r: Result<Task>)
    ensures
        updated(
            *old(store),
            *final(store),
            id,
            r,
            |e: TaskEvent| e.kind is Reopened && uuid_version(e.id.0) == 7,
        ),
        old(store).infallible() && loaded(*old(store), id) is Some ==> r is Ok || r matches Err(
            Error::NotCreated,
        ),
        plain_outcome(r),
{
    let event = TaskEvent::new(TaskEventKind::Reopened);
    update_with(store, id, &event)
}

/// Whether `status_id` names an active status of `store` (or is `None`).
pub open spec fn status_ok<S: EventStore<StatusEventKind>>(store: S, status_id: Option<StatusId>) -> bool {
    match status_id {
        Some(sid) => status::loaded(store, sid) matches Some(s) && !s.removed,
        None => true,
    }
}

/// Set (or clear, with `None`) a task's status, returning the rebuilt task.
///
/// A non-`None` status must exist and be active. Fails with
/// [`Error::TaskNotFound`] if the task is missing or [`Error::StatusNotFound`]
/// if the status is missing or removed.
pub fn set_status<S: EventStore<TaskEventKind> + EventStore<StatusEventKind>>(
    store: &mut S,
    id: TaskId,
    status_id: Option<StatusId>,
) -> (r: Result<Task>)
    ensures
        updated(
            *old(store),
            *final(store),
            id,
            r,
            |e: TaskEvent|
                e.kind == (TaskEventKind::StatusChanged { status_id }) && uuid_version(e.id.0) == 7,
        ),
        r matches Err(Error::StatusNotFound(x)) ==> status_id == Some(x) && loaded(*old(store), id)
            is Some && !status_ok(*old(store), status_id) && *final(store) == *old(store),
        (r is Ok || r matches Err(Error::NotCreated)) ==> status_ok(*old(store), status_id),
        EventStore::<StatusEventKind>::infallible(old(store)) && EventStore::<TaskEventKind>::infallible(
            old(store),
        ) ==> (r matches Err(Error::StatusNotFound(_)) <==> loaded(*old(store), id) is Some
            && !status_ok(*old(store), status_id)),
        EventStore::<StatusEventKind>::infallible(old(store)) && EventStore::<TaskEventKind>::infallible(
            old(store),
        ) && loaded(*old(store), id) is Some && status_ok(*old(store), status_id) ==> r is Ok
            || r matches Err(Error::NotCreated),
        r matches Err(e) ==> e is TaskNotFound || e is StatusNotFound || e is NotCreated || e is Io
            || e is Serde,
{
    match require_task(&*store, id) {
        Ok(()) => {},
        Err(e) => {
            return Err(e);
        },
    }
    match status_id {
        Some(sid) => match status::is_present(&*store, sid) {
            Ok(true) => {},
            Ok(false) => {
                return Err(Error::StatusNotFound(sid));
            },
            Err(e) => {
                return Err(e);
            },
        },
        None => {},
    }
    let event = TaskEvent::new(TaskEventKind::StatusChanged { status_id });
    let ghost before = *store;
    let r = write_and_reload(store, id, &event);
    proof {
        if r is Ok || r matches Err(Error::NotCreated) {
            assert(written(before, *store, id, event, r));
        }
    }
    r
}

/// Update a task's description by appending a new event, returning the
/// rebuilt task.
///
/// Fails with [`Error::TaskNotFound`] if the task doesn't exist.
pub fn update_description<S: EventStore<TaskEventKind>>(store: &mut S, id: TaskId, description: &str) -> (r: Result<Task>)
    ensures
        updated(
            *old(store),
            *final(store),
            id,
            r,
            |e: TaskEvent|
                e.kind matches TaskEventKind::DescriptionUpdated { description: d } && d@
                    == description@ && uuid_version(e.id.0) == 7,
        ),
        old(store).infallible() && loaded(*old(store), id) is Some ==> r is Ok || r matches Err(
            Error::NotCreated,
        ),
        plain_outcome(r),
{
    let event = TaskEvent::new(TaskEventKind::DescriptionUpdated { description: String::from_str(description) });
    update_with(store, id, &event)
}

/// Overwrite an existing `description_updated` event in place, identified by
/// `event_id`, returning the rebuilt task.
///
/// Because events are named by their ID and type, writing an event with the
/// same `event_id` again overwrites that one event rather than growing the
/// stream. Used for session-scoped deduplication: a caller passes back the
/// event it created this visit so repeated saves collapse into one event.
///
/// Fails with [`Error::TaskNotFound`] if the task doesn't exist.
pub fn update_description_in_place<S: EventStore<TaskEventKind>>(
    store: &mut S,
    id: TaskId,
    event_id: EventId,
    description: &str,
) -> (r: Result<Task>)
    ensures
        updated(
            *old(store),
            *final(store),
            id,
            r,
            |e: TaskEvent|
                e.id == event_id && (e.kind matches TaskEventKind::DescriptionUpdated { description: d }
                    && d@ == description@),
        ),
        old(store).infallible() && loaded(*old(store), id) is Some ==> r is Ok || r matches Err(
            Error::NotCreated,
        ),
        plain_outcome(r),
{
    let event = TaskEvent {
        id: event_id,
        kind: TaskEventKind::DescriptionUpdated { description: String::from_str(description) },
    };
    update_with(store, id, &event)
}

/// Overwrite an existing `renamed` event in place, identified by `event_id`,
/// returning the rebuilt task. The in-place counterpart to [`rename`], used
/// for session-scoped deduplication of inline title edits.
///
/// Fails with [`Error::TaskNotFound`] if the task doesn't exist.
pub fn rename_in_place<S: EventStore<TaskEventKind>>(
    store: &mut S,
    id: TaskId,
    event_id: EventId,
    new_name: &str,
) -> (r: Result<Task>)
    ensures
        updated(
            *old(store),
            *final(store),
            id,
            r,
            |e: TaskEvent|
                e.id == event_id && (e.kind matches TaskEventKind::Renamed { new_name: n } && n@
                    == new_name@),
        ),
        old(store).infallible() && loaded(*old(store), id) is Some ==> r is Ok || r matches Err(
            Error::NotCreated,
        ),
        plain_outcome(r),
{
    let event = TaskEvent {
        id: event_id,
        kind: TaskEventKind::Renamed { new_name: String::from_str(new_name) },
    };
    update_with(store, id, &event)
}

/// Load the raw event history for a task, oldest first.
pub fn load_events<S: EventStore<TaskEventKind>>(store: &S, id: TaskId) -> (r: Result<Vec<TaskEvent>>)
    ensures
        store.infallible() ==> r is Ok,
        r matches Err(e) ==> e is Io || e is Serde,
        r matches Ok(v) ==> v@ == stream_of(*store, id),
{
    let id_text = id.to_string();
    store.read(COLLECTION, id_text.as_str())
}

/// Load a single task, or `None` if its stored history rebuilds none.
pub fn load<S: EventStore<TaskEventKind>>(store: &S, id: TaskId) -> (r: Result<Option<Task>>)
    ensures
        store.infallible() ==> r is Ok,
        r matches Err(e) ==> e is Io || e is Serde,
        r matches Ok(o) ==> o.deep_view() == loaded(*store, id),
{
    let events = match load_events(store, id) {
        Ok(events) => events,
        Err(e) => {
            return Err(e);
        },
    };
    if events.len() == 0 {
        return Ok(None);
    }
    Ok(replay(id, events.as_slice()))
}

/// List open (non-closed) tasks in the store, oldest first.
pub fn list<S: EventStore<TaskEventKind>>(store: &S) -> (r: Result<Vec<Task>>)
    ensures
        store.infallible() ==> r is Ok,
        r matches Err(e) ==> e is Io || e is Serde,
        r matches Ok(v) ==> exists|names: Seq<Seq<char>>| #[trigger]
            lists(*store, COLLECTION@, names) && v.deep_view() == collect(
                *store,
                listed_uuids(names, "task_"@),
                false,
            ),
{
    list_where(store, false)
}

/// List closed tasks in the store, oldest first.
pub fn list_closed<S: EventStore<TaskEventKind>>(store: &S) -> (r: Result<Vec<Task>>)
    ensures
        store.infallible() ==> r is Ok,
        r matches Err(e) ==> e is Io || e is Serde,
        r matches Ok(v) ==> exists|names: Seq<Seq<char>>| #[trigger]
            lists(*store, COLLECTION@, names) && v.deep_view() == collect(
                *store,
                listed_uuids(names, "task_"@),
                true,
            ),
{
    list_where(store, true)
}

/// The tasks of the store, oldest first, whose `closed` flag is `closed`.
fn list_where<S: EventStore<TaskEventKind>>(store: &S, closed: bool) -> (r: Result<Vec<Task>>)
    ensures
        store.infallible() ==> r is Ok,
        r matches Err(e) ==> e is Io || e is Serde,
        r matches Ok(v) ==> exists|names: Seq<Seq<char>>| #[trigger]
            lists(*store, COLLECTION@, names) && v.deep_view() == collect(
                *store,
                listed_uuids(names, "task_"@),
                closed,
            ),
{
    let names = match store.list_ids(COLLECTION) {
        Ok(names) => names,
        Err(e) => {
            return Err(e);
        },
    };
    let parsed = parse_uuids(&names, TaskId::PREFIX);
    let uuids = sort_uuids(&parsed);
    let mut tasks: Vec<Task> = Vec::new();
    let mut i: usize = 0;
    while i < uuids.len()
        invariant
            i <= uuids@.len(),
            tasks.deep_view() == collect(*store, uuids@.take(i as int), closed),
        decreases uuids@.len() - i,
    {
        proof {
            assert(uuids@.take(i + 1).drop_last() =~= uuids@.take(i as int));
            assert(uuids@.take(i + 1).last() == uuids@[i as int]);
        }
        match load(store, TaskId(uuids[i])) {
            Ok(Some(t)) => {
                if t.closed == closed {
                    let ghost before = tasks.deep_view();
                    tasks.push(t);
                    proof {
                        assert(tasks.deep_view() =~= before.push(t.deep_view()));
                    }
                }
            },
            Ok(None) => {},
            Err(e) => {
                return Err(e);
            },
        }
        i = i + 1;
    }
    proof {
        assert(uuids@.take(uuids@.len() as int) =~= uuids@);
        assert(lists(*store, COLLECTION@, string_views(names@)));
    }
    Ok(tasks)
}

/// Keeps the tasks of `tasks` that belong to `project_id`, in order.
fn keep_in_project(tasks: Vec<Task>, project_id: ProjectId) -> (r: Vec<Task>)
    ensures
        r.deep_view() == in_project(tasks.deep_view(), project_id),
{
    let ghost pred = belongs_to(project_id);
    let mut out: Vec<Task> = Vec::new();
    let mut rest = tasks;
    let ghost all = rest.deep_view();
    let mut i: usize = 0;
    let n = rest.len();
    while i < n
        invariant
            n == all.len(),
            i <= n,
            pred == belongs_to(project_id),
            out.deep_view() == all.take(i as int).filter(pred),
            rest.deep_view() == all,
        decreases n - i,
    {
        let t = rest[i].clone();
        proof {
            assert(all.take(i + 1) =~= all.take(i as int).push(all[i as int]));
            all.take(i as int).lemma_filter_push(all[i as int], pred);
            assert(rest.deep_view()[i as int] == rest@[i as int].deep_view());
            assert(t.deep_view() == all[i as int]);
            assert(pred(all[i as int]) == (t.project_id == project_id));
        }
        if t.project_id == project_id {
            let ghost before = out.deep_view();
            out.push(t);
            proof {
                assert(out.deep_view() =~= before.push(t.deep_view()));
            }
        }
        i = i + 1;
    }
    proof {
        assert(all.take(n as int) =~= all);
    }
    out
}

/// List open tasks belonging to `project_id`, oldest first.
pub fn list_in_project<S: EventStore<TaskEventKind>>(store: &S, project_id: ProjectId) -> (r: Result<Vec<Task>>)
    ensures
        store.infallible() ==> r is Ok,
        r matches Err(e) ==> e is Io || e is Serde,
        r matches Ok(v) ==> exists|names: Seq<Seq<char>>| #[trigger]
            lists(*store, COLLECTION@, names) && v.deep_view() == in_project(
                collect(*store, listed_uuids(names, "task_"@), false),
                project_id,
            ),
{
    match list(store) {
        Ok(tasks) => Ok(keep_in_project(tasks, project_id)),
        Err(e) => Err(e),
    }
}

/// List closed tasks belonging to `project_id`, oldest first.
pub fn list_closed_in_project<S: EventStore<TaskEventKind>>(store: &S, project_id: ProjectId) -> (r: Result<Vec<Task>>)
    ensures
        store.infallible() ==> r is Ok,
        r matches Err(e) ==> e is Io || e is Serde,
        r matches Ok(v) ==> exists|names: Seq<Seq<char>>| #[trigger]
            lists(*store, COLLECTION@, names) && v.deep_view() == in_project(
                collect(*store, listed_uuids(names, "task_"@), true),
                project_id,
            ),
{
    match list_closed(store) {
        Ok(tasks) => Ok(keep_in_project(tasks, project_id)),
        Err(e) => Err(e),
    }
}

/// Creating a task on a store that holds nothing for its ID, then loading it,
/// gives back the task the `created` event describes: in its project, with no
/// description or status, open.
pub proof fn lemma_create_then_load<S: EventStore<TaskEventKind>>(before: S, after: S, id: TaskId, e: TaskEvent)
    requires
        stream_of(before, id).len() == 0,
        wrote(before, after, COLLECTION@, id.text(), e),
        e.kind is Created,
    ensures
        loaded(after, id) == apply_event(None, id, e),
        loaded(after, id) matches Some(t) && t.id == id && t.project_id == e.kind->Created_project_id
            && t.status_id is None && !t.closed && t.description.len() == 0,
{
    assert(insert_event(stream_of(before, id), e) =~= seq![e]);
    assert(seq![e].drop_last() =~= Seq::<TaskEvent>::empty());
}

/// The two lists split the tasks: every task `collect` keeps has the
/// requested `closed` flag, and every task the IDs rebuild is kept by the
/// list for its own flag.
pub proof fn lemma_lists_partition<S: EventStore<TaskEventKind>>(store: S, uuids: Seq<u128>, closed: bool)
    ensures
        forall|k: int| 0 <= k < collect(store, uuids, closed).len() ==> (#[trigger] collect(
            store,
            uuids,
            closed,
        )[k]).closed == closed,
        forall|i: int|
            0 <= i < uuids.len() && #[trigger] loaded(store, TaskId(uuids[i])) is Some ==> collect(
                store,
                uuids,
                loaded(store, TaskId(uuids[i])).unwrap().closed,
            ).contains(loaded(store, TaskId(uuids[i])).unwrap()),
    decreases uuids.len(),
{
    if uuids.len() > 0 {
        let t = uuids.drop_last();
        lemma_lists_partition(store, t, closed);
        lemma_lists_partition(store, t, true);
        lemma_lists_partition(store, t, false);
        assert forall|i: int|
            0 <= i < uuids.len() && #[trigger] loaded(store, TaskId(uuids[i])) is Some implies collect(
                store,
                uuids,
                loaded(store, TaskId(uuids[i])).unwrap().closed,
            ).contains(loaded(store, TaskId(uuids[i])).unwrap()) by {
            let x = loaded(store, TaskId(uuids[i])).unwrap();
            let prev = collect(store, t, x.closed);
            if i < t.len() {
                assert(t[i] == uuids[i]);
                assert(prev.contains(x));
                let k = choose|k: int| 0 <= k < prev.len() && prev[k] == x;
                let cur = collect(store, uuids, x.closed);
                assert(cur == prev || cur == prev.push(loaded(store, TaskId(uuids.last())).unwrap()));
                assert(cur[k] == x);
            } else {
                assert(uuids.last() == uuids[i]);
                let cur = collect(store, uuids, x.closed);
                assert(cur == prev.push(x));
                assert(cur[prev.len() as int] == x);
            }
        }
    }
}

/// A project's task list holds exactly the listed tasks that belong to it,
/// in their order.
pub proof fn lemma_in_project(tasks: Seq<TaskView>, project_id: ProjectId)
    ensures
        forall|k: int| 0 <= k < in_project(tasks, project_id).len() ==> (#[trigger] in_project(
            tasks,
            project_id,
        )[k]).project_id == project_id,
        forall|k: int|
            0 <= k < tasks.len() && (#[trigger] tasks[k]).project_id == project_id ==> in_project(
                tasks,
                project_id,
            ).contains(tasks[k]),
        in_project(tasks, project_id).len() <= tasks.len(),
{
    broadcast use vstd::seq_lib::group_filter_ensures;

    assert forall|k: int| 0 <= k < in_project(tasks, project_id).len() implies (#[trigger] in_project(
        tasks,
        project_id,
    )[k]).project_id == project_id by {
        assert((belongs_to(project_id))(tasks.filter(belongs_to(project_id))[k]));
    }
    assert forall|k: int|
        0 <= k < tasks.len() && (#[trigger] tasks[k]).project_id == project_id implies in_project(
            tasks,
            project_id,
        ).contains(tasks[k]) by {
        assert((belongs_to(project_id))(tasks[k]));
        tasks.lemma_filter_contains(belongs_to(project_id), k);
    }
}

/// Closing a task and then reopening it leaves it as it was, but open; in
/// between it is closed.
pub proof fn lemma_reopen_undoes_close(id: TaskId, events: Seq<TaskEvent>, close: TaskEvent, reopen: TaskEvent)
    requires
        replay_spec(id, events) is Some,
        close.kind is Closed,
        reopen.kind is Reopened,
    ensures
        replay_spec(id, events.push(close)) == Some(TaskView { closed: true, ..replay_spec(id, events).unwrap() }),
        replay_spec(id, events.push(close).push(reopen)) == Some(
            TaskView { closed: false, ..replay_spec(id, events).unwrap() },
        ),
{
    lemma_replay_push(id, events, close);
    lemma_replay_push(id, events.push(close), reopen);
}

/// Moving a task puts it in the new project and changes nothing else about
/// it; moving it back restores it.
pub proof fn lemma_move_changes_only_project(
    id: TaskId,
    events: Seq<TaskEvent>,
    there: TaskEvent,
    back: TaskEvent,
)
    requires
        replay_spec(id, events) is Some,
        there.kind is Moved,
        back.kind matches TaskEventKind::Moved { new_project_id } && new_project_id == replay_spec(
            id,
            events,
        ).unwrap().project_id,
    ensures
        replay_spec(id, events.push(there)) == Some(
            TaskView { project_id: there.kind->new_project_id, ..replay_spec(id, events).unwrap() },
        ),
        replay_spec(id, events.push(there).push(back)) == replay_spec(id, events),
{
    lemma_replay_push(id, events, there);
    lemma_replay_push(id, events.push(there), back);
}

/// [`list`] and [`list_closed`] split the tasks between them: whichever
/// listing of the store each answers from, both use the same IDs, so no task
/// is in both answers and every task those IDs rebuild is in one.
pub proof fn lemma_list_and_list_closed_split<S: EventStore<TaskEventKind>>(
    store: S,
    open_names: Seq<Seq<char>>,
    closed_names: Seq<Seq<char>>,
)
    requires
        lists(store, COLLECTION@, open_names),
        lists(store, COLLECTION@, closed_names),
    ensures
        listed_uuids(closed_names, "task_"@) == listed_uuids(open_names, "task_"@),
        forall|t: TaskView|
            #[trigger] collect(store, listed_uuids(open_names, "task_"@), false).contains(t) ==> !collect(
                store,
                listed_uuids(open_names, "task_"@),
                true,
            ).contains(t),
        forall|i: int|
            0 <= i < listed_uuids(open_names, "task_"@).len() && #[trigger] loaded(
                store,
                TaskId(listed_uuids(open_names, "task_"@)[i]),
            ) is Some ==> {
                let t = loaded(store, TaskId(listed_uuids(open_names, "task_"@)[i])).unwrap();
                collect(store, listed_uuids(open_names, "task_"@), false).contains(t) || collect(
                    store,
                    listed_uuids(open_names, "task_"@),
                    true,
                ).contains(t)
            },
{
    let uuids = listed_uuids(open_names, "task_"@);
    lemma_listed_uuids_order_free(closed_names, open_names, "task_"@);
    lemma_lists_partition(store, uuids, false);
    lemma_lists_partition(store, uuids, true);
    assert forall|t: TaskView| #[trigger] collect(store, uuids, false).contains(t) implies !collect(
        store,
        uuids,
        true,
    ).contains(t) by {
        let k = choose|k: int| 0 <= k < collect(store, uuids, false).len() && collect(store, uuids, false)[k] == t;
        if collect(store, uuids, true).contains(t) {
            let j = choose|j: int| 0 <= j < collect(store, uuids, true).len() && collect(store, uuids, true)[j] == t;
            assert(collect(store, uuids, true)[j].closed);
            assert(!collect(store, uuids, false)[k].closed);
        }
    }
}

} // verus!
