//! Reconstruct a [`Task`] by folding its events.

use vstd::prelude::*;

use crate::events::task::{TaskEvent, TaskEventKind};
use crate::projections::task::{Task, TaskId, TaskView};
use crate::shared::id::uuid_millis;

verus! {

/// Whether an event can start a task's history (`created` or `snapshot`).
pub open spec fn is_bootstrap(kind: TaskEventKind) -> bool {
    kind is Created || kind is Snapshot
}

/// The creation time a snapshot leaves: the one the task already has, or
/// else the snapshot event's own.
pub open spec fn snapshot_created_at(state: Option<TaskView>, e: TaskEvent) -> Option<u64> {
    match state {
        Some(t) => match t.created_at_millis {
            Some(c) => Some(c),
            None => uuid_millis(e.id.0),
        },
        None => uuid_millis(e.id.0),
    }
}

/// The effect of one event on a task being rebuilt.
pub open spec fn apply_event(state: Option<TaskView>, id: TaskId, e: TaskEvent) -> Option<TaskView> {
    match e.kind {
        TaskEventKind::Created { project_id, name } => Some(
            TaskView {
                id,
                project_id,
                name: name@,
                description: Seq::empty(),
                status_id: None,
                closed: false,
                created_at_millis: uuid_millis(e.id.0),
            },
        ),
        TaskEventKind::Renamed { new_name } => match state {
            Some(t) => Some(TaskView { name: new_name@, ..t }),
            None => None,
        },
        TaskEventKind::Moved { new_project_id } => match state {
            Some(t) => Some(TaskView { project_id: new_project_id, ..t }),
            None => None,
        },
        TaskEventKind::Closed => match state {
            Some(t) => Some(TaskView { closed: true, ..t }),
            None => None,
        },
        TaskEventKind::Reopened => match state {
            Some(t) => Some(TaskView { closed: false, ..t }),
            None => None,
        },
        TaskEventKind::DescriptionUpdated { description } => match state {
            Some(t) => Some(TaskView { description: description@, ..t }),
            None => None,
        },
        TaskEventKind::StatusChanged { status_id } => match state {
            Some(t) => Some(TaskView { status_id, ..t }),
            None => None,
        },
        TaskEventKind::Snapshot { project_id, name, description, status_id, closed } => Some(
            TaskView {
                id,
                project_id,
                name: name@,
                description: description@,
                status_id,
                closed,
                created_at_millis: snapshot_created_at(state, e),
            },
        ),
    }
}

/// Folds `events`, in order, onto `init`.
pub open spec fn replay_from(init: Option<TaskView>, id: TaskId, events: Seq<TaskEvent>) -> Option<TaskView>
    decreases events.len(),
{
    if events.len() == 0 {
        init
    } else {
        apply_event(replay_from(init, id, events.drop_last()), id, events.last())
    }
}

/// The task a history rebuilds: `None` unless the history starts with a
/// `created` (or bootstrapping `snapshot`) event.
pub open spec fn replay_spec(id: TaskId, events: Seq<TaskEvent>) -> Option<TaskView> {
    if events.len() == 0 || !is_bootstrap(events[0].kind) {
        None
    } else {
        replay_from(None, id, events)
    }
}

/// Applies one event to a task being rebuilt.
fn apply(state: Option<Task>, id: TaskId, event: &TaskEvent) -> (r: Option<Task>)
    ensures
        r.deep_view() == apply_event(state.deep_view(), id, *event),
{
    match &event.kind {
        TaskEventKind::Created { project_id, name } => {
            let description = String::new();
            Some(
                Task {
                    id,
                    project_id: *project_id,
                    name: name.clone(),
                    description,
                    status_id: None,
                    closed: false,
                    created_at_millis: event.created_at_millis(),
                },
            )
        },
        TaskEventKind::Renamed { new_name } => match state {
            Some(t) => Some(Task { name: new_name.clone(), ..t }),
            None => None,
        },
        TaskEventKind::Moved { new_project_id } => match state {
            Some(t) => Some(Task { project_id: *new_project_id, ..t }),
            None => None,
        },
        TaskEventKind::Closed => match state {
            Some(t) => Some(Task { closed: true, ..t }),
            None => None,
        },
        TaskEventKind::Reopened => match state {
            Some(t) => Some(Task { closed: false, ..t }),
            None => None,
        },
        TaskEventKind::DescriptionUpdated { description } => match state {
            Some(t) => Some(Task { description: description.clone(), ..t }),
            None => None,
        },
        TaskEventKind::StatusChanged { status_id } => match state {
            Some(t) => Some(Task { status_id: *status_id, ..t }),
            None => None,
        },
        TaskEventKind::Snapshot { project_id, name, description, status_id, closed } => {
            // Preserve the original creation time if the task already exists;
            // otherwise this snapshot bootstraps it.
            let created_at_millis = match &state {
                Some(t) => match t.created_at_millis {
                    Some(c) => Some(c),
                    None => event.created_at_millis(),
                },
                None => event.created_at_millis(),
            };
            Some(
                Task {
                    id,
                    project_id: *project_id,
                    name: name.clone(),
                    description: description.clone(),
                    status_id: *status_id,
                    closed: *closed,
                    created_at_millis,
                },
            )
        },
    }
}

/// Rebuilds a task by folding its events in chronological order.
///
/// Returns `None` if the history does not start with a `created` (or
/// bootstrapping `snapshot`) event.
pub fn replay(id: TaskId, events: &[TaskEvent]) -> (r: Option<Task>)
    ensures
        r.deep_view() == replay_spec(id, events@),
        r is None <==> events@.len() == 0 || !is_bootstrap(events@[0].kind),
        r matches Some(t) ==> t.id == id,
{
    if events.len() == 0 {
        return None;
    }
    match &events[0].kind {
        TaskEventKind::Created { .. } | TaskEventKind::Snapshot { .. } => {},
        _ => {
            return None;
        },
    }
    let mut task: Option<Task> = None;
    let mut i: usize = 0;
    while i < events.len()
        invariant
            i <= events@.len(),
            events@.len() > 0,
            is_bootstrap(events@[0].kind),
            task.deep_view() == replay_from(None, id, events@.take(i as int)),
            i > 0 ==> task is Some && task.unwrap().id == id,
        decreases events@.len() - i,
    {
        proof {
            assert(events@.take(i + 1).drop_last() =~= events@.take(i as int));
        }
        task = apply(task, id, &events[i]);
        i = i + 1;
    }
    proof {
        assert(events@.take(events@.len() as int) =~= events@);
    }
    task
}

impl Task {
    /// Rebuilds a task by folding its events in chronological order.
    ///
    /// Returns `None` if the history does not start with a `created` (or
    /// bootstrapping `snapshot`) event.
    pub fn replay(id: TaskId, events: &[TaskEvent]) -> (r: Option<Task>)
        ensures
            r.deep_view() == replay_spec(id, events@),
    {
        replay(id, events)
    }
}

/// Extending a history that rebuilds a task by one event applies that event
/// to the task: replaying is an incremental fold.
pub proof fn lemma_replay_push(id: TaskId, events: Seq<TaskEvent>, e: TaskEvent)
    requires
        replay_spec(id, events) is Some,
    ensures
        replay_spec(id, events.push(e)) == apply_event(replay_spec(id, events), id, e),
{
    assert(events.push(e).drop_last() =~= events);
    assert(events.push(e)[0] == events[0]);
}

/// Replaying a history that rebuilds a task followed by more events is
/// replaying the further events on top of that task.
pub proof fn lemma_replay_append(id: TaskId, first: Seq<TaskEvent>, second: Seq<TaskEvent>)
    requires
        replay_spec(id, first) is Some,
    ensures
        replay_spec(id, first + second) == replay_from(replay_spec(id, first), id, second),
    decreases second.len(),
{
    if second.len() == 0 {
        assert(first + second =~= first);
    } else {
        lemma_replay_append(id, first, second.drop_last());
        assert((first + second).drop_last() =~= first + second.drop_last());
        assert((first + second)[0] == first[0]);
        assert((first + second.drop_last())[0] == first[0]);
    }
}

/// A snapshot on top of an existing task keeps the task's original creation
/// time.
pub proof fn lemma_snapshot_keeps_creation_time(id: TaskId, events: Seq<TaskEvent>, snapshot: TaskEvent)
    requires
        replay_spec(id, events) matches Some(t) && t.created_at_millis is Some,
        snapshot.kind is Snapshot,
    ensures
        replay_spec(id, events.push(snapshot)).unwrap().created_at_millis == replay_spec(
            id,
            events,
        ).unwrap().created_at_millis,
{
    lemma_replay_push(id, events, snapshot);
}

/// Every edit changes exactly one thing about a task it is appended to:
/// a rename only its name, a move only its project, a close or reopen only
/// whether it is closed, a description update only its description, and a
/// status change only its status. The ID and creation time never change.
/// A snapshot sets every attribute at once and keeps the creation time.
pub proof fn lemma_edit_changes_one_field(id: TaskId, events: Seq<TaskEvent>, e: TaskEvent)
    requires
        replay_spec(id, events) is Some,
    ensures
        ({
            let t = replay_spec(id, events).unwrap();
            let after = replay_spec(id, events.push(e));
            match e.kind {
                TaskEventKind::Renamed { new_name } => after == Some(TaskView { name: new_name@, ..t }),
                TaskEventKind::Moved { new_project_id } => after == Some(
                    TaskView { project_id: new_project_id, ..t },
                ),
                TaskEventKind::Closed => after == Some(TaskView { closed: true, ..t }),
                TaskEventKind::Reopened => after == Some(TaskView { closed: false, ..t }),
                TaskEventKind::DescriptionUpdated { description } => after == Some(
                    TaskView { description: description@, ..t },
                ),
                TaskEventKind::StatusChanged { status_id } => after == Some(TaskView { status_id, ..t }),
                TaskEventKind::Snapshot { project_id, name, description, status_id, closed } => after
                    matches Some(a) && a.id == id && a.project_id == project_id && a.name == name@
                    && a.description == description@ && a.status_id == status_id && a.closed == closed && (
                t.created_at_millis is Some ==> a.created_at_millis == t.created_at_millis),
                _ => true,
            }
        }),
{
    lemma_replay_push(id, events, e);
}

/// Renaming a task keeps everything else about it: its project, description,
/// status, closed flag, ID and creation time.
pub proof fn lemma_rename_keeps_the_rest(id: TaskId, events: Seq<TaskEvent>, e: TaskEvent)
    requires
        replay_spec(id, events) is Some,
        e.kind is Renamed,
    ensures
        replay_spec(id, events.push(e)) matches Some(after) && {
            let before = replay_spec(id, events).unwrap();
            &&& after.name == e.kind->new_name@
            &&& after.id == before.id
            &&& after.project_id == before.project_id
            &&& after.description == before.description
            &&& after.status_id == before.status_id
            &&& after.closed == before.closed
            &&& after.created_at_millis == before.created_at_millis
        },
{
    lemma_edit_changes_one_field(id, events, e);
}

/// Setting a task's status keeps everything else about it: a closed task
/// stays closed, an open one open, and its name, project and description
/// stay as they were.
pub proof fn lemma_status_change_keeps_the_rest(id: TaskId, events: Seq<TaskEvent>, e: TaskEvent)
    requires
        replay_spec(id, events) is Some,
        e.kind is StatusChanged,
    ensures
        replay_spec(id, events.push(e)) matches Some(after) && {
            let before = replay_spec(id, events).unwrap();
            &&& after.status_id == e.kind->StatusChanged_status_id
            &&& after.closed == before.closed
            &&& after.id == before.id
            &&& after.name == before.name
            &&& after.project_id == before.project_id
            &&& after.description == before.description
            &&& after.created_at_millis == before.created_at_millis
        },
{
    lemma_edit_changes_one_field(id, events, e);
}

} // verus!
