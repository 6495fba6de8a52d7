//! Reconstruct a [`Project`] by folding its events.

use vstd::prelude::*;

use crate::events::project::{ProjectEvent, ProjectEventKind};
use crate::projections::project::{Project, ProjectId, ProjectView};
use crate::shared::id::uuid_millis;

verus! {

/// Whether an event can start a project's history (`created` or `snapshot`).
pub open spec fn is_bootstrap(kind: ProjectEventKind) -> bool {
    kind is Created || kind is Snapshot
}

/// The creation time a snapshot leaves: the one the project already has, or
/// else the snapshot event's own.
pub open spec fn snapshot_created_at(state: Option<ProjectView>, e: ProjectEvent) -> Option<u64> {
    match state {
        Some(p) => match p.created_at_millis {
            Some(t) => Some(t),
            None => uuid_millis(e.id.0),
        },
        None => uuid_millis(e.id.0),
    }
}

/// The effect of one event on a project being rebuilt.
pub open spec fn apply_event(state: Option<ProjectView>, id: ProjectId, e: ProjectEvent) -> Option<ProjectView> {
    match e.kind {
        ProjectEventKind::Created { name } => Some(
            ProjectView { id, name: name@, closed: false, created_at_millis: uuid_millis(e.id.0) },
        ),
        ProjectEventKind::Renamed { new_name } => match state {
            Some(p) => Some(ProjectView { name: new_name@, ..p }),
            None => None,
        },
        ProjectEventKind::Closed => match state {
            Some(p) => Some(ProjectView { closed: true, ..p }),
            None => None,
        },
        ProjectEventKind::Reopened => match state {
            Some(p) => Some(ProjectView { closed: false, ..p }),
            None => None,
        },
        ProjectEventKind::Snapshot { name, closed } => Some(
            ProjectView { id, name: name@, closed, created_at_millis: snapshot_created_at(state, e) },
        ),
    }
}

/// Folds `events`, in order, onto `init`.
pub open spec fn replay_from(init: Option<ProjectView>, id: ProjectId, events: Seq<ProjectEvent>) -> Option<ProjectView>
    decreases events.len(),
{
    if events.len() == 0 {
        init
    } else {
        apply_event(replay_from(init, id, events.drop_last()), id, events.last())
    }
}

/// The project a history rebuilds: `None` unless the history starts with a
/// `created` (or bootstrapping `snapshot`) event.
pub open spec fn replay_spec(id: ProjectId, events: Seq<ProjectEvent>) -> Option<ProjectView> {
    if events.len() == 0 || !is_bootstrap(events[0].kind) {
        None
    } else {
        replay_from(None, id, events)
    }
}

/// Applies one event to a project being rebuilt.
fn apply(state: Option<Project>, id: ProjectId, event: &ProjectEvent) -> (r: Option<Project>)
    ensures
        r.deep_view() == apply_event(state.deep_view(), id, *event),
{
    match &event.kind {
        ProjectEventKind::Created { name } => Some(
            Project {
                id,
                name: name.clone(),
                closed: false,
                created_at_millis: event.created_at_millis(),
            },
        ),
        ProjectEventKind::Renamed { new_name } => match state {
            Some(p) => Some(Project { name: new_name.clone(), ..p }),
            None => None,
        },
        ProjectEventKind::Closed => match state {
            Some(p) => Some(Project { closed: true, ..p }),
            None => None,
        },
        ProjectEventKind::Reopened => match state {
            Some(p) => Some(Project { closed: false, ..p }),
            None => None,
        },
        ProjectEventKind::Snapshot { name, closed } => {
            // Preserve the original creation time if the project already
            // exists; otherwise this snapshot bootstraps it.
            let created_at_millis = match &state {
                Some(p) => match p.created_at_millis {
                    Some(t) => Some(t),
                    None => event.created_at_millis(),
                },
                None => event.created_at_millis(),
            };
            Some(Project { id, name: name.clone(), closed: *closed, created_at_millis })
        },
    }
}

/// Rebuilds a project by folding its events in chronological order.
///
/// Returns `None` if the history does not start with a `created` (or
/// bootstrapping `snapshot`) event.
pub fn replay(id: ProjectId, events: &[ProjectEvent]) -> (r: Option<Project>)
    ensures
        r.deep_view() == replay_spec(id, events@),
        r is None <==> events@.len() == 0 || !is_bootstrap(events@[0].kind),
        r matches Some(p) ==> p.id == id,
{
    if events.len() == 0 {
        return None;
    }
    match &events[0].kind {
        ProjectEventKind::Created { .. } | ProjectEventKind::Snapshot { .. } => {},
        _ => {
            return None;
        },
    }
    let mut project: Option<Project> = None;
    let mut i: usize = 0;
    while i < events.len()
        invariant
            i <= events@.len(),
            events@.len() > 0,
            is_bootstrap(events@[0].kind),
            project.deep_view() == replay_from(None, id, events@.take(i as int)),
            i > 0 ==> project is Some && project.unwrap().id == id,
        decreases events@.len() - i,
    {
        proof {
            assert(events@.take(i + 1).drop_last() =~= events@.take(i as int));
        }
        project = apply(project, id, &events[i]);
        i = i + 1;
    }
    proof {
        assert(events@.take(events@.len() as int) =~= events@);
    }
    project
}

impl Project {
    /// Rebuilds a project by folding its events in chronological order.
    ///
    /// Returns `None` if the history does not start with a `created` (or
    /// bootstrapping `snapshot`) event.
    pub fn replay(id: ProjectId, events: &[ProjectEvent]) -> (r: Option<Project>)
        ensures
            r.deep_view() == replay_spec(id, events@),
    {
        replay(id, events)
    }
}

/// Extending a history that rebuilds a project by one event applies that
/// event to the project: replaying is an incremental fold.
pub proof fn lemma_replay_push(id: ProjectId, events: Seq<ProjectEvent>, e: ProjectEvent)
    requires
        replay_spec(id, events) is Some,
    ensures
        replay_spec(id, events.push(e)) == apply_event(replay_spec(id, events), id, e),
{
    assert(events.push(e).drop_last() =~= events);
    assert(events.push(e)[0] == events[0]);
}

/// Replaying a history that rebuilds a project followed by more events is
/// replaying the further events on top of that project.
pub proof fn lemma_replay_append(id: ProjectId, first: Seq<ProjectEvent>, second: Seq<ProjectEvent>)
    requires
        replay_spec(id, first) is Some,
    ensures
        replay_spec(id, first + second) == replay_from(replay_spec(id, first), id, second),
    decreases second.len(),
{
    if second.len() == 0 {
        assert(first + second =~= first);
    } else {
        lemma_replay_append(id, first, second.drop_last());
        assert((first + second).drop_last() =~= first + second.drop_last());
        assert((first + second)[0] == first[0]);
        assert((first + second.drop_last())[0] == first[0]);
    }
}

/// Once a history rebuilds a project, no later event undoes that: the project
/// still exists after any further events.
pub proof fn lemma_replay_stays_some(id: ProjectId, first: Seq<ProjectEvent>, second: Seq<ProjectEvent>)
    requires
        replay_spec(id, first) is Some,
    ensures
        replay_spec(id, first + second) is Some,
        replay_spec(id, first + second).unwrap().id == id,
    decreases second.len(),
{
    lemma_replay_some_id(id, first);
    if second.len() == 0 {
        assert(first + second =~= first);
    } else {
        lemma_replay_stays_some(id, first, second.drop_last());
        lemma_replay_push(id, first + second.drop_last(), second.last());
        assert((first + second.drop_last()).push(second.last()) =~= first + second);
    }
}

/// A rebuilt project carries the ID it was rebuilt for.
pub proof fn lemma_replay_some_id(id: ProjectId, events: Seq<ProjectEvent>)
    ensures
        replay_spec(id, events) matches Some(p) ==> p.id == id,
{
    if replay_spec(id, events) is Some {
        lemma_replay_from_id(id, events);
    }
}

proof fn lemma_replay_from_id(id: ProjectId, events: Seq<ProjectEvent>)
    requires
        events.len() > 0,
        is_bootstrap(events[0].kind),
    ensures
        replay_from(None, id, events) is Some,
        replay_from(None, id, events).unwrap().id == id,
    decreases events.len(),
{
    if events.len() > 1 {
        lemma_replay_from_id(id, events.drop_last());
    }
}

/// A snapshot on top of an existing project keeps the project's original
/// creation time.
pub proof fn lemma_snapshot_keeps_creation_time(
    id: ProjectId,
    events: Seq<ProjectEvent>,
    snapshot: ProjectEvent,
)
    requires
        replay_spec(id, events) matches Some(p) && p.created_at_millis is Some,
        snapshot.kind is Snapshot,
    ensures
        replay_spec(id, events.push(snapshot)).unwrap().created_at_millis == replay_spec(
            id,
            events,
        ).unwrap().created_at_millis,
{
    lemma_replay_push(id, events, snapshot);
}

/// The name a `created` event gives (empty for any other event).
pub open spec fn created_name(kind: ProjectEventKind) -> Seq<char> {
    match kind {
        ProjectEventKind::Created { name } => name@,
        _ => Seq::empty(),
    }
}

/// The name a history leaves: that of its last `renamed` event, or `first`
/// when there is none.
pub open spec fn latest_name(events: Seq<ProjectEvent>, first: Seq<char>) -> Seq<char>
    decreases events.len(),
{
    if events.len() == 0 {
        first
    } else {
        match events.last().kind {
            ProjectEventKind::Renamed { new_name } => new_name@,
            _ => latest_name(events.drop_last(), first),
        }
    }
}

/// Whether a history leaves the project closed: its last `closed` or
/// `reopened` event is `closed` (open when there is neither).
pub open spec fn latest_closed(events: Seq<ProjectEvent>) -> bool
    decreases events.len(),
{
    if events.len() == 0 {
        false
    } else {
        match events.last().kind {
            ProjectEventKind::Closed => true,
            ProjectEventKind::Reopened => false,
            _ => latest_closed(events.drop_last()),
        }
    }
}

/// Whether only edits (renames, closes and reopens) follow the first event.
pub open spec fn only_edits(events: Seq<ProjectEvent>) -> bool {
    forall|k: int| 1 <= k < events.len() ==> !is_bootstrap(#[trigger] events[k].kind)
}

/// A history that starts with `created` and then only renames, closes and
/// reopens rebuilds the project with that ID and creation time, the name of
/// its last rename (the created name when there is none), and closed exactly
/// when its last close or reopen is a close.
pub proof fn lemma_replay_closed_form(id: ProjectId, events: Seq<ProjectEvent>)
    requires
        events.len() >= 1,
        events[0].kind is Created,
        only_edits(events),
    ensures
        replay_spec(id, events) == Some(
            ProjectView {
                id,
                name: latest_name(events, created_name(events[0].kind)),
                closed: latest_closed(events),
                created_at_millis: uuid_millis(events[0].id.0),
            },
        ),
    decreases events.len(),
{
    if events.len() > 1 {
        let init = events.drop_last();
        assert(init[0] == events[0]);
        assert forall|k: int| 1 <= k < init.len() implies !is_bootstrap(#[trigger] init[k].kind) by {
            assert(init[k] == events[k]);
        }
        lemma_replay_closed_form(id, init);
        assert(events =~= init.push(events.last()));
        lemma_replay_push(id, init, events.last());
        assert(!is_bootstrap(events[events.len() - 1].kind));
        let n = created_name(events[0].kind);
        assert(latest_name(events, n) == match events.last().kind {
            ProjectEventKind::Renamed { new_name } => new_name@,
            _ => latest_name(init, n),
        });
        assert(latest_closed(events) == match events.last().kind {
            ProjectEventKind::Closed => true,
            ProjectEventKind::Reopened => false,
            _ => latest_closed(init),
        });
    } else {
        assert(events.drop_last() =~= Seq::<ProjectEvent>::empty());
        assert(events.last() == events[0]);
        assert(replay_from(None, id, events.drop_last()) == None::<ProjectView>);
        assert(latest_name(events.drop_last(), created_name(events[0].kind)) == created_name(events[0].kind));
        assert(!latest_closed(events.drop_last()));
    }
}

/// Every edit changes exactly one thing about a project it is appended to:
/// a rename only its name, and a close or reopen only whether it is closed.
/// The ID and creation time never change. A snapshot sets every attribute
/// at once and keeps the creation time.
pub proof fn lemma_edit_changes_one_field(id: ProjectId, events: Seq<ProjectEvent>, e: ProjectEvent)
    requires
        replay_spec(id, events) is Some,
    ensures
        ({
            let p = replay_spec(id, events).unwrap();
            let after = replay_spec(id, events.push(e));
            match e.kind {
                ProjectEventKind::Renamed { new_name } => after == Some(ProjectView { name: new_name@, ..p }),
                ProjectEventKind::Closed => after == Some(ProjectView { closed: true, ..p }),
                ProjectEventKind::Reopened => after == Some(ProjectView { closed: false, ..p }),
                ProjectEventKind::Snapshot { name, closed } => after matches Some(a) && a.id == id && a.name
                    == name@ && a.closed == closed && (p.created_at_millis is Some ==> a.created_at_millis
                    == p.created_at_millis),
                _ => true,
            }
        }),
{
    lemma_replay_push(id, events, e);
}

} // verus!
