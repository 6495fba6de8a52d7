//! Views: the pieces of the screens the frontend renders.

use vstd::prelude::*;

use crate::events::envelope::EventKind;
use crate::events::task::{TaskEvent, TaskEventKind};
use crate::projections::status::{Status, StatusId, StatusView};
use crate::shared::id::uuid_millis;
use crate::storage::fs::{path_join, FsEventStore};

verus! {

/// A workspace summary for the header.
#[derive(Debug)]
pub struct WorkspaceView {
    /// The chosen working folder.
    pub root: String,
    /// The `.tasks` directory inside it.
    pub tasks_dir: String,
}

impl WorkspaceView {
    /// The summary of the workspace rooted at `root`.
    pub fn of(root: &str) -> (r: Self)
        ensures
            r.root@ == root@,
            r.tasks_dir@ == FsEventStore::spec_dot_tasks(root@),
    {
        WorkspaceView { root: String::from_str(root), tasks_dir: path_join(root, ".tasks") }
    }
}

/// The last component of a path: what follows its last `/` or `\\` (the
/// whole path when it has neither).
pub open spec fn last_component(path: Seq<char>) -> Seq<char>
    decreases path.len(),
{
    if path.len() == 0 {
        path
    } else if path.last() == '/' || path.last() == '\\' {
        Seq::empty()
    } else {
        last_component(path.drop_last()).push(path.last())
    }
}

/// The folder name of a workspace path, as shown in the recent-workspace
/// menus.
pub fn basename(path: &str) -> (r: String)
    ensures
        r@ == last_component(path@),
{
    let n = path.unicode_len();
    let mut start = n;
    proof {
        assert(path@.take(n as int) =~= path@);
        assert(path@.subrange(n as int, n as int) =~= Seq::<char>::empty());
        assert(last_component(path@) + Seq::<char>::empty() =~= last_component(path@));
    }
    while start > 0 && path.get_char(start - 1) != '/' && path.get_char(start - 1) != '\\'
        invariant
            start <= n,
            n == path@.len(),
            last_component(path@) == last_component(path@.take(start as int)) + path@.subrange(
                start as int,
                n as int,
            ),
        decreases start,
    {
        proof {
            let t = path@.take(start as int);
            assert(t.drop_last() =~= path@.take(start - 1));
            assert(t.last() == path@[start - 1]);
            assert(path@.subrange(start - 1, n as int) =~= seq![path@[start - 1]] + path@.subrange(
                start as int,
                n as int,
            ));
            assert(last_component(t) == last_component(path@.take(start - 1)).push(path@[start - 1]));
            assert(last_component(path@.take(start - 1)).push(path@[start - 1]) + path@.subrange(
                start as int,
                n as int,
            ) =~= last_component(path@.take(start - 1)) + path@.subrange(start - 1, n as int));
        }
        start = start - 1;
    }
    let r = path.substring_char(start, n);
    proof {
        let t = path@.take(start as int);
        if start > 0 {
            assert(t.last() == path@[start - 1]);
        }
        assert(last_component(t) =~= Seq::<char>::empty());
        assert(r@ =~= path@.subrange(start as int, n as int));
    }
    String::from_str(r)
}

/// A summarized event entry for the task detail changelog.
#[derive(Debug)]
pub struct TaskEventView {
    pub id: String,
    pub created_at_millis: Option<u64>,
    /// The event's type tag: "created", "renamed", "moved", "closed",
    /// "reopened", "description_updated", "status_changed" or "snapshot".
    pub kind: String,
    /// The human-relevant detail (the new name of a rename, the project of a
    /// move, the status's name of a status change, and so on).
    pub detail: Option<String>,
}

/// The name of the first status in `statuses` with ID `id`.
pub open spec fn status_name(statuses: Seq<StatusView>, id: StatusId) -> Option<Seq<char>>
    decreases statuses.len(),
{
    if statuses.len() == 0 {
        None
    } else if statuses[0].id == id {
        Some(statuses[0].name)
    } else {
        status_name(statuses.drop_first(), id)
    }
}

/// The detail shown for an event, resolving a status change against the
/// known statuses.
pub open spec fn event_detail(kind: TaskEventKind, statuses: Seq<StatusView>) -> Option<Seq<char>> {
    match kind {
        TaskEventKind::Created { name, .. } => Some(name@),
        TaskEventKind::Renamed { new_name } => Some(new_name@),
        TaskEventKind::Moved { new_project_id } => Some(new_project_id.text()),
        TaskEventKind::Closed => None,
        TaskEventKind::Reopened => None,
        TaskEventKind::DescriptionUpdated { description } => Some(description@),
        TaskEventKind::StatusChanged { status_id } => match status_id {
            Some(id) => status_name(statuses, id),
            None => None,
        },
        TaskEventKind::Snapshot { name, .. } => Some(name@),
    }
}

/// The views of a list of statuses.
pub open spec fn status_views(statuses: Seq<Status>) -> Seq<StatusView> {
    statuses.map_values(|s: Status| s.deep_view())
}

/// The name of the status with ID `id` among `statuses`, if any.
fn find_status_name(statuses: &[Status], id: StatusId) -> (r: Option<String>)
    ensures
        match r {
            Some(n) => status_name(status_views(statuses@), id) == Some(n@),
            None => status_name(status_views(statuses@), id) is None,
        },
{
    let ghost views = status_views(statuses@);
    proof {
        assert(views.skip(0) =~= views);
    }
    let mut i: usize = 0;
    while i < statuses.len()
        invariant
            i <= statuses@.len(),
            views == status_views(statuses@),
            status_name(views, id) == status_name(views.skip(i as int), id),
        decreases statuses@.len() - i,
    {
        proof {
            assert(views.skip(i as int)[0] == statuses@[i as int].deep_view());
            assert(views.skip(i as int).drop_first() =~= views.skip(i + 1));
        }
        if statuses[i].id == id {
            return Some(statuses[i].name.clone());
        }
        i = i + 1;
    }
    proof {
        assert(views.skip(i as int).len() == 0);
    }
    None
}

/// The text of an optional string.
pub open spec fn opt_view(s: Option<String>) -> Option<Seq<char>> {
    match s {
        Some(v) => Some(v@),
        None => None,
    }
}

impl TaskEventView {
    /// Summarizes one event of a task's history, naming the status of a
    /// status change from `statuses`.
    pub fn from_event(event: &TaskEvent, statuses: &[Status]) -> (r: Self)
        ensures
            r.id@ == event.id.text(),
            r.created_at_millis == uuid_millis(event.id.0),
            r.kind@ == event.kind.tag(),
            opt_view(r.detail) == event_detail(event.kind, status_views(statuses@)),
            event.kind matches TaskEventKind::DescriptionUpdated { description } ==> opt_view(r.detail) == Some(
                description@,
            ),
            event.kind matches TaskEventKind::Renamed { new_name } ==> opt_view(r.detail) == Some(new_name@),
            event.kind matches TaskEventKind::Created { name, .. } ==> opt_view(r.detail) == Some(name@),
            event.kind matches TaskEventKind::Snapshot { name, .. } ==> opt_view(r.detail) == Some(name@),
            event.kind matches TaskEventKind::Moved { new_project_id } ==> opt_view(r.detail) == Some(
                new_project_id.text(),
            ),
            event.kind is Closed || event.kind is Reopened ==> r.detail is None,
    {
        let detail = match &event.kind {
            TaskEventKind::Created { name, .. } => Some(name.clone()),
            TaskEventKind::Renamed { new_name } => Some(new_name.clone()),
            TaskEventKind::Moved { new_project_id } => Some(new_project_id.to_string()),
            TaskEventKind::Closed => None,
            TaskEventKind::Reopened => None,
            TaskEventKind::DescriptionUpdated { description } => Some(description.clone()),
            TaskEventKind::StatusChanged { status_id } => match status_id {
                Some(id) => find_status_name(statuses, *id),
                None => None,
            },
            TaskEventKind::Snapshot { name, .. } => Some(name.clone()),
        };
        TaskEventView {
            id: event.id.to_string(),
            created_at_millis: event.created_at_millis(),
            kind: String::from_str(event.kind.event_type()),
            detail,
        }
    }
}

/// The timeline keeps the text an event carries: a task's creation and
/// snapshot show its name, a rename the new name, a description update the
/// description written (so that past versions can be read again), and a
/// move the target project's ID. A close or reopen carries no text, and a
/// cleared status shows none.
pub proof fn lemma_detail_is_the_event_text(kind: TaskEventKind, statuses: Seq<StatusView>)
    ensures
        kind matches TaskEventKind::Created { name, .. } ==> event_detail(kind, statuses) == Some(name@),
        kind matches TaskEventKind::Snapshot { name, .. } ==> event_detail(kind, statuses) == Some(name@),
        kind matches TaskEventKind::Renamed { new_name } ==> event_detail(kind, statuses) == Some(new_name@),
        kind matches TaskEventKind::DescriptionUpdated { description } ==> event_detail(kind, statuses) == Some(
            description@,
        ),
        kind matches TaskEventKind::Moved { new_project_id } ==> event_detail(kind, statuses) == Some(
            new_project_id.text(),
        ),
        kind is Closed || kind is Reopened ==> event_detail(kind, statuses) is None,
        kind matches TaskEventKind::StatusChanged { status_id } && status_id is None ==> event_detail(
            kind,
            statuses,
        ) is None,
{
}

/// A status change is shown by the name of the status it sets: the first
/// status in `statuses` with that ID; when none has it, no name is shown.
pub proof fn lemma_status_name_finds_the_status(statuses: Seq<StatusView>, id: StatusId)
    ensures
        status_name(statuses, id) matches Some(n) ==> exists|k: int|
            0 <= k < statuses.len() && #[trigger] statuses[k].id == id && statuses[k].name == n && forall|j: int|
                0 <= j < k ==> statuses[j].id != id,
        (forall|k: int| 0 <= k < statuses.len() ==> #[trigger] statuses[k].id != id) ==> status_name(statuses, id)
            is None,
    decreases statuses.len(),
{
    if statuses.len() > 0 {
        let rest = statuses.drop_first();
        lemma_status_name_finds_the_status(rest, id);
        if statuses[0].id != id {
            if let Some(n) = status_name(statuses, id) {
                let k = choose|k: int|
                    0 <= k < rest.len() && #[trigger] rest[k].id == id && rest[k].name == n && forall|j: int|
                        0 <= j < k ==> rest[j].id != id;
                assert(statuses[k + 1] == rest[k]);
                assert forall|j: int| 0 <= j < k + 1 implies statuses[j].id != id by {
                    if j > 0 {
                        assert(statuses[j] == rest[j - 1]);
                    }
                }
            }
            if forall|k: int| 0 <= k < statuses.len() ==> #[trigger] statuses[k].id != id {
                assert forall|k: int| 0 <= k < rest.len() implies #[trigger] rest[k].id != id by {
                    assert(rest[k] == statuses[k + 1]);
                }
            }
        } else {
            assert(statuses[0].id == id);
        }
    }
}

} // verus!
