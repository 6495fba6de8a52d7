//! Project commands: the store-backed operations for the project entity.
//!
//! Each write checks that its target exists, appends a single event to the
//! store, and returns the freshly rebuilt [`Project`]. The load/list reads the
//! writes use (and that callers use to serve views) live here too.

use vstd::prelude::*;

use crate::error::{Error, Result};
use crate::events::project::{ProjectEvent, ProjectEventKind, COLLECTION};
use crate::events::store::{insert_event, wrote, EventStore};
use crate::projections::project::{Project, ProjectId, ProjectView};
use crate::reconstruction::project::{apply_event, lemma_replay_push, replay, replay_spec};
use crate::shared::id::{lemma_listed_uuids_order_free, listed_uuids, parse_uuids, uuid_v7_millis, uuid_version, lemma_v7_created_at};
use crate::shared::sort::sort_uuids;
use crate::shared::text::string_views;

verus! {

/// The stored history of project `id`.
pub open spec fn stream_of<S: EventStore<ProjectEventKind>>(store: S, id: ProjectId) -> Seq<ProjectEvent> {
    store.stream(COLLECTION@, id.text())
}

/// The project `id` as the store rebuilds it.
pub open spec fn loaded<S: EventStore<ProjectEventKind>>(store: S, id: ProjectId) -> Option<ProjectView> {
    replay_spec(id, stream_of(store, id))
}

/// Whether `names` lists the project collection of `store`: each listed name
/// once, in some order.
pub open spec fn listing<S: EventStore<ProjectEventKind>>(store: S, names: Seq<Seq<char>>) -> bool {
    names.no_duplicates() && names.to_set() == store.ids(COLLECTION@)
}

/// The projects rebuilt from `uuids`, in that order, keeping those whose
/// `closed` flag is `closed`.
pub open spec fn collect<S: EventStore<ProjectEventKind>>(store: S, uuids: Seq<u128>, closed: bool) -> Seq<ProjectView>
    decreases uuids.len(),
{
    if uuids.len() == 0 {
        Seq::empty()
    } else {
        let prev = collect(store, uuids.drop_last(), closed);
        match loaded(store, ProjectId(uuids.last())) {
            Some(p) => if p.closed == closed {
                prev.push(p)
            } else {
                prev
            },
            None => prev,
        }
    }
}

/// What a write of `e` to an existing project left behind: the event is in
/// the project's stream, and the result is the project rebuilt from it (or
/// `NotCreated` when the new stream no longer starts with a bootstrapping
/// event).
pub open spec fn written<S: EventStore<ProjectEventKind>>(
    before: S,
    after: S,
    id: ProjectId,
    e: ProjectEvent,
    r: Result<Project>,
) -> bool {
    &&& loaded(before, id) is Some
    &&& wrote(before, after, COLLECTION@, id.text(), e)
    &&& (r matches Ok(p) ==> Some(p.deep_view()) == loaded(after, id))
    &&& (r matches Err(Error::NotCreated) ==> loaded(after, id) is None)
}

/// The contract of a write to an existing project: a missing project is
/// reported as `ProjectNotFound` and leaves the store untouched; otherwise one
/// event satisfying `expected` is written and the project rebuilt.
pub open spec fn updated<S: EventStore<ProjectEventKind>>(
    before: S,
    after: S,
    id: ProjectId,
    r: Result<Project>,
    expected: spec_fn(ProjectEvent) -> bool,
) -> bool {
    &&& (r matches Err(Error::ProjectNotFound(x)) ==> x == id && loaded(before, id) is None && after
        == before)
    &&& (before.infallible() ==> (loaded(before, id) is None <==> r matches Err(
        Error::ProjectNotFound(_),
    )))
    &&& (before.infallible() && loaded(before, id) is Some ==> r is Ok || r matches Err(
        Error::NotCreated,
    ))
    &&& ((r is Ok || r matches Err(Error::NotCreated)) ==> exists|e: ProjectEvent|
        #[trigger] written(before, after, id, e, r) && expected(e))
    &&& (r matches Err(e) ==> e is ProjectNotFound || e is NotCreated || e is Io || e is Serde)
}

/// Whether `e` is a fresh `created` event naming the project `name`.
pub open spec fn creates(e: ProjectEvent, name: Seq<char>) -> bool {
    &&& e.kind matches ProjectEventKind::Created { name: n } && n@ == name
    &&& uuid_version(e.id.0) == 7
}

/// Create a project by appending its `created` event, returning the rebuilt
/// project.
pub fn create<S: EventStore<ProjectEventKind>>(store: &mut S, name: &str) -> (r: Result<Project>)
    ensures
        old(store).infallible() ==> r is Ok,
        r matches Err(e) ==> e is Io || e is Serde,
        r matches Ok(p) ==> uuid_version(p.id.0) == 7 && (exists|e: ProjectEvent| #[trigger]
            wrote(*old(store), *final(store), COLLECTION@, p.id.text(), e) && creates(e, name@)
                && p.deep_view() == (ProjectView {
                id: p.id,
                name: name@,
                closed: false,
                created_at_millis: Some(uuid_v7_millis(e.id.0) as u64),
            })),
        r matches Ok(p) ==> (stream_of(*old(store), p.id).len() == 0 ==> loaded(*final(store), p.id) == Some(
            p.deep_view(),
        )),
{
    let id = ProjectId::new();
    let event = ProjectEvent::new(ProjectEventKind::Created { name: String::from_str(name) });
    let id_text = id.to_string();
    match store.append(COLLECTION, id_text.as_str(), &event) {
        Ok(()) => {},
        Err(e) => {
            return Err(e);
        },
    }
    let events = vec![event.clone()];
    proof {
        assert(events@ =~= seq![event]);
        assert(events@.drop_last() =~= Seq::<ProjectEvent>::empty());
        lemma_v7_created_at(event.id.0);
        assert(wrote(*old(store), *store, COLLECTION@, id.text(), event));
    }
    match replay(id, events.as_slice()) {
        Some(p) => Ok(p),
        None => Err(Error::NotCreated),
    }
}

/// Writes `event` to the stream of the existing project `id` and rebuilds it.
fn write_and_reload<S: EventStore<ProjectEventKind>>(store: &mut S, id: ProjectId, event: &ProjectEvent) -> (r: Result<Project>)
    requires
        loaded(*old(store), id) is Some,
    ensures
        old(store).infallible() ==> r is Ok || r matches Err(Error::NotCreated),
        (r is Ok || r matches Err(Error::NotCreated)) ==> written(*old(store), *final(store), id, *event, r),
        r matches Err(e) ==> e is NotCreated || e is Io || e is Serde,
{
    let id_text = id.to_string();
    match store.append(COLLECTION, id_text.as_str(), event) {
        Ok(()) => {},
        Err(e) => {
            return Err(e);
        },
    }
    match load(&*store, id) {
        Ok(Some(p)) => Ok(p),
        Ok(None) => Err(Error::NotCreated),
        Err(e) => Err(e),
    }
}

/// Rename a project, returning the rebuilt project.
///
/// Fails with [`Error::ProjectNotFound`] if the project doesn't exist.
pub fn rename<S: EventStore<ProjectEventKind>>(store: &mut S, id: ProjectId, new_name: &str) -> (r: Result<Project>)
    ensures
        updated(
            *old(store),
            *final(store),
            id,
            r,
            |e: ProjectEvent|
                e.kind matches ProjectEventKind::Renamed { new_name: n } && n@ == new_name@
                    && uuid_version(e.id.0) == 7,
        ),
{
    match load(&*store, id) {
        Ok(Some(_)) => {},
        Ok(None) => {
            return Err(Error::ProjectNotFound(id));
        },
        Err(e) => {
            return Err(e);
        },
    }
    let event = ProjectEvent::new(ProjectEventKind::Renamed { new_name: String::from_str(new_name) });
    let ghost before = *store;
    let r = write_and_reload(store, id, &event);
    proof {
        if r is Ok || r matches Err(Error::NotCreated) {
            assert(written(before, *store, id, event, r));
        }
    }
    r
}

/// Close (archive) a project, returning the rebuilt project.
///
/// Fails with [`Error::ProjectNotFound`] if the project doesn't exist.
pub fn close<S: EventStore<ProjectEventKind>>(store: &mut S, id: ProjectId) -> (r: Result<Project>)
    ensures
        updated(
            *old(store),
            *final(store),
            id,
            r,
            |e: ProjectEvent| e.kind is Closed && uuid_version(e.id.0) == 7,
        ),
{
    match load(&*store, id) {
        Ok(Some(_)) => {},
        Ok(None) => {
            return Err(Error::ProjectNotFound(id));
        },
        Err(e) => {
            return Err(e);
        },
    }
    let event = ProjectEvent::new(ProjectEventKind::Closed);
    let ghost before = *store;
    let r = write_and_reload(store, id, &event);
    proof {
        if r is Ok || r matches Err(Error::NotCreated) {
            assert(written(before, *store, id, event, r));
        }
    }
    r
}

/// Reopen a closed project, returning the rebuilt project.
///
/// Fails with [`Error::ProjectNotFound`] if the project doesn't exist.
pub fn reopen<S: EventStore<ProjectEventKind>>(store: &mut S, id: ProjectId) -> (r: Result<Project>)
    ensures
        updated(
            *old(store),
            *final(store),
            id,
            r,
            |e: ProjectEvent| e.kind is Reopened && uuid_version(e.id.0) == 7,
        ),
{
    match load(&*store, id) {
        Ok(Some(_)) => {},
        Ok(None) => {
            return Err(Error::ProjectNotFound(id));
        },
        Err(e) => {
            return Err(e);
        },
    }
    let event = ProjectEvent::new(ProjectEventKind::Reopened);
    let ghost before = *store;
    let r = write_and_reload(store, id, &event);
    proof {
        if r is Ok || r matches Err(Error::NotCreated) {
            assert(written(before, *store, id, event, r));
        }
    }
    r
}

/// Load a single project, or `None` if its stored history rebuilds none.
pub fn load<S: EventStore<ProjectEventKind>>(store: &S, id: ProjectId) -> (r: Result<Option<Project>>)
    ensures
        store.infallible() ==> r is Ok,
        r matches Err(e) ==> e is Io || e is Serde,
        r matches Ok(o) ==> o.deep_view() == loaded(*store, id),
{
    let id_text = id.to_string();
    let events = match store.read(COLLECTION, id_text.as_str()) {
        Ok(events) => events,
        Err(e) => {
            return Err(e);
        },
    };
    if events.len() == 0 {
        return Ok(None);
    }
    Ok(replay(id, events.as_slice()))
}

/// List every open (non-closed) project in the store, oldest first.
pub fn list<S: EventStore<ProjectEventKind>>(store: &S) -> (r: Result<Vec<Project>>)
    ensures
        store.infallible() ==> r is Ok,
        r matches Err(e) ==> e is Io || e is Serde,
        r matches Ok(v) ==> exists|names: Seq<Seq<char>>| #[trigger]
            listing(*store, names) && v.deep_view() == collect(
                *store,
                listed_uuids(names, "project_"@),
                false,
            ),
{
    list_where(store, false)
}

/// List every closed (archived) project in the store, oldest first.
pub fn list_closed<S: EventStore<ProjectEventKind>>(store: &S) -> (r: Result<Vec<Project>>)
    ensures
        store.infallible() ==> r is Ok,
        r matches Err(e) ==> e is Io || e is Serde,
        r matches Ok(v) ==> exists|names: Seq<Seq<char>>| #[trigger]
            listing(*store, names) && v.deep_view() == collect(
                *store,
                listed_uuids(names, "project_"@),
                true,
            ),
{
    list_where(store, true)
}

/// The projects of the store, oldest first, whose `closed` flag is `closed`.
fn list_where<S: EventStore<ProjectEventKind>>(store: &S, closed: bool) -> (r: Result<Vec<Project>>)
    ensures
        store.infallible() ==> r is Ok,
        r matches Err(e) ==> e is Io || e is Serde,
        r matches Ok(v) ==> exists|names: Seq<Seq<char>>| #[trigger]
            listing(*store, names) && v.deep_view() == collect(
                *store,
                listed_uuids(names, "project_"@),
                closed,
            ),
{
    let names = match store.list_ids(COLLECTION) {
        Ok(names) => names,
        Err(e) => {
            return Err(e);
        },
    };
    let parsed = parse_uuids(&names, "project_");
    let uuids = sort_uuids(&parsed);
    let mut projects: Vec<Project> = Vec::new();
    let mut i: usize = 0;
    while i < uuids.len()
        invariant
            i <= uuids@.len(),
            store.infallible() ==> true,
            projects.deep_view() == collect(*store, uuids@.take(i as int), closed),
        decreases uuids@.len() - i,
    {
        proof {
            assert(uuids@.take(i + 1).drop_last() =~= uuids@.take(i as int));
            assert(uuids@.take(i + 1).last() == uuids@[i as int]);
        }
        match load(store, ProjectId(uuids[i])) {
            Ok(Some(p)) => {
                if p.closed == closed {
                    let ghost before = projects.deep_view();
                    projects.push(p);
                    proof {
                        assert(projects.deep_view() =~= before.push(p.deep_view()));
                    }
                }
            },
            Ok(None) => {},
            Err(e) => {
                return Err(e);
            },
        }
        i = i + 1;
    }
    proof {
        assert(uuids@.take(uuids@.len() as int) =~= uuids@);
        assert(listing(*store, string_views(names@)));
    }
    Ok(projects)
}

/// Whether a project with `id` exists in the store.
pub fn is_present<S: EventStore<ProjectEventKind>>(store: &S, id: ProjectId) -> (r: Result<bool>)
    ensures
        store.infallible() ==> r is Ok,
        r matches Err(e) ==> e is Io || e is Serde,
        r matches Ok(b) ==> b == loaded(*store, id) is Some,
{
    match load(store, id) {
        Ok(o) => Ok(o.is_some()),
        Err(e) => Err(e),
    }
}

/// Creating a project on a store that holds nothing for its ID, then loading
/// it, gives back the project the `created` event describes.
pub proof fn lemma_create_then_load<S: EventStore<ProjectEventKind>>(before: S, after: S, id: ProjectId, e: ProjectEvent)
    requires
        stream_of(before, id).len() == 0,
        wrote(before, after, COLLECTION@, id.text(), e),
        e.kind is Created,
    ensures
        loaded(after, id) == apply_event(None, id, e),
        loaded(after, id) matches Some(p) && p.id == id && !p.closed,
{
    assert(insert_event(stream_of(before, id), e) =~= seq![e]);
    assert(seq![e].drop_last() =~= Seq::<ProjectEvent>::empty());
}

/// Closing a project and then reopening it leaves it as it was, but open;
/// in between it is closed.
pub proof fn lemma_reopen_undoes_close(
    id: ProjectId,
    events: Seq<ProjectEvent>,
    close: ProjectEvent,
    reopen: ProjectEvent,
)
    requires
        replay_spec(id, events) is Some,
        close.kind is Closed,
        reopen.kind is Reopened,
    ensures
        replay_spec(id, events.push(close)) == Some(
            ProjectView { closed: true, ..replay_spec(id, events).unwrap() },
        ),
        replay_spec(id, events.push(close).push(reopen)) == Some(
            ProjectView { closed: false, ..replay_spec(id, events).unwrap() },
        ),
{
    lemma_replay_push(id, events, close);
    lemma_replay_push(id, events.push(close), reopen);
}

/// The two lists split the projects: every project `collect` keeps has the
/// requested `closed` flag, and every project the IDs rebuild is kept by the
/// list for its own flag.
pub proof fn lemma_lists_partition<S: EventStore<ProjectEventKind>>(store: S, uuids: Seq<u128>, closed: bool)
    ensures
        forall|k: int| 0 <= k < collect(store, uuids, closed).len() ==> (#[trigger] collect(
            store,
            uuids,
            closed,
        )[k]).closed == closed,
        forall|i: int|
            0 <= i < uuids.len() && #[trigger] loaded(store, ProjectId(uuids[i])) is Some ==> collect(
                store,
                uuids,
                loaded(store, ProjectId(uuids[i])).unwrap().closed,
            ).contains(loaded(store, ProjectId(uuids[i])).unwrap()),
    decreases uuids.len(),
{
    if uuids.len() > 0 {
        let t = uuids.drop_last();
        lemma_lists_partition(store, t, closed);
        lemma_lists_partition(store, t, true);
        lemma_lists_partition(store, t, false);
        assert forall|i: int|
            0 <= i < uuids.len() && #[trigger] loaded(store, ProjectId(uuids[i])) is Some implies collect(
                store,
                uuids,
                loaded(store, ProjectId(uuids[i])).unwrap().closed,
            ).contains(loaded(store, ProjectId(uuids[i])).unwrap()) by {
            let p = loaded(store, ProjectId(uuids[i])).unwrap();
            let prev = collect(store, t, p.closed);
            if i < t.len() {
                assert(t[i] == uuids[i]);
                assert(prev.contains(p));
                let k = choose|k: int| 0 <= k < prev.len() && prev[k] == p;
                let cur = collect(store, uuids, p.closed);
                assert(cur == prev || cur == prev.push(loaded(store, ProjectId(uuids.last())).unwrap()));
                assert(cur[k] == p);
            } else {
                assert(uuids.last() == uuids[i]);
                let cur = collect(store, uuids, p.closed);
                assert(cur == prev.push(p));
                assert(cur[prev.len() as int] == p);
            }
        }
    }
}

/// [`list`] and [`list_closed`] split the projects between them: whichever
/// listing of the store each answers from, both use the same IDs, so no
/// project is in both answers and every project those IDs rebuild is in one.
pub proof fn lemma_list_and_list_closed_split<S: EventStore<ProjectEventKind>>(
    store: S,
    open_names: Seq<Seq<char>>,
    closed_names: Seq<Seq<char>>,
)
    requires
        listing(store, open_names),
        listing(store, closed_names),
    ensures
        listed_uuids(closed_names, "project_"@) == listed_uuids(open_names, "project_"@),
        forall|p: ProjectView|
            #[trigger] collect(store, listed_uuids(open_names, "project_"@), false).contains(p) ==> !collect(
                store,
                listed_uuids(open_names, "project_"@),
                true,
            ).contains(p),
        forall|i: int|
            0 <= i < listed_uuids(open_names, "project_"@).len() && #[trigger] loaded(
                store,
                ProjectId(listed_uuids(open_names, "project_"@)[i]),
            ) is Some ==> {
                let p = loaded(store, ProjectId(listed_uuids(open_names, "project_"@)[i])).unwrap();
                collect(store, listed_uuids(open_names, "project_"@), false).contains(p) || collect(
                    store,
                    listed_uuids(open_names, "project_"@),
                    true,
                ).contains(p)
            },
{
    let uuids = listed_uuids(open_names, "project_"@);
    lemma_listed_uuids_order_free(closed_names, open_names, "project_"@);
    lemma_lists_partition(store, uuids, false);
    lemma_lists_partition(store, uuids, true);
    assert forall|p: ProjectView| #[trigger] collect(store, uuids, false).contains(p) implies !collect(
        store,
        uuids,
        true,
    ).contains(p) by {
        let k = choose|k: int| 0 <= k < collect(store, uuids, false).len() && collect(store, uuids, false)[k] == p;
        if collect(store, uuids, true).contains(p) {
            let j = choose|j: int| 0 <= j < collect(store, uuids, true).len() && collect(store, uuids, true)[j] == p;
            assert(collect(store, uuids, true)[j].closed);
            assert(!collect(store, uuids, false)[k].closed);
        }
    }
}

} // verus!
