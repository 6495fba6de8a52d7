//! Status commands: the store-backed operations for the status entity.
//!
//! Statuses are workspace-level and ship with built-in seeds (see
//! [`storage::seeds`](crate::storage::seeds)). Seeds are never stored; the
//! storage layer overlays them at read time, so a command can rename or
//! remove a seed exactly like a user-created status: it just appends an
//! ordinary mutation event, and the seed snapshot is overlaid again on the
//! next load. Reads here go through [`load_stream`]/[`stream_ids`] so seeds are
//! always present; the seed-blind reconstruction fold turns the assembled
//! stream into a [`Status`].

use vstd::prelude::*;

use crate::error::{Error, Result};
use crate::events::status::{StatusEvent, StatusEventKind, COLLECTION};
use crate::events::store::{key_lt, lemma_insert_last, lists, wrote, EventStore};
use crate::projections::status::{clone_opt_string, opt_text, Status, StatusId, StatusKind, StatusView};
use crate::reconstruction::status::{
    apply_event, lemma_base_is_leading_snapshot, replay, replay_base_spec, replay_from, replay_spec,
    seed_default, seed_slug_views,
};
use crate::shared::id::{lemma_listed_uuids_order_free, listed_uuids, uuid_v7_millis, uuid_version, lemma_v7_created_at};
use crate::storage::seeds::{dedup, id_uuids, is_seed_event, load_stream, seed_match, seed_uuids, stream_ids, Seeded};

verus! {

/// The stored history of status `id` (without any seed).
pub open spec fn stored<S: EventStore<StatusEventKind>>(store: S, id: StatusId) -> Seq<StatusEvent> {
    store.stream(COLLECTION@, id.text())
}

/// Whether `id` is the ID of a seed status.
pub open spec fn is_seed(id: StatusId) -> bool {
    seed_match(seed_slug_views(), id.0) is Some
}

/// The status `id` as the store rebuilds it: a seed's default with its stored
/// events folded on top, or else what its stored history rebuilds.
pub open spec fn loaded<S: EventStore<StatusEventKind>>(store: S, id: StatusId) -> Option<StatusView> {
    match seed_match(seed_slug_views(), id.0) {
        Some(slug) => replay_from(Some(seed_default(id, slug)), id, stored(store, id)),
        None => replay_spec(id, stored(store, id)),
    }
}

/// The statuses rebuilt from `uuids`, in that order, keeping those whose
/// `removed` flag is `removed`.
pub open spec fn collect<S: EventStore<StatusEventKind>>(store: S, uuids: Seq<u128>, removed: bool) -> Seq<StatusView>
    decreases uuids.len(),
{
    if uuids.len() == 0 {
        Seq::empty()
    } else {
        let prev = collect(store, uuids.drop_last(), removed);
        match loaded(store, StatusId(uuids.last())) {
            Some(s) => if s.removed == removed {
                prev.push(s)
            } else {
                prev
            },
            None => prev,
        }
    }
}

/// The UUIDs of every status in canonical order: the seeds in slug order,
/// then the listed names that parse as status IDs, oldest first, each once.
pub open spec fn canonical_uuids(names: Seq<Seq<char>>) -> Seq<u128> {
    dedup(seed_uuids(seed_slug_views()) + listed_uuids(names, "status_"@))
}

/// Whether `e` is a fresh `created` event with these attributes.
pub open spec fn creates(
    e: StatusEvent,
    name: Seq<char>,
    kind: StatusKind,
    description: Option<Seq<char>>,
) -> bool {
    &&& e.kind matches StatusEventKind::Created { name: n, kind: k, description: d } && n@ == name
        && k == kind && opt_text(d) == description
    &&& uuid_version(e.id.0) == 7
}

/// What a write of `e` to an existing status left behind: the event is in
/// the status's stream, and the result is the status rebuilt from it (or
/// `NotCreated` when the new stream no longer rebuilds one).
pub open spec fn written<S: EventStore<StatusEventKind>>(
    before: S,
    after: S,
    id: StatusId,
    e: StatusEvent,
    r: Result<Status>,
) -> bool {
    &&& loaded(before, id) is Some
    &&& wrote(before, after, COLLECTION@, id.text(), e)
    &&& (r matches Ok(s) ==> Some(s.deep_view()) == loaded(after, id))
    &&& (r matches Err(Error::NotCreated) ==> loaded(after, id) is None)
}

/// The contract of a write to an existing status: a missing status is
/// reported as `StatusNotFound` and leaves the store untouched; otherwise one
/// event satisfying `expected` is written and the status rebuilt.
pub open spec fn updated<S: EventStore<StatusEventKind>>(
    before: S,
    after: S,
    id: StatusId,
    r: Result<Status>,
    expected: spec_fn(StatusEvent) -> bool,
) -> bool {
    &&& (r matches Err(Error::StatusNotFound(x)) ==> x == id && loaded(before, id) is None && after
        == before)
    &&& (before.infallible() ==> (loaded(before, id) is None <==> r matches Err(
        Error::StatusNotFound(_),
    )))
    &&& (before.infallible() && loaded(before, id) is Some ==> r is Ok || r matches Err(
        Error::NotCreated,
    ))
    &&& ((r is Ok || r matches Err(Error::NotCreated)) ==> exists|e: StatusEvent|
        #[trigger] written(before, after, id, e, r) && expected(e))
    &&& (r matches Err(e) ==> e is StatusNotFound || e is NotCreated || e is Io || e is Serde)
}

/// A seed's stream folds to the seed default with the stored events on top.
proof fn lemma_seed_stream(id: StatusId, slug: Seq<char>, events: Seq<StatusEvent>, stored_events: Seq<StatusEvent>)
    requires
        events.len() > 0,
        is_seed_event::<Status>(slug, events[0]),
        events.drop_first() == stored_events,
    ensures
        replay_spec(id, events) == replay_from(Some(seed_default(id, slug)), id, stored_events),
{
    let e0 = events[0];
    assert(events =~= seq![e0] + stored_events);
    lemma_base_is_leading_snapshot(id, e0, stored_events);
    assert(apply_event(None, id, e0) == Some(seed_default(id, slug)));
}

/// Create a user-defined status, returning the rebuilt status.
pub fn create<S: EventStore<StatusEventKind>>(
    store: &mut S,
    name: &str,
    kind: StatusKind,
    description: Option<&str>,
) -> (r: Result<Status>)
    ensures
        old(store).infallible() ==> r is Ok,
        r matches Err(e) ==> e is Io || e is Serde,
        r matches Ok(s) ==> uuid_version(s.id.0) == 7 && (exists|e: StatusEvent| #[trigger]
            wrote(*old(store), *final(store), COLLECTION@, s.id.text(), e) && creates(
                e,
                name@,
                kind,
                match description {
                    Some(d) => Some(d@),
                    None => None,
                },
            ) && s.deep_view() == (StatusView {
                id: s.id,
                name: name@,
                kind,
                description: match description {
                    Some(d) => Some(d@),
                    None => None,
                },
                removed: false,
                created_at_millis: Some(uuid_v7_millis(e.id.0) as u64),
            })),
        r matches Ok(s) ==> (stored(*old(store), s.id).len() == 0 ==> loaded(*final(store), s.id) == Some(
            s.deep_view(),
        )),
{
    let id = StatusId::new();
    let description = match description {
        Some(d) => Some(String::from_str(d)),
        None => None,
    };
    let event = StatusEvent::new(StatusEventKind::Created { name: String::from_str(name), kind, description });
    let id_text = id.to_string();
    match store.append(COLLECTION, id_text.as_str(), &event) {
        Ok(()) => {},
        Err(e) => {
            return Err(e);
        },
    }
    let events = vec![event.clone()];
    proof {
        assert(events@ =~= seq![event]);
        assert(events@.drop_last() =~= Seq::<StatusEvent>::empty());
        lemma_v7_created_at(event.id.0);
        assert(wrote(*old(store), *store, COLLECTION@, id.text(), event));
    }
    match replay(id, events.as_slice()) {
        Some(s) => Ok(s),
        None => Err(Error::NotCreated),
    }
}

/// Writes `event` to the stream of the existing status `id` and rebuilds it.
fn write_and_reload<S: EventStore<StatusEventKind>>(store: &mut S, id: StatusId, event: &StatusEvent) -> (r: Result<Status>)
    requires
        loaded(*old(store), id) is Some,
    ensures
        old(store).infallible() ==> r is Ok || r matches Err(Error::NotCreated),
        (r is Ok || r matches Err(Error::NotCreated)) ==> written(*old(store), *final(store), id, *event, r),
        r matches Err(e) ==> e is NotCreated || e is Io || e is Serde,
{
    let id_text = id.to_string();
    match store.append(COLLECTION, id_text.as_str(), event) {
        Ok(()) => {},
        Err(e) => {
            return Err(e);
        },
    }
    match load(&*store, id) {
        Ok(Some(s)) => Ok(s),
        Ok(None) => Err(Error::NotCreated),
        Err(e) => Err(e),
    }
}

/// Checks that status `id` exists before a write.
fn require_status<S: EventStore<StatusEventKind>>(store: &S, id: StatusId) -> (r: Result<()>)
    ensures
        store.infallible() ==> (r is Ok <==> loaded(*store, id) is Some),
        r is Ok ==> loaded(*store, id) is Some,
        r matches Err(Error::StatusNotFound(x)) ==> x == id && loaded(*store, id) is None,
        r matches Err(e) ==> e is StatusNotFound || e is Io || e is Serde,
        store.infallible() ==> (r is Ok || r matches Err(Error::StatusNotFound(_))),
{
    match load(store, id) {
        Ok(Some(_)) => Ok(()),
        Ok(None) => Err(Error::StatusNotFound(id)),
        Err(e) => Err(e),
    }
}

/// Rename a status, returning the rebuilt status. Works for seeds and
/// user-created statuses alike.
///
/// Fails with [`Error::StatusNotFound`] if the status doesn't exist.
pub fn rename<S: EventStore<StatusEventKind>>(store: &mut S, id: StatusId, new_name: &str) -> (r: Result<Status>)
    ensures
        updated(
            *old(store),
            *final(store),
            id,
            r,
            |e: StatusEvent|
                e.kind matches StatusEventKind::Renamed { new_name: n } && n@ == new_name@
                    && uuid_version(e.id.0) == 7,
        ),
{
    match require_status(&*store, id) {
        Ok(()) => {},
        Err(e) => {
            return Err(e);
        },
    }
    let event = StatusEvent::new(StatusEventKind::Renamed { new_name: String::from_str(new_name) });
    let ghost before = *store;
    let r = write_and_reload(store, id, &event);
    proof {
        if r is Ok || r matches Err(Error::NotCreated) {
            assert(written(before, *store, id, event, r));
        }
    }
    r
}

/// Update a status's description; pass `None` to clear it.
///
/// Fails with [`Error::StatusNotFound`] if the status doesn't exist.
pub fn update_description<S: EventStore<StatusEventKind>>(
    store: &mut S,
    id: StatusId,
    description: Option<&str>,
) -> (r: Result<Status>)
    ensures
        updated(
            *old(store),
            *final(store),
            id,
            r,
            |e: StatusEvent|
                e.kind matches StatusEventKind::DescriptionUpdated { description: d } && opt_text(d)
                    == (match description {
                    Some(t) => Some(t@),
                    None => None,
                }) && uuid_version(e.id.0) == 7,
        ),
{
    match require_status(&*store, id) {
        Ok(()) => {},
        Err(e) => {
            return Err(e);
        },
    }
    let description = match description {
        Some(d) => Some(String::from_str(d)),
        None => None,
    };
    let event = StatusEvent::new(StatusEventKind::DescriptionUpdated { description });
    let ghost before = *store;
    let r = write_and_reload(store, id, &event);
    proof {
        if r is Ok || r matches Err(Error::NotCreated) {
            assert(written(before, *store, id, event, r));
        }
    }
    r
}

/// Change the semantic kind of a status, returning the rebuilt status.
///
/// Fails with [`Error::StatusNotFound`] if the status doesn't exist.
pub fn change_kind<S: EventStore<StatusEventKind>>(store: &mut S, id: StatusId, new_kind: StatusKind) -> (r: Result<Status>)
    ensures
        updated(
            *old(store),
            *final(store),
            id,
            r,
            |e: StatusEvent|
                e.kind == (StatusEventKind::KindChanged { new_kind }) && uuid_version(e.id.0) == 7,
        ),
{
    match require_status(&*store, id) {
        Ok(()) => {},
        Err(e) => {
            return Err(e);
        },
    }
    let event = StatusEvent::new(StatusEventKind::KindChanged { new_kind });
    let ghost before = *store;
    let r = write_and_reload(store, id, &event);
    proof {
        if r is Ok || r matches Err(Error::NotCreated) {
            assert(written(before, *store, id, event, r));
        }
    }
    r
}

/// Soft-remove a status. Its history is preserved; the status drops out of
/// [`list`] and shows up in [`list_removed`].
///
/// Fails with [`Error::StatusNotFound`] if the status doesn't exist.
pub fn remove<S: EventStore<StatusEventKind>>(store: &mut S, id: StatusId) -> (r: Result<Status>)
    ensures
        updated(
            *old(store),
            *final(store),
            id,
            r,
            |e: StatusEvent| e.kind is Removed && uuid_version(e.id.0) == 7,
        ),
{
    match require_status(&*store, id) {
        Ok(()) => {},
        Err(e) => {
            return Err(e);
        },
    }
    let event = StatusEvent::new(StatusEventKind::Removed);
    let ghost before = *store;
    let r = write_and_reload(store, id, &event);
    proof {
        if r is Ok || r matches Err(Error::NotCreated) {
            assert(written(before, *store, id, event, r));
        }
    }
    r
}

/// Load a single status, or `None` if it is neither a seed nor stored.
///
/// Seeds are overlaid by [`load_stream`], so a seed with nothing written for
/// it still loads as its default.
pub fn load<S: EventStore<StatusEventKind>>(store: &S, id: StatusId) -> (r: Result<Option<Status>>)
    ensures
        store.infallible() ==> r is Ok,
        r matches Err(e) ==> e is Io || e is Serde,
        r matches Ok(o) ==> o.deep_view() == loaded(*store, id),
{
    let events = match load_stream::<Status, S>(store, id) {
        Ok(events) => events,
        Err(e) => {
            return Err(e);
        },
    };
    proof {
        match seed_match(seed_slug_views(), id.0) {
            Some(slug) => {
                lemma_seed_stream(id, slug, events@, stored(*store, id));
            },
            None => {},
        }
    }
    if events.len() == 0 {
        return Ok(None);
    }
    Ok(replay(id, events.as_slice()))
}

/// List active (non-removed) statuses: seeds first in canonical order, then
/// user-created ones oldest first.
pub fn list<S: EventStore<StatusEventKind>>(store: &S) -> (r: Result<Vec<Status>>)
    ensures
        store.infallible() ==> r is Ok,
        r matches Err(e) ==> e is Io || e is Serde,
        r matches Ok(v) ==> exists|names: Seq<Seq<char>>| #[trigger]
            lists(*store, COLLECTION@, names) && v.deep_view() == collect(
                *store,
                canonical_uuids(names),
                false,
            ),
{
    list_where(store, false)
}

/// List removed statuses, in the same seeds-first order.
pub fn list_removed<S: EventStore<StatusEventKind>>(store: &S) -> (r: Result<Vec<Status>>)
    ensures
        store.infallible() ==> r is Ok,
        r matches Err(e) ==> e is Io || e is Serde,
        r matches Ok(v) ==> exists|names: Seq<Seq<char>>| #[trigger]
            lists(*store, COLLECTION@, names) && v.deep_view() == collect(
                *store,
                canonical_uuids(names),
                true,
            ),
{
    list_where(store, true)
}

/// Every status whose `removed` flag is `removed`, in canonical (seeds-first)
/// order.
fn list_where<S: EventStore<StatusEventKind>>(store: &S, removed: bool) -> (r: Result<Vec<Status>>)
    ensures
        store.infallible() ==> r is Ok,
        r matches Err(e) ==> e is Io || e is Serde,
        r matches Ok(v) ==> exists|names: Seq<Seq<char>>| #[trigger]
            lists(*store, COLLECTION@, names) && v.deep_view() == collect(
                *store,
                canonical_uuids(names),
                removed,
            ),
{
    let ids = match stream_ids::<Status, S>(store) {
        Ok(ids) => ids,
        Err(e) => {
            return Err(e);
        },
    };
    let ghost names = choose|names: Seq<Seq<char>>| #[trigger]
        lists(*store, <Status as Seeded>::spec_collection(), names) && id_uuids::<Status>(ids@) == dedup(
            seed_uuids(<Status as Seeded>::slugs()) + listed_uuids(names, <Status as Seeded>::spec_id_prefix()),
        );
    proof {
    }
    let ghost uuids = canonical_uuids(names);
    let mut statuses: Vec<Status> = Vec::new();
    let mut i: usize = 0;
    while i < ids.len()
        invariant
            i <= ids@.len(),
            id_uuids::<Status>(ids@) == uuids,
            statuses.deep_view() == collect(*store, uuids.take(i as int), removed),
        decreases ids@.len() - i,
    {
        let id = ids[i];
        proof {
            assert(uuids.take(i + 1).drop_last() =~= uuids.take(i as int));
            assert(uuids.take(i + 1).last() == uuids[i as int]);
            assert(uuids[i as int] == id.0);
            assert(StatusId(uuids[i as int]) == id);
        }
        match load(store, id) {
            Ok(Some(s)) => {
                if s.removed == removed {
                    let ghost before = statuses.deep_view();
                    statuses.push(s);
                    proof {
                        assert(statuses.deep_view() =~= before.push(s.deep_view()));
                    }
                }
            },
            Ok(None) => {},
            Err(e) => {
                return Err(e);
            },
        }
        i = i + 1;
    }
    proof {
        assert(uuids.take(ids@.len() as int) =~= uuids);
        assert(lists(*store, COLLECTION@, names));
    }
    Ok(statuses)
}

/// Whether an active (non-removed) status with `id` exists.
pub fn is_present<S: EventStore<StatusEventKind>>(store: &S, id: StatusId) -> (r: Result<bool>)
    ensures
        store.infallible() ==> r is Ok,
        r matches Err(e) ==> e is Io || e is Serde,
        r matches Ok(b) ==> b == (loaded(*store, id) matches Some(s) && !s.removed),
{
    match load(store, id) {
        Ok(Some(s)) => Ok(!s.removed),
        Ok(None) => Ok(false),
        Err(e) => Err(e),
    }
}

/// A seed with nothing stored for it loads as its default: its name and
/// kind, no description, not removed, and no creation time.
pub proof fn lemma_seed_without_events_is_default<S: EventStore<StatusEventKind>>(store: S, id: StatusId)
    requires
        is_seed(id),
        stored(store, id).len() == 0,
    ensures
        loaded(store, id) == Some(seed_default(id, seed_match(seed_slug_views(), id.0).unwrap())),
{
}

/// Statuses are never empty, even on a fresh workspace: with nothing stored
/// for any seed, every seed is listed as an active status, in canonical
/// order, and there is at least one.
pub proof fn lemma_fresh_store_lists_seeds<S: EventStore<StatusEventKind>>(store: S)
    requires
        forall|u: u128| #[trigger] stored(store, StatusId(u)).len() == 0,
    ensures
        collect(store, dedup(seed_uuids(seed_slug_views())), false).len() == dedup(
            seed_uuids(seed_slug_views()),
        ).len(),
        dedup(seed_uuids(seed_slug_views())).len() > 0,
{
    let seeds = seed_uuids(seed_slug_views());
    assert forall|k: int| 0 <= k < dedup(seeds).len() implies seeds.contains(#[trigger] dedup(seeds)[k]) by {
        crate::storage::seeds::lemma_dedup_contains(seeds, dedup(seeds)[k]);
    }
    lemma_collect_all_seeds(store, dedup(seeds));
    crate::storage::seeds::lemma_dedup_contains(seeds, seeds[0]);
    assert(seeds.contains(seeds[0]));
}

/// Every UUID of a seed, with nothing stored, loads as an active status.
proof fn lemma_collect_all_seeds<S: EventStore<StatusEventKind>>(store: S, uuids: Seq<u128>)
    requires
        forall|u: u128| #[trigger] stored(store, StatusId(u)).len() == 0,
        forall|k: int| 0 <= k < uuids.len() ==> seed_uuids(seed_slug_views()).contains(#[trigger] uuids[k]),
    ensures
        collect(store, uuids, false).len() == uuids.len(),
    decreases uuids.len(),
{
    if uuids.len() > 0 {
        let t = uuids.drop_last();
        assert forall|k: int| 0 <= k < t.len() implies seed_uuids(seed_slug_views()).contains(#[trigger] t[k]) by {
            assert(t[k] == uuids[k]);
        }
        lemma_collect_all_seeds(store, t);
        let u = uuids.last();
        assert(seed_uuids(seed_slug_views()).contains(uuids[uuids.len() - 1]));
        let views = seed_slug_views();
        let j = choose|j: int| 0 <= j < seed_uuids(views).len() && seed_uuids(views)[j] == u;
        lemma_seed_match_found(views, u, j);
        assert(stored(store, StatusId(u)).len() == 0);
    }
}

/// A UUID that some slug seeds matches a slug.
proof fn lemma_seed_match_found(slugs: Seq<Seq<char>>, uuid: u128, j: int)
    requires
        0 <= j < slugs.len(),
        crate::shared::id::seed_uuid(slugs[j]) == uuid,
    ensures
        seed_match(slugs, uuid) is Some,
    decreases slugs.len(),
{
    if j > 0 && crate::shared::id::seed_uuid(slugs[0]) != uuid {
        assert(slugs.drop_first()[j - 1] == slugs[j]);
        lemma_seed_match_found(slugs.drop_first(), uuid, j - 1);
    }
}

/// Removing a status hides it: once a `removed` event is written after the
/// rest of its stream, the status loads as removed (and so is not active).
pub proof fn lemma_remove_hides<S: EventStore<StatusEventKind>>(before: S, after: S, id: StatusId, e: StatusEvent)
    requires
        loaded(before, id) is Some,
        wrote(before, after, COLLECTION@, id.text(), e),
        e.kind is Removed,
        forall|j: int| 0 <= j < stored(before, id).len() ==> key_lt(#[trigger] stored(before, id)[j], e),
    ensures
        loaded(after, id) matches Some(s) && s.removed,
{
    lemma_insert_last(stored(before, id), e);
    let evs = stored(before, id);
    assert(evs.push(e).drop_last() =~= evs);
    match seed_match(seed_slug_views(), id.0) {
        Some(slug) => {},
        None => {
            assert(evs.push(e)[0] == evs[0]);
        },
    }
}

/// The two lists split the statuses: every status `collect` keeps has the
/// requested `removed` flag, and every status the IDs rebuild is kept by the
/// list for its own flag.
pub proof fn lemma_lists_partition<S: EventStore<StatusEventKind>>(store: S, uuids: Seq<u128>, removed: bool)
    ensures
        forall|k: int| 0 <= k < collect(store, uuids, removed).len() ==> (#[trigger] collect(
            store,
            uuids,
            removed,
        )[k]).removed == removed,
        forall|i: int|
            0 <= i < uuids.len() && #[trigger] loaded(store, StatusId(uuids[i])) is Some ==> collect(
                store,
                uuids,
                loaded(store, StatusId(uuids[i])).unwrap().removed,
            ).contains(loaded(store, StatusId(uuids[i])).unwrap()),
    decreases uuids.len(),
{
    if uuids.len() > 0 {
        let t = uuids.drop_last();
        lemma_lists_partition(store, t, removed);
        lemma_lists_partition(store, t, true);
        lemma_lists_partition(store, t, false);
        assert forall|i: int|
            0 <= i < uuids.len() && #[trigger] loaded(store, StatusId(uuids[i])) is Some implies collect(
                store,
                uuids,
                loaded(store, StatusId(uuids[i])).unwrap().removed,
            ).contains(loaded(store, StatusId(uuids[i])).unwrap()) by {
            let x = loaded(store, StatusId(uuids[i])).unwrap();
            let prev = collect(store, t, x.removed);
            if i < t.len() {
                assert(t[i] == uuids[i]);
                assert(prev.contains(x));
                let k = choose|k: int| 0 <= k < prev.len() && prev[k] == x;
                let cur = collect(store, uuids, x.removed);
                assert(cur == prev || cur == prev.push(loaded(store, StatusId(uuids.last())).unwrap()));
                assert(cur[k] == x);
            } else {
                assert(uuids.last() == uuids[i]);
                let cur = collect(store, uuids, x.removed);
                assert(cur == prev.push(x));
                assert(cur[prev.len() as int] == x);
            }
        }
    }
}

/// [`list`] and [`list_removed`] split the statuses between them: whichever
/// listing of the store each answers from, both use the same IDs (seeds
/// first), so no status is in both answers and every status those IDs
/// rebuild is in one.
pub proof fn lemma_list_and_list_removed_split<S: EventStore<StatusEventKind>>(
    store: S,
    active_names: Seq<Seq<char>>,
    removed_names: Seq<Seq<char>>,
)
    requires
        lists(store, COLLECTION@, active_names),
        lists(store, COLLECTION@, removed_names),
    ensures
        canonical_uuids(removed_names) == canonical_uuids(active_names),
        forall|s: StatusView|
            #[trigger] collect(store, canonical_uuids(active_names), false).contains(s) ==> !collect(
                store,
                canonical_uuids(active_names),
                true,
            ).contains(s),
        forall|i: int|
            0 <= i < canonical_uuids(active_names).len() && #[trigger] loaded(
                store,
                StatusId(canonical_uuids(active_names)[i]),
            ) is Some ==> {
                let s = loaded(store, StatusId(canonical_uuids(active_names)[i])).unwrap();
                collect(store, canonical_uuids(active_names), false).contains(s) || collect(
                    store,
                    canonical_uuids(active_names),
                    true,
                ).contains(s)
            },
{
    let uuids = canonical_uuids(active_names);
    lemma_listed_uuids_order_free(removed_names, active_names, "status_"@);
    lemma_lists_partition(store, uuids, false);
    lemma_lists_partition(store, uuids, true);
    assert forall|s: StatusView| #[trigger] collect(store, uuids, false).contains(s) implies !collect(
        store,
        uuids,
        true,
    ).contains(s) by {
        let k = choose|k: int| 0 <= k < collect(store, uuids, false).len() && collect(store, uuids, false)[k] == s;
        if collect(store, uuids, true).contains(s) {
            let j = choose|j: int| 0 <= j < collect(store, uuids, true).len() && collect(store, uuids, true)[j] == s;
            assert(collect(store, uuids, true)[j].removed);
            assert(!collect(store, uuids, false)[k].removed);
        }
    }
}

} // verus!
