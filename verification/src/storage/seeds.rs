//! Seeds: built-in baselines the store serves without anything stored.
//!
//! A seed is a default that exists even though nothing was ever written for
//! it. Rather than being a special case anywhere else, a seed is expressed as a
//! synthetic snapshot event: the storage layer assembles it into the entity's
//! stream at read time, and everything above (reconstruction, commands)
//! folds that stream without knowing a seed was involved.
//!
//! Two halves:
//!
//! - The engine ([`Seeded`], [`seed_event`], [`seed_events`], [`seed_id_for`]):
//!   entity-agnostic machinery. An entity opts in by implementing [`Seeded`]
//!   to declare which seeds it has and each one's snapshot payload.
//! - The overlay ([`load_stream`], [`stream_ids`]): reads that layer the
//!   declared seeds over whatever an [`EventStore`] holds.
//!
//! A seed event's ID is derived from its slug with a version 5 UUID, so it is
//! stable across builds and machines and carries no timestamp, which is why a
//! seed's rebuilt `created_at_millis` is `None` until a real event is written
//! on top of it.

use vstd::prelude::*;

use crate::error::Result;
use crate::events::envelope::{Event, EventKind};
use crate::events::store::{lists, EventStore};
use crate::shared::id::{format_id, id_text, listed_uuids, parse_uuids, seed_id, seed_uuid, uuid_version, EventId};
use crate::shared::sort::sort_uuids;
use crate::shared::text::string_views;

verus! {

/// An entity that ships with built-in seed defaults.
///
/// The entity owns what it seeds (the slugs and each default's snapshot) and
/// where its events live; the free functions here own how seed events are
/// derived and overlaid.
///
/// The methods' contracts bind only an implementation that says it obeys
/// them ([`Seeded::obeys_seed_spec`]), as one checked by Verus does; of any
/// other, the engine's contracts claim nothing.
pub trait Seeded: Sized {
    /// The entity's identifier type, derived deterministically from a slug.
    type Id;

    /// The entity's event payload type; its snapshot variant carries the full
    /// state a seed default sets.
    type EventKind;

    /// Whether this implementation keeps the contracts below (and states the
    /// spec functions they speak of).
    open spec fn obeys_seed_spec() -> bool {
        false
    }

    /// The event-store collection the entity's streams live in.
    open spec fn spec_collection() -> Seq<char> {
        Seq::empty()
    }

    /// The prefix of the entity's ID text (`<prefix><hex>`), under which its
    /// streams are keyed.
    open spec fn spec_id_prefix() -> Seq<char> {
        Seq::empty()
    }

    /// The seed slugs, in display order.
    open spec fn slugs() -> Seq<Seq<char>> {
        Seq::empty()
    }

    /// Whether `kind` is the snapshot that defines the seed `slug`.
    open spec fn is_snapshot(slug: Seq<char>, kind: Self::EventKind) -> bool {
        false
    }

    /// The UUID an ID wraps.
    open spec fn uuid_of(id: Self::Id) -> u128 {
        vstd::pervasive::arbitrary()
    }

    /// The event-store collection the entity's streams live in.
    fn collection() -> (r: &'static str)
        ensures
            Self::obeys_seed_spec() ==> r@ == Self::spec_collection(),
    ;

    /// The prefix of the entity's ID text.
    fn id_prefix() -> (r: &'static str)
        ensures
            Self::obeys_seed_spec() ==> r@ == Self::spec_id_prefix(),
    ;

    /// Wraps a UUID as an ID of this entity.
    fn id_from_uuid(uuid: u128) -> (id: Self::Id)
        ensures
            Self::obeys_seed_spec() ==> Self::uuid_of(id) == uuid,
    ;

    /// The UUID an ID wraps.
    fn id_uuid(id: &Self::Id) -> (uuid: u128)
        ensures
            Self::obeys_seed_spec() ==> uuid == Self::uuid_of(*id),
    ;

    /// The canonical slugs for this entity's seeds, in display order.
    fn seed_slugs() -> (r: &'static [&'static str])
        ensures
            Self::obeys_seed_spec() ==> slug_views(r@) == Self::slugs(),
    ;

    /// The snapshot payload defining the default full state for one `slug`.
    fn seed_snapshot(slug: &str) -> (r: Self::EventKind)
        requires
            Self::obeys_seed_spec() ==> Self::slugs().contains(slug@),
        ensures
            Self::obeys_seed_spec() ==> Self::is_snapshot(slug@, r),
    ;
}

/// The character sequences of a list of slugs.
pub open spec fn slug_views(slugs: Seq<&'static str>) -> Seq<Seq<char>> {
    slugs.map_values(|s: &'static str| s@)
}

/// The seed UUIDs of a list of slugs, in order.
pub open spec fn seed_uuids(slugs: Seq<Seq<char>>) -> Seq<u128> {
    slugs.map_values(|s: Seq<char>| seed_uuid(s))
}

/// The UUIDs of a list of IDs of `T`, in order.
pub open spec fn id_uuids<T: Seeded>(ids: Seq<T::Id>) -> Seq<u128> {
    ids.map_values(|i: T::Id| T::uuid_of(i))
}

/// Whether `e` is the synthetic event of the seed `slug` of `T`: its ID is
/// the slug's version 5 UUID, and its payload the seed's snapshot.
pub open spec fn is_seed_event<T: Seeded>(slug: Seq<char>, e: Event<T::EventKind>) -> bool {
    &&& e.id.0 == seed_uuid(slug)
    &&& uuid_version(e.id.0) == 5
    &&& T::is_snapshot(slug, e.kind)
}

/// The first slug of `slugs` whose seed UUID is `uuid`.
pub open spec fn seed_match(slugs: Seq<Seq<char>>, uuid: u128) -> Option<Seq<char>>
    decreases slugs.len(),
{
    if slugs.len() == 0 {
        None
    } else if seed_uuid(slugs[0]) == uuid {
        Some(slugs[0])
    } else {
        seed_match(slugs.drop_first(), uuid)
    }
}

/// `s` with every repeated value dropped, first occurrences kept in order.
pub open spec fn dedup(s: Seq<u128>) -> Seq<u128>
    decreases s.len(),
{
    if s.len() == 0 {
        Seq::empty()
    } else {
        let prev = dedup(s.drop_last());
        if prev.contains(s.last()) {
            prev
        } else {
            prev.push(s.last())
        }
    }
}

/// The stored stream of the entity of `T` with ID `id`.
pub open spec fn stored_stream<T: Seeded, S: EventStore<T::EventKind>>(store: S, id: T::Id) -> Seq<Event<T::EventKind>>
    where
        T::EventKind: EventKind,
{
    store.stream(T::spec_collection(), id_text(T::spec_id_prefix(), T::uuid_of(id)))
}

/// The deterministic entity ID for a seed of type `T`, given its slug.
pub fn seed_id_for<T: Seeded>(slug: &str) -> (id: T::Id)
    ensures
        T::obeys_seed_spec() ==> T::uuid_of(id) == seed_uuid(slug@),
{
    T::id_from_uuid(seed_id(slug))
}

/// The synthetic snapshot event for a seed `slug`: a snapshot with a stable
/// version 5 ID.
pub fn seed_event<T: Seeded>(slug: &str) -> (e: Event<T::EventKind>)
    requires
        T::obeys_seed_spec() ==> T::slugs().contains(slug@),
    ensures
        T::obeys_seed_spec() ==> is_seed_event::<T>(slug@, e),
{
    Event { id: EventId(seed_id(slug)), kind: T::seed_snapshot(slug) }
}

/// Every seed event declared by `T`, in slug order.
pub fn seed_events<T: Seeded>() -> (r: Vec<Event<T::EventKind>>)
    ensures
        T::obeys_seed_spec() ==> r@.len() == T::slugs().len(),
        T::obeys_seed_spec() ==> forall|i: int|
            0 <= i < r@.len() ==> is_seed_event::<T>(T::slugs()[i], #[trigger] r@[i]),
{
    let slugs = T::seed_slugs();
    let mut out: Vec<Event<T::EventKind>> = Vec::new();
    let mut i: usize = 0;
    while i < slugs.len()
        invariant
            T::obeys_seed_spec() ==> slug_views(slugs@) == T::slugs(),
            i <= slugs@.len(),
            out@.len() == i,
            T::obeys_seed_spec() ==> forall|j: int|
                0 <= j < i ==> is_seed_event::<T>(T::slugs()[j], #[trigger] out@[j]),
        decreases slugs@.len() - i,
    {
        let slug = slugs[i];
        proof {
            if T::obeys_seed_spec() {
                assert(slug_views(slugs@)[i as int] == slug@);
                assert(T::slugs().contains(slug@));
            }
        }
        out.push(seed_event::<T>(slug));
        i = i + 1;
    }
    out
}

/// Skipping slugs that don't match keeps the first match.
proof fn lemma_seed_match_skip(slugs: Seq<Seq<char>>, uuid: u128, k: int)
    requires
        0 <= k <= slugs.len(),
        forall|j: int| 0 <= j < k ==> seed_uuid(#[trigger] slugs[j]) != uuid,
    ensures
        seed_match(slugs, uuid) == seed_match(slugs.skip(k), uuid),
    decreases k,
{
    if k == 0 {
        assert(slugs.skip(0) =~= slugs);
    } else {
        let t = slugs.drop_first();
        assert forall|j: int| 0 <= j < k - 1 implies seed_uuid(#[trigger] t[j]) != uuid by {
            assert(t[j] == slugs[j + 1]);
        }
        lemma_seed_match_skip(t, uuid, k - 1);
        assert(t.skip(k - 1) =~= slugs.skip(k));
    }
}

/// The seed slug of `T` whose seed UUID is `uuid`, if there is one.
fn find_seed<T: Seeded>(uuid: u128) -> (r: Option<&'static str>)
    ensures
        T::obeys_seed_spec() ==> (r is Some <==> seed_match(T::slugs(), uuid) is Some),
        T::obeys_seed_spec() ==> (r matches Some(slug) ==> seed_match(T::slugs(), uuid) == Some(slug@)
            && T::slugs().contains(slug@)),
{
    let slugs = T::seed_slugs();
    let ghost views = T::slugs();
    let mut i: usize = 0;
    while i < slugs.len()
        invariant
            T::obeys_seed_spec() ==> slug_views(slugs@) == views,
            views == T::slugs(),
            i <= slugs@.len(),
            T::obeys_seed_spec() ==> forall|j: int| 0 <= j < i ==> seed_uuid(#[trigger] views[j]) != uuid,
        decreases slugs@.len() - i,
    {
        let slug = slugs[i];
        proof {
            if T::obeys_seed_spec() {
                assert(views[i as int] == slug@);
            }
        }
        if seed_id(slug) == uuid {
            proof {
                if T::obeys_seed_spec() {
                    lemma_seed_match_skip(views, uuid, i as int);
                    assert(views.skip(i as int)[0] == slug@);
                }
            }
            return Some(slug);
        }
        i = i + 1;
    }
    proof {
        if T::obeys_seed_spec() {
            lemma_seed_match_skip(views, uuid, i as int);
            assert(views.skip(i as int).len() == 0);
        }
    }
    None
}

/// Read the full logical stream for a seeded entity `id`, seeds included.
///
/// If `id` is one of `T`'s seeds, that seed's synthetic snapshot event leads
/// the stream, followed by any real events written on top of it; otherwise
/// the stream is just what is stored. The result folds like any other stream:
/// the caller never learns whether a seed was involved.
pub fn load_stream<T: Seeded, S: EventStore<T::EventKind>>(store: &S, id: T::Id) -> (r: Result<Vec<Event<T::EventKind>>>)
    where
        T::EventKind: EventKind,
    ensures
        store.infallible() ==> r is Ok,
        r matches Err(e) ==> e is Io || e is Serde,
        T::obeys_seed_spec() ==> (r matches Ok(v) ==> match seed_match(T::slugs(), T::uuid_of(id)) {
            Some(slug) => v@.len() > 0 && is_seed_event::<T>(slug, v@[0]) && v@.drop_first()
                == stored_stream::<T, S>(*store, id),
            None => v@ == stored_stream::<T, S>(*store, id),
        }),
{
    let uuid = T::id_uuid(&id);
    let mut stream: Vec<Event<T::EventKind>> = Vec::new();
    match find_seed::<T>(uuid) {
        Some(slug) => stream.push(seed_event::<T>(slug)),
        None => {},
    }
    let key = format_id(T::id_prefix(), uuid);
    let mut stored = match store.read(T::collection(), key.as_str()) {
        Ok(events) => events,
        Err(e) => {
            return Err(e);
        },
    };
    let ghost lead = stream@;
    stream.append(&mut stored);
    proof {
        if lead.len() > 0 {
            assert(stream@.drop_first() =~= stream@.skip(1));
            assert(stream@[0] == lead[0]);
        }
    }
    Ok(stream)
}

/// Adds `uuid` to `seen` (and its ID to `ids`) unless it is already there.
fn add_unique<T: Seeded>(seen: &mut Vec<u128>, ids: &mut Vec<T::Id>, uuid: u128)
    requires
        T::obeys_seed_spec() ==> id_uuids::<T>(old(ids)@) == old(seen)@,
    ensures
        final(seen)@ == (if old(seen)@.contains(uuid) {
            old(seen)@
        } else {
            old(seen)@.push(uuid)
        }),
        T::obeys_seed_spec() ==> id_uuids::<T>(final(ids)@) == final(seen)@,
{
    let mut i: usize = 0;
    while i < seen.len()
        invariant
            i <= seen@.len(),
            seen@ == old(seen)@,
            ids@ == old(ids)@,
            T::obeys_seed_spec() ==> id_uuids::<T>(old(ids)@) == old(seen)@,
            forall|j: int| 0 <= j < i ==> seen@[j] != uuid,
        decreases seen@.len() - i,
    {
        if seen[i] == uuid {
            proof {
                assert(seen@.contains(uuid));
            }
            return;
        }
        i = i + 1;
    }
    let ghost before_ids = ids@;
    seen.push(uuid);
    ids.push(T::id_from_uuid(uuid));
    proof {
        if T::obeys_seed_spec() {
            assert(id_uuids::<T>(ids@) =~= id_uuids::<T>(before_ids).push(uuid));
        }
    }
}

/// The IDs of every seeded entity: all declared seeds first, in canonical
/// slug order, then any stored entities that aren't seeds, oldest first. Each
/// ID is listed once.
///
/// A seed with nothing written for it still appears.
pub fn stream_ids<T: Seeded, S: EventStore<T::EventKind>>(store: &S) -> (r: Result<Vec<T::Id>>)
    where
        T::EventKind: EventKind,
    ensures
        store.infallible() ==> r is Ok,
        r matches Err(e) ==> e is Io || e is Serde,
        T::obeys_seed_spec() ==> (r matches Ok(v) ==> exists|names: Seq<Seq<char>>| #[trigger]
            lists(*store, T::spec_collection(), names) && id_uuids::<T>(v@) == dedup(
                seed_uuids(T::slugs()) + listed_uuids(names, T::spec_id_prefix()),
            )),
{
    let slugs = T::seed_slugs();
    let ghost views = T::slugs();
    let mut seen: Vec<u128> = Vec::new();
    let mut ids: Vec<T::Id> = Vec::new();
    let mut i: usize = 0;
    while i < slugs.len()
        invariant
            T::obeys_seed_spec() ==> slug_views(slugs@) == views,
            views == T::slugs(),
            i <= slugs@.len(),
            T::obeys_seed_spec() ==> seen@ == dedup(seed_uuids(views).take(i as int)),
            T::obeys_seed_spec() ==> id_uuids::<T>(ids@) == seen@,
        decreases slugs@.len() - i,
    {
        let slug = slugs[i];
        let u = seed_id(slug);
        proof {
            if T::obeys_seed_spec() {
                assert(views[i as int] == slug@);
                assert(seed_uuids(views).take(i + 1).drop_last() =~= seed_uuids(views).take(i as int));
                assert(seed_uuids(views).take(i + 1).last() == u);
            }
        }
        add_unique::<T>(&mut seen, &mut ids, u);
        i = i + 1;
    }
    proof {
        if T::obeys_seed_spec() {
            assert(seed_uuids(views).take(slugs@.len() as int) =~= seed_uuids(views));
        }
    }
    let names = match store.list_ids(T::collection()) {
        Ok(names) => names,
        Err(e) => {
            return Err(e);
        },
    };
    let parsed = parse_uuids(&names, T::id_prefix());
    let stored = sort_uuids(&parsed);
    let ghost all = seed_uuids(views) + stored@;
    let ghost n = seed_uuids(views).len();
    proof {
        assert(all.take(n as int) =~= seed_uuids(views));
    }
    let mut k: usize = 0;
    while k < stored.len()
        invariant
            k <= stored@.len(),
            all == seed_uuids(views) + stored@,
            n == seed_uuids(views).len(),
            T::obeys_seed_spec() ==> seen@ == dedup(all.take((n + k) as int)),
            T::obeys_seed_spec() ==> id_uuids::<T>(ids@) == seen@,
        decreases stored@.len() - k,
    {
        proof {
            assert(all.take((n + k + 1) as int).drop_last() =~= all.take((n + k) as int));
            assert(all.take((n + k + 1) as int).last() == stored@[k as int]);
        }
        add_unique::<T>(&mut seen, &mut ids, stored[k]);
        k = k + 1;
    }
    proof {
        assert(all.take((n + stored@.len()) as int) =~= all);
        if T::obeys_seed_spec() {
            assert(lists(*store, T::spec_collection(), string_views(names@)));
        }
    }
    Ok(ids)
}

/// Every value of `dedup(s)` occurs in `s`, and every value of `s` in
/// `dedup(s)`.
pub proof fn lemma_dedup_contains(s: Seq<u128>, x: u128)
    ensures
        dedup(s).contains(x) <==> s.contains(x),
    decreases s.len(),
{
    if s.len() > 0 {
        lemma_dedup_contains(s.drop_last(), x);
        let p = dedup(s.drop_last());
        if s.contains(x) && x != s.last() {
            let j = choose|j: int| 0 <= j < s.len() && s[j] == x;
            assert(s.drop_last()[j] == x);
        }
        if s.drop_last().contains(x) {
            let j = choose|j: int| 0 <= j < s.drop_last().len() && s.drop_last()[j] == x;
            assert(s[j] == x);
        }
        if !p.contains(s.last()) {
            if p.push(s.last()).contains(x) && x != s.last() {
                let j = choose|j: int| 0 <= j < p.push(s.last()).len() && p.push(s.last())[j] == x;
                assert(p[j] == x);
            }
            if x == s.last() {
                assert(p.push(s.last())[p.len() as int] == x);
            }
            if p.contains(x) {
                let j = choose|j: int| 0 <= j < p.len() && p[j] == x;
                assert(p.push(s.last())[j] == x);
            }
        }
        if x == s.last() {
            assert(s[s.len() - 1] == x);
        }
    }
}

/// No ID is listed twice: `dedup` holds each value once.
pub proof fn lemma_dedup_no_duplicates(s: Seq<u128>)
    ensures
        dedup(s).no_duplicates(),
    decreases s.len(),
{
    if s.len() > 0 {
        lemma_dedup_no_duplicates(s.drop_last());
        let p = dedup(s.drop_last());
        if !p.contains(s.last()) {
            let q = p.push(s.last());
            assert forall|i: int, j: int| 0 <= i < q.len() && 0 <= j < q.len() && i != j implies q[i] != q[j] by {
                if i < p.len() && j < p.len() {
                } else if i < p.len() {
                    assert(p[i] == q[i]);
                } else if j < p.len() {
                    assert(p[j] == q[j]);
                }
            }
        }
    }
}

/// A list without repeats is kept whole at the front: deduplicating
/// `first + second` lists all of `first`, in order, before anything else.
pub proof fn lemma_dedup_keeps_leading(first: Seq<u128>, second: Seq<u128>)
    requires
        first.no_duplicates(),
    ensures
        dedup(first + second).len() >= first.len(),
        dedup(first + second).take(first.len() as int) == first,
    decreases second.len(),
{
    if second.len() == 0 {
        assert(first + second =~= first);
        lemma_dedup_of_unique(first);
    } else {
        lemma_dedup_keeps_leading(first, second.drop_last());
        assert((first + second).drop_last() =~= first + second.drop_last());
        let p = dedup(first + second.drop_last());
        if !p.contains((first + second).last()) {
            assert(p.push((first + second).last()).take(first.len() as int) =~= p.take(first.len() as int));
        }
    }
}

/// Deduplicating a list without repeats leaves it unchanged.
pub proof fn lemma_dedup_of_unique(s: Seq<u128>)
    requires
        s.no_duplicates(),
    ensures
        dedup(s) == s,
    decreases s.len(),
{
    if s.len() > 0 {
        let t = s.drop_last();
        assert(t.no_duplicates()) by {
            assert forall|i: int, j: int| 0 <= i < t.len() && 0 <= j < t.len() && i != j implies t[i] != t[j] by {
                assert(t[i] == s[i] && t[j] == s[j]);
            }
        }
        lemma_dedup_of_unique(t);
        lemma_dedup_contains(t, s.last());
        if t.contains(s.last()) {
            let j = choose|j: int| 0 <= j < t.len() && t[j] == s.last();
            assert(s[j] == s[s.len() - 1]);
        }
        assert(t.push(s.last()) =~= s);
    }
}

} // verus!
