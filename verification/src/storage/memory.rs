//! An in-memory [`EventStore`].
//!
//! [`InMemoryEventStore`] keeps each stream as a list of events in file-name
//! order, exactly as the filesystem store lays them out, so the same command
//! logic runs without any filesystem I/O. Writing an event whose ID and type
//! are already present overwrites that event rather than growing the stream.

use vstd::prelude::*;

use crate::error::Result;
use crate::events::envelope::{clone_events, Event, EventKind};
use crate::events::project::ProjectEventKind;
use crate::events::status::StatusEventKind;
use crate::events::store::{insert_event, insert_event_sorted, lemma_insert_sorted, stream_sorted, EventStore};
use crate::events::task::TaskEventKind;
use crate::shared::text::{str_eq, string_views};

verus! {

/// One entity's stream: its collection, its ID text and its events.
struct Stream<K> {
    collection: String,
    id: String,
    events: Vec<Event<K>>,
}

/// Every stream of one event type, keyed by collection and ID text.
struct Streams<K> {
    entries: Vec<Stream<K>>,
}

/// Whether a stream is the one for `id` within `collection`.
spec fn is_key<K>(s: Stream<K>, collection: Seq<char>, id: Seq<char>) -> bool {
    s.collection@ == collection && s.id@ == id
}

/// The events stored for `id` within `collection`: those of the first
/// matching stream, or none.
spec fn lookup<K>(entries: Seq<Stream<K>>, collection: Seq<char>, id: Seq<char>) -> Seq<Event<K>>
    decreases entries.len(),
{
    if entries.len() == 0 {
        Seq::empty()
    } else if is_key(entries[0], collection, id) {
        entries[0].events@
    } else {
        lookup(entries.drop_first(), collection, id)
    }
}

/// The IDs that have a stream within `collection`.
spec fn listed<K>(entries: Seq<Stream<K>>, collection: Seq<char>) -> Set<Seq<char>> {
    Set::new(
        |id: Seq<char>|
            exists|j: int| 0 <= j < entries.len() && #[trigger] is_key(entries[j], collection, id),
    )
}

/// Whether every stream is in file-name order.
spec fn entries_sorted<K: EventKind>(entries: Seq<Stream<K>>) -> bool {
    forall|j: int| 0 <= j < entries.len() ==> stream_sorted(#[trigger] entries[j].events@)
}

/// The stream looked up in sorted entries is sorted.
proof fn lemma_lookup_sorted<K: EventKind>(entries: Seq<Stream<K>>, collection: Seq<char>, id: Seq<char>)
    requires
        entries_sorted(entries),
    ensures
        stream_sorted(lookup(entries, collection, id)),
    decreases entries.len(),
{
    if entries.len() > 0 && !is_key(entries[0], collection, id) {
        let t = entries.drop_first();
        assert(entries_sorted(t)) by {
            assert forall|j: int| 0 <= j < t.len() implies stream_sorted(#[trigger] t[j].events@) by {
                assert(t[j] == entries[j + 1]);
            }
        }
        lemma_lookup_sorted(t, collection, id);
    } else if entries.len() > 0 {
        assert(stream_sorted(entries[0].events@));
    }
}

/// Whether a stream for `id` within `collection` occurs among the first `k`.
spec fn key_seen<K>(entries: Seq<Stream<K>>, collection: Seq<char>, id: Seq<char>, k: int) -> bool {
    exists|j: int| 0 <= j < k && #[trigger] is_key(entries[j], collection, id)
}

proof fn lemma_key_seen_step<K>(entries: Seq<Stream<K>>, collection: Seq<char>, id: Seq<char>, k: int)
    requires
        0 <= k < entries.len(),
    ensures
        key_seen(entries, collection, id, k + 1) == (key_seen(entries, collection, id, k) || is_key(
            entries[k],
            collection,
            id,
        )),
{
    if key_seen(entries, collection, id, k + 1) {
        let j = choose|j: int| 0 <= j < k + 1 && #[trigger] is_key(entries[j], collection, id);
        if j < k {
            assert(key_seen(entries, collection, id, k));
        }
    }
    if key_seen(entries, collection, id, k) {
        let j = choose|j: int| 0 <= j < k && #[trigger] is_key(entries[j], collection, id);
        assert(0 <= j < k + 1 && is_key(entries[j], collection, id));
    }
    if is_key(entries[k], collection, id) {
        assert(0 <= k < k + 1 && is_key(entries[k], collection, id));
    }
}

proof fn lemma_key_seen_witness<K>(entries: Seq<Stream<K>>, collection: Seq<char>, id: Seq<char>, k: int, j: int)
    requires
        0 <= j < k,
        is_key(entries[j], collection, id),
    ensures
        key_seen(entries, collection, id, k),
{
}

proof fn lemma_lookup_skip<K>(entries: Seq<Stream<K>>, collection: Seq<char>, id: Seq<char>, k: int)
    requires
        0 <= k <= entries.len(),
        forall|j: int| 0 <= j < k ==> !#[trigger] is_key(entries[j], collection, id),
    ensures
        lookup(entries, collection, id) == lookup(entries.skip(k), collection, id),
    decreases k,
{
    if k > 0 {
        let t = entries.drop_first();
        assert forall|j: int| 0 <= j < k - 1 implies !#[trigger] is_key(t[j], collection, id) by {
            assert(t[j] == entries[j + 1]);
        }
        lemma_lookup_skip(t, collection, id, k - 1);
        assert(t.skip(k - 1) =~= entries.skip(k));
    } else {
        assert(entries.skip(0) =~= entries);
    }
}

proof fn lemma_lookup_nonempty<K>(entries: Seq<Stream<K>>, collection: Seq<char>, id: Seq<char>)
    ensures
        lookup(entries, collection, id).len() > 0 ==> listed(entries, collection).contains(id),
    decreases entries.len(),
{
    if entries.len() > 0 {
        if is_key(entries[0], collection, id) {
            assert(is_key(entries[0], collection, id));
        } else {
            let t = entries.drop_first();
            lemma_lookup_nonempty(t, collection, id);
            if lookup(t, collection, id).len() > 0 {
                let j = choose|j: int| 0 <= j < t.len() && #[trigger] is_key(t[j], collection, id);
                assert(t[j] == entries[j + 1]);
                assert(is_key(entries[j + 1], collection, id));
            }
        }
    }
}

proof fn lemma_lookup_update<K>(
    entries: Seq<Stream<K>>,
    k: int,
    x: Stream<K>,
    collection: Seq<char>,
    id: Seq<char>,
)
    requires
        0 <= k < entries.len(),
        x.collection@ == entries[k].collection@,
        x.id@ == entries[k].id@,
        !is_key(x, collection, id),
    ensures
        lookup(entries.update(k, x), collection, id) == lookup(entries, collection, id),
    decreases entries.len(),
{
    let u = entries.update(k, x);
    if k > 0 {
        let t = entries.drop_first();
        lemma_lookup_update(t, k - 1, x, collection, id);
        assert(u.drop_first() =~= t.update(k - 1, x));
        assert(u[0] == entries[0]);
    } else {
        assert(u.drop_first() =~= entries.drop_first());
        assert(u[0] == x);
    }
}

proof fn lemma_lookup_push<K>(entries: Seq<Stream<K>>, x: Stream<K>, collection: Seq<char>, id: Seq<char>)
    requires
        !is_key(x, collection, id),
    ensures
        lookup(entries.push(x), collection, id) == lookup(entries, collection, id),
    decreases entries.len(),
{
    let p = entries.push(x);
    if entries.len() > 0 {
        lemma_lookup_push(entries.drop_first(), x, collection, id);
        assert(p.drop_first() =~= entries.drop_first().push(x));
        assert(p[0] == entries[0]);
    } else {
        assert(p.drop_first() =~= Seq::<Stream<K>>::empty());
        assert(p[0] == x);
        assert(!is_key(p[0], collection, id));
        assert(lookup(p, collection, id) == lookup(p.drop_first(), collection, id));
        assert(lookup(Seq::<Stream<K>>::empty(), collection, id) == Seq::<Event<K>>::empty());
    }
}

impl<K: EventKind> Streams<K> {
    /// No streams at all.
    fn new() -> (r: Self)
        ensures
            r.entries@.len() == 0,
    {
        Streams { entries: Vec::new() }
    }

    /// The index of the stream for `id` within `collection`.
    fn find(&self, collection: &str, id: &str) -> (r: Option<usize>)
        ensures
            r matches Some(k) ==> k < self.entries@.len() && is_key(
                self.entries@[k as int],
                collection@,
                id@,
            ) && lookup(self.entries@, collection@, id@) == self.entries@[k as int].events@
                && forall|j: int| 0 <= j < k ==> !#[trigger] is_key(self.entries@[j], collection@, id@),
            r is None ==> lookup(self.entries@, collection@, id@) == Seq::<Event<K>>::empty()
                && forall|j: int|
                0 <= j < self.entries@.len() ==> !#[trigger] is_key(self.entries@[j], collection@, id@),
    {
        let mut k: usize = 0;
        while k < self.entries.len()
            invariant
                k <= self.entries@.len(),
                forall|j: int| 0 <= j < k ==> !#[trigger] is_key(self.entries@[j], collection@, id@),
            decreases self.entries@.len() - k,
        {
            let s = &self.entries[k];
            if str_eq(s.collection.as_str(), collection) && str_eq(s.id.as_str(), id) {
                proof {
                    lemma_lookup_skip(self.entries@, collection@, id@, k as int);
                    assert(self.entries@.skip(k as int)[0] == self.entries@[k as int]);
                }
                return Some(k);
            }
            k = k + 1;
        }
        proof {
            lemma_lookup_skip(self.entries@, collection@, id@, k as int);
        }
        None
    }

    /// Writes `event` into the stream for `id` within `collection`.
    fn append(&mut self, collection: &str, id: &str, event: &Event<K>)
        ensures
            lookup(final(self).entries@, collection@, id@) == insert_event(
                lookup(old(self).entries@, collection@, id@),
                *event,
            ),
            forall|c: Seq<char>, i: Seq<char>|
                !(c == collection@ && i == id@) ==> #[trigger] lookup(final(self).entries@, c, i)
                    == lookup(old(self).entries@, c, i),
            forall|c: Seq<char>| #[trigger]
                listed(final(self).entries@, c) == (if c == collection@ {
                    listed(old(self).entries@, c).insert(id@)
                } else {
                    listed(old(self).entries@, c)
                }),
            entries_sorted(old(self).entries@) ==> entries_sorted(final(self).entries@),
    {
        let ghost old_entries = self.entries@;
        match self.find(collection, id) {
            Some(k) => {
                let mut events = clone_events(&self.entries[k].events);
                insert_event_sorted(&mut events, event.clone());
                let stream = Stream {
                    collection: self.entries[k].collection.clone(),
                    id: self.entries[k].id.clone(),
                    events,
                };
                self.entries.set(k, stream);
                proof {
                    let ne = self.entries@;
                    assert(ne == old_entries.update(k as int, stream));
                    if entries_sorted(old_entries) {
                        lemma_insert_sorted(old_entries[k as int].events@, *event);
                        assert forall|j: int| 0 <= j < ne.len() implies stream_sorted(#[trigger] ne[j].events@) by {
                            if j != k {
                                assert(ne[j] == old_entries[j]);
                            }
                        }
                    }
                    assert forall|j: int| 0 <= j < k implies !#[trigger] is_key(ne[j], collection@, id@) by {
                        assert(ne[j] == old_entries[j]);
                    }
                    lemma_lookup_skip(ne, collection@, id@, k as int);
                    assert(ne.skip(k as int)[0] == stream);
                    assert forall|c: Seq<char>, i: Seq<char>|
                        !(c == collection@ && i == id@) implies #[trigger] lookup(ne, c, i) == lookup(old_entries, c, i) by {
                        lemma_lookup_update(old_entries, k as int, stream, c, i);
                    }
                    assert forall|c: Seq<char>| #[trigger]
                        listed(ne, c) == (if c == collection@ {
                            listed(old_entries, c).insert(id@)
                        } else {
                            listed(old_entries, c)
                        }) by {
                        assert forall|i: Seq<char>| listed(ne, c).contains(i) <==> listed(old_entries, c).contains(i) by {
                            if listed(ne, c).contains(i) {
                                let j = choose|j: int| 0 <= j < ne.len() && #[trigger] is_key(ne[j], c, i);
                                assert(is_key(old_entries[j], c, i));
                            }
                            if listed(old_entries, c).contains(i) {
                                let j = choose|j: int| 0 <= j < old_entries.len() && #[trigger] is_key(old_entries[j], c, i);
                                assert(is_key(ne[j], c, i));
                            }
                        }
                        if c == collection@ {
                            assert(is_key(old_entries[k as int], c, id@));
                            assert(listed(old_entries, c).contains(id@));
                        }
                        assert(listed(ne, c) =~= (if c == collection@ {
                            listed(old_entries, c).insert(id@)
                        } else {
                            listed(old_entries, c)
                        }));
                    }
                }
            },
            None => {
                let mut events: Vec<Event<K>> = Vec::new();
                events.push(event.clone());
                let stream = Stream {
                    collection: String::from_str(collection),
                    id: String::from_str(id),
                    events,
                };
                self.entries.push(stream);
                proof {
                    let ne = self.entries@;
                    assert(ne == old_entries.push(stream));
                    if entries_sorted(old_entries) {
                        assert(stream_sorted(stream.events@));
                        assert forall|j: int| 0 <= j < ne.len() implies stream_sorted(#[trigger] ne[j].events@) by {
                            if j < old_entries.len() {
                                assert(ne[j] == old_entries[j]);
                            }
                        }
                    }
                    assert forall|j: int| 0 <= j < old_entries.len() implies !#[trigger] is_key(ne[j], collection@, id@) by {
                        assert(ne[j] == old_entries[j]);
                    }
                    lemma_lookup_skip(ne, collection@, id@, old_entries.len() as int);
                    assert(ne.skip(old_entries.len() as int)[0] == stream);
                    assert(insert_event(Seq::<Event<K>>::empty(), *event) =~= seq![*event]);
                    assert(stream.events@ =~= seq![*event]);
                    assert forall|c: Seq<char>, i: Seq<char>|
                        !(c == collection@ && i == id@) implies #[trigger] lookup(ne, c, i) == lookup(old_entries, c, i) by {
                        lemma_lookup_push(old_entries, stream, c, i);
                    }
                    assert forall|c: Seq<char>| #[trigger]
                        listed(ne, c) == (if c == collection@ {
                            listed(old_entries, c).insert(id@)
                        } else {
                            listed(old_entries, c)
                        }) by {
                        assert forall|i: Seq<char>|
                            listed(ne, c).contains(i) <==> (listed(old_entries, c).contains(i) || (c == collection@ && i == id@)) by {
                            if listed(ne, c).contains(i) {
                                let j = choose|j: int| 0 <= j < ne.len() && #[trigger] is_key(ne[j], c, i);
                                if j < old_entries.len() {
                                    assert(is_key(old_entries[j], c, i));
                                }
                            }
                            if listed(old_entries, c).contains(i) {
                                let j = choose|j: int| 0 <= j < old_entries.len() && #[trigger] is_key(old_entries[j], c, i);
                                assert(is_key(ne[j], c, i));
                            }
                            if c == collection@ && i == id@ {
                                assert(is_key(ne[old_entries.len() as int], c, i));
                            }
                        }
                        assert(listed(ne, c) =~= (if c == collection@ {
                            listed(old_entries, c).insert(id@)
                        } else {
                            listed(old_entries, c)
                        }));
                    }
                }
            },
        }
    }

    /// The events stored for `id` within `collection`.
    fn read(&self, collection: &str, id: &str) -> (r: Vec<Event<K>>)
        ensures
            r@ == lookup(self.entries@, collection@, id@),
    {
        match self.find(collection, id) {
            Some(k) => clone_events(&self.entries[k].events),
            None => Vec::new(),
        }
    }

    /// The IDs with a stream within `collection`, each once.
    fn list_ids(&self, collection: &str) -> (r: Vec<String>)
        ensures
            string_views(r@).no_duplicates(),
            string_views(r@).to_set() == listed(self.entries@, collection@),
    {
        let mut out: Vec<String> = Vec::new();
        let mut k: usize = 0;
        while k < self.entries.len()
            invariant
                k <= self.entries@.len(),
                string_views(out@).no_duplicates(),
                forall|i: Seq<char>|
                    #[trigger] string_views(out@).contains(i) <==> key_seen(self.entries@, collection@, i, k as int),
            decreases self.entries@.len() - k,
        {
            let s = &self.entries[k];
            let ghost before = string_views(out@);
            proof {
                assert(s == self.entries@[k as int]);
            }
            if str_eq(s.collection.as_str(), collection) {
                let mut seen = false;
                let mut m: usize = 0;
                while m < out.len()
                    invariant
                        m <= out@.len(),
                        seen == exists|q: int| 0 <= q < m && out@[q]@ == s.id@,
                    decreases out@.len() - m,
                {
                    if str_eq(out[m].as_str(), s.id.as_str()) {
                        seen = true;
                    }
                    m = m + 1;
                }
                if !seen {
                    out.push(s.id.clone());
                    proof {
                        assert(string_views(out@) =~= before.push(s.id@));
                        assert(!before.contains(s.id@)) by {
                            if before.contains(s.id@) {
                                let q = choose|q: int| 0 <= q < before.len() && before[q] == s.id@;
                                assert(out@[q]@ == s.id@);
                            }
                        }
                        assert forall|i: Seq<char>| #[trigger] string_views(out@).contains(i) <==> (before.contains(i) || is_key(self.entries@[k as int], collection@, i)) by {
                            if i == s.id@ {
                                assert(string_views(out@)[before.len() as int] == i);
                            }
                            if before.contains(i) {
                                let q = choose|q: int| 0 <= q < before.len() && before[q] == i;
                                assert(string_views(out@)[q] == i);
                            }
                        }
                    }
                } else {
                    proof {
                        let q = choose|q: int| 0 <= q < m && out@[q]@ == s.id@;
                        assert(before[q] == s.id@);
                        assert forall|i: Seq<char>| #[trigger] string_views(out@).contains(i) <==> (before.contains(i) || is_key(self.entries@[k as int], collection@, i)) by {
                        }
                    }
                }
            } else {
                proof {
                    assert forall|i: Seq<char>| #[trigger] string_views(out@).contains(i) <==> (before.contains(i) || is_key(self.entries@[k as int], collection@, i)) by {
                    }
                }
            }
            proof {
                assert forall|i: Seq<char>|
                    #[trigger] string_views(out@).contains(i) <==> key_seen(self.entries@, collection@, i, k + 1) by {
                    lemma_key_seen_step(self.entries@, collection@, i, k as int);
                }
            }
            k = k + 1;
        }
        proof {
            assert forall|i: Seq<char>| listed(self.entries@, collection@).contains(i) <==> key_seen(self.entries@, collection@, i, self.entries@.len() as int) by {
                if listed(self.entries@, collection@).contains(i) {
                    let j = choose|j: int| 0 <= j < self.entries@.len() && #[trigger] is_key(self.entries@[j], collection@, i);
                    lemma_key_seen_witness(self.entries@, collection@, i, self.entries@.len() as int, j);
                }
            }
            assert(string_views(out@).to_set() =~= listed(self.entries@, collection@));
        }
        out
    }
}

/// One recorded write: the collection, the entity's ID text and the event.
pub struct Write<K> {
    pub collection: String,
    pub id: String,
    pub event: Event<K>,
}

/// A recorded write as plain values.
pub open spec fn write_view<K>(w: Write<K>) -> (Seq<char>, Seq<char>, Event<K>) {
    (w.collection@, w.id@, w.event)
}

/// The recorded writes as plain values, in order.
pub open spec fn writes_view<K>(log: Seq<Write<K>>) -> Seq<(Seq<char>, Seq<char>, Event<K>)> {
    log.map_values(|w: Write<K>| write_view(w))
}

/// The writes a store recorded, per kind of event, in the order they were
/// made.
pub struct Writes {
    pub projects: Vec<Write<ProjectEventKind>>,
    pub tasks: Vec<Write<TaskEventKind>>,
    pub statuses: Vec<Write<StatusEventKind>>,
}

/// Records one write at the end of `log`.
fn record<K: EventKind>(log: &mut Vec<Write<K>>, collection: &str, id: &str, event: &Event<K>)
    ensures
        writes_view(final(log)@) == writes_view(old(log)@).push((collection@, id@, *event)),
{
    let w = Write { collection: String::from_str(collection), id: String::from_str(id), event: event.clone() };
    let ghost before = log@;
    log.push(w);
    proof {
        assert(log@ == before.push(w));
        assert(writes_view(log@) =~= writes_view(before).push((collection@, id@, *event)));
    }
}

/// A disk-free [`EventStore`] holding every stream in memory.
///
/// It also records every write made to it, in order, until the record is
/// drained ([`InMemoryEventStore::drain_writes`]), so that a caller can
/// carry the same writes over to durable storage.
pub struct InMemoryEventStore {
    projects: Streams<ProjectEventKind>,
    tasks: Streams<TaskEventKind>,
    statuses: Streams<StatusEventKind>,
    project_log: Vec<Write<ProjectEventKind>>,
    task_log: Vec<Write<TaskEventKind>>,
    status_log: Vec<Write<StatusEventKind>>,
}

impl InMemoryEventStore {
    /// Whether every stream of the store is in file-name order, as every
    /// store built by [`InMemoryEventStore::new`] and writes is.
    pub closed spec fn well_formed(&self) -> bool {
        &&& entries_sorted(self.projects.entries@)
        &&& entries_sorted(self.tasks.entries@)
        &&& entries_sorted(self.statuses.entries@)
    }

    /// The project streams, by collection and ID text.
    pub closed spec fn project_streams(&self) -> spec_fn(Seq<char>, Seq<char>) -> Seq<Event<ProjectEventKind>> {
        |c: Seq<char>, i: Seq<char>| lookup(self.projects.entries@, c, i)
    }

    /// The IDs with a project stream, by collection.
    pub closed spec fn project_ids(&self) -> spec_fn(Seq<char>) -> Set<Seq<char>> {
        |c: Seq<char>| listed(self.projects.entries@, c)
    }

    /// The task streams, by collection and ID text.
    pub closed spec fn task_streams(&self) -> spec_fn(Seq<char>, Seq<char>) -> Seq<Event<TaskEventKind>> {
        |c: Seq<char>, i: Seq<char>| lookup(self.tasks.entries@, c, i)
    }

    /// The IDs with a task stream, by collection.
    pub closed spec fn task_ids(&self) -> spec_fn(Seq<char>) -> Set<Seq<char>> {
        |c: Seq<char>| listed(self.tasks.entries@, c)
    }

    /// The status streams, by collection and ID text.
    pub closed spec fn status_streams(&self) -> spec_fn(Seq<char>, Seq<char>) -> Seq<Event<StatusEventKind>> {
        |c: Seq<char>, i: Seq<char>| lookup(self.statuses.entries@, c, i)
    }

    /// The IDs with a status stream, by collection.
    pub closed spec fn status_ids(&self) -> spec_fn(Seq<char>) -> Set<Seq<char>> {
        |c: Seq<char>| listed(self.statuses.entries@, c)
    }

    /// The project writes recorded since the last drain, in order.
    pub closed spec fn project_writes(&self) -> Seq<(Seq<char>, Seq<char>, Event<ProjectEventKind>)> {
        writes_view(self.project_log@)
    }

    /// The task writes recorded since the last drain, in order.
    pub closed spec fn task_writes(&self) -> Seq<(Seq<char>, Seq<char>, Event<TaskEventKind>)> {
        writes_view(self.task_log@)
    }

    /// The status writes recorded since the last drain, in order.
    pub closed spec fn status_writes(&self) -> Seq<(Seq<char>, Seq<char>, Event<StatusEventKind>)> {
        writes_view(self.status_log@)
    }

    /// An empty store.
    pub fn new() -> (r: Self)
        ensures
            r.project_writes().len() == 0,
            r.task_writes().len() == 0,
            r.status_writes().len() == 0,
            r.project_streams() == (|c: Seq<char>, i: Seq<char>| Seq::<Event<ProjectEventKind>>::empty()),
            r.task_streams() == (|c: Seq<char>, i: Seq<char>| Seq::<Event<TaskEventKind>>::empty()),
            r.status_streams() == (|c: Seq<char>, i: Seq<char>| Seq::<Event<StatusEventKind>>::empty()),
            r.project_ids() == (|c: Seq<char>| Set::<Seq<char>>::empty()),
            r.task_ids() == (|c: Seq<char>| Set::<Seq<char>>::empty()),
            r.status_ids() == (|c: Seq<char>| Set::<Seq<char>>::empty()),
            forall|c: Seq<char>, i: Seq<char>| #[trigger]
                EventStore::<ProjectEventKind>::stream(&r, c, i).len() == 0,
            forall|c: Seq<char>, i: Seq<char>| #[trigger]
                EventStore::<TaskEventKind>::stream(&r, c, i).len() == 0,
            forall|c: Seq<char>, i: Seq<char>| #[trigger]
                EventStore::<StatusEventKind>::stream(&r, c, i).len() == 0,
            forall|c: Seq<char>| #[trigger] EventStore::<ProjectEventKind>::ids(&r, c).is_empty(),
            forall|c: Seq<char>| #[trigger] EventStore::<TaskEventKind>::ids(&r, c).is_empty(),
            forall|c: Seq<char>| #[trigger] EventStore::<StatusEventKind>::ids(&r, c).is_empty(),
            EventStore::<ProjectEventKind>::infallible(&r),
            EventStore::<TaskEventKind>::infallible(&r),
            EventStore::<StatusEventKind>::infallible(&r),
            r.well_formed(),
    {
        let r = InMemoryEventStore {
            projects: Streams::new(),
            tasks: Streams::new(),
            statuses: Streams::new(),
            project_log: Vec::new(),
            task_log: Vec::new(),
            status_log: Vec::new(),
        };
        proof {
            assert forall|c: Seq<char>| #[trigger] EventStore::<ProjectEventKind>::ids(&r, c).is_empty() by {
                assert(listed(r.projects.entries@, c) =~= Set::empty());
            }
            assert forall|c: Seq<char>| #[trigger] EventStore::<TaskEventKind>::ids(&r, c).is_empty() by {
                assert(listed(r.tasks.entries@, c) =~= Set::empty());
            }
            assert forall|c: Seq<char>| #[trigger] EventStore::<StatusEventKind>::ids(&r, c).is_empty() by {
                assert(listed(r.statuses.entries@, c) =~= Set::empty());
            }
        }
        r
    }

    /// Hands over the writes recorded so far, in order, and starts a fresh
    /// record; what the store holds stays as it is.
    pub fn drain_writes(&mut self) -> (r: Writes)
        ensures
            writes_view(r.projects@) == old(self).project_writes(),
            writes_view(r.tasks@) == old(self).task_writes(),
            writes_view(r.statuses@) == old(self).status_writes(),
            final(self).project_writes().len() == 0,
            final(self).task_writes().len() == 0,
            final(self).status_writes().len() == 0,
            forall|c: Seq<char>, i: Seq<char>| #[trigger]
                EventStore::<ProjectEventKind>::stream(final(self), c, i) == EventStore::<ProjectEventKind>::stream(old(self), c, i),
            forall|c: Seq<char>, i: Seq<char>| #[trigger]
                EventStore::<TaskEventKind>::stream(final(self), c, i) == EventStore::<TaskEventKind>::stream(old(self), c, i),
            forall|c: Seq<char>, i: Seq<char>| #[trigger]
                EventStore::<StatusEventKind>::stream(final(self), c, i) == EventStore::<StatusEventKind>::stream(old(self), c, i),
            forall|c: Seq<char>| #[trigger]
                EventStore::<ProjectEventKind>::ids(final(self), c) == EventStore::<ProjectEventKind>::ids(old(self), c),
            forall|c: Seq<char>| #[trigger]
                EventStore::<TaskEventKind>::ids(final(self), c) == EventStore::<TaskEventKind>::ids(old(self), c),
            forall|c: Seq<char>| #[trigger]
                EventStore::<StatusEventKind>::ids(final(self), c) == EventStore::<StatusEventKind>::ids(old(self), c),
            old(self).well_formed() ==> final(self).well_formed(),
    {
        let mut projects: Vec<Write<ProjectEventKind>> = Vec::new();
        let mut tasks: Vec<Write<TaskEventKind>> = Vec::new();
        let mut statuses: Vec<Write<StatusEventKind>> = Vec::new();
        std::mem::swap(&mut projects, &mut self.project_log);
        std::mem::swap(&mut tasks, &mut self.task_log);
        std::mem::swap(&mut statuses, &mut self.status_log);
        Writes { projects, tasks, statuses }
    }
}

/// In a well-formed store every stream is in file-name order, for each kind
/// of event the store holds.
pub proof fn lemma_streams_sorted(store: InMemoryEventStore, collection: Seq<char>, id: Seq<char>)
    requires
        store.well_formed(),
    ensures
        stream_sorted(EventStore::<ProjectEventKind>::stream(&store, collection, id)),
        stream_sorted(EventStore::<TaskEventKind>::stream(&store, collection, id)),
        stream_sorted(EventStore::<StatusEventKind>::stream(&store, collection, id)),
{
    lemma_lookup_sorted(store.projects.entries@, collection, id);
    lemma_lookup_sorted(store.tasks.entries@, collection, id);
    lemma_lookup_sorted(store.statuses.entries@, collection, id);
}

/// Every entity with stored events is listed under its collection, for each
/// kind of event the store holds.
pub proof fn lemma_streams_listed(store: InMemoryEventStore, collection: Seq<char>, id: Seq<char>)
    ensures
        EventStore::<ProjectEventKind>::stream(&store, collection, id).len() > 0
            ==> EventStore::<ProjectEventKind>::ids(&store, collection).contains(id),
        EventStore::<TaskEventKind>::stream(&store, collection, id).len() > 0
            ==> EventStore::<TaskEventKind>::ids(&store, collection).contains(id),
        EventStore::<StatusEventKind>::stream(&store, collection, id).len() > 0
            ==> EventStore::<StatusEventKind>::ids(&store, collection).contains(id),
{
    lemma_lookup_nonempty(store.projects.entries@, collection, id);
    lemma_lookup_nonempty(store.tasks.entries@, collection, id);
    lemma_lookup_nonempty(store.statuses.entries@, collection, id);
}

impl EventStore<ProjectEventKind> for InMemoryEventStore {
    open spec fn stream(&self, collection: Seq<char>, id: Seq<char>) -> Seq<Event<ProjectEventKind>> {
        (self.project_streams())(collection, id)
    }

    open spec fn ids(&self, collection: Seq<char>) -> Set<Seq<char>> {
        (self.project_ids())(collection)
    }

    open spec fn infallible(&self) -> bool {
        true
    }

    /// The streams, listed IDs and recorded writes of the other two kinds.
    type Others = (
        spec_fn(Seq<char>, Seq<char>) -> Seq<Event<TaskEventKind>>,
        spec_fn(Seq<char>) -> Set<Seq<char>>,
        spec_fn(Seq<char>, Seq<char>) -> Seq<Event<StatusEventKind>>,
        spec_fn(Seq<char>) -> Set<Seq<char>>,
        Seq<(Seq<char>, Seq<char>, Event<TaskEventKind>)>,
        Seq<(Seq<char>, Seq<char>, Event<StatusEventKind>)>,
    );

    open spec fn others(&self) -> Self::Others {
        (
            self.task_streams(),
            self.task_ids(),
            self.status_streams(),
            self.status_ids(),
            self.task_writes(),
            self.status_writes(),
        )
    }


    fn append(&mut self, collection: &str, id: &str, event: &Event<ProjectEventKind>) -> (r: Result<()>)
        ensures
            old(self).well_formed() ==> final(self).well_formed(),
            final(self).project_writes() == old(self).project_writes().push((collection@, id@, *event)),
            final(self).task_writes() == old(self).task_writes(),
            final(self).status_writes() == old(self).status_writes(),
    {
        self.projects.append(collection, id, event);
        record(&mut self.project_log, collection, id, event);
        Ok(())
    }

    fn read(&self, collection: &str, id: &str) -> (r: Result<Vec<Event<ProjectEventKind>>>) {
        Ok(self.projects.read(collection, id))
    }

    fn list_ids(&self, collection: &str) -> (r: Result<Vec<String>>) {
        Ok(self.projects.list_ids(collection))
    }
}

impl EventStore<TaskEventKind> for InMemoryEventStore {
    open spec fn stream(&self, collection: Seq<char>, id: Seq<char>) -> Seq<Event<TaskEventKind>> {
        (self.task_streams())(collection, id)
    }

    open spec fn ids(&self, collection: Seq<char>) -> Set<Seq<char>> {
        (self.task_ids())(collection)
    }

    open spec fn infallible(&self) -> bool {
        true
    }

    /// The streams, listed IDs and recorded writes of the other two kinds.
    type Others = (
        spec_fn(Seq<char>, Seq<char>) -> Seq<Event<ProjectEventKind>>,
        spec_fn(Seq<char>) -> Set<Seq<char>>,
        spec_fn(Seq<char>, Seq<char>) -> Seq<Event<StatusEventKind>>,
        spec_fn(Seq<char>) -> Set<Seq<char>>,
        Seq<(Seq<char>, Seq<char>, Event<ProjectEventKind>)>,
        Seq<(Seq<char>, Seq<char>, Event<StatusEventKind>)>,
    );

    open spec fn others(&self) -> Self::Others {
        (
            self.project_streams(),
            self.project_ids(),
            self.status_streams(),
            self.status_ids(),
            self.project_writes(),
            self.status_writes(),
        )
    }


    fn append(&mut self, collection: &str, id: &str, event: &Event<TaskEventKind>) -> (r: Result<()>)
        ensures
            old(self).well_formed() ==> final(self).well_formed(),
            final(self).task_writes() == old(self).task_writes().push((collection@, id@, *event)),
            final(self).project_writes() == old(self).project_writes(),
            final(self).status_writes() == old(self).status_writes(),
    {
        self.tasks.append(collection, id, event);
        record(&mut self.task_log, collection, id, event);
        Ok(())
    }

    fn read(&self, collection: &str, id: &str) -> (r: Result<Vec<Event<TaskEventKind>>>) {
        Ok(self.tasks.read(collection, id))
    }

    fn list_ids(&self, collection: &str) -> (r: Result<Vec<String>>) {
        Ok(self.tasks.list_ids(collection))
    }
}

impl EventStore<StatusEventKind> for InMemoryEventStore {
    open spec fn stream(&self, collection: Seq<char>, id: Seq<char>) -> Seq<Event<StatusEventKind>> {
        (self.status_streams())(collection, id)
    }

    open spec fn ids(&self, collection: Seq<char>) -> Set<Seq<char>> {
        (self.status_ids())(collection)
    }

    open spec fn infallible(&self) -> bool {
        true
    }

    /// The streams, listed IDs and recorded writes of the other two kinds.
    type Others = (
        spec_fn(Seq<char>, Seq<char>) -> Seq<Event<ProjectEventKind>>,
        spec_fn(Seq<char>) -> Set<Seq<char>>,
        spec_fn(Seq<char>, Seq<char>) -> Seq<Event<TaskEventKind>>,
        spec_fn(Seq<char>) -> Set<Seq<char>>,
        Seq<(Seq<char>, Seq<char>, Event<ProjectEventKind>)>,
        Seq<(Seq<char>, Seq<char>, Event<TaskEventKind>)>,
    );

    open spec fn others(&self) -> Self::Others {
        (
            self.project_streams(),
            self.project_ids(),
            self.task_streams(),
            self.task_ids(),
            self.project_writes(),
            self.task_writes(),
        )
    }


    fn append(&mut self, collection: &str, id: &str, event: &Event<StatusEventKind>) -> (r: Result<()>)
        ensures
            old(self).well_formed() ==> final(self).well_formed(),
            final(self).status_writes() == old(self).status_writes().push((collection@, id@, *event)),
            final(self).project_writes() == old(self).project_writes(),
            final(self).task_writes() == old(self).task_writes(),
    {
        self.statuses.append(collection, id, event);
        record(&mut self.status_log, collection, id, event);
        Ok(())
    }

    fn read(&self, collection: &str, id: &str) -> (r: Result<Vec<Event<StatusEventKind>>>) {
        Ok(self.statuses.read(collection, id))
    }

    fn list_ids(&self, collection: &str) -> (r: Result<Vec<String>>) {
        Ok(self.statuses.list_ids(collection))
    }
}

} // verus!
