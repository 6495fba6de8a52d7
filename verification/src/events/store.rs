//! The `EventStore` interface: the contract every storage backend meets.
//!
//! Events are grouped into *collections*, one per entity type (`"projects"`,
//! `"tasks"`, `"statuses"`). Within a collection each entity owns a *stream* of
//! events keyed by its ID text. A stream is kept in file-name order: events are
//! named `<event-hex>-<type>`, so a stream sorts by event ID and then by type
//! tag, and writing an event whose ID and type are already present overwrites
//! that one event instead of growing the stream.

use vstd::prelude::*;

use crate::error::{Error, Result};
use crate::events::envelope::{Event, EventKind};
use crate::shared::text::{
    string_views,
    lemma_seq_lt_irreflexive, lemma_seq_lt_transitive, lemma_seq_lt_trichotomy, seq_lt, str_eq,
    str_lt,
};

verus! {

/// Every event-store collection, one per modeled entity.
pub fn collections() -> (r: Vec<&'static str>)
    ensures
        r@.len() == 3,
        r@[0]@ == crate::events::project::COLLECTION@,
        r@[1]@ == crate::events::task::COLLECTION@,
        r@[2]@ == crate::events::status::COLLECTION@,
{
    vec![
        crate::events::project::COLLECTION,
        crate::events::task::COLLECTION,
        crate::events::status::COLLECTION,
    ]
}

/// Whether `a` sorts strictly before `b` in a stream: by event ID, then by
/// type tag (the order of their file names).
pub open spec fn key_lt<K: EventKind>(a: Event<K>, b: Event<K>) -> bool {
    a.id.0 < b.id.0 || (a.id.0 == b.id.0 && seq_lt(a.kind.tag(), b.kind.tag()))
}

/// Whether two events share a file name: same ID and same type tag.
pub open spec fn same_key<K: EventKind>(a: Event<K>, b: Event<K>) -> bool {
    a.id == b.id && a.kind.tag() == b.kind.tag()
}

/// The stream that results from writing `e` into `s`: `e` replaces the event
/// with the same file name if there is one, and is otherwise inserted before
/// the first event that sorts after it.
pub open spec fn insert_event<K: EventKind>(s: Seq<Event<K>>, e: Event<K>) -> Seq<Event<K>>
    decreases s.len(),
{
    if s.len() == 0 {
        seq![e]
    } else if same_key(s[0], e) {
        seq![e] + s.drop_first()
    } else if key_lt(e, s[0]) {
        seq![e] + s
    } else {
        seq![s[0]] + insert_event(s.drop_first(), e)
    }
}

/// Whether a stream is strictly ordered by file name.
pub open spec fn stream_sorted<K: EventKind>(s: Seq<Event<K>>) -> bool {
    forall|i: int, j: int| 0 <= i < j < s.len() ==> key_lt(#[trigger] s[i], #[trigger] s[j])
}

/// The key order is a strict total order.
pub proof fn lemma_key_trichotomy<K: EventKind>(a: Event<K>, b: Event<K>)
    ensures
        key_lt(a, b) || same_key(a, b) || key_lt(b, a),
        !(key_lt(a, b) && key_lt(b, a)),
        key_lt(a, b) ==> !same_key(a, b),
{
    lemma_seq_lt_trichotomy(a.kind.tag(), b.kind.tag());
    if same_key(a, b) {
        lemma_seq_lt_irreflexive(a.kind.tag());
    }
}

/// The key order is transitive.
pub proof fn lemma_key_transitive<K: EventKind>(a: Event<K>, b: Event<K>, c: Event<K>)
    requires
        key_lt(a, b),
        key_lt(b, c),
    ensures
        key_lt(a, c),
{
    if a.id.0 == b.id.0 && b.id.0 == c.id.0 {
        lemma_seq_lt_transitive(a.kind.tag(), b.kind.tag(), c.kind.tag());
    }
}

/// Writing at a position found by scanning: if every event before `i` sorts
/// before `e` and the event at `i` (if any) does not, the write replaces the
/// event at `i` when it has the same file name and inserts at `i` otherwise.
pub proof fn lemma_insert_at<K: EventKind>(s: Seq<Event<K>>, e: Event<K>, i: int)
    requires
        0 <= i <= s.len(),
        forall|j: int| 0 <= j < i ==> key_lt(#[trigger] s[j], e),
        i < s.len() ==> !key_lt(s[i], e),
    ensures
        insert_event(s, e) == (if i < s.len() && same_key(s[i], e) {
            s.update(i, e)
        } else {
            s.insert(i, e)
        }),
    decreases i,
{
    if i == 0 {
        if s.len() > 0 {
            lemma_key_trichotomy(s[0], e);
            if same_key(s[0], e) {
                assert(seq![e] + s.drop_first() =~= s.update(0, e));
            } else {
                assert(key_lt(e, s[0]));
                assert(seq![e] + s =~= s.insert(0, e));
            }
        } else {
            assert(seq![e] =~= s.insert(0, e));
        }
    } else {
        lemma_key_trichotomy(s[0], e);
        assert(!same_key(s[0], e));
        assert(!key_lt(e, s[0]));
        let t = s.drop_first();
        assert forall|j: int| 0 <= j < i - 1 implies key_lt(#[trigger] t[j], e) by {
            assert(t[j] == s[j + 1]);
        }
        lemma_insert_at(t, e, i - 1);
        if i < s.len() && same_key(s[i], e) {
            assert(seq![s[0]] + t.update(i - 1, e) =~= s.update(i, e));
        } else {
            assert(seq![s[0]] + t.insert(i - 1, e) =~= s.insert(i, e));
        }
    }
}

/// Writing an event keeps a sorted stream sorted, and the written event is
/// then in the stream.
pub proof fn lemma_insert_sorted<K: EventKind>(s: Seq<Event<K>>, e: Event<K>)
    requires
        stream_sorted(s),
    ensures
        stream_sorted(insert_event(s, e)),
        insert_event(s, e).contains(e),
    decreases s.len(),
{
    let r = insert_event(s, e);
    if s.len() == 0 {
        assert(r[0] == e);
    } else if same_key(s[0], e) {
        assert(r[0] == e);
        assert forall|i: int, j: int| 0 <= i < j < r.len() implies key_lt(#[trigger] r[i], #[trigger] r[j]) by {
            if i == 0 {
                assert(key_lt(s[0], s[j]));
            } else {
                assert(r[i] == s[i] && r[j] == s[j]);
            }
        }
    } else if key_lt(e, s[0]) {
        assert(r[0] == e);
        assert forall|i: int, j: int| 0 <= i < j < r.len() implies key_lt(#[trigger] r[i], #[trigger] r[j]) by {
            if i == 0 {
                if j > 1 {
                    assert(key_lt(s[0], s[j - 1]));
                    lemma_key_transitive(e, s[0], s[j - 1]);
                }
            } else {
                assert(r[i] == s[i - 1] && r[j] == s[j - 1]);
            }
        }
    } else {
        let t = s.drop_first();
        assert(stream_sorted(t)) by {
            assert forall|i: int, j: int| 0 <= i < j < t.len() implies key_lt(#[trigger] t[i], #[trigger] t[j]) by {
                assert(t[i] == s[i + 1] && t[j] == s[j + 1]);
            }
        }
        lemma_insert_sorted(t, e);
        let rt = insert_event(t, e);
        lemma_key_trichotomy(s[0], e);
        assert(key_lt(s[0], e));
        assert(r == seq![s[0]] + rt);
        assert(rt.contains(e));
        assert forall|k: int| 0 <= k < rt.len() implies key_lt(s[0], #[trigger] rt[k]) by {
            lemma_insert_members(t, e, k);
            if rt[k] == e {
            } else {
                let m = choose|m: int| 0 <= m < t.len() && t[m] == rt[k];
                assert(key_lt(s[0], s[m + 1]));
            }
        }
        assert forall|i: int, j: int| 0 <= i < j < r.len() implies key_lt(#[trigger] r[i], #[trigger] r[j]) by {
            if i == 0 {
                assert(r[j] == rt[j - 1]);
            } else {
                assert(r[i] == rt[i - 1] && r[j] == rt[j - 1]);
            }
        }
        assert(r[0] == s[0]);
        let w = choose|w: int| 0 <= w < rt.len() && rt[w] == e;
        assert(r[w + 1] == e);
    }
}

/// Every event of a written stream is the written event or an event that was
/// there before.
pub proof fn lemma_insert_members<K: EventKind>(s: Seq<Event<K>>, e: Event<K>, k: int)
    requires
        0 <= k < insert_event(s, e).len(),
    ensures
        insert_event(s, e)[k] == e || exists|m: int| 0 <= m < s.len() && s[m] == insert_event(s, e)[k],
    decreases s.len(),
{
    let r = insert_event(s, e);
    if s.len() == 0 {
    } else if same_key(s[0], e) {
        if k > 0 {
            assert(r[k] == s[k]);
        }
    } else if key_lt(e, s[0]) {
        if k > 0 {
            assert(r[k] == s[k - 1]);
        }
    } else {
        if k == 0 {
            assert(r[0] == s[0]);
        } else {
            let t = s.drop_first();
            lemma_insert_members(t, e, k - 1);
            assert(r[k] == insert_event(t, e)[k - 1]);
            if insert_event(t, e)[k - 1] != e {
                let m = choose|m: int| 0 <= m < t.len() && t[m] == insert_event(t, e)[k - 1];
                assert(s[m + 1] == r[k]);
            }
        }
    }
}

/// When the written event sorts after every event of the stream, writing it
/// appends it at the end.
pub proof fn lemma_insert_last<K: EventKind>(s: Seq<Event<K>>, e: Event<K>)
    requires
        forall|j: int| 0 <= j < s.len() ==> key_lt(#[trigger] s[j], e),
    ensures
        insert_event(s, e) == s.push(e),
{
    lemma_insert_at(s, e, s.len() as int);
    assert(s.insert(s.len() as int, e) =~= s.push(e));
}

/// Writing an event whose file name is already in a sorted stream replaces
/// that event: the stream keeps its length and then holds the new event.
pub proof fn lemma_overwrite_keeps_length<K: EventKind>(s: Seq<Event<K>>, e: Event<K>, i: int)
    requires
        stream_sorted(s),
        0 <= i < s.len(),
        same_key(s[i], e),
    ensures
        insert_event(s, e) == s.update(i, e),
        insert_event(s, e).len() == s.len(),
{
    assert forall|j: int| 0 <= j < i implies key_lt(#[trigger] s[j], e) by {
        assert(key_lt(s[j], s[i]));
    }
    lemma_key_trichotomy(s[i], e);
    lemma_insert_at(s, e, i);
}

/// Writing two events with the same file name one after the other leaves the
/// stream as long as after the first write: repeated in-place saves collapse
/// into one event, the last one written.
pub proof fn lemma_rewrite_collapses<K: EventKind>(s: Seq<Event<K>>, first: Event<K>, second: Event<K>)
    requires
        stream_sorted(s),
        same_key(first, second),
    ensures
        insert_event(insert_event(s, first), second).len() == insert_event(s, first).len(),
        insert_event(insert_event(s, first), second).contains(second),
        !insert_event(insert_event(s, first), second).contains(first) || first == second,
{
    lemma_insert_sorted(s, first);
    let once = insert_event(s, first);
    let i = choose|i: int| 0 <= i < once.len() && once[i] == first;
    lemma_overwrite_keeps_length(once, second, i);
    lemma_insert_sorted(once, second);
    let twice = insert_event(once, second);
    if twice.contains(first) && first != second {
        let j = choose|j: int| 0 <= j < twice.len() && twice[j] == first;
        assert(twice[i] == second);
        assert(j != i);
        assert(twice[j] == once[j]);
        if j < i {
            assert(key_lt(once[j], once[i]));
        } else {
            assert(key_lt(once[i], once[j]));
        }
        lemma_key_trichotomy(first, first);
    }
}

/// Whether `a` sorts strictly before `b` in a stream.
pub fn event_key_lt<K: EventKind>(a: &Event<K>, b: &Event<K>) -> (r: bool)
    ensures
        r == key_lt(*a, *b),
{
    if a.id.0 < b.id.0 {
        true
    } else if a.id.0 == b.id.0 {
        str_lt(a.kind.event_type(), b.kind.event_type())
    } else {
        false
    }
}

/// Whether `a` and `b` share a file name.
pub fn event_same_key<K: EventKind>(a: &Event<K>, b: &Event<K>) -> (r: bool)
    ensures
        r == same_key(*a, *b),
{
    a.id.0 == b.id.0 && str_eq(a.kind.event_type(), b.kind.event_type())
}

/// Writes `event` into `events`, keeping file-name order.
pub fn insert_event_sorted<K: EventKind>(events: &mut Vec<Event<K>>, event: Event<K>)
    ensures
        final(events)@ == insert_event(old(events)@, event),
{
    let n = events.len();
    let mut i: usize = 0;
    while i < n && event_key_lt(&events[i], &event)
        invariant
            n == events.len(),
            i <= n,
            forall|j: int| 0 <= j < i ==> key_lt(#[trigger] events@[j], event),
        decreases n - i,
    {
        i = i + 1;
    }
    proof {
        lemma_insert_at(events@, event, i as int);
    }
    if i < n && event_same_key(&events[i], &event) {
        events.set(i, event);
    } else {
        events.insert(i, event);
    }
}

/// An append-only store of events, abstracted from how they are stored.
///
/// The rest of the library depends on this trait rather than on any backend.
/// Its one implementation is the verified in-memory store, which records the
/// writes made to it so that a program can carry them over to disk.
pub trait EventStore<K: EventKind> {
    /// The stream of `id` within `collection`, in file-name order (empty when
    /// nothing was stored for it).
    spec fn stream(&self, collection: Seq<char>, id: Seq<char>) -> Seq<Event<K>>;

    /// The names of the entities listed under `collection`.
    spec fn ids(&self, collection: Seq<char>) -> Set<Seq<char>>;

    /// Whether every operation of this store succeeds.
    spec fn infallible(&self) -> bool;

    /// What the store holds besides events of this kind (the events of other
    /// kinds, for a store that holds several).
    type Others;

    /// The store's contents besides events of this kind.
    spec fn others(&self) -> Self::Others;

    /// Writes one event into the stream for `id` within `collection`.
    fn append(&mut self, collection: &str, id: &str, event: &Event<K>) -> (r: Result<()>)
        ensures
            final(self).infallible() == old(self).infallible(),
            final(self).others() == old(self).others(),
            old(self).infallible() ==> r is Ok,
            r matches Err(e) ==> e is Io || e is Serde,
            r is Ok ==> final(self).stream(collection@, id@) == insert_event(
                old(self).stream(collection@, id@),
                *event,
            ),
            r is Ok ==> forall|c: Seq<char>, i: Seq<char>|
                !(c == collection@ && i == id@) ==> #[trigger] final(self).stream(c, i) == old(
                    self,
                ).stream(c, i),
            r is Ok ==> forall|c: Seq<char>| #[trigger]
                final(self).ids(c) == (if c == collection@ {
                    old(self).ids(c).insert(id@)
                } else {
                    old(self).ids(c)
                }),
    ;

    /// Reads the full stream for `id` within `collection`, in file-name
    /// (chronological) order. An entity with nothing stored yields an empty
    /// vec.
    fn read(&self, collection: &str, id: &str) -> (r: Result<Vec<Event<K>>>)
        ensures
            self.infallible() ==> r is Ok,
            r matches Err(e) ==> e is Io || e is Serde,
            r matches Ok(v) ==> v@ == self.stream(collection@, id@),
    ;

    /// Lists the names of every entity under `collection`, each once, in no
    /// particular order.
    fn list_ids(&self, collection: &str) -> (r: Result<Vec<String>>)
        ensures
            self.infallible() ==> r is Ok,
            r matches Err(e) ==> e is Io || e is Serde,
            r matches Ok(v) ==> string_views(v@).no_duplicates() && string_views(v@).to_set()
                == self.ids(collection@),
    ;
}

/// Whether `names` lists `collection` of `store`: each listed name once, in
/// some order.
pub open spec fn lists<K: EventKind, S: EventStore<K>>(store: S, collection: Seq<char>, names: Seq<Seq<char>>) -> bool {
    names.no_duplicates() && names.to_set() == store.ids(collection)
}

/// The effect of one successful write: the stream of `id` within
/// `collection` holds `e` in addition (in file-name order), every other stream
/// is unchanged, `id` is listed under `collection`, and nothing the store
/// holds besides events of this kind changes.
pub open spec fn wrote<K: EventKind, S: EventStore<K>>(
    before: S,
    after: S,
    collection: Seq<char>,
    id: Seq<char>,
    e: Event<K>,
) -> bool {
    &&& after.stream(collection, id) == insert_event(before.stream(collection, id), e)
    &&& forall|c: Seq<char>, i: Seq<char>|
        !(c == collection && i == id) ==> #[trigger] after.stream(c, i) == before.stream(c, i)
    &&& forall|c: Seq<char>| #[trigger]
        after.ids(c) == (if c == collection {
            before.ids(c).insert(id)
        } else {
            before.ids(c)
        })
    &&& after.infallible() == before.infallible()
    &&& after.others() == before.others()
}

} // verus!
