//! The on-disk layout of the filesystem-backed event store.
//!
//! Events are persisted under a workspace's `.tasks` directory, one file per
//! event, laid out as:
//!
//! ```text
//! <root>/.tasks/
//!   projects/project_<hex>/events/<event-hex>-<type>.json
//!   tasks/task_<hex>/events/<event-hex>-<type>.json
//!   statuses/status_<hex>/events/<event-hex>-<type>.json
//! ```
//!
//! The file name is `<event-hex>-<type>.json`: the event's hex keeps writes
//! unique and, because version 7 UUIDs sort chronologically, sorting file
//! names replays events in the order they happened. The `type` suffix makes
//! the store self-describing on disk.
//!
//! This module computes paths and names and decides which files form a stream
//! and in what order; the program that owns the disk does the reading and
//! writing.

use vstd::prelude::*;
use vstd::relations::{sorted_by, total_ordering};
use vstd::seq_lib::{group_to_multiset_ensures, lemma_sorted_unique};

use crate::events::envelope::{Event, EventKind};
use crate::shared::text::{
    concat, lemma_seq_lt_irreflexive, lemma_seq_lt_transitive, lemma_seq_lt_trichotomy, seq_lt,
    str_lt, string_views,
};

verus! {

/// `part` appended to the path `base` as one more component: a `/` goes in
/// between unless `base` is empty or already ends with one. (`part` is always
/// a relative name here.)
pub open spec fn joined(base: Seq<char>, part: Seq<char>) -> Seq<char> {
    if base.len() == 0 {
        part
    } else if base.last() == '/' {
        base + part
    } else {
        base + "/"@ + part
    }
}

/// Appends the relative name `part` to the path `base`.
pub fn path_join(base: &str, part: &str) -> (r: String)
    ensures
        r@ == joined(base@, part@),
{
    let n = base.unicode_len();
    if n == 0 {
        String::from_str(part)
    } else if base.get_char(n - 1) == '/' {
        concat(base, part)
    } else {
        let with_sep = concat(base, "/");
        proof {
            reveal_strlit("/");
        }
        let r = concat(with_sep.as_str(), part);
        r
    }
}

/// A workspace-rooted event store: a chosen repository folder and the
/// `.tasks` event log inside it.
///
/// It holds only the root path; nothing is created on disk until the first
/// event is appended or the collection directories are ensured.
pub struct FsEventStore {
    root: String,
}

/// A chosen repository folder and the `.tasks` event store inside it (the
/// name the desktop app uses for the same store).
pub type Workspace = FsEventStore;

impl FsEventStore {
    /// The root folder, as characters.
    pub closed spec fn spec_root(&self) -> Seq<char> {
        self.root@
    }

    /// The `.tasks` directory of a root folder.
    pub open spec fn spec_dot_tasks(root: Seq<char>) -> Seq<char> {
        joined(root, ".tasks"@)
    }

    /// The directory holding a collection's entities.
    pub open spec fn spec_collection_dir(root: Seq<char>, collection: Seq<char>) -> Seq<char> {
        joined(Self::spec_dot_tasks(root), collection)
    }

    /// The events directory of one entity.
    pub open spec fn spec_events_dir(root: Seq<char>, collection: Seq<char>, id: Seq<char>) -> Seq<char> {
        joined(joined(Self::spec_collection_dir(root, collection), id), "events"@)
    }

    /// Open a store rooted at `root`.
    pub fn new(root: &str) -> (r: Self)
        ensures
            r.spec_root() == root@,
    {
        FsEventStore { root: String::from_str(root) }
    }

    /// The chosen working folder.
    pub fn root(&self) -> (r: &str)
        ensures
            r@ == self.spec_root(),
    {
        self.root.as_str()
    }

    /// The `.tasks` directory holding all event data.
    pub fn dot_tasks(&self) -> (r: String)
        ensures
            r@ == Self::spec_dot_tasks(self.spec_root()),
    {
        path_join(self.root.as_str(), ".tasks")
    }

    /// The directory holding a collection's entities, e.g. `.tasks/projects`.
    pub fn collection_dir(&self, collection: &str) -> (r: String)
        ensures
            r@ == Self::spec_collection_dir(self.spec_root(), collection@),
    {
        let dot = self.dot_tasks();
        path_join(dot.as_str(), collection)
    }

    /// The events directory for one entity, e.g.
    /// `.tasks/projects/project_<hex>/events`.
    pub fn events_dir(&self, collection: &str, id: &str) -> (r: String)
        ensures
            r@ == Self::spec_events_dir(self.spec_root(), collection@, id@),
    {
        let dir = self.collection_dir(collection);
        let entity = path_join(dir.as_str(), id);
        path_join(entity.as_str(), "events")
    }

    /// The file an event of `id` within `collection` is written to.
    pub fn event_path<K: EventKind>(&self, collection: &str, id: &str, event: &Event<K>) -> (r: String)
        ensures
            r@ == joined(Self::spec_events_dir(self.spec_root(), collection@, id@), file_name_of(*event)),
    {
        let dir = self.events_dir(collection, id);
        let name = event_file_name(event);
        path_join(dir.as_str(), name.as_str())
    }

    /// The directories to find-or-create so that every collection in
    /// `collections` exists, in order. Creating them is idempotent, so this
    /// is safe to act on at every launch.
    pub fn collection_dirs(&self, collections: &Vec<&str>) -> (r: Vec<String>)
        ensures
            r@.len() == collections@.len(),
            forall|i: int|
                0 <= i < r@.len() ==> #[trigger] r@[i]@ == Self::spec_collection_dir(
                    self.spec_root(),
                    collections@[i]@,
                ),
    {
        let mut out: Vec<String> = Vec::new();
        let mut i: usize = 0;
        while i < collections.len()
            invariant
                i <= collections@.len(),
                out@.len() == i,
                forall|j: int|
                    0 <= j < i ==> #[trigger] out@[j]@ == Self::spec_collection_dir(
                        self.spec_root(),
                        collections@[j]@,
                    ),
            decreases collections@.len() - i,
        {
            out.push(self.collection_dir(collections[i]));
            i = i + 1;
        }
        out
    }
}

/// The file name of an event: `<event-hex>-<type>.json`.
pub open spec fn file_name_of<K: EventKind>(e: Event<K>) -> Seq<char> {
    e.id.text() + "-"@ + e.kind.tag() + ".json"@
}

/// The file name an event is stored under.
pub fn event_file_name<K: EventKind>(event: &Event<K>) -> (r: String)
    ensures
        r@ == file_name_of(*event),
{
    let hex = event.id.to_string();
    let with_dash = concat(hex.as_str(), "-");
    let with_type = concat(with_dash.as_str(), event.kind.event_type());
    let r = concat(with_type.as_str(), ".json");
    proof {
        reveal_strlit("-");
        reveal_strlit(".json");
    }
    r
}

/// Whether a file name has the `json` extension (the part after its last
/// `.`, where a name that is only a leading `.` plus `json` has none).
pub open spec fn is_json_name(name: Seq<char>) -> bool {
    name.len() > 5 && ".json"@.is_suffix_of(name)
}

/// Whether a file in an events directory holds an event.
pub fn is_event_file(name: &str) -> (r: bool)
    ensures
        r == is_json_name(name@),
{
    proof {
        reveal_strlit(".json");
    }
    let n = name.unicode_len();
    if n <= 5 {
        return false;
    }
    let suffix = ".json";
    let mut i: usize = 0;
    while i < 5
        invariant
            n == name@.len(),
            n > 5,
            suffix@ == ".json"@,
            suffix@.len() == 5,
            i <= 5,
            forall|j: int| 0 <= j < i ==> name@[n - 5 + j] == suffix@[j],
        decreases 5 - i,
    {
        if name.get_char(n - 5 + i) != suffix.get_char(i) {
            proof {
                assert(name@.subrange(n - 5, n as int)[i as int] != suffix@[i as int]);
            }
            return false;
        }
        i = i + 1;
    }
    proof {
        assert(name@.subrange(n - 5, n as int) =~= ".json"@);
    }
    true
}

/// The order in which file names sort: by characters, lexicographically.
pub open spec fn name_le() -> spec_fn(Seq<char>, Seq<char>) -> bool {
    |a: Seq<char>, b: Seq<char>| !seq_lt(b, a)
}

/// File-name order is a total order.
pub proof fn lemma_name_le_total()
    ensures
        total_ordering(name_le()),
{
    assert forall|a: Seq<char>| #[trigger] (name_le())(a, a) by {
        lemma_seq_lt_irreflexive(a);
    }
    assert forall|a: Seq<char>, b: Seq<char>|
        #[trigger] (name_le())(a, b) && #[trigger] (name_le())(b, a) implies a == b by {
        lemma_seq_lt_trichotomy(a, b);
    }
    assert forall|a: Seq<char>, b: Seq<char>, c: Seq<char>|
        #[trigger] (name_le())(a, b) && #[trigger] (name_le())(b, c) implies (name_le())(a, c) by {
        lemma_seq_lt_trichotomy(a, b);
        lemma_seq_lt_trichotomy(b, c);
        if seq_lt(c, a) {
            if a == b {
            } else {
                lemma_seq_lt_transitive(c, a, b);
            }
        }
    }
    assert forall|a: Seq<char>, b: Seq<char>| #[trigger] (name_le())(a, b) || (name_le())(b, a) by {
        lemma_seq_lt_trichotomy(a, b);
    }
}

/// The event files among the names of an events directory, in file-name
/// order: the order the stream replays in.
pub open spec fn stream_files(names: Seq<Seq<char>>) -> Seq<Seq<char>> {
    names.filter(|n: Seq<char>| is_json_name(n)).sort_by(name_le())
}

/// Picks the event files out of an events directory listing and sorts them
/// into replay order.
pub fn select_event_files(names: &Vec<String>) -> (r: Vec<String>)
    ensures
        string_views(r@) == stream_files(string_views(names@)),
{
    broadcast use group_to_multiset_ensures;

    let ghost views = string_views(names@);
    let ghost pred = |n: Seq<char>| is_json_name(n);
    let mut out: Vec<String> = Vec::new();
    let mut k: usize = 0;
    while k < names.len()
        invariant
            k <= names@.len(),
            views == string_views(names@),
            pred == (|n: Seq<char>| is_json_name(n)),
            sorted_by(string_views(out@), name_le()),
            string_views(out@).to_multiset() == views.take(k as int).filter(pred).to_multiset(),
        decreases names@.len() - k,
    {
        let name = &names[k];
        proof {
            assert(views[k as int] == name@);
            assert(views.take(k + 1) =~= views.take(k as int).push(name@));
            views.take(k as int).lemma_filter_push(name@, pred);
        }
        if is_event_file(name.as_str()) {
            let mut i: usize = 0;
            while i < out.len() && !str_lt(name.as_str(), out[i].as_str())
                invariant
                    i <= out@.len(),
                    forall|j: int| 0 <= j < i ==> !seq_lt(name@, #[trigger] out@[j]@),
                decreases out@.len() - i,
            {
                i = i + 1;
            }
            let ghost before = string_views(out@);
            out.insert(i, name.clone());
            proof {
                lemma_name_le_total();
                let after = string_views(out@);
                assert(after =~= before.insert(i as int, name@));
                assert(sorted_by(after, name_le())) by {
                    assert forall|a: int, b: int| 0 <= a < b < after.len() implies #[trigger] (name_le())(after[a], after[b]) by {
                        if b < i {
                            assert(after[a] == before[a] && after[b] == before[b]);
                        } else if b == i {
                            assert(after[a] == before[a]);
                            assert(!seq_lt(name@, out@[a]@));
                            lemma_seq_lt_trichotomy(name@, before[a]);
                        } else if a < i {
                            assert(after[a] == before[a] && after[b] == before[b - 1]);
                            assert((name_le())(before[a], before[b - 1]));
                        } else if a == i {
                            assert(after[b] == before[b - 1]);
                            assert(seq_lt(name@, before[i as int]));
                            lemma_seq_lt_trichotomy(name@, before[i as int]);
                            if b - 1 > i {
                                assert((name_le())(before[i as int], before[b - 1]));
                                assert((name_le())(name@, before[i as int]));
                            }
                        } else {
                            assert(after[a] == before[a - 1] && after[b] == before[b - 1]);
                            assert((name_le())(before[a - 1], before[b - 1]));
                        }
                    }
                }
                vstd::seq_lib::to_multiset_insert(before, i as int, name@);
                assert(after.to_multiset() =~= before.to_multiset().insert(name@));
                views.take(k as int).filter(pred).to_multiset_ensures();
            }
        }
        k = k + 1;
    }
    proof {
        assert(views.take(names@.len() as int) =~= views);
        lemma_name_le_total();
        views.filter(pred).lemma_sort_by_ensures(name_le());
        lemma_sorted_unique(string_views(out@), views.filter(pred).sort_by(name_le()), name_le());
    }
    out
}

} // verus!
