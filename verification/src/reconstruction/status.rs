//! Reconstruct a [`Status`] by folding its events.
//!
//! A fixed set of seed statuses always exists without anything stored. A seed
//! is expressed as a synthetic snapshot event that the storage layer overlays
//! at read time, so rebuilding a status is the same blind fold as for any
//! other entity. This module also declares which seeds statuses have.

use vstd::prelude::*;

use crate::events::status::{StatusEvent, StatusEventKind, COLLECTION};
use crate::projections::status::{clone_opt_string, opt_text, Status, StatusId, StatusKind, StatusView};
use crate::shared::id::uuid_millis;
use crate::shared::text::str_eq;
use crate::storage::seeds::{slug_views, Seeded};

verus! {

/// Canonical slug ordering for the built-in statuses. Seeds appear in this
/// order before any user-created statuses.
pub open spec fn seed_slug_views() -> Seq<Seq<char>> {
    seq!["backlog"@, "todo"@, "in_progress"@, "in_review"@, "complete"@, "canceled"@]
}

/// The display name of a seed status.
pub open spec fn seed_name(slug: Seq<char>) -> Seq<char> {
    if slug == "backlog"@ {
        "Backlog"@
    } else if slug == "todo"@ {
        "Todo"@
    } else if slug == "in_progress"@ {
        "In Progress"@
    } else if slug == "in_review"@ {
        "In Review"@
    } else if slug == "complete"@ {
        "Complete"@
    } else {
        "Canceled"@
    }
}

/// The semantic kind of a seed status.
pub open spec fn seed_kind(slug: Seq<char>) -> StatusKind {
    if slug == "backlog"@ || slug == "todo"@ {
        StatusKind::Unstarted
    } else if slug == "in_progress"@ || slug == "in_review"@ {
        StatusKind::Started
    } else if slug == "complete"@ {
        StatusKind::Complete
    } else {
        StatusKind::Canceled
    }
}

/// The default a seed status has with nothing stored for it: its name and
/// kind, no description, not removed, and no creation time.
pub open spec fn seed_default(id: StatusId, slug: Seq<char>) -> StatusView {
    StatusView {
        id,
        name: seed_name(slug),
        kind: seed_kind(slug),
        description: None,
        removed: false,
        created_at_millis: None,
    }
}

/// Statuses own the declaration of their seeds: which slugs exist and the
/// snapshot each one sets. The seeding engine and overlay live in
/// [`storage::seeds`](crate::storage::seeds).
impl Seeded for Status {
    type Id = StatusId;

    type EventKind = StatusEventKind;

    open spec fn obeys_seed_spec() -> bool {
        true
    }

    open spec fn spec_collection() -> Seq<char> {
        COLLECTION@
    }

    open spec fn spec_id_prefix() -> Seq<char> {
        "status_"@
    }

    open spec fn slugs() -> Seq<Seq<char>> {
        seed_slug_views()
    }

    open spec fn is_snapshot(slug: Seq<char>, kind: StatusEventKind) -> bool {
        match kind {
            StatusEventKind::Snapshot { name, kind, description, removed } => name@ == seed_name(slug)
                && kind == seed_kind(slug) && description is None && !removed,
            _ => false,
        }
    }

    open spec fn uuid_of(id: StatusId) -> u128 {
        id.0
    }

    fn collection() -> (r: &'static str) {
        COLLECTION
    }

    fn id_prefix() -> (r: &'static str) {
        StatusId::PREFIX
    }

    fn id_from_uuid(uuid: u128) -> (id: StatusId) {
        StatusId(uuid)
    }

    fn id_uuid(id: &StatusId) -> (uuid: u128) {
        id.0
    }

    fn seed_slugs() -> (r: &'static [&'static str]) {
        let r: &'static [&'static str] = &["backlog", "todo", "in_progress", "in_review", "complete", "canceled"];
        assert(slug_views(r@) =~= seed_slug_views());
        r
    }

    fn seed_snapshot(slug: &str) -> (r: StatusEventKind) {
        let (name, kind) = if str_eq(slug, "backlog") {
            ("Backlog", StatusKind::Unstarted)
        } else if str_eq(slug, "todo") {
            ("Todo", StatusKind::Unstarted)
        } else if str_eq(slug, "in_progress") {
            ("In Progress", StatusKind::Started)
        } else if str_eq(slug, "in_review") {
            ("In Review", StatusKind::Started)
        } else if str_eq(slug, "complete") {
            ("Complete", StatusKind::Complete)
        } else {
            ("Canceled", StatusKind::Canceled)
        };
        StatusEventKind::Snapshot { name: String::from_str(name), kind, description: None, removed: false }
    }
}

/// The deterministic ID of the seed status `slug` (its version 5 UUID).
/// A version 5 UUID carries no timestamp, so a seed's ID decodes no
/// creation time.
pub fn status_seed_id(slug: &str) -> (id: StatusId)
    ensures
        id.0 == crate::shared::id::seed_uuid(slug@),
        crate::shared::id::uuid_version(id.0) == 5,
        crate::shared::id::uuid_millis(id.0) is None,
{
    StatusId(crate::shared::id::seed_id(slug))
}

/// Whether an event can start a status's history (`created` or `snapshot`).
pub open spec fn is_bootstrap(kind: StatusEventKind) -> bool {
    kind is Created || kind is Snapshot
}

/// The creation time a snapshot leaves: the one the status already has, or
/// else the snapshot event's own.
pub open spec fn snapshot_created_at(state: Option<StatusView>, e: StatusEvent) -> Option<u64> {
    match state {
        Some(s) => match s.created_at_millis {
            Some(c) => Some(c),
            None => uuid_millis(e.id.0),
        },
        None => uuid_millis(e.id.0),
    }
}

/// The effect of one event on a status being rebuilt.
pub open spec fn apply_event(state: Option<StatusView>, id: StatusId, e: StatusEvent) -> Option<StatusView> {
    match e.kind {
        StatusEventKind::Created { name, kind, description } => Some(
            StatusView {
                id,
                name: name@,
                kind,
                description: opt_text(description),
                removed: false,
                created_at_millis: uuid_millis(e.id.0),
            },
        ),
        StatusEventKind::Renamed { new_name } => match state {
            Some(s) => Some(StatusView { name: new_name@, ..s }),
            None => None,
        },
        StatusEventKind::DescriptionUpdated { description } => match state {
            Some(s) => Some(StatusView { description: opt_text(description), ..s }),
            None => None,
        },
        StatusEventKind::KindChanged { new_kind } => match state {
            Some(s) => Some(StatusView { kind: new_kind, ..s }),
            None => None,
        },
        StatusEventKind::Removed => match state {
            Some(s) => Some(StatusView { removed: true, ..s }),
            None => None,
        },
        StatusEventKind::Snapshot { name, kind, description, removed } => Some(
            StatusView {
                id,
                name: name@,
                kind,
                description: opt_text(description),
                removed,
                created_at_millis: snapshot_created_at(state, e),
            },
        ),
    }
}

/// Folds `events`, in order, onto `init`.
pub open spec fn replay_from(init: Option<StatusView>, id: StatusId, events: Seq<StatusEvent>) -> Option<StatusView>
    decreases events.len(),
{
    if events.len() == 0 {
        init
    } else {
        apply_event(replay_from(init, id, events.drop_last()), id, events.last())
    }
}

/// The status a history rebuilds on top of an optional baseline: with no
/// baseline, `None` unless the history starts with a `created` (or
/// bootstrapping `snapshot`) event.
pub open spec fn replay_base_spec(id: StatusId, base: Option<StatusView>, events: Seq<StatusEvent>) -> Option<StatusView> {
    if base is None && (events.len() == 0 || !is_bootstrap(events[0].kind)) {
        None
    } else {
        replay_from(base, id, events)
    }
}

/// The status a history rebuilds: nothing until a `created` (or `snapshot`)
/// event establishes it, and from then on every event applied in turn.
pub open spec fn replay_spec(id: StatusId, events: Seq<StatusEvent>) -> Option<StatusView> {
    replay_from(None, id, events)
}

/// Whether some event of a history can establish a status.
pub open spec fn establishes(events: Seq<StatusEvent>) -> bool {
    exists|k: int| 0 <= k < events.len() && is_bootstrap(#[trigger] events[k].kind)
}

/// A fold from nothing yields a status exactly when some event establishes
/// one: events before it change nothing, and none after it undoes it.
proof fn lemma_replay_some_iff_established(id: StatusId, events: Seq<StatusEvent>)
    ensures
        replay_from(None, id, events) is Some <==> establishes(events),
    decreases events.len(),
{
    if events.len() > 0 {
        let init = events.drop_last();
        lemma_replay_some_iff_established(id, init);
        if establishes(init) {
            let k = choose|k: int| 0 <= k < init.len() && is_bootstrap(#[trigger] init[k].kind);
            assert(events[k] == init[k]);
        }
        if establishes(events) && !is_bootstrap(events.last().kind) {
            let k = choose|k: int| 0 <= k < events.len() && is_bootstrap(#[trigger] events[k].kind);
            assert(k < init.len());
            assert(init[k] == events[k]);
        }
        if is_bootstrap(events.last().kind) {
            assert(is_bootstrap(events[events.len() - 1].kind));
        }
    }
}

/// Applies one event to a status being rebuilt.
fn apply(state: Option<Status>, id: StatusId, event: &StatusEvent) -> (r: Option<Status>)
    ensures
        r.deep_view() == apply_event(state.deep_view(), id, *event),
{
    match &event.kind {
        StatusEventKind::Created { name, kind, description } => Some(
            Status {
                id,
                name: name.clone(),
                kind: *kind,
                description: clone_opt_string(description),
                removed: false,
                created_at_millis: event.created_at_millis(),
            },
        ),
        StatusEventKind::Renamed { new_name } => match state {
            Some(s) => Some(Status { name: new_name.clone(), ..s }),
            None => None,
        },
        StatusEventKind::DescriptionUpdated { description } => match state {
            Some(s) => Some(Status { description: clone_opt_string(description), ..s }),
            None => None,
        },
        StatusEventKind::KindChanged { new_kind } => match state {
            Some(s) => Some(Status { kind: *new_kind, ..s }),
            None => None,
        },
        StatusEventKind::Removed => match state {
            Some(s) => Some(Status { removed: true, ..s }),
            None => None,
        },
        StatusEventKind::Snapshot { name, kind, description, removed } => {
            // Preserve the original creation time if the status already
            // exists; otherwise this snapshot bootstraps it (a seed's snapshot
            // carries no timestamp, so seeds stay `None`).
            let created_at_millis = match &state {
                Some(s) => match s.created_at_millis {
                    Some(c) => Some(c),
                    None => event.created_at_millis(),
                },
                None => event.created_at_millis(),
            };
            Some(
                Status {
                    id,
                    name: name.clone(),
                    kind: *kind,
                    description: clone_opt_string(description),
                    removed: *removed,
                    created_at_millis,
                },
            )
        },
    }
}

impl Status {
    /// Rebuilds a status from an optional baseline plus its event history.
    ///
    /// With `base = Some(seed)` the history starts from the seed default and
    /// its events mutate it; with `base = None` the first event must be
    /// `created` (or a bootstrapping `snapshot`), otherwise the result is
    /// `None`.
    pub fn replay(id: StatusId, base: Option<Status>, events: &[StatusEvent]) -> (r: Option<Status>)
        ensures
            r.deep_view() == replay_base_spec(id, base.deep_view(), events@),
            base is None ==> (r is None <==> events@.len() == 0 || !is_bootstrap(events@[0].kind)),
    {
        if base.is_none() {
            if events.len() == 0 {
                return None;
            }
            match &events[0].kind {
                StatusEventKind::Created { .. } | StatusEventKind::Snapshot { .. } => {},
                _ => {
                    return None;
                },
            }
        }
        let ghost bootstrapped = base is None;
        let mut status: Option<Status> = base;
        let mut i: usize = 0;
        while i < events.len()
            invariant
                i <= events@.len(),
                bootstrapped ==> events@.len() > 0 && is_bootstrap(events@[0].kind),
                status.deep_view() == replay_from(base.deep_view(), id, events@.take(i as int)),
                bootstrapped && i > 0 ==> status is Some,
            decreases events@.len() - i,
        {
            proof {
                assert(events@.take(i + 1).drop_last() =~= events@.take(i as int));
            }
            status = apply(status, id, &events[i]);
            i = i + 1;
        }
        proof {
            assert(events@.take(events@.len() as int) =~= events@);
        }
        status
    }
}

/// Rebuilds a status by folding its events in chronological order.
///
/// For seed statuses the stream begins with the seed's synthetic snapshot
/// event; user-created statuses begin with a `created` (or `snapshot`) event.
/// Returns `None` if the history establishes no state: no event of it is a
/// `created` or `snapshot`.
pub fn replay(id: StatusId, events: &[StatusEvent]) -> (r: Option<Status>)
    ensures
        r.deep_view() == replay_spec(id, events@),
        r is None <==> !establishes(events@),
{
    let mut status: Option<Status> = None;
    let mut i: usize = 0;
    while i < events.len()
        invariant
            i <= events@.len(),
            status.deep_view() == replay_from(None, id, events@.take(i as int)),
        decreases events@.len() - i,
    {
        proof {
            assert(events@.take(i + 1).drop_last() =~= events@.take(i as int));
        }
        status = apply(status, id, &events[i]);
        i = i + 1;
    }
    proof {
        assert(events@.take(events@.len() as int) =~= events@);
        lemma_replay_some_iff_established(id, events@);
    }
    status
}

/// Extending a history by one event applies that event to what the history
/// rebuilds: replaying is an incremental fold.
pub proof fn lemma_replay_push(id: StatusId, events: Seq<StatusEvent>, e: StatusEvent)
    ensures
        replay_spec(id, events.push(e)) == apply_event(replay_spec(id, events), id, e),
{
    assert(events.push(e).drop_last() =~= events);
}

/// A snapshot on top of an existing status keeps its original creation time.
pub proof fn lemma_snapshot_keeps_creation_time(id: StatusId, events: Seq<StatusEvent>, snapshot: StatusEvent)
    requires
        replay_spec(id, events) matches Some(s) && s.created_at_millis is Some,
        snapshot.kind is Snapshot,
    ensures
        replay_spec(id, events.push(snapshot)).unwrap().created_at_millis == replay_spec(
            id,
            events,
        ).unwrap().created_at_millis,
{
    lemma_replay_push(id, events, snapshot);
}

/// Folding a history with a leading event is folding the rest on top of what
/// that event alone rebuilds.
proof fn lemma_leading_event(id: StatusId, first: StatusEvent, events: Seq<StatusEvent>)
    ensures
        replay_from(None, id, seq![first] + events) == replay_from(
            apply_event(None, id, first),
            id,
            events,
        ),
    decreases events.len(),
{
    if events.len() == 0 {
        assert(seq![first] + events =~= seq![first]);
        assert(seq![first].drop_last() =~= Seq::<StatusEvent>::empty());
        assert(seq![first].last() == first);
        assert(replay_from(None, id, seq![first].drop_last()) == None::<StatusView>);
    } else {
        lemma_leading_event(id, first, events.drop_last());
        assert((seq![first] + events).drop_last() =~= seq![first] + events.drop_last());
        assert((seq![first] + events).last() == events.last());
    }
}

/// A history rebuilt on top of a seed baseline is the same as the history with
/// the seed's snapshot event in front of it, when that snapshot rebuilds the
/// baseline.
pub proof fn lemma_base_is_leading_snapshot(
    id: StatusId,
    seed: StatusEvent,
    events: Seq<StatusEvent>,
)
    requires
        seed.kind is Snapshot,
    ensures
        replay_spec(id, seq![seed] + events) == replay_base_spec(
            id,
            apply_event(None, id, seed),
            events,
        ),
{
    lemma_leading_event(id, seed, events);
    assert((seq![seed] + events)[0] == seed);
}

/// Every edit changes exactly one thing about a status it is appended to,
/// whether the history starts from a seed default or from nothing: a rename
/// only its name, a description update only its description, a kind change
/// only its kind, and a removal only its removed flag. The ID and creation
/// time never change. A snapshot sets every attribute at once and keeps the
/// creation time.
pub proof fn lemma_edit_changes_one_field(
    init: Option<StatusView>,
    id: StatusId,
    events: Seq<StatusEvent>,
    e: StatusEvent,
)
    requires
        replay_from(init, id, events) is Some,
    ensures
        ({
            let s = replay_from(init, id, events).unwrap();
            let after = replay_from(init, id, events.push(e));
            match e.kind {
                StatusEventKind::Renamed { new_name } => after == Some(StatusView { name: new_name@, ..s }),
                StatusEventKind::DescriptionUpdated { description } => after == Some(
                    StatusView { description: opt_text(description), ..s },
                ),
                StatusEventKind::KindChanged { new_kind } => after == Some(StatusView { kind: new_kind, ..s }),
                StatusEventKind::Removed => after == Some(StatusView { removed: true, ..s }),
                StatusEventKind::Snapshot { name, kind, description, removed } => after matches Some(a)
                    && a.id == id && a.name == name@ && a.kind == kind && a.description == opt_text(
                    description,
                ) && a.removed == removed && (s.created_at_millis is Some ==> a.created_at_millis
                    == s.created_at_millis),
                _ => true,
            }
        }),
{
    assert(events.push(e).drop_last() =~= events);
}

/// Changing a status's kind keeps everything else about it: its name,
/// description, removed flag, ID and creation time.
pub proof fn lemma_kind_change_keeps_the_rest(
    init: Option<StatusView>,
    id: StatusId,
    events: Seq<StatusEvent>,
    e: StatusEvent,
)
    requires
        replay_from(init, id, events) is Some,
        e.kind is KindChanged,
    ensures
        replay_from(init, id, events.push(e)) matches Some(after) && {
            let before = replay_from(init, id, events).unwrap();
            &&& after.kind == e.kind->new_kind
            &&& after.name == before.name
            &&& after.description == before.description
            &&& after.removed == before.removed
            &&& after.id == before.id
            &&& after.created_at_millis == before.created_at_millis
        },
{
    lemma_edit_changes_one_field(init, id, events, e);
}

} // verus!
