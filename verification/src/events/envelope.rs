//! The event envelope and the trait every entity's event enum implements.
//!
//! On disk an event is `{ "id": "<uuid>", "type": "created", "payload": {...} }`:
//! the `id` is the event's own UUID, and `type` and `payload` come from the
//! entity's event enum.

use vstd::prelude::*;

use crate::shared::id::{uuid_millis, uuid_version, EventId};

verus! {

/// Implemented by every entity's event enum to expose its variant's `type` tag
/// (e.g. `"created"`). The same string is the `type` field of the stored JSON
/// and the suffix of the event's file name (`<hex>-created.json`).
pub trait EventKind: Sized + Clone {
    /// The `type` tag of this variant.
    spec fn tag(&self) -> Seq<char>;

    /// The `type` tag of this variant.
    fn event_type(&self) -> (r: &'static str)
        ensures
            r@ == self.tag(),
    ;

    /// Cloning an event payload yields an equal payload.
    proof fn lemma_clone_exact(a: Self, b: Self)
        requires
            vstd::pervasive::cloned(a, b),
        ensures
            a == b,
    ;
}

/// An event wrapping an entity-specific payload `K`.
#[derive(Debug)]
pub struct Event<K> {
    pub id: EventId,
    pub kind: K,
}

impl<K> Event<K> {
    /// Wraps a payload in a freshly minted, time-ordered event.
    pub fn new(kind: K) -> (r: Self)
        ensures
            r.kind == kind,
            uuid_version(r.id.0) == 7,
    {
        Event { id: EventId::new(), kind }
    }

    /// Creation time (ms since the Unix epoch) decoded from the event ID.
    pub fn created_at_millis(&self) -> (r: Option<u64>)
        ensures
            r == uuid_millis(self.id.0),
    {
        self.id.created_at_millis()
    }
}

impl<K: EventKind> Clone for Event<K> {
    fn clone(&self) -> (r: Self)
        ensures
            r == *self,
    {
        let kind = self.kind.clone();
        proof {
            K::lemma_clone_exact(self.kind, kind);
        }
        Event { id: self.id, kind }
    }
}

/// Clones a list of events, keeping every event equal to the original.
pub fn clone_events<K: EventKind>(events: &Vec<Event<K>>) -> (r: Vec<Event<K>>)
    ensures
        r@ == events@,
{
    let mut out: Vec<Event<K>> = Vec::new();
    let mut i: usize = 0;
    while i < events.len()
        invariant
            i <= events.len(),
            out@ == events@.take(i as int),
        decreases events.len() - i,
    {
        out.push(events[i].clone());
        assert(events@.take(i + 1) =~= events@.take(i as int).push(events@[i as int]));
        i = i + 1;
    }
    assert(events@.take(events.len() as int) =~= events@);
    out
}

} // verus!
