use tasks_core::storage::seeds::{seed_events, seed_id_for, Seeded};

// A self-contained entity to exercise the engine without depending on any
// real domain type.
#[derive(Clone, Copy, PartialEq, Eq, Hash, Debug)]
struct FakeId(u128);

struct FakeKind {
    label: String,
}

struct Fake;

impl Seeded for Fake {
    type Id = FakeId;
    type EventKind = FakeKind;

    fn collection() -> &'static str {
        "fakes"
    }

    fn id_prefix() -> &'static str {
        "fake_"
    }

    fn id_from_uuid(uuid: u128) -> FakeId {
        FakeId(uuid)
    }

    fn id_uuid(id: &FakeId) -> u128 {
        id.0
    }

    fn seed_slugs() -> &'static [&'static str] {
        &["alpha", "beta"]
    }

    fn seed_snapshot(slug: &str) -> FakeKind {
        FakeKind { label: slug.to_uppercase() }
    }
}

#[test]
fn seed_ids_are_deterministic_and_distinct() {
    assert_eq!(seed_id_for::<Fake>("alpha"), seed_id_for::<Fake>("alpha"));
    assert_ne!(seed_id_for::<Fake>("alpha"), seed_id_for::<Fake>("beta"));
}

#[test]
fn one_snapshot_event_per_slug_with_no_timestamp() {
    let events = seed_events::<Fake>();
    assert_eq!(events.len(), 2);
    assert_eq!(events[0].kind.label, "ALPHA");
    // Version 5 ids carry no timestamp, so seeds have no creation time.
    assert!(events[0].created_at_millis().is_none());
}
