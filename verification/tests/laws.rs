use tasks_core::shared::id::millis_from_uuid_v7;
use tasks_core::commands::{project, task};
use tasks_core::events::project::{ProjectEvent, ProjectEventKind};
use tasks_core::storage::memory::InMemoryEventStore;
use tasks_core::projections::project::ProjectId;
use tasks_core::projections::status::StatusId;
use tasks_core::projections::task::TaskId;
use tasks_core::reconstruction::project::replay;
use tasks_core::shared::id::EventId;
use tasks_core::storage::fs::event_file_name;

#[test]
fn replaying_more_events_continues_the_fold() {
    let id = ProjectId::new();
    let created = ProjectEvent::new(ProjectEventKind::Created { name: "A".into() });
    let renamed = ProjectEvent::new(ProjectEventKind::Renamed { new_name: "B".into() });
    let closed = ProjectEvent::new(ProjectEventKind::Closed);
    let first = replay(id, &[created.clone()]).unwrap();
    let all = replay(id, &[created, renamed, closed]).unwrap();
    assert_eq!(first.name, "A");
    assert_eq!(all.name, "B");
    assert!(all.closed);
    assert_eq!(all.created_at_millis, first.created_at_millis);
}

#[test]
fn each_kind_of_id_rejects_the_others() {
    let task = TaskId::new().to_string();
    let status = StatusId::new().to_string();
    let project = ProjectId::new().to_string();
    assert!(status.parse::<TaskId>().is_err());
    assert!(project.parse::<StatusId>().is_err());
    assert!(task.parse::<StatusId>().is_err());
    assert!(status.parse::<StatusId>().is_ok());
}

#[test]
fn event_ids_order_by_creation_time() {
    // Version 7 layout: 48-bit millisecond timestamp, then version 7.
    let earlier = EventId::from_uuid((1_000u128 << 80) | (7u128 << 76) | 0xffff_ffff);
    let later = EventId::from_uuid((1_001u128 << 80) | (7u128 << 76));
    assert_eq!(earlier.created_at_millis(), Some(1_000));
    assert_eq!(later.created_at_millis(), Some(1_001));
    assert!(earlier.as_uuid() < later.as_uuid());
    assert!(earlier.to_string() < later.to_string());
    let a = ProjectEvent { id: earlier, kind: ProjectEventKind::Closed };
    let b = ProjectEvent { id: later, kind: ProjectEventKind::Closed };
    assert!(event_file_name(&a) < event_file_name(&b));
}

#[test]
fn seed_ids_carry_no_timestamp() {
    let text = tasks_core::reconstruction::status::status_seed_id("backlog").to_string();
    let id: StatusId = text.parse().unwrap();
    assert!(id.created_at_millis().is_none());
}

#[test]
fn same_id_events_sort_by_type() {
    let id = EventId::new();
    let closed = ProjectEvent { id, kind: ProjectEventKind::Closed };
    let created = ProjectEvent { id, kind: ProjectEventKind::Created { name: "x".into() } };
    assert!(event_file_name(&closed) < event_file_name(&created));
}

#[test]
fn reopening_a_task_undoes_closing_it() {
    let mut store = InMemoryEventStore::new();
    let p = project::create(&mut store, "P").unwrap();
    let t = task::create(&mut store, p.id, "T").unwrap();
    let closed = task::close(&mut store, t.id).unwrap();
    assert!(closed.closed);
    let reopened = task::reopen(&mut store, t.id).unwrap();
    assert!(!reopened.closed);
    assert_eq!(reopened.name, t.name);
    assert_eq!(reopened.project_id, t.project_id);
    assert_eq!(reopened.created_at_millis, t.created_at_millis);
}

#[test]
fn moving_a_task_there_and_back_restores_it() {
    let mut store = InMemoryEventStore::new();
    let a = project::create(&mut store, "A").unwrap();
    let b = project::create(&mut store, "B").unwrap();
    let t = task::create(&mut store, a.id, "T").unwrap();
    let moved = task::move_to_project(&mut store, t.id, b.id).unwrap();
    assert_eq!(moved.project_id, b.id);
    assert_eq!(moved.name, "T");
    let back = task::move_to_project(&mut store, t.id, a.id).unwrap();
    assert_eq!(back.project_id, a.id);
    assert_eq!(back.name, t.name);
    assert_eq!(back.closed, t.closed);
}

#[test]
fn gregorian_uuids_decode_their_timestamp() {
    let ticks: u128 = 0x01B2_1DD2_1381_4000 + 10_000_000 * 1_000;
    // Version 6: the ticks most significant first, around the version nibble.
    let v6 = ((ticks >> 12) << 80) | (6u128 << 76) | ((ticks & 0xFFF) << 64);
    assert_eq!(millis_from_uuid_v7(v6), Some(1_000_000));
    // Version 1: time-low, time-mid, then time-high beside the version.
    let v1 = ((ticks & 0xFFFF_FFFF) << 96) | (((ticks >> 32) & 0xFFFF) << 80) | (1u128 << 76) | (((ticks >> 48) & 0xFFF) << 64);
    assert_eq!(millis_from_uuid_v7(v1), Some(1_000_000));
}
