use tasks_core::commands::{project, status, task};
use tasks_core::error::Error;
use tasks_core::events::project::{ProjectEvent, ProjectEventKind};
use tasks_core::events::status::{StatusEvent, StatusEventKind};
use tasks_core::events::store::EventStore;
use tasks_core::events::task::TaskEventKind;
use tasks_core::projections::project::ProjectId;
use tasks_core::projections::status::{Status, StatusId, StatusKind};
use tasks_core::projections::task::TaskId;
use tasks_core::reconstruction::status::replay as replay_status;
use tasks_core::shared::id::EventId;
use tasks_core::storage::memory::InMemoryEventStore;
use tasks_core::storage::seeds::{load_stream, seed_id_for, stream_ids, Seeded};

// --- projects ---------------------------------------------------------------

#[test]
fn project_creates_and_reloads_a_project() {
    let mut store = InMemoryEventStore::new();

    let created = project::create(&mut store, "Roadmap").unwrap();
    assert_eq!(created.name, "Roadmap");
    assert!(!created.closed);
    assert!(created.created_at_millis.is_some());

    let reloaded = project::load(&store, created.id).unwrap().unwrap();
    assert_eq!(reloaded.id, created.id);
    assert_eq!(reloaded.name, "Roadmap");
}

#[test]
fn project_rename_updates_name_and_replays() {
    let mut store = InMemoryEventStore::new();

    let p = project::create(&mut store, "Original").unwrap();
    let renamed = project::rename(&mut store, p.id, "Updated").unwrap();
    assert_eq!(renamed.name, "Updated");
    assert_eq!(renamed.id, p.id);

    let reloaded = project::load(&store, p.id).unwrap().unwrap();
    assert_eq!(reloaded.name, "Updated");
}

#[test]
fn project_close_and_reopen_toggle_closed_flag() {
    let mut store = InMemoryEventStore::new();

    let p = project::create(&mut store, "Roadmap").unwrap();
    assert!(project::close(&mut store, p.id).unwrap().closed);
    assert!(!project::reopen(&mut store, p.id).unwrap().closed);
    assert!(!project::load(&store, p.id).unwrap().unwrap().closed);
}

#[test]
fn project_list_excludes_closed_and_list_closed_shows_them() {
    let mut store = InMemoryEventStore::new();

    let a = project::create(&mut store, "Open").unwrap();
    let b = project::create(&mut store, "Archived").unwrap();
    project::close(&mut store, b.id).unwrap();

    let open = project::list(&store).unwrap();
    assert_eq!(open.len(), 1);
    assert_eq!(open[0].id, a.id);

    let closed = project::list_closed(&store).unwrap();
    assert_eq!(closed.len(), 1);
    assert_eq!(closed[0].id, b.id);
}

#[test]
fn ops_on_missing_project_error() {
    let mut store = InMemoryEventStore::new();
    let missing = ProjectId::new();
    assert!(matches!(project::rename(&mut store, missing, "x"), Err(Error::ProjectNotFound(_))));
    assert!(matches!(project::close(&mut store, missing), Err(Error::ProjectNotFound(_))));
    assert!(!project::is_present(&store, missing).unwrap());
    assert!(project::load(&store, missing).unwrap().is_none());
}

#[test]
fn update_on_missing_project_errors() {
    let mut store = InMemoryEventStore::new();
    let missing = ProjectId::new();
    assert!(matches!(project::rename(&mut store, missing, "x"), Err(Error::ProjectNotFound(_))));
    assert!(matches!(project::close(&mut store, missing), Err(Error::ProjectNotFound(_))));
}

#[test]
fn missing_project_loads_as_none() {
    let store = InMemoryEventStore::new();
    assert!(project::load(&store, ProjectId::new()).unwrap().is_none());
    assert!(project::list(&store).unwrap().is_empty());
}

// --- statuses ---------------------------------------------------------------

#[test]
fn status_seeds_present_without_any_disk_writes() {
    let store = InMemoryEventStore::new();
    let active = status::list(&store).unwrap();
    assert_eq!(active.len(), Status::seed_slugs().len());
    assert_eq!(active[0].name, "Backlog");
    assert_eq!(active[0].kind, StatusKind::Unstarted);
    // A seed with nothing stored carries no creation time.
    assert!(active[0].created_at_millis.is_none());
}

#[test]
fn statuses_seeds_present_without_any_disk_writes() {
    let store = InMemoryEventStore::new();
    let active = status::list(&store).unwrap();
    assert_eq!(active.len(), 6);
    assert_eq!(active[0].name, "Backlog");
    assert_eq!(active[0].kind, StatusKind::Unstarted);
    assert_eq!(active[3].name, "In Review");
    assert_eq!(active[4].name, "Complete");
    assert_eq!(active[5].name, "Canceled");
}

#[test]
fn rename_seed_persists_and_replays_over_the_seed() {
    let mut store = InMemoryEventStore::new();
    let backlog = seed_id_for::<Status>("backlog");

    let renamed = status::rename(&mut store, backlog, "Ice Box").unwrap();
    assert_eq!(renamed.name, "Ice Box");
    assert_eq!(renamed.id, backlog);

    // Seed order preserved; the mutation shows through on reload.
    let active = status::list(&store).unwrap();
    assert_eq!(active[0].id, backlog);
    assert_eq!(active[0].name, "Ice Box");
}

#[test]
fn rename_seed_persists_and_replays() {
    let mut store = InMemoryEventStore::new();
    let backlog_id: StatusId = seed_id_for::<Status>("backlog");
    status::rename(&mut store, backlog_id, "Ice Box").unwrap();

    let active = status::list(&store).unwrap();
    assert_eq!(active[0].name, "Ice Box");
    assert_eq!(active[0].id, backlog_id);

    let reloaded = status::load(&store, backlog_id).unwrap().unwrap();
    assert_eq!(reloaded.name, "Ice Box");
}

#[test]
fn remove_hides_seed_from_list() {
    let mut store = InMemoryEventStore::new();
    let todo = seed_id_for::<Status>("todo");

    status::remove(&mut store, todo).unwrap();

    assert!(!status::list(&store).unwrap().iter().any(|s| s.id == todo));
    let removed = status::list_removed(&store).unwrap();
    assert_eq!(removed.len(), 1);
    assert_eq!(removed[0].id, todo);
}

#[test]
fn remove_seed_hides_from_list() {
    let mut store = InMemoryEventStore::new();
    let todo_id: StatusId = seed_id_for::<Status>("todo");
    status::remove(&mut store, todo_id).unwrap();

    let active = status::list(&store).unwrap();
    assert!(!active.iter().any(|s| s.id == todo_id));
    assert_eq!(active.len(), 5);

    let removed = status::list_removed(&store).unwrap();
    assert_eq!(removed.len(), 1);
    assert_eq!(removed[0].id, todo_id);
}

#[test]
fn status_user_created_status_appears_after_seeds() {
    let mut store = InMemoryEventStore::new();

    let custom = status::create(&mut store, "Needs QA", StatusKind::Started, None).unwrap();
    let active = status::list(&store).unwrap();
    assert_eq!(active.len(), Status::seed_slugs().len() + 1);
    assert_eq!(active.last().unwrap().id, custom.id);
    assert!(custom.created_at_millis.is_some());
}

#[test]
fn statuses_user_created_status_appears_after_seeds() {
    let mut store = InMemoryEventStore::new();
    let custom = status::create(&mut store, "Needs QA", StatusKind::Started, None).unwrap();

    let active = status::list(&store).unwrap();
    assert_eq!(active.len(), 7);
    assert_eq!(active[6].id, custom.id);
}

#[test]
fn status_update_description_and_change_kind_on_seed() {
    let mut store = InMemoryEventStore::new();
    let canceled = seed_id_for::<Status>("canceled");

    let updated = status::update_description(&mut store, canceled, Some("Explicitly dropped")).unwrap();
    assert_eq!(updated.description.as_deref(), Some("Explicitly dropped"));

    let changed = status::change_kind(&mut store, canceled, StatusKind::Complete).unwrap();
    assert_eq!(changed.kind, StatusKind::Complete);
    // Clearing the description round-trips.
    let cleared = status::update_description(&mut store, canceled, None).unwrap();
    assert!(cleared.description.is_none());
}

#[test]
fn statuses_update_description_and_change_kind_on_seed() {
    let mut store = InMemoryEventStore::new();
    let id: StatusId = seed_id_for::<Status>("canceled");
    let updated = status::update_description(&mut store, id, Some("Explicitly dropped")).unwrap();
    assert_eq!(updated.description.as_deref(), Some("Explicitly dropped"));

    let changed = status::change_kind(&mut store, id, StatusKind::Complete).unwrap();
    assert_eq!(changed.kind, StatusKind::Complete);
}

#[test]
fn exists_reflects_removal() {
    let mut store = InMemoryEventStore::new();
    let backlog = seed_id_for::<Status>("backlog");
    assert!(status::is_present(&store, backlog).unwrap());

    status::remove(&mut store, backlog).unwrap();
    assert!(!status::is_present(&store, backlog).unwrap());

    // Unknown, non-seed id.
    assert!(!status::is_present(&store, StatusId::new()).unwrap());
}

#[test]
fn status_ops_on_unknown_id_error() {
    let mut store = InMemoryEventStore::new();
    let unknown = StatusId::new();
    assert!(matches!(status::rename(&mut store, unknown, "x"), Err(Error::StatusNotFound(_))));
    assert!(matches!(status::remove(&mut store, unknown), Err(Error::StatusNotFound(_))));
}

#[test]
fn statuses_ops_on_unknown_id_error() {
    let mut store = InMemoryEventStore::new();
    let unknown = StatusId::new();
    assert!(matches!(status::rename(&mut store, unknown, "x"), Err(Error::StatusNotFound(_))));
    assert!(matches!(status::remove(&mut store, unknown), Err(Error::StatusNotFound(_))));
}

#[test]
fn seed_ids_are_deterministic_and_stable() {
    let id_a: StatusId = seed_id_for::<Status>("backlog");
    let id_b: StatusId = seed_id_for::<Status>("backlog");
    assert_eq!(id_a, id_b);

    let id_c: StatusId = seed_id_for::<Status>("todo");
    assert_ne!(id_a, id_c);
}

// --- tasks ------------------------------------------------------------------

#[test]
fn creates_and_lists_tasks_in_creation_order() {
    let mut store = InMemoryEventStore::new();
    let p = project::create(&mut store, "Roadmap").unwrap();
    let a = task::create(&mut store, p.id, "First").unwrap();
    let b = task::create(&mut store, p.id, "Second").unwrap();

    assert_eq!(a.project_id, p.id);
    let listed = task::list(&store).unwrap();
    assert_eq!(listed.len(), 2);
    assert_eq!(listed[0].id, a.id);
    assert_eq!(listed[1].id, b.id);
}

#[test]
fn create_requires_an_existing_project() {
    let mut store = InMemoryEventStore::new();
    let err = task::create(&mut store, ProjectId::new(), "Orphan").unwrap_err();
    assert!(matches!(err, Error::ProjectNotFound(_)));
    assert!(task::list(&store).unwrap().is_empty());
}

#[test]
fn move_changes_project_and_updates_lists() {
    let mut store = InMemoryEventStore::new();
    let a = project::create(&mut store, "A").unwrap();
    let b = project::create(&mut store, "B").unwrap();
    let t = task::create(&mut store, a.id, "Task").unwrap();

    task::move_to_project(&mut store, t.id, b.id).unwrap();
    assert_eq!(task::load(&store, t.id).unwrap().unwrap().project_id, b.id);
    assert!(task::list_in_project(&store, a.id).unwrap().is_empty());
    assert_eq!(task::list_in_project(&store, b.id).unwrap().len(), 1);

    assert!(matches!(
        task::move_to_project(&mut store, t.id, ProjectId::new()),
        Err(Error::ProjectNotFound(_))
    ));
}

#[test]
fn close_and_reopen_split_the_lists() {
    let mut store = InMemoryEventStore::new();
    let p = project::create(&mut store, "Roadmap").unwrap();
    let a = task::create(&mut store, p.id, "Open").unwrap();
    let b = task::create(&mut store, p.id, "Done").unwrap();
    task::close(&mut store, b.id).unwrap();

    let open = task::list(&store).unwrap();
    assert_eq!(open.len(), 1);
    assert_eq!(open[0].id, a.id);
    assert_eq!(task::list_closed(&store).unwrap()[0].id, b.id);
    assert_eq!(task::list_closed_in_project(&store, p.id).unwrap().len(), 1);

    assert!(!task::reopen(&mut store, b.id).unwrap().closed);
    assert_eq!(task::list(&store).unwrap().len(), 2);
}

#[test]
fn set_status_assigns_a_seed_and_clears() {
    let mut store = InMemoryEventStore::new();
    let p = project::create(&mut store, "Roadmap").unwrap();
    let t = task::create(&mut store, p.id, "Ship it").unwrap();
    assert!(t.status_id.is_none());

    // Seeds exist without anything stored, so set_status accepts them.
    let backlog = seed_id_for::<Status>("backlog");
    assert_eq!(task::set_status(&mut store, t.id, Some(backlog)).unwrap().status_id, Some(backlog));
    assert!(task::set_status(&mut store, t.id, None).unwrap().status_id.is_none());
}

#[test]
fn task_set_status_rejects_unknown_status() {
    let mut store = InMemoryEventStore::new();
    let p = project::create(&mut store, "Roadmap").unwrap();
    let t = task::create(&mut store, p.id, "Task").unwrap();
    assert!(matches!(
        task::set_status(&mut store, t.id, Some(StatusId::new())),
        Err(Error::StatusNotFound(_))
    ));
}

#[test]
fn in_place_edits_overwrite_rather_than_grow_the_stream() {
    let mut store = InMemoryEventStore::new();
    let p = project::create(&mut store, "Roadmap").unwrap();
    let t = task::create(&mut store, p.id, "Task").unwrap();

    let eid = EventId::new();
    task::update_description_in_place(&mut store, t.id, eid, "draft").unwrap();
    task::update_description_in_place(&mut store, t.id, eid, "final").unwrap();

    let events = task::load_events(&store, t.id).unwrap();
    // created + exactly one description event (the second overwrote the first).
    assert_eq!(events.len(), 2);
    assert_eq!(task::load(&store, t.id).unwrap().unwrap().description, "final");

    let reid = EventId::new();
    task::rename_in_place(&mut store, t.id, reid, "One").unwrap();
    task::rename_in_place(&mut store, t.id, reid, "Two").unwrap();
    let events = task::load_events(&store, t.id).unwrap();
    assert_eq!(events.len(), 3);
    assert_eq!(task::load(&store, t.id).unwrap().unwrap().name, "Two");
}

#[test]
fn ops_on_missing_task_error() {
    let mut store = InMemoryEventStore::new();
    let missing = TaskId::new();
    assert!(matches!(task::rename(&mut store, missing, "x"), Err(Error::TaskNotFound(_))));
    assert!(matches!(task::close(&mut store, missing), Err(Error::TaskNotFound(_))));
    assert!(task::load(&store, missing).unwrap().is_none());
}

#[test]
fn list_in_project_filters_by_project() {
    let mut store = InMemoryEventStore::new();
    let a = project::create(&mut store, "A").unwrap();
    let b = project::create(&mut store, "B").unwrap();
    task::create(&mut store, a.id, "a1").unwrap();
    task::create(&mut store, b.id, "b1").unwrap();
    task::create(&mut store, a.id, "a2").unwrap();

    let a_tasks = task::list_in_project(&store, a.id).unwrap();
    assert_eq!(a_tasks.len(), 2);
    assert!(a_tasks.iter().all(|t| t.project_id == a.id));
}

#[test]
fn task_description_update_and_status_clear() {
    let mut store = InMemoryEventStore::new();
    let p = project::create(&mut store, "Roadmap").unwrap();
    let t = task::create(&mut store, p.id, "Task").unwrap();
    let described = task::update_description(&mut store, t.id, "Details").unwrap();
    assert_eq!(described.description, "Details");
    assert_eq!(described.name, "Task");
}

// --- the in-memory store ----------------------------------------------------

fn created(name: &str) -> ProjectEvent {
    ProjectEvent::new(ProjectEventKind::Created { name: name.into() })
}

#[test]
fn memory_append_then_read_round_trips_in_order() {
    let mut store = InMemoryEventStore::new();
    let id = ProjectId::new().to_string();

    let first = created("Roadmap");
    let second = ProjectEvent::new(ProjectEventKind::Renamed { new_name: "Q3 Roadmap".into() });
    store.append("projects", &id, &first).unwrap();
    store.append("projects", &id, &second).unwrap();

    let events: Vec<ProjectEvent> = store.read("projects", &id).unwrap();
    assert_eq!(events.len(), 2);
    assert_eq!(events[0].id, first.id);
    assert_eq!(events[1].id, second.id);
}

#[test]
fn re_appending_the_same_event_id_overwrites() {
    let mut store = InMemoryEventStore::new();
    let id = ProjectId::new().to_string();

    // Same event id + type => same file name => overwrite, not grow.
    let mut event = created("Draft");
    store.append("projects", &id, &event).unwrap();
    if let ProjectEventKind::Created { name } = &mut event.kind {
        *name = "Final".into();
    }
    store.append("projects", &id, &event).unwrap();

    let events: Vec<ProjectEvent> = store.read("projects", &id).unwrap();
    assert_eq!(events.len(), 1);
    assert!(matches!(&events[0].kind, ProjectEventKind::Created { name } if name == "Final"));
}

#[test]
fn memory_reading_an_unknown_entity_yields_empty() {
    let store = InMemoryEventStore::new();
    let events: Vec<ProjectEvent> = store.read("projects", &ProjectId::new().to_string()).unwrap();
    assert!(events.is_empty());
}

#[test]
fn list_ids_returns_entities_oldest_first_and_isolates_collections() {
    let mut store = InMemoryEventStore::new();
    let first = ProjectId::new();
    let second = ProjectId::new();
    store.append("projects", &first.to_string(), &created("A")).unwrap();
    store.append("projects", &second.to_string(), &created("B")).unwrap();

    let names = EventStore::<ProjectEventKind>::list_ids(&store, "projects").unwrap();
    let ids: Vec<ProjectId> = names.iter().map(|n| n.parse().unwrap()).collect();
    assert_eq!(ids, vec![first, second]);
    // A different collection is empty: no bleed.
    assert!(EventStore::<TaskEventKind>::list_ids(&store, "tasks").unwrap().is_empty());
}

#[test]
fn project_create_and_reload() {
    let mut store = InMemoryEventStore::new();
    let created = project::create(&mut store, "Roadmap").unwrap();
    let reloaded = project::load(&store, created.id).unwrap().unwrap();
    assert_eq!(reloaded.name, "Roadmap");
}

#[test]
fn status_seeds_and_overlay_work_over_memory() {
    let mut store = InMemoryEventStore::new();

    // Seeds are served with nothing written.
    let active = status::list(&store).unwrap();
    assert_eq!(active.len(), Status::seed_slugs().len());
    assert_eq!(active[0].name, "Backlog");

    // Renaming a seed overlays on reload.
    let renamed = status::rename(&mut store, active[0].id, "Future").unwrap();
    assert_eq!(renamed.name, "Future");
    assert_eq!(status::list(&store).unwrap()[0].name, "Future");
}

// --- the seed overlay -------------------------------------------------------

#[test]
fn seed_with_no_disk_events_is_served_from_thin_air() {
    let store = InMemoryEventStore::new();
    let id = seed_id_for::<Status>("backlog");

    let stream = load_stream::<Status, _>(&store, id).unwrap();
    assert_eq!(stream.len(), 1, "just the synthetic seed snapshot");

    let s = replay_status(id, &stream).unwrap();
    assert_eq!(s.name, "Backlog");
    assert_eq!(s.kind, StatusKind::Unstarted);
    assert!(s.created_at_millis.is_none(), "v5 seed id => no timestamp");
}

#[test]
fn real_events_layer_on_top_of_the_seed() {
    let mut store = InMemoryEventStore::new();
    let id = seed_id_for::<Status>("backlog");

    // Renaming a seed writes an ordinary event; the seed itself is never
    // stored, only overlaid on the next read.
    store
        .append(
            "statuses",
            &id.to_string(),
            &StatusEvent::new(StatusEventKind::Renamed { new_name: "Ice Box".into() }),
        )
        .unwrap();

    let stream = load_stream::<Status, _>(&store, id).unwrap();
    assert_eq!(stream.len(), 2, "seed snapshot, then the renamed event");
    let s = replay_status(id, &stream).unwrap();
    assert_eq!(s.name, "Ice Box");
}

#[test]
fn non_seed_id_reads_straight_through() {
    let mut store = InMemoryEventStore::new();
    let id = StatusId::new();
    store
        .append(
            "statuses",
            &id.to_string(),
            &StatusEvent::new(StatusEventKind::Created {
                name: "Needs QA".into(),
                kind: StatusKind::Started,
                description: None,
            }),
        )
        .unwrap();

    let stream = load_stream::<Status, _>(&store, id).unwrap();
    assert_eq!(stream.len(), 1, "no seed prepended for a user-created id");
    assert_eq!(replay_status(id, &stream).unwrap().name, "Needs QA");
}

#[test]
fn stream_ids_lists_seeds_first_then_user_created() {
    let mut store = InMemoryEventStore::new();

    // Empty store: every seed still shows up, in slug order.
    let seeds_only = stream_ids::<Status, _>(&store).unwrap();
    let expected_seeds: Vec<StatusId> =
        Status::seed_slugs().iter().map(|&s| seed_id_for::<Status>(s)).collect();
    assert_eq!(seeds_only, expected_seeds);

    // A user-created status appends after all seeds.
    let custom = StatusId::new();
    store
        .append(
            "statuses",
            &custom.to_string(),
            &StatusEvent::new(StatusEventKind::Created {
                name: "Needs QA".into(),
                kind: StatusKind::Started,
                description: None,
            }),
        )
        .unwrap();

    let ids = stream_ids::<Status, _>(&store).unwrap();
    assert_eq!(ids.len(), expected_seeds.len() + 1);
    assert_eq!(*ids.last().unwrap(), custom);
}

#[test]
fn a_seed_with_disk_events_is_not_double_listed() {
    let mut store = InMemoryEventStore::new();
    let backlog = seed_id_for::<Status>("backlog");
    store
        .append(
            "statuses",
            &backlog.to_string(),
            &StatusEvent::new(StatusEventKind::Renamed { new_name: "Ice Box".into() }),
        )
        .unwrap();

    let ids = stream_ids::<Status, _>(&store).unwrap();
    assert_eq!(ids.iter().filter(|&&i| i == backlog).count(), 1);
    assert_eq!(ids.len(), Status::seed_slugs().len(), "no extra entry for the seed's stored stream");
}

// --- identifiers ------------------------------------------------------------

#[test]
fn id_round_trips_and_rejects_wrong_prefix() {
    let id = ProjectId::new();
    let text = id.to_string();
    assert!(text.starts_with("project_"));
    assert_eq!(text.parse::<ProjectId>().unwrap(), id);

    let task_id = TaskId::new().to_string();
    assert!(task_id.parse::<ProjectId>().is_err());
}

#[test]
fn decodes_a_timestamp() {
    assert!(EventId::new().created_at_millis().is_some());
}
