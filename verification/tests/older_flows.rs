use tasks_core::commands::{project, task};
use tasks_core::error::Error;
use tasks_core::events::task::{TaskEvent, TaskEventKind};
use tasks_core::projections::project::ProjectId;
use tasks_core::projections::status::{Status, StatusId};
use tasks_core::projections::task::TaskId;
use tasks_core::reconstruction::task::replay;
use tasks_core::storage::fs::FsEventStore;
use tasks_core::storage::memory::InMemoryEventStore;
use tasks_core::storage::seeds::seed_id_for;

// --- rebuilding tasks -------------------------------------------------------

#[test]
fn folds_a_full_history() {
    let id = TaskId::new();
    let project_a = ProjectId::new();
    let project_b = ProjectId::new();
    let status = StatusId::new();

    let events = vec![
        TaskEvent::new(TaskEventKind::Created { project_id: project_a, name: "First".into() }),
        TaskEvent::new(TaskEventKind::Renamed { new_name: "Second".into() }),
        TaskEvent::new(TaskEventKind::DescriptionUpdated { description: "notes".into() }),
        TaskEvent::new(TaskEventKind::Moved { new_project_id: project_b }),
        TaskEvent::new(TaskEventKind::StatusChanged { status_id: Some(status) }),
        TaskEvent::new(TaskEventKind::Closed),
    ];

    let t = replay(id, &events).unwrap();
    assert_eq!(t.id, id);
    assert_eq!(t.name, "Second");
    assert_eq!(t.description, "notes");
    assert_eq!(t.project_id, project_b);
    assert_eq!(t.status_id, Some(status));
    assert!(t.closed);
}

#[test]
fn status_can_be_cleared() {
    let id = TaskId::new();
    let events = vec![
        TaskEvent::new(TaskEventKind::Created { project_id: ProjectId::new(), name: "T".into() }),
        TaskEvent::new(TaskEventKind::StatusChanged { status_id: Some(StatusId::new()) }),
        TaskEvent::new(TaskEventKind::StatusChanged { status_id: None }),
    ];
    assert!(replay(id, &events).unwrap().status_id.is_none());
}

#[test]
fn task_history_without_created_is_none() {
    let id = TaskId::new();
    let events = vec![TaskEvent::new(TaskEventKind::Closed)];
    assert!(replay(id, &events).is_none());
}

#[test]
fn snapshot_sets_every_attribute_at_once() {
    let id = TaskId::new();
    let project_id = ProjectId::new();
    let status = StatusId::new();
    let events = vec![TaskEvent::new(TaskEventKind::Snapshot {
        project_id,
        name: "Wholesale".into(),
        description: "all at once".into(),
        status_id: Some(status),
        closed: true,
    })];
    let t = replay(id, &events).unwrap();
    assert_eq!(t.project_id, project_id);
    assert_eq!(t.name, "Wholesale");
    assert_eq!(t.description, "all at once");
    assert_eq!(t.status_id, Some(status));
    assert!(t.closed);
    assert!(t.created_at_millis.is_some());
}

// --- the desktop app's earlier workspace flows -------------------------------

#[test]
fn projects_rename_updates_name_and_replays() {
    let mut store = InMemoryEventStore::new();
    let p = project::create(&mut store, "Original").unwrap();
    let renamed = project::rename(&mut store, p.id, "Updated").unwrap();
    assert_eq!(renamed.name, "Updated");
    assert_eq!(renamed.id, p.id);
    assert_eq!(project::load(&store, p.id).unwrap().unwrap().name, "Updated");
}

#[test]
fn projects_close_and_reopen_toggle_closed_flag() {
    let mut store = InMemoryEventStore::new();
    let p = project::create(&mut store, "Roadmap").unwrap();
    assert!(!p.closed);
    assert!(project::close(&mut store, p.id).unwrap().closed);
    assert!(!project::reopen(&mut store, p.id).unwrap().closed);
    assert!(!project::load(&store, p.id).unwrap().unwrap().closed);
}

#[test]
fn projects_list_excludes_closed_and_list_closed_shows_them() {
    let mut store = InMemoryEventStore::new();
    let a = project::create(&mut store, "Open").unwrap();
    let b = project::create(&mut store, "Archived").unwrap();
    project::close(&mut store, b.id).unwrap();

    let open = project::list(&store).unwrap();
    assert_eq!(open.len(), 1);
    assert_eq!(open[0].id, a.id);

    let closed = project::list_closed(&store).unwrap();
    assert_eq!(closed.len(), 1);
    assert_eq!(closed[0].id, b.id);
}

#[test]
fn creates_and_lists_tasks() {
    let mut store = InMemoryEventStore::new();
    let p = project::create(&mut store, "Roadmap").unwrap();
    let a = task::create(&mut store, p.id, "First").unwrap();
    let b = task::create(&mut store, p.id, "Second").unwrap();
    assert_eq!(a.project_id, p.id);

    let listed = task::list(&store).unwrap();
    assert_eq!(listed.len(), 2);
    // Version 7 ordering means creation order.
    assert_eq!(listed[0].id, a.id);
    assert_eq!(listed[1].id, b.id);
}

#[test]
fn requires_an_existing_project() {
    let mut store = InMemoryEventStore::new();
    let err = task::create(&mut store, ProjectId::new(), "Orphan").unwrap_err();
    assert!(matches!(err, Error::ProjectNotFound(_)));
    assert!(task::list(&store).unwrap().is_empty());
}

#[test]
fn tasks_rename_updates_name_and_replays() {
    let mut store = InMemoryEventStore::new();
    let p = project::create(&mut store, "Roadmap").unwrap();
    let t = task::create(&mut store, p.id, "Original").unwrap();
    let renamed = task::rename(&mut store, t.id, "Updated").unwrap();
    assert_eq!(renamed.name, "Updated");
    assert_eq!(renamed.id, t.id);
    assert_eq!(task::load(&store, t.id).unwrap().unwrap().name, "Updated");
}

#[test]
fn move_changes_project_and_updates_list() {
    let mut store = InMemoryEventStore::new();
    let a = project::create(&mut store, "A").unwrap();
    let b = project::create(&mut store, "B").unwrap();
    let t = task::create(&mut store, a.id, "Task").unwrap();
    assert_eq!(t.project_id, a.id);

    task::move_to_project(&mut store, t.id, b.id).unwrap();
    assert_eq!(task::load(&store, t.id).unwrap().unwrap().project_id, b.id);
    assert!(task::list_in_project(&store, a.id).unwrap().is_empty());
    assert_eq!(task::list_in_project(&store, b.id).unwrap().len(), 1);
}

#[test]
fn tasks_close_and_reopen_toggle_closed_flag() {
    let mut store = InMemoryEventStore::new();
    let p = project::create(&mut store, "Roadmap").unwrap();
    let t = task::create(&mut store, p.id, "Task").unwrap();
    assert!(!t.closed);
    assert!(task::close(&mut store, t.id).unwrap().closed);
    assert!(!task::reopen(&mut store, t.id).unwrap().closed);
    assert!(!task::load(&store, t.id).unwrap().unwrap().closed);
}

#[test]
fn tasks_list_excludes_closed_and_list_closed_shows_them() {
    let mut store = InMemoryEventStore::new();
    let p = project::create(&mut store, "Roadmap").unwrap();
    let a = task::create(&mut store, p.id, "Open").unwrap();
    let b = task::create(&mut store, p.id, "Done").unwrap();
    task::close(&mut store, b.id).unwrap();

    let open = task::list(&store).unwrap();
    assert_eq!(open.len(), 1);
    assert_eq!(open[0].id, a.id);
    let closed = task::list_closed(&store).unwrap();
    assert_eq!(closed.len(), 1);
    assert_eq!(closed[0].id, b.id);
    assert_eq!(task::list_in_project(&store, p.id).unwrap().len(), 1);
    assert_eq!(task::list_closed_in_project(&store, p.id).unwrap().len(), 1);
}

#[test]
fn update_on_missing_task_errors() {
    let mut store = InMemoryEventStore::new();
    let missing = TaskId::new();
    assert!(matches!(task::rename(&mut store, missing, "x"), Err(Error::TaskNotFound(_))));
    assert!(matches!(task::close(&mut store, missing), Err(Error::TaskNotFound(_))));
}

#[test]
fn set_status_assigns_and_clears() {
    let mut store = InMemoryEventStore::new();
    let p = project::create(&mut store, "Roadmap").unwrap();
    let t = task::create(&mut store, p.id, "Ship it").unwrap();
    assert!(t.status_id.is_none());

    let backlog_id: StatusId = seed_id_for::<Status>("backlog");
    let with_status = task::set_status(&mut store, t.id, Some(backlog_id)).unwrap();
    assert_eq!(with_status.status_id, Some(backlog_id));

    let cleared = task::set_status(&mut store, t.id, None).unwrap();
    assert!(cleared.status_id.is_none());
    assert!(task::load(&store, t.id).unwrap().unwrap().status_id.is_none());
}

#[test]
fn tasks_set_status_rejects_unknown_status() {
    let mut store = InMemoryEventStore::new();
    let p = project::create(&mut store, "Roadmap").unwrap();
    let t = task::create(&mut store, p.id, "Task").unwrap();
    let ghost = StatusId::new();
    assert!(matches!(task::set_status(&mut store, t.id, Some(ghost)), Err(Error::StatusNotFound(_))));
}

#[test]
fn store_ensure_finds_or_creates_collections() {
    let ws = FsEventStore::new("/repo");
    let dirs = ws.collection_dirs(&vec!["projects", "tasks"]);
    assert_eq!(dirs[0], ws.collection_dir("projects"));
    assert_eq!(dirs[1], ws.collection_dir("tasks"));
    // Asking again names the same folders.
    assert_eq!(ws.collection_dirs(&vec!["projects", "tasks"]), dirs);
}
