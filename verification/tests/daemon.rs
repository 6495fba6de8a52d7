use tasks_core::commands::{project, task};
use tasks_core::daemon::{describe_task, list_tasks, rename_task, show_project, task_events, Error, BAD_REQUEST, INTERNAL_SERVER_ERROR, NOT_FOUND};
use tasks_core::error::{Error as CoreError, IdError};
use tasks_core::projections::project::ProjectId;
use tasks_core::projections::task::TaskId;
use tasks_core::shared::id::EventId;
use tasks_core::storage::memory::InMemoryEventStore;

#[test]
fn missing_entities_map_to_not_found() {
    assert_eq!(Error::Core(CoreError::ProjectNotFound(ProjectId::new())).status(), NOT_FOUND);
    assert_eq!(Error::Core(CoreError::TaskNotFound(TaskId::new())).status(), NOT_FOUND);
    assert_eq!(Error::WorkspaceNotFound("/nope".into()).status(), NOT_FOUND);
    assert_eq!(Error::Core(CoreError::Id(IdError::InvalidUuid)).status(), BAD_REQUEST);
    assert_eq!(Error::Core(CoreError::NotCreated).status(), INTERNAL_SERVER_ERROR);
    assert_eq!(Error::Core(CoreError::Io("disk".into())).status(), 500);
}

#[test]
fn unknown_entities_are_reported_missing() {
    let store = InMemoryEventStore::new();
    assert!(matches!(show_project(&store, ProjectId::new()), Err(CoreError::ProjectNotFound(_))));
    assert!(matches!(task_events(&store, TaskId::new()), Err(CoreError::TaskNotFound(_))));
}

#[test]
fn full_project_and_task_flow() {
    let mut store = InMemoryEventStore::new();
    let p = project::create(&mut store, "Roadmap").unwrap();
    let q = project::create(&mut store, "Other").unwrap();
    let t = task::create(&mut store, p.id, "Ship").unwrap();
    task::create(&mut store, q.id, "Elsewhere").unwrap();

    assert_eq!(show_project(&store, p.id).unwrap().name, "Roadmap");
    assert_eq!(list_tasks(&store, Some(p.id), false).unwrap().len(), 1);
    assert_eq!(list_tasks(&store, None, false).unwrap().len(), 2);

    let eid = EventId::new();
    rename_task(&mut store, t.id, "Ship it", Some(eid)).unwrap();
    rename_task(&mut store, t.id, "Ship it now", Some(eid)).unwrap();
    describe_task(&mut store, t.id, "Details", None).unwrap();
    let events = task_events(&store, t.id).unwrap();
    assert_eq!(events.len(), 3);
    assert_eq!(task::load(&store, t.id).unwrap().unwrap().name, "Ship it now");

    task::close(&mut store, t.id).unwrap();
    assert_eq!(list_tasks(&store, Some(p.id), true).unwrap().len(), 1);
    assert!(list_tasks(&store, Some(p.id), false).unwrap().is_empty());
}

#[test]
fn failures_carry_readable_messages() {
    let id = ProjectId::from_uuid(1);
    assert_eq!(
        Error::Core(CoreError::ProjectNotFound(id)).message(),
        "project project_00000000000000000000000000000001 does not exist"
    );
    assert_eq!(Error::WorkspaceNotFound("/nope".into()).message(), "workspace root does not exist: /nope");
    assert_eq!(CoreError::Id(IdError::MissingPrefix("task_")).message(), "id is missing the `task_` prefix");
    assert_eq!(CoreError::Io("denied".into()).message(), "event store i/o failed: denied");
}
