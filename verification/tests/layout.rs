use tasks_core::events::project::{ProjectEvent, ProjectEventKind};
use tasks_core::events::store::collections;
use tasks_core::projections::project::ProjectId;
use tasks_core::shared::id::EventId;
use tasks_core::storage::fs::{event_file_name, is_event_file, path_join, select_event_files, FsEventStore, Workspace};

fn created(name: &str) -> ProjectEvent {
    ProjectEvent::new(ProjectEventKind::Created { name: name.into() })
}

#[test]
fn append_names_the_file_by_type() {
    let event = created("Roadmap");
    let name = event_file_name(&event);
    assert!(name.ends_with("-created.json"), "got {}", name);
    assert!(name.starts_with(&event.id.to_string()));
    assert_eq!(name.len(), 32 + "-created.json".len());
}

#[test]
fn store_paths_follow_the_layout() {
    let store = FsEventStore::new("/repo");
    assert_eq!(store.root(), "/repo");
    assert_eq!(store.dot_tasks(), "/repo/.tasks");
    assert_eq!(store.collection_dir("projects"), "/repo/.tasks/projects");
    let id = ProjectId::from_uuid(0x0123456789abcdef0123456789abcdef);
    assert_eq!(
        store.events_dir("projects", &id.to_string()),
        "/repo/.tasks/projects/project_0123456789abcdef0123456789abcdef/events"
    );
    let event = ProjectEvent { id: EventId::from_uuid(0xff), kind: ProjectEventKind::Closed };
    assert_eq!(
        store.event_path("projects", &id.to_string(), &event),
        "/repo/.tasks/projects/project_0123456789abcdef0123456789abcdef/events/000000000000000000000000000000ff-closed.json"
    );
}

#[test]
fn joining_respects_a_trailing_separator_and_an_empty_base() {
    assert_eq!(path_join("/repo/", ".tasks"), "/repo/.tasks");
    assert_eq!(path_join("", ".tasks"), ".tasks");
    let ws: Workspace = FsEventStore::new("/repo/");
    assert_eq!(ws.dot_tasks(), "/repo/.tasks");
}

#[test]
fn fs_ensure_finds_or_creates_collections() {
    let store = FsEventStore::new("/repo");
    let dirs = store.collection_dirs(&vec!["projects", "tasks"]);
    assert_eq!(dirs, vec!["/repo/.tasks/projects".to_string(), "/repo/.tasks/tasks".to_string()]);
    let all = store.collection_dirs(&collections());
    assert_eq!(all.len(), 3);
    assert_eq!(all[2], "/repo/.tasks/statuses");
}

#[test]
fn only_json_files_are_events() {
    assert!(is_event_file("0123-created.json"));
    assert!(is_event_file("a.json"));
    assert!(!is_event_file(".json"));
    assert!(!is_event_file("notes.txt"));
    assert!(!is_event_file("created.json.bak"));
}

#[test]
fn event_files_replay_in_file_name_order() {
    let names = vec![
        "0002-renamed.json".to_string(),
        "README".to_string(),
        "0001-created.json".to_string(),
        ".json".to_string(),
        "0002-closed.json".to_string(),
    ];
    let files = select_event_files(&names);
    assert_eq!(
        files,
        vec!["0001-created.json".to_string(), "0002-closed.json".to_string(), "0002-renamed.json".to_string()]
    );
}

#[test]
fn later_events_sort_later_on_disk() {
    let first = created("A");
    let second = ProjectEvent { id: EventId::from_uuid(first.id.as_uuid() + (1u128 << 80)), kind: ProjectEventKind::Closed };
    let names = vec![event_file_name(&second), event_file_name(&first)];
    let files = select_event_files(&names);
    assert_eq!(files[0], event_file_name(&first));
    assert_eq!(files[1], event_file_name(&second));
}
