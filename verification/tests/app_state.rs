use tasks_core::app::action::{Action, Request, Step};
use tasks_core::app::state::{AppError, AppState, Screen, MAX_RECENTS};
use tasks_core::app::view::{basename, TaskEventView, WorkspaceView};
use tasks_core::commands::{project, status, task};
use tasks_core::events::task::{TaskEvent, TaskEventKind};
use tasks_core::projections::project::ProjectId;
use tasks_core::projections::status::Status;
use tasks_core::projections::task::TaskId;
use tasks_core::reconstruction::status::status_seed_id;
use tasks_core::shared::id::EventId;
use tasks_core::storage::memory::InMemoryEventStore;
use tasks_core::storage::seeds::seed_id_for;
use tasks_core::app::state::{bad_body, daemon_error, workspace_from_args};
use tasks_core::cli::command::{Field, Method};

/// Performs one daemon request against an in-memory store, the way the
/// daemon would against a workspace.
fn perform(store: &mut InMemoryEventStore, request: Request) {
    match request {
        Request::CreateProject { name } => {
            project::create(store, &name).unwrap();
        }
        Request::CreateTask { project_id, name } => {
            task::create(store, project_id, &name).unwrap();
        }
        Request::CloseProject { project_id } => {
            project::close(store, project_id).unwrap();
        }
        other => panic!("unexpected request {other:?}"),
    }
}

/// The screen the state shows, looking the selection up in `store`.
fn render(state: &AppState, store: &InMemoryEventStore) -> Screen {
    let project_found = match state.selected_project {
        Some(p) => project::load(store, p).unwrap().is_some(),
        None => false,
    };
    let task_found = match state.selected_task {
        Some(t) => task::load(store, t).unwrap().is_some(),
        None => false,
    };
    state.screen(project_found, task_found)
}

fn run(state: &mut AppState, store: &mut InMemoryEventStore, action: Action) {
    match state.dispatch(action).unwrap() {
        Step::Render => {}
        Step::PickFolder => panic!("no folder picker here"),
        Step::OpenWorkspace { root } => state.open_workspace(&root),
        Step::Send { request, .. } => perform(store, request),
    }
}

#[test]
fn state_boots_to_select_repo() {
    let state = AppState::default();
    assert_eq!(state.screen(false, false), Screen::SelectRepo);
}

#[test]
fn walks_through_the_three_screens() {
    let mut store = InMemoryEventStore::new();
    let mut state = AppState::default();

    run(&mut state, &mut store, Action::OpenWorkspace { path: "/repo".into() });
    assert_eq!(render(&state, &store), Screen::Projects);
    assert!(project::list(&store).unwrap().is_empty());

    run(&mut state, &mut store, Action::CreateProject { name: "Roadmap".into() });
    let projects = project::list(&store).unwrap();
    assert_eq!(projects.len(), 1);
    let project_id = projects[0].id;

    run(&mut state, &mut store, Action::OpenProject { project_id });
    run(&mut state, &mut store, Action::CreateTask { name: "First task".into() });
    assert_eq!(render(&state, &store), Screen::Tasks(project_id));
    let tasks = task::list_in_project(&store, project_id).unwrap();
    assert_eq!(tasks.len(), 1);
    assert_eq!(tasks[0].name, "First task");

    run(&mut state, &mut store, Action::OpenTask { task_id: tasks[0].id });
    assert_eq!(render(&state, &store), Screen::TaskDetail(project_id, tasks[0].id));

    run(&mut state, &mut store, Action::CloseTaskDetail);
    run(&mut state, &mut store, Action::CloseProject);
    assert_eq!(render(&state, &store), Screen::Projects);
    run(&mut state, &mut store, Action::CloseWorkspace);
    assert_eq!(render(&state, &store), Screen::SelectRepo);
}

#[test]
fn create_without_context_errors() {
    let mut state = AppState::default();
    assert!(matches!(
        state.dispatch(Action::CreateProject { name: "x".into() }),
        Err(AppError::NoWorkspace)
    ));

    state.open_workspace("/repo");
    assert!(matches!(
        state.dispatch(Action::CreateTask { name: "x".into() }),
        Err(AppError::NoProjectSelected)
    ));
}

#[test]
fn data_actions_name_the_open_workspace() {
    let mut state = AppState::default();
    state.open_workspace("/repo");
    let task_id = TaskId::new();
    let eid = EventId::new();
    match state.dispatch(Action::RenameTaskInPlace { task_id, event_id: eid, new_name: "Two".into() }) {
        Ok(Step::Send { workspace, request: Request::RenameTask { task_id: t, new_name, event_id } }) => {
            assert_eq!(workspace, "/repo");
            assert_eq!(t, task_id);
            assert_eq!(new_name, "Two");
            assert_eq!(event_id, Some(eid));
        }
        other => panic!("unexpected {other:?}"),
    }
    assert!(matches!(state.dispatch(Action::PickWorkspace), Ok(Step::PickFolder)));
}

#[test]
fn a_missing_selection_falls_back_to_the_list() {
    let store = InMemoryEventStore::new();
    let mut state = AppState::default();
    state.open_workspace("/repo");
    state.open_project(ProjectId::new());
    assert_eq!(render(&state, &store), Screen::Projects);
}

#[test]
fn recents_keep_the_latest_three_most_recent_first() {
    let mut state = AppState::default();
    for path in ["/a", "/b", "/c", "/d"] {
        state.push_recent(path);
    }
    assert_eq!(state.recent_workspaces_strings(), vec!["/d".to_string(), "/c".to_string(), "/b".to_string()]);
    assert_eq!(state.recent_workspaces.len(), MAX_RECENTS);

    // Reopening moves an entry to the front without duplicating it.
    state.push_recent("/b");
    assert_eq!(state.recent_workspaces_strings(), vec!["/b".to_string(), "/d".to_string(), "/c".to_string()]);
}

#[test]
fn restored_recents_are_kept_in_order() {
    let state = AppState::with_recents(vec!["/x".to_string(), "/y".to_string()]);
    assert_eq!(state.recent_workspaces_strings(), vec!["/x".to_string(), "/y".to_string()]);
    assert_eq!(state.screen(true, true), Screen::SelectRepo);
}

#[test]
fn workspace_view_names_the_tasks_dir() {
    let view = WorkspaceView::of("/repo");
    assert_eq!(view.root, "/repo");
    assert_eq!(view.tasks_dir, "/repo/.tasks");
}

#[test]
fn task_event_view_summarizes_events() {
    let mut store = InMemoryEventStore::new();
    let statuses: Vec<Status> = status::list(&store).unwrap();
    let backlog = seed_id_for::<Status>("backlog");
    let renamed = TaskEvent::new(TaskEventKind::Renamed { new_name: "Ship".into() });
    let view = TaskEventView::from_event(&renamed, &statuses);
    assert_eq!(view.kind, "renamed");
    assert_eq!(view.detail.as_deref(), Some("Ship"));
    assert_eq!(view.id, renamed.id.to_string());
    assert!(view.created_at_millis.is_some());

    let set = TaskEvent::new(TaskEventKind::StatusChanged { status_id: Some(backlog) });
    let view = TaskEventView::from_event(&set, &statuses);
    assert_eq!(view.kind, "status_changed");
    assert_eq!(view.detail.as_deref(), Some("Backlog"));

    let unknown = TaskEvent::new(TaskEventKind::StatusChanged { status_id: Some(tasks_core::projections::status::StatusId::new()) });
    assert!(TaskEventView::from_event(&unknown, &statuses).detail.is_none());

    let closed = TaskEvent::new(TaskEventKind::Closed);
    assert!(TaskEventView::from_event(&closed, &statuses).detail.is_none());
    let p = project::create(&mut store, "P").unwrap();
    let moved = TaskEvent::new(TaskEventKind::Moved { new_project_id: p.id });
    assert_eq!(TaskEventView::from_event(&moved, &statuses).detail, Some(p.id.to_string()));
}

#[test]
fn basename_is_the_last_path_component() {
    assert_eq!(basename("/home/me/repo"), "repo");
    assert_eq!(basename("C:\\work\\repo"), "repo");
    assert_eq!(basename("repo"), "repo");
    assert_eq!(basename("/home/me/"), "");
}

#[test]
fn status_seed_id_matches_the_seed_engine() {
    assert_eq!(status_seed_id("backlog"), seed_id_for::<Status>("backlog"));
    assert_ne!(status_seed_id("backlog"), status_seed_id("todo"));
}

#[test]
fn requests_map_onto_daemon_routes() {
    let task_id = TaskId::from_uuid(5);
    let call = Request::RenameTask { task_id, new_name: "Two".into(), event_id: None }.call("/repo");
    assert_eq!(call.method, Method::Post);
    assert_eq!(call.path, format!("/tasks/{}/rename", task_id.to_string()));
    assert_eq!(call.query, vec![("workspace".to_string(), "/repo".to_string())]);
    let body = call.body.unwrap();
    assert_eq!(body.len(), 2);
    assert_eq!(body[0].0, "new_name");
    assert!(matches!(&body[0].1, Field::Text(t) if t == "Two"));
    assert!(matches!(&body[1].1, Field::Null));

    let call = Request::CloseProject { project_id: ProjectId::from_uuid(9) }.call("/repo");
    assert_eq!(call.path, "/projects/project_00000000000000000000000000000009/close");
    assert!(call.body.unwrap().is_empty());

    let call = Request::ChangeStatusKind {
        status_id: status_seed_id("todo"),
        new_kind: tasks_core::projections::status::StatusKind::Complete,
    }
    .call("/repo");
    assert!(matches!(&call.body.unwrap()[0].1, Field::Text(t) if t == "complete"));
}

#[test]
fn workspace_is_read_from_either_argument_form() {
    let args = |v: &[&str]| v.iter().map(|s| s.to_string()).collect::<Vec<String>>();
    assert_eq!(workspace_from_args(&args(&["app", "--workspace", "/r"])), Some("/r".to_string()));
    assert_eq!(workspace_from_args(&args(&["app", "--workspace=/s"])), Some("/s".to_string()));
    assert_eq!(
        workspace_from_args(&args(&["app", "--workspace=/s", "--workspace", "/r"])),
        Some("/r".to_string())
    );
    assert_eq!(workspace_from_args(&args(&["app", "--workspace"])), None);
    assert_eq!(workspace_from_args(&args(&[])), None);
}

#[test]
fn desktop_errors_read_as_the_user_sees_them() {
    assert_eq!(AppError::NoWorkspace.message(), "no workspace is open");
    assert_eq!(AppError::NoProjectSelected.message(), "no project is selected");
    assert_eq!(
        AppError::DaemonUnreachable("connection refused".into()).message(),
        "could not reach the tasks daemon: connection refused"
    );
    let e = daemon_error(404, Some("task task_1 does not exist".into()));
    assert_eq!(e, AppError::Daemon { status: 404, message: "task task_1 does not exist".into() });
    assert_eq!(e.message(), "task task_1 does not exist");
    assert_eq!(
        daemon_error(500, None),
        AppError::Daemon { status: 500, message: "daemon returned status 500".into() }
    );
    assert_eq!(
        bad_body("expected value"),
        AppError::Daemon { status: 200, message: "bad response body: expected value".into() }
    );
}

#[test]
fn the_most_recent_usable_workspace_opens() {
    let recents = vec!["/a".to_string(), "/b".to_string(), "/c".to_string()];
    let mut state = AppState::with_recents(recents.clone());
    state.try_open_most_recent(&vec![false, true, true]);
    assert_eq!(state.workspace(), Ok("/b"));
    assert_eq!(state.recent_workspaces_strings(), vec!["/b".to_string(), "/a".to_string(), "/c".to_string()]);

    let mut none = AppState::with_recents(recents.clone());
    none.try_open_most_recent(&vec![false, false, false]);
    assert_eq!(none.workspace(), Err(AppError::NoWorkspace));
    assert_eq!(none.recent_workspaces_strings(), recents);
}
