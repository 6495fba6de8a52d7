use tasks_core::cli::command::{kind_str, Call, Field, Kind, Method};
use tasks_core::cli::render::{kv_lines, opt, payload, table_lines, time, PayloadValue};
use tasks_core::cli::{project, status, task};
use tasks_core::projections::status::StatusKind;
use tasks_core::cli::render::{bool_text, MAX_RENDERABLE_MILLIS};
use tasks_core::cli::workspace::{lookup_step, Lookup};
use tasks_core::projections::project::{Project, ProjectId};
use tasks_core::projections::status::{Status, StatusId};
use tasks_core::projections::task::{Task, TaskId};

fn query(call: &Call) -> Vec<(&str, &str)> {
    call.query.iter().map(|(k, v)| (k.as_str(), v.as_str())).collect()
}

#[test]
fn kind_names_match_the_wire_names() {
    assert_eq!(Kind::Unstarted.as_str(), "unstarted");
    assert_eq!(Kind::Canceled.as_str(), "canceled");
    assert_eq!(kind_str(&StatusKind::Started), "started");
    assert_eq!(kind_str(&StatusKind::Complete), "complete");
}

#[test]
fn opt_shows_a_dash_for_absent_or_empty() {
    assert_eq!(opt(Some("x".into())), "x");
    assert_eq!(opt(Some(String::new())), "—");
    assert_eq!(opt(None), "—");
}

#[test]
fn time_shows_a_dash_when_absent() {
    assert_eq!(time(None), "—");
    assert_eq!(time(Some(0)).len(), "1970-01-01 00:00".len());
    let shown: Vec<char> = time(Some(1_700_000_000_000)).chars().collect();
    let n = shown.len();
    assert_eq!((shown[n - 12], shown[n - 9], shown[n - 6], shown[n - 3]), ('-', '-', ' ', ':'));
}

#[test]
fn table_aligns_columns_and_trims_trailing_space() {
    let lines = table_lines(
        &vec!["ID", "NAME"],
        &vec![vec!["a".to_string(), "Roadmap".to_string()], vec!["bbbb".to_string(), "".to_string()]],
    );
    assert_eq!(lines, vec!["ID    NAME".to_string(), "a     Roadmap".to_string(), "bbbb".to_string()]);
    assert_eq!(table_lines(&vec!["ID"], &vec![]), vec!["(none)".to_string()]);
}

#[test]
fn kv_aligns_keys() {
    let lines = kv_lines(&vec![("id", "1".to_string()), ("closed", "false".to_string())]);
    assert_eq!(lines, vec!["id      1".to_string(), "closed  false".to_string()]);
}

#[test]
fn payload_summarizes_fields() {
    let fields = vec![
        ("name".to_string(), PayloadValue::Text("Ship".into())),
        ("status_id".to_string(), PayloadValue::Null),
        ("closed".to_string(), PayloadValue::Json("true".into())),
    ];
    assert_eq!(payload(Some(&fields)), "name: Ship, status_id: —, closed: true");
    assert_eq!(payload(None), "");
}

#[test]
fn project_commands_map_onto_routes() {
    let call = project::Cmd::List { closed: true }.call("/repo");
    assert_eq!(call.method, Method::Get);
    assert_eq!(call.path, "/projects");
    assert_eq!(query(&call), vec![("workspace", "/repo"), ("closed", "true")]);

    let call = project::Cmd::Rename { id: "project_1".into(), new_name: "New".into() }.call("/repo");
    assert_eq!(call.method, Method::Post);
    assert_eq!(call.path, "/projects/project_1/rename");
    let body = call.body.unwrap();
    assert_eq!(body[0].0, "new_name");
    assert!(matches!(&body[0].1, Field::Text(t) if t == "New"));
}

#[test]
fn status_commands_map_onto_routes() {
    let call = status::Cmd::Create { name: "QA".into(), kind: Kind::Started, description: None }.call("/repo");
    assert_eq!(call.path, "/statuses");
    let body = call.body.unwrap();
    assert!(matches!(&body[1].1, Field::Text(t) if t == "started"));
    assert!(matches!(&body[2].1, Field::Null));

    let call = status::Cmd::Remove { id: "status_1".into() }.call("/repo");
    assert_eq!(call.path, "/statuses/status_1/remove");
    assert!(call.body.is_none());
}

#[test]
fn task_commands_map_onto_routes() {
    let call = task::Cmd::List { project: Some("project_1".into()), closed: true }.call("/repo");
    assert_eq!(call.path, "/tasks");
    assert_eq!(query(&call), vec![("workspace", "/repo"), ("project_id", "project_1"), ("closed", "true")]);

    let call = task::Cmd::History { id: "task_1".into() }.call("/repo");
    assert_eq!(call.method, Method::Get);
    assert_eq!(call.path, "/tasks/task_1/events");

    let call = task::Cmd::Status { id: "task_1".into(), status: None, clear: true }.call("/repo");
    assert_eq!(call.path, "/tasks/task_1/status");
    assert!(matches!(&call.body.unwrap()[0].1, Field::Null));
}

#[test]
fn project_rows_and_pairs_show_each_field() {
    let p = Project { id: ProjectId::from_uuid(1), name: "Roadmap".into(), closed: false, created_at_millis: None };
    let id_text = p.id.to_string();
    let rows = project::list_rows(&vec![p.clone()]);
    assert_eq!(rows, vec![vec![id_text.clone(), "Roadmap".to_string(), "—".to_string()]]);
    let pairs = project::show_pairs(&p);
    assert_eq!(
        pairs,
        vec![
            ("id", id_text),
            ("name", "Roadmap".to_string()),
            ("closed", "false".to_string()),
            ("created", "—".to_string()),
        ]
    );
}

#[test]
fn status_rows_and_pairs_show_each_field() {
    let s = Status {
        id: StatusId::from_uuid(7),
        name: "QA".into(),
        kind: StatusKind::Started,
        description: None,
        removed: true,
        created_at_millis: None,
    };
    let id_text = s.id.to_string();
    let rows = status::list_rows(&vec![s.clone()]);
    assert_eq!(rows, vec![vec![id_text.clone(), "QA".to_string(), "started".to_string(), "—".to_string()]]);
    let pairs = status::show_pairs(&s);
    assert_eq!(pairs[2], ("kind", "started".to_string()));
    assert_eq!(pairs[3], ("description", "—".to_string()));
    assert_eq!(pairs[4], ("removed", "true".to_string()));
}

#[test]
fn task_rows_resolve_status_and_project_names() {
    let project = Project { id: ProjectId::from_uuid(1), name: "Roadmap".into(), closed: false, created_at_millis: None };
    let status = Status {
        id: StatusId::from_uuid(2),
        name: "Doing".into(),
        kind: StatusKind::Started,
        description: None,
        removed: false,
        created_at_millis: None,
    };
    let named = Task {
        id: TaskId::from_uuid(3),
        project_id: project.id,
        name: "Ship".into(),
        description: String::new(),
        status_id: Some(status.id),
        closed: false,
        created_at_millis: None,
    };
    let unknown = Task {
        id: TaskId::from_uuid(4),
        project_id: ProjectId::from_uuid(9),
        name: "Orphan".into(),
        description: "d".into(),
        status_id: None,
        closed: true,
        created_at_millis: None,
    };
    let rows = task::list_rows(&vec![named.clone(), unknown.clone()], &vec![status], &vec![project]);
    assert_eq!(rows[0][2], "Doing");
    assert_eq!(rows[0][3], "Roadmap");
    assert_eq!(rows[1][2], "—");
    assert_eq!(rows[1][3], ProjectId::from_uuid(9).to_string());
    let pairs = task::show_pairs(&unknown);
    assert_eq!(pairs[3], ("status", "—".to_string()));
    assert_eq!(pairs[4], ("closed", "true".to_string()));
    assert_eq!(pairs[6], ("description", "d".to_string()));
}

#[test]
fn history_rows_fall_back_to_a_question_mark() {
    let entries = vec![
        task::HistoryEntry {
            created_at_millis: None,
            kind: Some("task_renamed".into()),
            payload: Some(vec![("new_name".to_string(), PayloadValue::Text("B".into()))]),
        },
        task::HistoryEntry { created_at_millis: None, kind: None, payload: None },
    ];
    let rows = task::history_rows(&entries);
    assert_eq!(rows[0], vec!["—".to_string(), "task_renamed".to_string(), "new_name: B".to_string()]);
    assert_eq!(rows[1], vec!["—".to_string(), "?".to_string(), String::new()]);
}

#[test]
fn bool_text_spells_out_the_value() {
    assert_eq!(bool_text(true), "true");
    assert_eq!(bool_text(false), "false");
}

#[test]
fn discovery_walks_up_until_a_workspace_is_found() {
    assert!(matches!(lookup_step("/repo/src", true), Lookup::Found(d) if d == "/repo/src"));
    assert!(matches!(lookup_step("/repo/src", false), Lookup::Up(d) if d == "/repo"));
    assert!(matches!(lookup_step("/repo", false), Lookup::Up(d) if d == "/"));
    assert!(matches!(lookup_step("/", false), Lookup::NotFound));
}

#[test]
fn the_latest_renderable_time_still_renders() {
    let shown = time(Some(MAX_RENDERABLE_MILLIS));
    assert!(shown.starts_with("+262142-12-"), "got {}", shown);
}
