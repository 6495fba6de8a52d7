use tasks_core::events::project::{ProjectEvent, ProjectEventKind};
use tasks_core::events::status::{StatusEvent, StatusEventKind};
use tasks_core::projections::project::ProjectId;
use tasks_core::projections::status::{Status, StatusId, StatusKind};
use tasks_core::reconstruction::project::replay as replay_project;
use tasks_core::reconstruction::status::replay as replay_status;
use tasks_core::storage::seeds::{seed_event, seed_id_for};

#[test]
fn folds_created_then_renamed() {
    let id = ProjectId::new();
    let events = vec![
        ProjectEvent::new(ProjectEventKind::Created { name: "Original".into() }),
        ProjectEvent::new(ProjectEventKind::Renamed { new_name: "Updated".into() }),
    ];

    let project = replay_project(id, &events).unwrap();
    assert_eq!(project.id, id);
    assert_eq!(project.name, "Updated");
    assert!(!project.closed);
    assert!(project.created_at_millis.is_some());
}

#[test]
fn close_then_reopen_toggles_flag() {
    let id = ProjectId::new();
    let events = vec![
        ProjectEvent::new(ProjectEventKind::Created { name: "P".into() }),
        ProjectEvent::new(ProjectEventKind::Closed),
        ProjectEvent::new(ProjectEventKind::Reopened),
    ];
    assert!(!replay_project(id, &events).unwrap().closed);
}

#[test]
fn project_history_without_created_is_none() {
    let id = ProjectId::new();
    let events = vec![ProjectEvent::new(ProjectEventKind::Renamed { new_name: "orphan".into() })];
    assert!(replay_project(id, &events).is_none());
}

#[test]
fn snapshot_bootstraps_then_later_snapshot_keeps_creation_time() {
    let id = ProjectId::new();
    let boot = replay_project(
        id,
        &[ProjectEvent::new(ProjectEventKind::Snapshot { name: "Booted".into(), closed: true })],
    )
    .unwrap();
    assert_eq!(boot.name, "Booted");
    assert!(boot.closed);
    assert!(boot.created_at_millis.is_some());

    let events = vec![
        ProjectEvent::new(ProjectEventKind::Created { name: "Original".into() }),
        ProjectEvent::new(ProjectEventKind::Snapshot { name: "Reset".into(), closed: true }),
    ];
    let project = replay_project(id, &events).unwrap();
    assert_eq!(project.name, "Reset");
    assert!(project.closed);
    assert!(project.created_at_millis.is_some());
}

/// The full event stream for a seed status: its synthetic snapshot first,
/// then any real events.
fn seed_stream(slug: &str, rest: Vec<StatusEvent>) -> (StatusId, Vec<StatusEvent>) {
    let id = seed_id_for::<Status>(slug);
    let mut events = vec![seed_event::<Status>(slug)];
    events.extend(rest);
    (id, events)
}

#[test]
fn seed_snapshot_alone_reconstructs_the_default() {
    let (id, events) = seed_stream("backlog", vec![]);
    let status = replay_status(id, &events).unwrap();
    assert_eq!(status.name, "Backlog");
    assert_eq!(status.kind, StatusKind::Unstarted);
    assert!(!status.removed);
    // A version 5 seed id carries no creation time.
    assert!(status.created_at_millis.is_none());
}

#[test]
fn events_mutate_the_seed_default() {
    let (id, events) = seed_stream(
        "backlog",
        vec![
            StatusEvent::new(StatusEventKind::Renamed { new_name: "Ice Box".into() }),
            StatusEvent::new(StatusEventKind::Removed),
        ],
    );
    let status = replay_status(id, &events).unwrap();
    assert_eq!(status.name, "Ice Box");
    assert!(status.removed);
}

#[test]
fn user_created_needs_no_seed() {
    let id = StatusId::new();
    let events = vec![StatusEvent::new(StatusEventKind::Created {
        name: "Needs QA".into(),
        kind: StatusKind::Started,
        description: Some("awaiting review".into()),
    })];
    let status = replay_status(id, &events).unwrap();
    assert_eq!(status.name, "Needs QA");
    assert_eq!(status.kind, StatusKind::Started);
    assert!(status.created_at_millis.is_some());
}

#[test]
fn snapshot_overwrites_but_keeps_creation_time() {
    let id = StatusId::new();
    let events = vec![
        StatusEvent::new(StatusEventKind::Created {
            name: "Original".into(),
            kind: StatusKind::Unstarted,
            description: None,
        }),
        StatusEvent::new(StatusEventKind::Snapshot {
            name: "Rewritten".into(),
            kind: StatusKind::Complete,
            description: Some("set wholesale".into()),
            removed: true,
        }),
    ];
    let status = replay_status(id, &events).unwrap();
    assert_eq!(status.name, "Rewritten");
    assert_eq!(status.kind, StatusKind::Complete);
    assert_eq!(status.description.as_deref(), Some("set wholesale"));
    assert!(status.removed);
    // The creation time comes from the original created event, not the snapshot.
    assert!(status.created_at_millis.is_some());
}

#[test]
fn empty_history_is_none() {
    assert!(replay_status(StatusId::new(), &[]).is_none());
}

#[test]
fn a_status_is_established_by_a_later_created_event() {
    let id = StatusId::new();
    let renamed = StatusEvent::new(StatusEventKind::Renamed { new_name: "Early".into() });
    let created = StatusEvent::new(StatusEventKind::Created {
        name: "QA".into(),
        kind: StatusKind::Started,
        description: None,
    });
    let s = replay_status(id, &[renamed.clone(), created]).unwrap();
    assert_eq!(s.name, "QA");
    assert!(replay_status(id, &[renamed]).is_none());
}
