use tasks_core::commands::{project, task};
use tasks_core::events::project::COLLECTION;
use tasks_core::storage::memory::InMemoryEventStore;

#[test]
fn writes_are_recorded_until_drained() {
    let mut store = InMemoryEventStore::new();
    let p = project::create(&mut store, "Roadmap").unwrap();
    let writes = store.drain_writes();
    assert_eq!(writes.projects.len(), 1);
    assert_eq!(writes.projects[0].collection, COLLECTION);
    assert_eq!(writes.projects[0].id, p.id.to_string());
    assert!(writes.tasks.is_empty() && writes.statuses.is_empty());
    assert!(store.drain_writes().projects.is_empty());
    // Draining leaves what the store holds as it was.
    assert_eq!(project::load(&store, p.id).unwrap().unwrap().name, "Roadmap");
}

#[test]
fn writing_one_kind_leaves_the_others_alone() {
    let mut store = InMemoryEventStore::new();
    let p = project::create(&mut store, "Roadmap").unwrap();
    assert!(task::list(&store).unwrap().is_empty());
    let t = task::create(&mut store, p.id, "First").unwrap();
    assert_eq!(task::load(&store, t.id).unwrap().unwrap().name, "First");
    assert_eq!(project::list(&store).unwrap().len(), 1);
}
