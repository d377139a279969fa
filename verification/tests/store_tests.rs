use todo_adapter::store::{StoreError, TaskStore};
use todo_adapter::task::Todo;

fn record(id: u32, text: &str, completed: bool) -> Todo {
    Todo {
        id,
        text: text.to_string(),
        status: if completed { "completed".to_string() } else { "pending".to_string() },
        description: None,
        due_date: None,
        urgent: None,
        completed,
    }
}

fn ids(store: &TaskStore) -> Vec<u32> {
    store.load().iter().map(|t| t.id).collect()
}

#[test]
fn add_then_clear_completed_scenario() {
    let mut store =
        TaskStore::from_records(vec![record(1, "a", false), record(3, "b", true)]).unwrap();
    let added = store.add("c".to_string()).unwrap();
    assert_eq!(added, record(4, "c", false));
    assert_eq!(ids(&store), vec![1, 3, 4]);
    assert_eq!(store.clear_completed(), 1);
    assert_eq!(ids(&store), vec![1, 4]);
    assert_eq!(store.load()[0], record(1, "a", false));
    assert_eq!(store.load()[1], record(4, "c", false));
}

#[test]
fn first_record_gets_id_one() {
    let mut store = TaskStore::new();
    assert_eq!(store.len(), 0);
    assert_eq!(store.max_id(), 0);
    let t = store.add("first".to_string()).unwrap();
    assert_eq!(t.id, 1);
    assert_eq!(t.status, "pending");
    assert!(!t.completed);
    assert_eq!(store.len(), 1);
    assert_eq!(store.max_id(), 1);
}

#[test]
fn ids_increase_over_adds_and_deletes() {
    let mut store = TaskStore::new();
    let mut seen: Vec<u32> = Vec::new();
    for round in 0..5u32 {
        let a = store.add(format!("a{}", round)).unwrap().id;
        let b = store.add(format!("b{}", round)).unwrap().id;
        assert!(seen.iter().all(|s| *s < a));
        assert!(a < b);
        seen.push(a);
        seen.push(b);
        assert_eq!(store.delete(a), Ok(()));
    }
    assert_eq!(seen, vec![1, 2, 3, 4, 5, 6, 7, 8, 9, 10]);
    assert_eq!(ids(&store), vec![2, 4, 6, 8, 10]);
}

#[test]
fn id_follows_the_greatest_one_left() {
    let mut store = TaskStore::from_records(vec![record(7, "x", false), record(2, "y", false)])
        .unwrap();
    assert_eq!(store.max_id(), 7);
    assert_eq!(store.add("z".to_string()).unwrap().id, 8);
    assert_eq!(store.delete(8), Ok(()));
    assert_eq!(store.delete(7), Ok(()));
    assert_eq!(store.add("w".to_string()).unwrap().id, 3);
}

#[test]
fn toggle_twice_restores_the_record() {
    let mut store =
        TaskStore::from_records(vec![record(1, "a", false), record(2, "b", true)]).unwrap();
    assert_eq!(store.toggle(1), Ok(()));
    assert_eq!(store.load()[0], record(1, "a", true));
    assert_eq!(store.load()[1], record(2, "b", true));
    assert_eq!(store.toggle(1), Ok(()));
    assert_eq!(store.load()[0], record(1, "a", false));
    assert_eq!(store.toggle(2), Ok(()));
    assert_eq!(store.load()[1], record(2, "b", false));
    assert_eq!(store.toggle(2), Ok(()));
    assert_eq!(store.load()[1], record(2, "b", true));
}

#[test]
fn toggle_keeps_the_other_fields() {
    let mut full = record(9, "full", false);
    full.description = Some("d".to_string());
    full.due_date = Some("2024-01-01".to_string());
    full.urgent = Some("yes".to_string());
    let mut store = TaskStore::from_records(vec![full.clone()]).unwrap();
    assert_eq!(store.toggle(9), Ok(()));
    let mut expected = full;
    expected.completed = true;
    expected.status = "completed".to_string();
    assert_eq!(store.load()[0], expected);
}

#[test]
fn missing_id_is_not_found() {
    let mut store = TaskStore::from_records(vec![record(1, "a", false)]).unwrap();
    assert_eq!(store.toggle(2), Err(StoreError::NotFound));
    assert_eq!(store.delete(2), Err(StoreError::NotFound));
    assert_eq!(store.load()[0], record(1, "a", false));
    assert_eq!(store.len(), 1);
    assert_eq!(store.position(1), Some(0));
    assert_eq!(store.position(2), None);
    let mut empty = TaskStore::new();
    assert_eq!(empty.delete(0), Err(StoreError::NotFound));
    assert_eq!(empty.toggle(0), Err(StoreError::NotFound));
}

#[test]
fn delete_removes_one_record_and_keeps_order() {
    let mut store = TaskStore::from_records(vec![
        record(5, "a", false),
        record(1, "b", true),
        record(3, "c", false),
    ]).unwrap();
    assert_eq!(store.delete(1), Ok(()));
    assert_eq!(store.load().clone(), vec![record(5, "a", false), record(3, "c", false)]);
    assert_eq!(store.delete(5), Ok(()));
    assert_eq!(store.load().clone(), vec![record(3, "c", false)]);
    assert_eq!(store.delete(3), Ok(()));
    assert_eq!(store.len(), 0);
}

#[test]
fn clear_completed_keeps_the_open_records_in_order() {
    let mut store = TaskStore::from_records(vec![
        record(1, "a", true),
        record(2, "b", false),
        record(3, "c", true),
        record(4, "d", false),
        record(5, "e", true),
    ]).unwrap();
    assert_eq!(store.clear_completed(), 3);
    assert_eq!(store.load().clone(), vec![record(2, "b", false), record(4, "d", false)]);
    assert_eq!(store.clear_completed(), 0);
    assert_eq!(store.load().clone(), vec![record(2, "b", false), record(4, "d", false)]);
    let mut empty = TaskStore::new();
    assert_eq!(empty.clear_completed(), 0);
}

#[test]
fn records_that_share_an_id_are_refused() {
    let twice = TaskStore::from_records(vec![record(1, "a", false), record(1, "b", false)]);
    assert_eq!(twice.err(), Some(StoreError::DuplicateId));
    let apart = TaskStore::from_records(vec![
        record(1, "a", false),
        record(2, "b", false),
        record(1, "c", true),
    ]);
    assert_eq!(apart.err(), Some(StoreError::DuplicateId));
    assert!(TaskStore::from_records(Vec::new()).is_ok());
}

#[test]
fn status_follows_the_flag_in_a_store() {
    let mut odd = record(2, "a", false);
    odd.status = "completed".to_string();
    let mut other = record(5, "b", true);
    other.status = "whatever".to_string();
    other.description = Some("d".to_string());
    let mut store = TaskStore::from_records(vec![record(1, "x", true), odd, other]).unwrap();
    let mut kept = record(5, "b", true);
    kept.description = Some("d".to_string());
    assert_eq!(
        store.load().clone(),
        vec![record(1, "x", true), record(2, "a", false), kept.clone()]
    );
    assert_eq!(store.toggle(2), Ok(()));
    assert_eq!(store.toggle(2), Ok(()));
    assert_eq!(store.load()[1], record(2, "a", false));
    assert_eq!(store.load()[2], kept);
}

#[test]
fn no_id_follows_the_greatest_there_is() {
    let mut store = TaskStore::from_records(vec![
        record(4294967294, "a", false),
        record(3, "b", false),
    ]).unwrap();
    assert_eq!(store.add("c".to_string()).map(|t| t.id), Ok(4294967295));
    assert_eq!(store.add("d".to_string()), Err(StoreError::IdsExhausted));
    assert_eq!(store.len(), 3);
    assert_eq!(store.load()[2], record(4294967295, "c", false));
    assert_eq!(store.delete(4294967295), Ok(()));
    assert_eq!(store.add("e".to_string()).map(|t| t.id), Ok(4294967295));
}

#[test]
fn records_are_copied_field_by_field() {
    let mut full = record(9, "full", true);
    full.description = Some("d".to_string());
    full.urgent = Some("u".to_string());
    assert_eq!(full.duplicate(), full);
    assert!(full.is_consistent());
    full.status = "pending".to_string();
    assert!(!full.is_consistent());
    let mut settled = full.clone();
    settled.status = "completed".to_string();
    assert_eq!(full.settled(), settled);
    assert_eq!(settled.settled(), settled);
    assert_eq!(Todo::new(3, "t".to_string()), record(3, "t", false));
}

#[test]
fn refusals_have_their_messages() {
    assert_eq!(StoreError::NotFound.message(), "todo not found");
    assert_eq!(StoreError::DuplicateId.message(), "two todos share an id");
    assert_eq!(StoreError::IdsExhausted.message(), "no id is left for a new todo");
}
