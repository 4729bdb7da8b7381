use task_store::store::TaskStore;
use task_store::task::Task;

fn t(id: u64, description: &str, status: &str) -> Task {
    Task { id, description: String::from(description), status: String::from(status) }
}

#[test]
fn add_assigns_fresh_ids_and_increments_count() {
    let mut s = TaskStore::new();
    assert_eq!(s.count(), 0);
    let a = s.add(String::from("Buy milk"), String::from("To do"));
    assert_eq!(a, Some(1));
    assert_eq!(s.count(), 1);
    let b = s.add(String::from("Call Bob"), String::from("Done"));
    assert_eq!(b, Some(2));
    assert_eq!(s.count(), 2);
    assert_ne!(a, b);
}

#[test]
fn add_empty_description_is_rejected() {
    let mut s = TaskStore::new();
    s.add(String::from("Buy milk"), String::from("To do"));
    let r = s.add(String::new(), String::from("To do"));
    assert_eq!(r, None);
    assert_eq!(s.count(), 1);
    assert_eq!(s.list()[0].description, "Buy milk");
}

#[test]
fn add_empty_status_is_rejected() {
    let mut s = TaskStore::new();
    let r = s.add(String::from("Buy milk"), String::new());
    assert_eq!(r, None);
    assert_eq!(s.count(), 0);
}

#[test]
fn delete_existing_removes_exactly_that_task() {
    let mut s = TaskStore::new();
    s.add(String::from("one"), String::from("To do"));
    s.add(String::from("two"), String::from("In progress"));
    s.add(String::from("three"), String::from("Done"));
    s.delete(2);
    assert_eq!(s.count(), 2);
    assert!(!s.contains_id(2));
    let left = s.list();
    assert_eq!(left[0].id, 1);
    assert_eq!(left[0].description, "one");
    assert_eq!(left[1].id, 3);
    assert_eq!(left[1].description, "three");
}

#[test]
fn delete_missing_id_is_a_noop() {
    let mut s = TaskStore::new();
    s.add(String::from("one"), String::from("To do"));
    s.delete(42);
    assert_eq!(s.count(), 1);
    assert_eq!(s.list()[0].id, 1);
    assert_eq!(s.list()[0].description, "one");
    assert_eq!(s.list()[0].status, "To do");
}

#[test]
fn delete_on_empty_store_is_a_noop() {
    let mut s = TaskStore::new();
    s.delete(1);
    assert_eq!(s.count(), 0);
}

#[test]
fn added_then_deleted_id_is_gone() {
    let mut s = TaskStore::new();
    let id = s.add(String::from("Buy milk"), String::from("To do")).unwrap();
    assert!(s.contains_id(id));
    s.delete(id);
    assert!(!s.contains_id(id));
    for task in s.list() {
        assert_ne!(task.id, id);
    }
}

#[test]
fn deleted_id_is_never_reused() {
    let mut s = TaskStore::new();
    let a = s.add(String::from("one"), String::from("To do")).unwrap();
    s.delete(a);
    let b = s.add(String::from("two"), String::from("To do")).unwrap();
    assert_ne!(a, b);
    assert_eq!(b, 2);
}

#[test]
fn milk_then_bob_scenario() {
    let mut s = TaskStore::new();
    let a = s.add(String::from("Buy milk"), String::from("To do"));
    assert_eq!(a, Some(1));
    assert_eq!(s.count(), 1);
    assert_eq!(s.list()[0].id, 1);
    assert_eq!(s.list()[0].description, "Buy milk");
    assert_eq!(s.list()[0].status, "To do");
    let b = s.add(String::from("Call Bob"), String::from("Done"));
    assert_eq!(b, Some(2));
    s.delete(1);
    assert_eq!(s.count(), 1);
    assert_eq!(s.list()[0].id, 2);
    assert_eq!(s.list()[0].description, "Call Bob");
    assert_eq!(s.list()[0].status, "Done");
}

#[test]
fn from_rows_keeps_valid_rows_in_order() {
    let rows = vec![t(3, "a", "To do"), t(1, "b", "Done")];
    let s = TaskStore::from_rows(&rows);
    assert_eq!(s.count(), 2);
    assert_eq!(s.list()[0].id, 3);
    assert_eq!(s.list()[1].id, 1);
}

#[test]
fn from_rows_skips_invalid_and_duplicate_rows() {
    let rows = vec![
        t(1, "kept", "To do"),
        t(0, "zero id", "To do"),
        t(2, "", "empty description"),
        t(3, "empty status", ""),
        t(1, "duplicate id", "Done"),
    ];
    let s = TaskStore::from_rows(&rows);
    assert_eq!(s.count(), 1);
    assert_eq!(s.list()[0].id, 1);
    assert_eq!(s.list()[0].description, "kept");
}

#[test]
fn from_rows_sets_high_water_to_largest_kept_id() {
    let rows = vec![t(5, "a", "To do"), t(2, "b", "Done")];
    let mut s = TaskStore::from_rows(&rows);
    let id = s.add(String::from("new"), String::from("To do"));
    assert_eq!(id, Some(6));
}

#[test]
fn from_rows_of_nothing_is_empty() {
    let rows: Vec<Task> = Vec::new();
    let mut s = TaskStore::from_rows(&rows);
    assert_eq!(s.count(), 0);
    let id = s.add(String::from("first"), String::from("To do"));
    assert_eq!(id, Some(1));
}
