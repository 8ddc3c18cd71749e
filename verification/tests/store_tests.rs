use rag_core::store::{ListTasksQuery, TaskStore};
use rag_core::task::{CreateTaskRequest, TaskStatus, UpdateTaskRequest};

#[test]
fn create_assigns_increasing_ids_from_one() {
    let mut store = TaskStore::new();
    let a = store.create(CreateTaskRequest { file_name: String::from("a.txt") }, 10).unwrap();
    let b = store.create(CreateTaskRequest { file_name: String::from("b.txt") }, 20).unwrap();
    assert_eq!(a.id, 1);
    assert_eq!(b.id, 2);
    assert_eq!(a.status, TaskStatus::Pending);
    assert_eq!(a.created_at, 10);
    assert_eq!(a.updated_at, 10);
    assert_eq!(a.started_at, None);
    assert_eq!(a.completed_at, None);
}

#[test]
fn find_returns_none_for_absent_id() {
    let mut store = TaskStore::new();
    store.create(CreateTaskRequest { file_name: String::from("a.txt") }, 10).unwrap();
    assert!(store.find_by_id(1).is_some());
    assert!(store.find_by_id(2).is_none());
}

#[test]
fn update_returns_none_for_absent_id() {
    let mut store = TaskStore::new();
    let req = UpdateTaskRequest {
        status: Some(TaskStatus::Processing),
        error_message: None,
        embedding_count: None,
    };
    assert!(store.update(1, &req, 50).is_none());
}

#[test]
fn update_changes_only_the_addressed_record() {
    let mut store = TaskStore::new();
    store.create(CreateTaskRequest { file_name: String::from("a.txt") }, 10).unwrap();
    store.create(CreateTaskRequest { file_name: String::from("b.txt") }, 10).unwrap();
    let req = UpdateTaskRequest {
        status: Some(TaskStatus::Processing),
        error_message: None,
        embedding_count: None,
    };
    let updated = store.update(1, &req, 99).unwrap();
    assert_eq!(updated.status, TaskStatus::Processing);
    assert_eq!(updated.started_at, Some(99));
    let other = store.find_by_id(2).unwrap();
    assert_eq!(other.status, TaskStatus::Pending);
    assert_eq!(other.updated_at, 10);
}

#[test]
fn delete_is_true_only_when_a_record_was_removed() {
    let mut store = TaskStore::new();
    store.create(CreateTaskRequest { file_name: String::from("a.txt") }, 10).unwrap();
    assert!(store.delete(1));
    assert!(!store.delete(1));
    assert!(store.find_by_id(1).is_none());
}

#[test]
fn list_orders_newest_first() {
    let mut store = TaskStore::new();
    store.create(CreateTaskRequest { file_name: String::from("a.txt") }, 100).unwrap();
    store.create(CreateTaskRequest { file_name: String::from("b.txt") }, 300).unwrap();
    store.create(CreateTaskRequest { file_name: String::from("c.txt") }, 200).unwrap();
    let listed = store.list_all(None, None, None);
    let ids: Vec<i32> = listed.iter().map(|t| t.id).collect();
    assert_eq!(ids, vec![2, 3, 1]);
}

#[test]
fn list_breaks_creation_time_ties_by_id() {
    let mut store = TaskStore::new();
    store.create(CreateTaskRequest { file_name: String::from("a.txt") }, 100).unwrap();
    store.create(CreateTaskRequest { file_name: String::from("b.txt") }, 100).unwrap();
    store.create(CreateTaskRequest { file_name: String::from("c.txt") }, 100).unwrap();
    let listed = store.list_all(None, None, None);
    let ids: Vec<i32> = listed.iter().map(|t| t.id).collect();
    assert_eq!(ids, vec![1, 2, 3]);
}

#[test]
fn list_applies_offset_and_limit() {
    let mut store = TaskStore::new();
    store.create(CreateTaskRequest { file_name: String::from("a.txt") }, 100).unwrap();
    store.create(CreateTaskRequest { file_name: String::from("b.txt") }, 300).unwrap();
    store.create(CreateTaskRequest { file_name: String::from("c.txt") }, 200).unwrap();
    let first = store.list_all(None, Some(1), None);
    assert_eq!(first.len(), 1);
    assert_eq!(first[0].id, 2);
    let rest = store.list_all(None, None, Some(1));
    let ids: Vec<i32> = rest.iter().map(|t| t.id).collect();
    assert_eq!(ids, vec![3, 1]);
    let empty = store.list_all(None, Some(0), None);
    assert!(empty.is_empty());
}

#[test]
fn list_filters_by_status() {
    let mut store = TaskStore::new();
    store.create(CreateTaskRequest { file_name: String::from("a.txt") }, 100).unwrap();
    store.create(CreateTaskRequest { file_name: String::from("b.txt") }, 200).unwrap();
    let req = UpdateTaskRequest {
        status: Some(TaskStatus::Completed),
        error_message: None,
        embedding_count: Some(1),
    };
    store.update(2, &req, 250).unwrap();
    let done = store.list_all(Some(TaskStatus::Completed), None, None);
    assert_eq!(done.len(), 1);
    assert_eq!(done[0].id, 2);
    let pending = store.list_all(Some(TaskStatus::Pending), None, None);
    assert_eq!(pending.len(), 1);
    assert_eq!(pending[0].id, 1);
}

#[test]
fn list_defaults_to_fifty_records() {
    let mut store = TaskStore::new();
    for i in 0..60u64 {
        store.create(CreateTaskRequest { file_name: format!("f{}.txt", i) }, 100).unwrap();
    }
    let listed = store.list_all(None, None, None);
    assert_eq!(listed.len(), 50);
    assert_eq!(listed[0].id, 1);
}

#[test]
fn list_takes_its_parameters_as_one_query() {
    let mut store = TaskStore::new();
    store.create(CreateTaskRequest { file_name: String::from("a.txt") }, 100).unwrap();
    store.create(CreateTaskRequest { file_name: String::from("b.txt") }, 200).unwrap();
    let query = ListTasksQuery { status: None, limit: Some(1), offset: None };
    let listed = store.list(&query);
    assert_eq!(listed.len(), 1);
    assert_eq!(listed[0].id, 2);
}

#[test]
fn create_fails_when_ids_are_exhausted() {
    let mut store = TaskStore { tasks: Vec::new(), next_id: i32::MAX };
    let r = store.create(CreateTaskRequest { file_name: String::from("a.txt") }, 10);
    assert!(matches!(r, Err(rag_core::store::StorageError::IdsExhausted)));
    assert_eq!(store.next_id, i32::MAX);
    assert!(store.tasks.is_empty());
}
