use rag_core::task::{apply_update, TaskRecord, TaskStatus, UpdateTaskRequest};

fn fresh_task() -> TaskRecord {
    TaskRecord {
        id: 7,
        file_name: String::from("notes.txt"),
        status: TaskStatus::Pending,
        created_at: 1000,
        updated_at: 1000,
        started_at: None,
        completed_at: None,
        error_message: None,
        embedding_count: None,
    }
}

#[test]
fn update_merges_only_present_fields() {
    let task = fresh_task();
    let req = UpdateTaskRequest {
        status: None,
        error_message: None,
        embedding_count: Some(3),
    };
    let r = apply_update(&task, &req, 2000);
    assert_eq!(r.status, TaskStatus::Pending);
    assert_eq!(r.embedding_count, Some(3));
    assert_eq!(r.error_message, None);
    assert_eq!(r.file_name, "notes.txt");
    assert_eq!(r.created_at, 1000);
    assert_eq!(r.updated_at, 2000);
}

#[test]
fn moving_to_processing_stamps_started_at_once() {
    let task = fresh_task();
    let req = UpdateTaskRequest {
        status: Some(TaskStatus::Processing),
        error_message: None,
        embedding_count: None,
    };
    let r1 = apply_update(&task, &req, 1500);
    assert_eq!(r1.status, TaskStatus::Processing);
    assert_eq!(r1.started_at, Some(1500));
    // A second move to Processing must not overwrite the first stamp.
    let r2 = apply_update(&r1, &req, 1800);
    assert_eq!(r2.started_at, Some(1500));
    assert_eq!(r2.updated_at, 1800);
}

#[test]
fn terminal_states_stamp_completed_at_once() {
    let task = fresh_task();
    let done = UpdateTaskRequest {
        status: Some(TaskStatus::Completed),
        error_message: None,
        embedding_count: Some(1),
    };
    let r1 = apply_update(&task, &done, 3000);
    assert_eq!(r1.completed_at, Some(3000));
    let failed = UpdateTaskRequest {
        status: Some(TaskStatus::Failed),
        error_message: Some(String::from("late failure")),
        embedding_count: None,
    };
    let r2 = apply_update(&r1, &failed, 4000);
    assert_eq!(r2.completed_at, Some(3000));
    assert_eq!(r2.status, TaskStatus::Failed);
    assert_eq!(r2.error_message, Some(String::from("late failure")));
    assert_eq!(r2.embedding_count, Some(1));
}

#[test]
fn update_can_move_status_backward() {
    // The store layer does not validate transition direction: a request can
    // move a completed task back to pending, keeping both stamps.
    let task = fresh_task();
    let done = UpdateTaskRequest {
        status: Some(TaskStatus::Completed),
        error_message: None,
        embedding_count: None,
    };
    let r1 = apply_update(&task, &done, 2000);
    let back = UpdateTaskRequest {
        status: Some(TaskStatus::Pending),
        error_message: None,
        embedding_count: None,
    };
    let r2 = apply_update(&r1, &back, 2500);
    assert_eq!(r2.status, TaskStatus::Pending);
    assert_eq!(r2.completed_at, Some(2000));
}
