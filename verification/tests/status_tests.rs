use rag_core::task::TaskStatus;

#[test]
fn status_parses_known_values() {
    assert_eq!(TaskStatus::from_stored("pending"), TaskStatus::Pending);
    assert_eq!(TaskStatus::from_stored("processing"), TaskStatus::Processing);
    assert_eq!(TaskStatus::from_stored("completed"), TaskStatus::Completed);
    assert_eq!(TaskStatus::from_stored("failed"), TaskStatus::Failed);
}

#[test]
fn status_absorbs_unknown_values() {
    assert_eq!(TaskStatus::from_stored("paused"), TaskStatus::Unknown);
    assert_eq!(TaskStatus::from_stored(""), TaskStatus::Unknown);
    assert_eq!(TaskStatus::from_stored("PENDING"), TaskStatus::Unknown);
}

#[test]
fn status_round_trips_through_storage() {
    let all = [
        TaskStatus::Pending,
        TaskStatus::Processing,
        TaskStatus::Completed,
        TaskStatus::Failed,
        TaskStatus::Unknown,
    ];
    for st in all {
        assert_eq!(TaskStatus::from_stored(st.to_stored().as_str()), st);
    }
}

#[test]
fn status_stored_strings_are_exact() {
    assert_eq!(TaskStatus::Pending.to_stored(), "pending");
    assert_eq!(TaskStatus::Processing.to_stored(), "processing");
    assert_eq!(TaskStatus::Completed.to_stored(), "completed");
    assert_eq!(TaskStatus::Failed.to_stored(), "failed");
    assert_eq!(TaskStatus::Unknown.to_stored(), "unknown");
}

#[test]
fn only_completed_and_failed_are_terminal() {
    assert!(!TaskStatus::Pending.terminal());
    assert!(!TaskStatus::Processing.terminal());
    assert!(TaskStatus::Completed.terminal());
    assert!(TaskStatus::Failed.terminal());
    assert!(!TaskStatus::Unknown.terminal());
}
