//! Task records: the persisted lifecycle state of one ingestion job.
//!
//! A record is created `Pending`, moves to `Processing` when work starts, and
//! ends `Completed` or `Failed`. Updates use merge semantics: fields absent
//! from a request are left unchanged, and the start/completion timestamps are
//! stamped exactly once, the first time the status reaches the corresponding
//! state.

use vstd::prelude::*;

verus! {

/// Lifecycle state of a task record. `Unknown` only absorbs unrecognized
/// persisted strings during defensive decoding; the pipeline never produces it.
#[derive(Clone, Copy, PartialEq, Eq, Structural, Debug)]
pub enum TaskStatus {
    Pending,
    Processing,
    Completed,
    Failed,
    Unknown,
}

/// The stored string form of each status.
pub open spec fn status_str(st: TaskStatus) -> Seq<char> {
    match st {
        TaskStatus::Pending => "pending"@,
        TaskStatus::Processing => "processing"@,
        TaskStatus::Completed => "completed"@,
        TaskStatus::Failed => "failed"@,
        TaskStatus::Unknown => "unknown"@,
    }
}

/// How a stored string decodes to a status: the four lifecycle states by
/// their exact names, anything else to `Unknown`.
pub open spec fn status_from_str(s: Seq<char>) -> TaskStatus {
    if s == "pending"@ {
        TaskStatus::Pending
    } else if s == "processing"@ {
        TaskStatus::Processing
    } else if s == "completed"@ {
        TaskStatus::Completed
    } else if s == "failed"@ {
        TaskStatus::Failed
    } else {
        TaskStatus::Unknown
    }
}

/// A status that ends the lifecycle.
pub open spec fn is_terminal(st: TaskStatus) -> bool {
    st == TaskStatus::Completed || st == TaskStatus::Failed
}

/// String equality on slices, settled through their character views.
pub fn str_eq(a: &str, b: &str) -> (r: bool)
    ensures
        r == (a@ == b@),
{
    // vstd specifies `==` on `String`, not on `&str`.
    let sa = String::from_str(a);
    let sb = String::from_str(b);
    sa == sb
}

impl TaskStatus {
    /// Decode a stored status string, absorbing unrecognized values as `Unknown`.
    pub fn from_stored(s: &str) -> (r: TaskStatus)
        ensures
            r == status_from_str(s@),
    {
        if str_eq(s, "pending") {
            TaskStatus::Pending
        } else if str_eq(s, "processing") {
            TaskStatus::Processing
        } else if str_eq(s, "completed") {
            TaskStatus::Completed
        } else if str_eq(s, "failed") {
            TaskStatus::Failed
        } else {
            TaskStatus::Unknown
        }
    }

    /// The string under which this status is persisted.
    pub fn to_stored(&self) -> (r: String)
        ensures
            r@ == status_str(*self),
    {
        match self {
            TaskStatus::Pending => String::from_str("pending"),
            TaskStatus::Processing => String::from_str("processing"),
            TaskStatus::Completed => String::from_str("completed"),
            TaskStatus::Failed => String::from_str("failed"),
            TaskStatus::Unknown => String::from_str("unknown"),
        }
    }

    /// Whether this status ends the lifecycle.
    pub fn terminal(&self) -> (r: bool)
        ensures
            r == is_terminal(*self),
    {
        match self {
            TaskStatus::Completed => true,
            TaskStatus::Failed => true,
            _ => false,
        }
    }
}

/// Encoding and decoding a status are inverse to each other: every status
/// string decodes back to the status it was written from.
pub proof fn lemma_status_round_trip(st: TaskStatus)
    ensures
        status_from_str(status_str(st)) == st,
{
    reveal_strlit("pending");
    reveal_strlit("processing");
    reveal_strlit("completed");
    reveal_strlit("failed");
    reveal_strlit("unknown");
    assert("pending"@.len() == 7);
    assert("processing"@.len() == 10);
    assert("completed"@.len() == 9);
    assert("failed"@.len() == 6);
    assert("unknown"@.len() == 7);
    assert("unknown"@[0] != "pending"@[0]);
}

/// One ingestion job's persisted state. Timestamps are Unix milliseconds.
pub struct TaskRecord {
    pub id: i32,
    pub file_name: String,
    pub status: TaskStatus,
    pub created_at: u64,
    pub updated_at: u64,
    pub started_at: Option<u64>,
    pub completed_at: Option<u64>,
    pub error_message: Option<String>,
    pub embedding_count: Option<i32>,
}

/// Request to create a task for one source file.
pub struct CreateTaskRequest {
    pub file_name: String,
}

/// Partial update of a task record: absent fields are left unchanged.
pub struct UpdateTaskRequest {
    pub status: Option<TaskStatus>,
    pub error_message: Option<String>,
    pub embedding_count: Option<i32>,
}

impl TaskRecord {
    /// A field-for-field copy of this record.
    pub fn duplicate(&self) -> (r: TaskRecord)
        ensures
            r == *self,
    {
        TaskRecord {
            id: self.id,
            file_name: self.file_name.clone(),
            status: self.status,
            created_at: self.created_at,
            updated_at: self.updated_at,
            started_at: self.started_at,
            completed_at: self.completed_at,
            error_message: match &self.error_message {
                Some(m) => Some(m.clone()),
                None => None,
            },
            embedding_count: self.embedding_count,
        }
    }
}

/// The record `apply_update` produces from `task` under `req` at time `now`.
pub open spec fn apply_update_spec(task: TaskRecord, req: UpdateTaskRequest, now: u64) -> TaskRecord {
    TaskRecord {
        id: task.id,
        file_name: task.file_name,
        status: match req.status {
            Some(st) => st,
            None => task.status,
        },
        created_at: task.created_at,
        updated_at: now,
        started_at: if req.status == Some(TaskStatus::Processing) && task.started_at is None {
            Some(now)
        } else {
            task.started_at
        },
        completed_at: if (req.status == Some(TaskStatus::Completed) || req.status == Some(
            TaskStatus::Failed,
        )) && task.completed_at is None {
            Some(now)
        } else {
            task.completed_at
        },
        error_message: match req.error_message {
            Some(m) => Some(m),
            None => task.error_message,
        },
        embedding_count: match req.embedding_count {
            Some(c) => Some(c),
            None => task.embedding_count,
        },
    }
}

/// Merge a partial update into a task record.
///
/// Fields absent from the request keep their old value; `updated_at` always
/// advances to `now`; `started_at` is stamped the first time the status is set
/// to `Processing`, `completed_at` the first time it is set to `Completed` or
/// `Failed`, and neither is ever overwritten.
pub fn apply_update(task: &TaskRecord, req: &UpdateTaskRequest, now: u64) -> (r: TaskRecord)
    ensures
        r == apply_update_spec(*task, *req, now),
{
    let status = match req.status {
        Some(st) => st,
        None => task.status,
    };
    let started_at = if req.status == Some(TaskStatus::Processing) && task.started_at.is_none() {
        Some(now)
    } else {
        task.started_at
    };
    let sets_terminal = req.status == Some(TaskStatus::Completed) || req.status == Some(
        TaskStatus::Failed,
    );
    let completed_at = if sets_terminal && task.completed_at.is_none() {
        Some(now)
    } else {
        task.completed_at
    };
    TaskRecord {
        id: task.id,
        file_name: task.file_name.clone(),
        status,
        created_at: task.created_at,
        updated_at: now,
        started_at,
        completed_at,
        error_message: match &req.error_message {
            Some(m) => Some(m.clone()),
            None => match &task.error_message {
                Some(m) => Some(m.clone()),
                None => None,
            },
        },
        embedding_count: match req.embedding_count {
            Some(c) => Some(c),
            None => task.embedding_count,
        },
    }
}

/// Start and completion stamps are written exactly once: once set, no update
/// changes them, and an update never clears a stamp.
pub proof fn lemma_stamps_stable(task: TaskRecord, req: UpdateTaskRequest, now: u64)
    ensures
        task.started_at is Some ==> apply_update_spec(task, req, now).started_at
            == task.started_at,
        task.completed_at is Some ==> apply_update_spec(task, req, now).completed_at
            == task.completed_at,
        task.started_at is Some ==> apply_update_spec(task, req, now).started_at is Some,
        task.completed_at is Some ==> apply_update_spec(task, req, now).completed_at is Some,
{
}

} // verus!
