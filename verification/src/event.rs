//! Ingestion events and their defensive classification.
//!
//! Events arrive from the bus as a loosely-typed envelope. The consumer
//! accepts exactly the task-creation events whose payload carries the
//! required fields, and discards everything else with a reason — a malformed
//! event must never stop the loop or touch any task record.

use vstd::prelude::*;

verus! {

/// The payload of a task-creation event, decoded defensively: every field
/// the sender may have omitted or mistyped is optional here.
pub struct EventPayload {
    pub task_id: Option<u64>,
    pub file_name: Option<String>,
    pub file_content: Option<String>,
}

/// The model of a payload: text fields as character sequences.
pub struct PayloadModel {
    pub task_id: Option<u64>,
    pub file_name: Option<Seq<char>>,
    pub file_content: Option<Seq<char>>,
}

impl View for EventPayload {
    type V = PayloadModel;

    open spec fn view(&self) -> PayloadModel {
        PayloadModel {
            task_id: self.task_id,
            file_name: match self.file_name {
                Option::Some(ref s) => Option::Some(s@),
                Option::None => Option::None,
            },
            file_content: match self.file_content {
                Option::Some(ref s) => Option::Some(s@),
                Option::None => Option::None,
            },
        }
    }
}

/// The envelope carried over the event bus. A payload that was not a
/// structured object arrives here as `None`.
pub struct IngestionEvent {
    pub event_type: String,
    pub payload: Option<EventPayload>,
    pub timestamp_millis: u64,
}

impl View for IngestionEvent {
    type V = EventModel;

    open spec fn view(&self) -> EventModel {
        EventModel {
            event_type: self.event_type@,
            payload: match self.payload {
                Option::Some(ref p) => Option::Some(p@),
                Option::None => Option::None,
            },
            timestamp_millis: self.timestamp_millis,
        }
    }
}

/// The model of an event envelope.
pub struct EventModel {
    pub event_type: Seq<char>,
    pub payload: Option<PayloadModel>,
    pub timestamp_millis: u64,
}

/// Why an event was discarded instead of processed.
#[derive(Clone, Copy, PartialEq, Eq, Structural, Debug)]
pub enum DiscardReason {
    /// The event type is not `task_created`.
    IgnoredEventType,
    /// The payload is not a structured object.
    PayloadNotObject,
    /// The payload lacks a usable `task_id`.
    MissingTaskId,
    /// The payload lacks a `file_content` field.
    MissingFileContent,
}

/// An accepted task-creation request, with the transport-encoded content
/// still undecoded.
pub struct TaskCreation {
    pub task_id: u64,
    pub file_name: String,
    pub content_b64: String,
}

/// The model of an accepted task creation.
pub struct TaskCreationModel {
    pub task_id: u64,
    pub file_name: Seq<char>,
    pub content_b64: Seq<char>,
}

impl View for TaskCreation {
    type V = TaskCreationModel;

    open spec fn view(&self) -> TaskCreationModel {
        TaskCreationModel {
            task_id: self.task_id,
            file_name: self.file_name@,
            content_b64: self.content_b64@,
        }
    }
}

/// What the consumer decided to do with one event.
pub enum EventDecision {
    /// Process the accepted task creation.
    Process(TaskCreation),
    /// Discard the event for the given reason.
    Discard(DiscardReason),
}

/// The model of a consumer decision.
pub enum EventClass {
    Accepted(TaskCreationModel),
    Rejected(DiscardReason),
}

impl View for EventDecision {
    type V = EventClass;

    open spec fn view(&self) -> EventClass {
        match self {
            EventDecision::Process(tc) => EventClass::Accepted(tc@),
            EventDecision::Discard(d) => EventClass::Rejected(*d),
        }
    }
}

/// How an event classifies: accepted exactly when its type is
/// `task_created`, its payload is a structured object, and the payload has a
/// task identifier and file content; a missing file name falls back to
/// `unknown_file`.
pub open spec fn classify_of(event: EventModel) -> EventClass {
    if event.event_type != "task_created"@ {
        EventClass::Rejected(DiscardReason::IgnoredEventType)
    } else {
        match event.payload {
            Option::None => EventClass::Rejected(DiscardReason::PayloadNotObject),
            Option::Some(p) => if p.task_id is None {
                EventClass::Rejected(DiscardReason::MissingTaskId)
            } else if p.file_content is None {
                EventClass::Rejected(DiscardReason::MissingFileContent)
            } else {
                EventClass::Accepted(
                    TaskCreationModel {
                        task_id: p.task_id->0,
                        file_name: match p.file_name {
                            Option::Some(n) => n,
                            Option::None => "unknown_file"@,
                        },
                        content_b64: p.file_content->0,
                    },
                )
            },
        }
    }
}

/// Classify one event: accept a well-formed task creation, discard anything
/// else with the reason. This never fails, whatever the event holds.
pub fn classify_event(event: &IngestionEvent) -> (r: EventDecision)
    ensures
        r@ == classify_of(event@),
{
    if !crate::task::str_eq(event.event_type.as_str(), "task_created") {
        return EventDecision::Discard(DiscardReason::IgnoredEventType);
    }
    match &event.payload {
        Option::None => EventDecision::Discard(DiscardReason::PayloadNotObject),
        Option::Some(p) => {
            let task_id = match p.task_id {
                Option::Some(t) => t,
                Option::None => {
                    return EventDecision::Discard(DiscardReason::MissingTaskId);
                },
            };
            let content_b64 = match &p.file_content {
                Option::Some(c) => c.clone(),
                Option::None => {
                    return EventDecision::Discard(DiscardReason::MissingFileContent);
                },
            };
            let file_name = match &p.file_name {
                Option::Some(n) => n.clone(),
                Option::None => String::from_str("unknown_file"),
            };
            EventDecision::Process(TaskCreation { task_id, file_name, content_b64 })
        },
    }
}

} // verus!
