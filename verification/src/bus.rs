//! Event-bus client decisions: broker settings, the published envelope, and
//! the consumer loop's retry and backoff policy.
//!
//! The broker connection, produce and consume calls run outside the library;
//! what is verified here is every choice they are driven by — which settings
//! each client is built with, what a published event looks like, how long to
//! back off after each kind of poll, and when a failed startup connection is
//! retried.

use vstd::prelude::*;

use crate::task::TaskRecord;

verus! {

/// Connection settings for the event bus.
#[derive(Clone)]
pub struct KafkaClientConfig {
    pub bootstrap_servers: String,
    pub group_id: Option<String>,
}

/// The views of a settings list.
pub open spec fn setting_views(v: Seq<(String, String)>) -> Seq<(Seq<char>, Seq<char>)> {
    v.map_values(|p: (String, String)| (p.0@, p.1@))
}

/// The settings a producer is built with.
pub open spec fn producer_settings_of(bootstrap: Seq<char>) -> Seq<(Seq<char>, Seq<char>)> {
    seq![
        ("bootstrap.servers"@, bootstrap),
        ("message.timeout.ms"@, "10000"@),
        ("request.timeout.ms"@, "5000"@),
        ("delivery.timeout.ms"@, "15000"@),
        ("retry.backoff.ms"@, "100"@),
        ("reconnect.backoff.ms"@, "100"@),
        ("reconnect.backoff.max.ms"@, "1000"@),
    ]
}

/// The consumer group joined when none is configured.
pub open spec fn default_group_id() -> Seq<char> {
    "rag-consumer-group"@
}

/// The settings a consumer is built with: fixed session parameters, and the
/// configured group or the default one.
pub open spec fn consumer_settings_of(bootstrap: Seq<char>, group: Option<Seq<char>>) -> Seq<
    (Seq<char>, Seq<char>),
> {
    seq![
        ("bootstrap.servers"@, bootstrap),
        ("enable.partition.eof"@, "false"@),
        ("session.timeout.ms"@, "10000"@),
        ("heartbeat.interval.ms"@, "3000"@),
        ("enable.auto.commit"@, "true"@),
        ("auto.offset.reset"@, "latest"@),
        ("reconnect.backoff.ms"@, "100"@),
        ("reconnect.backoff.max.ms"@, "1000"@),
        (
            "group.id"@,
            match group {
                Option::Some(g) => g,
                Option::None => default_group_id(),
            },
        ),
    ]
}

/// Build the producer settings for a configuration.
pub fn producer_settings(config: &KafkaClientConfig) -> (r: Vec<(String, String)>)
    ensures
        setting_views(r@) =~= producer_settings_of(config.bootstrap_servers@),
{
    let mut v: Vec<(String, String)> = Vec::new();
    v.push((String::from_str("bootstrap.servers"), config.bootstrap_servers.clone()));
    v.push((String::from_str("message.timeout.ms"), String::from_str("10000")));
    v.push((String::from_str("request.timeout.ms"), String::from_str("5000")));
    v.push((String::from_str("delivery.timeout.ms"), String::from_str("15000")));
    v.push((String::from_str("retry.backoff.ms"), String::from_str("100")));
    v.push((String::from_str("reconnect.backoff.ms"), String::from_str("100")));
    v.push((String::from_str("reconnect.backoff.max.ms"), String::from_str("1000")));
    v
}

/// Build the consumer settings for a configuration.
pub fn consumer_settings(config: &KafkaClientConfig) -> (r: Vec<(String, String)>)
    ensures
        setting_views(r@) =~= consumer_settings_of(
            config.bootstrap_servers@,
            match config.group_id {
                Option::Some(ref g) => Option::Some(g@),
                Option::None => Option::None,
            },
        ),
{
    let mut v: Vec<(String, String)> = Vec::new();
    v.push((String::from_str("bootstrap.servers"), config.bootstrap_servers.clone()));
    v.push((String::from_str("enable.partition.eof"), String::from_str("false")));
    v.push((String::from_str("session.timeout.ms"), String::from_str("10000")));
    v.push((String::from_str("heartbeat.interval.ms"), String::from_str("3000")));
    v.push((String::from_str("enable.auto.commit"), String::from_str("true")));
    v.push((String::from_str("auto.offset.reset"), String::from_str("latest")));
    v.push((String::from_str("reconnect.backoff.ms"), String::from_str("100")));
    v.push((String::from_str("reconnect.backoff.max.ms"), String::from_str("1000")));
    let group = match &config.group_id {
        Option::Some(g) => g.clone(),
        Option::None => String::from_str("rag-consumer-group"),
    };
    v.push((String::from_str("group.id"), group));
    v
}

/// The payload published when a task was created: the task's identity and
/// the transport-encoded file content the consumer will ingest.
pub struct TaskCreatedPayload {
    pub task_id: i32,
    pub file_name: String,
    pub file_content: String,
}

/// Build the task-creation payload for a freshly created record.
///
/// It carries the record's identity and the base64-encoded file content, the
/// field without which the consumer discards the event.
pub fn make_task_created_payload(task: &TaskRecord, content_b64: &str) -> (r: TaskCreatedPayload)
    ensures
        r.task_id == task.id,
        r.file_name@ == task.file_name@,
        r.file_content@ == content_b64@,
{
    TaskCreatedPayload {
        task_id: task.id,
        file_name: task.file_name.clone(),
        file_content: String::from_str(content_b64),
    }
}

/// The envelope every published event is wrapped in.
pub struct Envelope {
    pub event_type: String,
    pub timestamp_millis: u64,
}

/// Build the envelope for an event published at `now`.
pub fn make_envelope(event_type: &str, now: u64) -> (r: Envelope)
    ensures
        r.event_type@ == event_type@,
        r.timestamp_millis == now,
{
    Envelope { event_type: String::from_str(event_type), timestamp_millis: now }
}

/// A bounded retry policy for the startup connection.
#[derive(Clone, Copy)]
pub struct RetryPolicy {
    pub max_attempts: u32,
    pub delay_millis: u64,
}

/// What to do after one connection attempt.
#[derive(Clone, Copy, PartialEq, Eq, Structural, Debug)]
pub enum RetryStep {
    /// The attempt succeeded; stop retrying.
    Done,
    /// Wait this many milliseconds and try again.
    RetryAfter(u64),
    /// All attempts are used up; surface the last error.
    GiveUp,
}

/// Decide what follows connection attempt number `attempt` (counted from
/// one): stop on success, retry after the fixed delay while attempts
/// remain, and give up at the last one.
pub fn retry_decision(policy: &RetryPolicy, attempt: u32, succeeded: bool) -> (r: RetryStep)
    ensures
        succeeded ==> r == RetryStep::Done,
        !succeeded && attempt < policy.max_attempts ==> r == RetryStep::RetryAfter(
            policy.delay_millis,
        ),
        !succeeded && attempt >= policy.max_attempts ==> r == RetryStep::GiveUp,
{
    if succeeded {
        RetryStep::Done
    } else if attempt < policy.max_attempts {
        RetryStep::RetryAfter(policy.delay_millis)
    } else {
        RetryStep::GiveUp
    }
}

/// What one poll of the consumer returned, as the loop sees it.
#[derive(Clone, Copy, PartialEq, Eq, Structural, Debug)]
pub enum PollSignal {
    /// A message was delivered and will be handled.
    Delivered,
    /// Nothing was ready within the poll window.
    Empty,
    /// The consume call itself failed.
    TransportError,
}

/// How many milliseconds the consumer loop waits after a poll before the
/// next one: none after a delivery, a short pause on an empty poll, a long
/// one after a transport failure. The loop itself never stops on an error.
pub fn poll_backoff_millis(signal: PollSignal) -> (r: u64)
    ensures
        signal == PollSignal::Delivered ==> r == 0,
        signal == PollSignal::Empty ==> r == 100,
        signal == PollSignal::TransportError ==> r == 5000,
{
    match signal {
        PollSignal::Delivered => 0,
        PollSignal::Empty => 100,
        PollSignal::TransportError => 5000,
    }
}

} // verus!
