use rag_core::bus::{
    consumer_settings, make_envelope, make_task_created_payload, poll_backoff_millis,
    producer_settings, retry_decision, KafkaClientConfig, PollSignal, RetryPolicy, RetryStep,
};
use rag_core::openai::{
    bearer_header, build_chat_request, build_embedding_request, chat_completions_url,
    check_embedding_response, embeddings_url, first_choice, http_success, ChatChoice,
    ChatMessage, ChatResponse, OpenAIClientConfig, UpstreamError,
};
use rag_core::postgres::PostgresClientConfig;
use rag_core::task::{TaskRecord, TaskStatus};

#[test]
fn embedding_request_uses_the_fixed_model() {
    let r = build_embedding_request("some text");
    assert_eq!(r.input, "some text");
    assert_eq!(r.model, "text-embedding-3-small");
}

#[test]
fn base_url_defaults_to_the_public_api() {
    let cfg = OpenAIClientConfig { api_key: String::from("k"), base_url: None };
    assert_eq!(cfg.effective_base_url(), "https://api.openai.com/v1");
    let cfg = OpenAIClientConfig {
        api_key: String::from("k"),
        base_url: Some(String::from("http://localhost:8080/v1")),
    };
    assert_eq!(cfg.effective_base_url(), "http://localhost:8080/v1");
}

#[test]
fn endpoint_urls_are_exact() {
    assert_eq!(embeddings_url("https://api.openai.com/v1"), "https://api.openai.com/v1/embeddings");
    assert_eq!(
        chat_completions_url("https://api.openai.com/v1"),
        "https://api.openai.com/v1/chat/completions"
    );
    assert_eq!(bearer_header("sk-123"), "Bearer sk-123");
}

#[test]
fn http_success_covers_exactly_the_2xx_range() {
    assert!(!http_success(199));
    assert!(http_success(200));
    assert!(http_success(299));
    assert!(!http_success(300));
    assert!(!http_success(500));
}

#[test]
fn embedding_response_checks_status_then_data() {
    assert_eq!(check_embedding_response(200, 1), Ok(()));
    assert_eq!(
        check_embedding_response(429, 1),
        Err(UpstreamError::HttpStatus(429))
    );
    assert_eq!(check_embedding_response(200, 0), Err(UpstreamError::EmptyData));
    // A failing status is reported even when the body is also empty.
    assert_eq!(
        check_embedding_response(500, 0),
        Err(UpstreamError::HttpStatus(500))
    );
}

#[test]
fn chat_request_carries_the_fixed_settings() {
    let msgs = vec![ChatMessage { role: String::from("user"), content: String::from("hi") }];
    let r = build_chat_request(msgs, false);
    assert_eq!(r.model, "gpt-4o");
    assert_eq!(r.temperature_milli, Some(700));
    assert_eq!(r.max_tokens, Some(2000));
    assert!(r.response_format.is_none());
    assert_eq!(r.messages.len(), 1);
    let r = build_chat_request(vec![], true);
    assert_eq!(r.response_format.unwrap().format_type, "json_object");
}

#[test]
fn first_choice_takes_the_first_message() {
    let resp = ChatResponse {
        choices: vec![
            ChatChoice {
                message: ChatMessage {
                    role: String::from("assistant"),
                    content: String::from("hello"),
                },
            },
            ChatChoice {
                message: ChatMessage {
                    role: String::from("assistant"),
                    content: String::from("ignored"),
                },
            },
        ],
    };
    assert_eq!(first_choice(&resp).unwrap(), "hello");
    let empty = ChatResponse { choices: vec![] };
    assert_eq!(first_choice(&empty), Err(UpstreamError::EmptyData));
}

#[test]
fn producer_settings_are_exact() {
    let cfg = KafkaClientConfig {
        bootstrap_servers: String::from("broker:9092"),
        group_id: None,
    };
    let settings = producer_settings(&cfg);
    let expected = vec![
        ("bootstrap.servers", "broker:9092"),
        ("message.timeout.ms", "10000"),
        ("request.timeout.ms", "5000"),
        ("delivery.timeout.ms", "15000"),
        ("retry.backoff.ms", "100"),
        ("reconnect.backoff.ms", "100"),
        ("reconnect.backoff.max.ms", "1000"),
    ];
    let got: Vec<(&str, &str)> =
        settings.iter().map(|p| (p.0.as_str(), p.1.as_str())).collect();
    assert_eq!(got, expected);
}

#[test]
fn consumer_settings_use_the_configured_group() {
    let cfg = KafkaClientConfig {
        bootstrap_servers: String::from("broker:9092"),
        group_id: Some(String::from("file-processor-group")),
    };
    let settings = consumer_settings(&cfg);
    let last = settings.last().unwrap();
    assert_eq!(last.0, "group.id");
    assert_eq!(last.1, "file-processor-group");
    assert_eq!(settings.len(), 9);
    assert_eq!(settings[0].0, "bootstrap.servers");
    assert_eq!(settings[5].1, "latest");
}

#[test]
fn consumer_group_defaults_when_unset() {
    let cfg = KafkaClientConfig {
        bootstrap_servers: String::from("broker:9092"),
        group_id: None,
    };
    let settings = consumer_settings(&cfg);
    let last = settings.last().unwrap();
    assert_eq!(last.1, "rag-consumer-group");
}

#[test]
fn task_created_payload_mirrors_the_record() {
    let task = TaskRecord {
        id: 42,
        file_name: String::from("a.txt"),
        status: TaskStatus::Pending,
        created_at: 1,
        updated_at: 1,
        started_at: None,
        completed_at: None,
        error_message: None,
        embedding_count: None,
    };
    let payload = make_task_created_payload(&task, "aGVsbG8gd29ybGQ=");
    assert_eq!(payload.task_id, 42);
    assert_eq!(payload.file_name, "a.txt");
    assert_eq!(payload.file_content, "aGVsbG8gd29ybGQ=");
    let envelope = make_envelope("task_created", 555);
    assert_eq!(envelope.event_type, "task_created");
    assert_eq!(envelope.timestamp_millis, 555);
}

#[test]
fn startup_retry_is_bounded() {
    let policy = RetryPolicy { max_attempts: 5, delay_millis: 2000 };
    assert_eq!(retry_decision(&policy, 1, true), RetryStep::Done);
    assert_eq!(retry_decision(&policy, 1, false), RetryStep::RetryAfter(2000));
    assert_eq!(retry_decision(&policy, 4, false), RetryStep::RetryAfter(2000));
    assert_eq!(retry_decision(&policy, 5, false), RetryStep::GiveUp);
}

#[test]
fn poll_backoff_depends_on_the_outcome() {
    assert_eq!(poll_backoff_millis(PollSignal::Delivered), 0);
    assert_eq!(poll_backoff_millis(PollSignal::Empty), 100);
    assert_eq!(poll_backoff_millis(PollSignal::TransportError), 5000);
}

#[test]
fn database_port_defaults_to_5432() {
    let cfg = PostgresClientConfig {
        hostname: String::from("localhost"),
        port: None,
        user: None,
        password: None,
        db_name: String::from("rag"),
    };
    assert_eq!(cfg.effective_port(), 5432);
    let cfg = PostgresClientConfig { port: Some(6543), ..cfg };
    assert_eq!(cfg.effective_port(), 6543);
}
