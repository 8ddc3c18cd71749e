//! Requests to and responses from the embedding and completion API.
//!
//! The outbound calls themselves happen outside the library; here live the
//! exact shapes sent — request bodies, endpoint paths, the authorization
//! header — and the checks applied to what comes back: which HTTP statuses
//! count as success, and when a response body is usable at all.

use vstd::prelude::*;

verus! {

/// Connection settings for the completion API.
pub struct OpenAIClientConfig {
    pub api_key: String,
    pub base_url: Option<String>,
}

/// The base URL requests go to: the configured one, or the public API.
pub open spec fn base_url_of(cfg: OpenAIClientConfig) -> Seq<char> {
    match cfg.base_url {
        Option::Some(u) => u@,
        Option::None => "https://api.openai.com/v1"@,
    }
}

impl OpenAIClientConfig {
    /// The base URL requests go to.
    pub fn effective_base_url(&self) -> (r: String)
        ensures
            r@ == base_url_of(*self),
    {
        match &self.base_url {
            Option::Some(u) => u.clone(),
            Option::None => String::from_str("https://api.openai.com/v1"),
        }
    }
}

/// The embeddings endpoint under a base URL.
pub fn embeddings_url(base: &str) -> (r: String)
    ensures
        r@ == base@ + "/embeddings"@,
{
    let mut s = String::from_str(base);
    s.append("/embeddings");
    s
}

/// The chat-completions endpoint under a base URL.
pub fn chat_completions_url(base: &str) -> (r: String)
    ensures
        r@ == base@ + "/chat/completions"@,
{
    let mut s = String::from_str(base);
    s.append("/chat/completions");
    s
}

/// The authorization header value for an API key.
pub fn bearer_header(api_key: &str) -> (r: String)
    ensures
        r@ == "Bearer "@ + api_key@,
{
    let mut s = String::from_str("Bearer ");
    s.append(api_key);
    s
}

/// Whether an HTTP status code reports success.
pub fn http_success(status: u16) -> (r: bool)
    ensures
        r == (200 <= status < 300),
{
    200 <= status && status < 300
}

/// The body of an embedding request.
pub struct EmbeddingRequest {
    pub input: String,
    pub model: String,
}

/// Build the embedding request for a text: the text itself, against the
/// fixed embedding model.
pub fn build_embedding_request(text: &str) -> (r: EmbeddingRequest)
    ensures
        r.input@ == text@,
        r.model@ == "text-embedding-3-small"@,
{
    EmbeddingRequest {
        input: String::from_str(text),
        model: String::from_str("text-embedding-3-small"),
    }
}

/// Why an upstream embedding or completion call failed.
#[derive(Clone, Copy, PartialEq, Eq, Structural, Debug)]
pub enum UpstreamError {
    /// No API key was available.
    MissingApiKey,
    /// The call returned a non-success HTTP status.
    HttpStatus(u16),
    /// The response carried no usable data.
    EmptyData,
}

/// Judge an embedding response from what the transport observed: the HTTP
/// status and how many embedding entries the body carried.
///
/// Accepts exactly a success status with at least one entry; a non-success
/// status is reported before an empty body.
pub fn check_embedding_response(status: u16, data_len: usize) -> (r: Result<(), UpstreamError>)
    ensures
        r is Ok <==> 200 <= status < 300 && data_len > 0,
        !(200 <= status < 300) ==> r == Result::<(), UpstreamError>::Err(
            UpstreamError::HttpStatus(status),
        ),
        200 <= status < 300 && data_len == 0 ==> r == Result::<(), UpstreamError>::Err(
            UpstreamError::EmptyData,
        ),
{
    if !http_success(status) {
        Result::Err(UpstreamError::HttpStatus(status))
    } else if data_len == 0 {
        Result::Err(UpstreamError::EmptyData)
    } else {
        Result::Ok(())
    }
}

/// One message of a chat conversation.
pub struct ChatMessage {
    pub role: String,
    pub content: String,
}

/// The requested response format of a completion.
pub struct ResponseFormat {
    pub format_type: String,
}

/// The body of a chat-completion request. The sampling temperature is kept
/// in thousandths, as the library holds no floating-point values.
pub struct ChatRequest {
    pub model: String,
    pub messages: Vec<ChatMessage>,
    pub temperature_milli: Option<u32>,
    pub max_tokens: Option<u32>,
    pub response_format: Option<ResponseFormat>,
}

/// Build the chat-completion request for a conversation: the fixed model and
/// sampling settings, and a JSON response format exactly when asked for.
pub fn build_chat_request(messages: Vec<ChatMessage>, json_mode: bool) -> (r: ChatRequest)
    ensures
        r.model@ == "gpt-4o"@,
        r.messages == messages,
        r.temperature_milli == Option::Some(700u32),
        r.max_tokens == Option::Some(2000u32),
        json_mode ==> (r.response_format matches Option::Some(f) && f.format_type@
            == "json_object"@),
        !json_mode ==> r.response_format is None,
{
    ChatRequest {
        model: String::from_str("gpt-4o"),
        messages,
        temperature_milli: Option::Some(700),
        max_tokens: Option::Some(2000),
        response_format: if json_mode {
            Option::Some(ResponseFormat { format_type: String::from_str("json_object") })
        } else {
            Option::None
        },
    }
}

/// One returned completion choice.
pub struct ChatChoice {
    pub message: ChatMessage,
}

/// The body of a chat-completion response.
pub struct ChatResponse {
    pub choices: Vec<ChatChoice>,
}

/// Take the generated text out of a completion response.
///
/// Returns the first choice's content, and fails exactly when the response
/// holds no choice at all.
pub fn first_choice(resp: &ChatResponse) -> (r: Result<String, UpstreamError>)
    ensures
        r is Ok <==> resp.choices@.len() > 0,
        r is Err ==> r == Result::<String, UpstreamError>::Err(UpstreamError::EmptyData),
        r matches Result::Ok(text) ==> text@ == resp.choices@[0].message.content@,
{
    if resp.choices.len() == 0 {
        Result::Err(UpstreamError::EmptyData)
    } else {
        Result::Ok(resp.choices[0].message.content.clone())
    }
}

} // verus!
