//! The provider client: turns a normalized message list and the resolved
//! options into the one HTTP POST an invocation issues, and interprets the
//! response, streaming or not. Nothing here performs I/O; the transport
//! receives a complete `RequestPlan` and hands back status and body.

use vstd::prelude::*;
use crate::error::ProviderError;
use crate::jsonbody::request_body_text;
use crate::jsonbody::build_request_body;
use crate::messages::{build_message_list, chat_message_views};
use crate::sse::{
    json_text_at, message_pointer, extract_message_content, initial_state, run_lines, split_lines,
    decode_sse_body,
};
use crate::text::trimmed;

verus! {

/// The request timeout, in seconds, used when the caller configured none.
pub open spec fn default_timeout_secs() -> u64 {
    60
}

/// Resolve an optional configured timeout to the effective one.
pub fn effective_timeout(timeout: Option<u64>) -> (r: u64)
    ensures
        r == match timeout {
            Some(t) => t,
            None => default_timeout_secs(),
        },
{
    match timeout {
        Some(t) => t,
        None => 60,
    }
}

/// The DeepSeek chat-completion endpoint.
pub open spec fn deepseek_url_text() -> Seq<char> {
    "https://api.deepseek.com/chat/completions"@
}

/// The Qwen (OpenAI-compatible) chat-completion endpoint.
pub open spec fn qwen_url_text() -> Seq<char> {
    "https://dashscope.aliyuncs.com/compatible-mode/v1/chat/completions"@
}

/// The DeepSeek chat-completion endpoint.
pub fn deepseek_api_url() -> (r: &'static str)
    ensures
        r@ == deepseek_url_text(),
{
    "https://api.deepseek.com/chat/completions"
}

/// The Qwen (OpenAI-compatible) chat-completion endpoint.
pub fn qwen_api_url() -> (r: &'static str)
    ensures
        r@ == qwen_url_text(),
{
    "https://dashscope.aliyuncs.com/compatible-mode/v1/chat/completions"
}

/// Everything the transport needs to issue the single HTTP POST of one
/// invocation: where to send it, the bearer key, the framed JSON body, the
/// timeout that bounds the connection and header wait, and whether the
/// response streams.
pub struct RequestPlan {
    pub url: String,
    pub api_key: String,
    pub body: String,
    pub timeout_secs: u64,
    pub stream: bool,
}

/// The input contract every request shares: at least one user entry, each
/// already trimmed and not blank.
pub open spec fn normalized_input(user: Seq<Seq<char>>) -> bool {
    user.len() > 0 && forall|i: int|
        0 <= i < user.len() ==> trimmed(#[trigger] user[i]) == user[i] && user[i].len() > 0
}

/// Build the streaming chat request for an OpenAI-compatible endpoint: the
/// fixed system persona followed by the given user entries, the model's wire
/// name, the resolved timeout and the bearer key.
pub fn openai(
    messages: &Vec<String>,
    model: &str,
    timeout: Option<u64>,
    api_url: &str,
    api_key: &str,
) -> (r: RequestPlan)
    requires
        normalized_input(messages.deep_view()),
        api_key@.len() > 0,
    ensures
        r.url@ == api_url@,
        r.api_key@ == api_key@,
        r.stream == true,
        r.timeout_secs == match timeout {
            Some(t) => t,
            None => default_timeout_secs(),
        },
        r.body@ == request_body_text(model@, chat_message_views(messages.deep_view()), true),
{
    let ml = build_message_list(messages);
    let body = build_request_body(model, &ml, true);
    RequestPlan {
        url: api_url.to_owned(),
        api_key: api_key.to_owned(),
        body,
        timeout_secs: effective_timeout(timeout),
        stream: true,
    }
}

/// The streaming chat request aimed at DeepSeek's endpoint.
pub fn deepseek(messages: &Vec<String>, api_key: &str, model: &str, timeout: Option<u64>) -> (r:
    RequestPlan)
    requires
        normalized_input(messages.deep_view()),
        api_key@.len() > 0,
    ensures
        r.url@ == deepseek_url_text(),
        r.api_key@ == api_key@,
        r.stream == true,
        r.timeout_secs == match timeout {
            Some(t) => t,
            None => default_timeout_secs(),
        },
        r.body@ == request_body_text(model@, chat_message_views(messages.deep_view()), true),
{
    openai(messages, model, timeout, deepseek_api_url(), api_key)
}

/// The streaming chat request aimed at Qwen's OpenAI-compatible endpoint.
pub fn qwen(messages: &Vec<String>, api_key: &str, model: &str, timeout: Option<u64>) -> (r:
    RequestPlan)
    requires
        normalized_input(messages.deep_view()),
        api_key@.len() > 0,
    ensures
        r.url@ == qwen_url_text(),
        r.api_key@ == api_key@,
        r.stream == true,
        r.timeout_secs == match timeout {
            Some(t) => t,
            None => default_timeout_secs(),
        },
        r.body@ == request_body_text(model@, chat_message_views(messages.deep_view()), true),
{
    openai(messages, model, timeout, qwen_api_url(), api_key)
}

/// Whether an HTTP status code counts as success.
pub open spec fn is_success_status(code: u16) -> bool {
    200 <= code < 300
}

/// Sort a response by its status: a success keeps its body, anything else is
/// the terminal `HttpStatus` failure with the status and the body, never
/// retried.
pub fn check_status(code: u16, body: String) -> (r: Result<String, ProviderError>)
    ensures
        is_success_status(code) ==> r == Ok::<String, ProviderError>(body),
        !is_success_status(code) ==> r == Err::<String, ProviderError>(
            ProviderError::HttpStatus(code, body),
        ),
{
    if code >= 200 && code < 300 {
        Ok(body)
    } else {
        Err(ProviderError::HttpStatus(code, body))
    }
}

/// The reply text a non-streaming response body carries, if any.
pub open spec fn reply_of_body(body: Seq<char>) -> Option<Seq<char>> {
    json_text_at(body, message_pointer())
}

/// Non-streaming mode: the reply is the text at `choices[0].message.content`;
/// a body without it is an empty reply.
pub fn extract_reply(body: &str) -> (r: Result<String, ProviderError>)
    ensures
        (r is Ok) <==> (reply_of_body(body@) is Some),
        (r matches Ok(s) ==> reply_of_body(body@) == Some(s@)),
        (r matches Err(e) ==> e == ProviderError::EmptyReply),
{
    match extract_message_content(body) {
        Some(s) => Ok(s),
        None => Err(ProviderError::EmptyReply),
    }
}

/// Interpret a complete non-streaming response: a non-success status is the
/// `HttpStatus` failure; a success body yields its reply text or the
/// `EmptyReply` failure.
pub fn single_reply(status: u16, body: String) -> (r: Result<String, ProviderError>)
    ensures
        !is_success_status(status) ==> r == Err::<String, ProviderError>(
            ProviderError::HttpStatus(status, body),
        ),
        is_success_status(status) ==> ((r is Ok) <==> (reply_of_body(body@) is Some)),
        is_success_status(status) ==> (r matches Ok(s) ==> reply_of_body(body@) == Some(s@)),
        is_success_status(status) ==> (r matches Err(e) ==> e == ProviderError::EmptyReply),
{
    if status >= 200 && status < 300 {
        extract_reply(body.as_str())
    } else {
        Err(ProviderError::HttpStatus(status, body))
    }
}

/// Interpret a complete streaming response whose body is already in hand: a
/// non-success status is the `HttpStatus` failure; a success body is decoded
/// line by line, and the text accumulated up to the sentinel — or up to the
/// end of the body, as a best effort when the sentinel never came — is the
/// reply.
pub fn stream_reply(status: u16, body: String) -> (r: Result<String, ProviderError>)
    ensures
        !is_success_status(status) ==> r == Err::<String, ProviderError>(
            ProviderError::HttpStatus(status, body),
        ),
        is_success_status(status) ==> (r is Ok),
        is_success_status(status) ==> (r matches Ok(s) ==> s@ == run_lines(
            initial_state(),
            split_lines(body@),
        ).text),
{
    if status >= 200 && status < 300 {
        let decoded = decode_sse_body(body.as_str());
        Ok(decoded.0)
    } else {
        Err(ProviderError::HttpStatus(status, body))
    }
}

} // verus!
