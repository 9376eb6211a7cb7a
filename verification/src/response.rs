//! Decoding the completion endpoint's reply: the dual success/error
//! schema as one tagged outcome. Single fields are read out of the
//! body text by `serde_json` behind trusted readers whose results are
//! named; which schema the body matches, and what the outcome carries,
//! is decided and pinned by verified code over those names.

use vstd::prelude::*;
use crate::message::Message;
use crate::role::{is_role_name, role_name, Role};

verus! {

/// The string at a JSON Pointer path of the body text: present when
/// the text parses as JSON and the path leads to a JSON string; a
/// function of the text and the path alone.
pub uninterp spec fn json_str_at(s: Seq<char>, path: Seq<char>) -> Option<Seq<char>>;

/// The unsigned integer at a JSON Pointer path of the body text, in
/// the same way.
pub uninterp spec fn json_u64_at(s: Seq<char>, path: Seq<char>) -> Option<u64>;

/// The element count of the JSON array at a JSON Pointer path of the
/// body text, in the same way.
pub uninterp spec fn json_len_at(s: Seq<char>, path: Seq<char>) -> Option<usize>;

/// Relies on `serde_json::from_str`, `Value::pointer` and
/// `Value::as_str`: reads the string at a JSON Pointer path of the
/// body, `None` when the text does not parse, the path is absent, or
/// it leads to another value kind.
#[verifier::external_body]
pub(crate) fn read_json_str(s: &str, path: &str) -> (r: Option<String>)
    ensures
        r is Some <==> json_str_at(s@, path@) is Some,
        r is Some ==> r->0@ == json_str_at(s@, path@)->0,
{
    let v: serde_json::Value = serde_json::from_str(s).ok()?;
    Some(v.pointer(path)?.as_str()?.to_owned())
}

/// Relies on `serde_json::from_str`, `Value::pointer` and
/// `Value::as_u64`: reads the unsigned integer at a JSON Pointer path
/// of the body, in the same way.
#[verifier::external_body]
pub(crate) fn read_json_u64(s: &str, path: &str) -> (r: Option<u64>)
    ensures
        r == json_u64_at(s@, path@),
{
    let v: serde_json::Value = serde_json::from_str(s).ok()?;
    v.pointer(path)?.as_u64()
}

/// Relies on `serde_json::from_str`, `Value::pointer` and
/// `Value::as_array`: reads the element count of the array at a JSON
/// Pointer path of the body, in the same way.
#[verifier::external_body]
pub(crate) fn read_json_len(s: &str, path: &str) -> (r: Option<usize>)
    ensures
        r == json_len_at(s@, path@),
{
    let v: serde_json::Value = serde_json::from_str(s).ok()?;
    Some(v.pointer(path)?.as_array()?.len())
}

/// The token accounting the endpoint reports with a success reply.
#[derive(Debug, Clone)]
pub struct Usage {
    pub prompt_tokens: u64,
    pub completion_tokens: u64,
    pub total_tokens: u64,
}

/// One generated alternative of a success reply.
#[derive(Debug, Clone)]
pub struct Choice {
    pub message: Message,
    pub finish_reason: String,
    pub index: u64,
}

/// A reply matching the success schema. Only the first choice is
/// retained: the rest are discarded unread, a deliberate
/// simplification, so `choices` holds at most one entry.
#[derive(Debug, Clone)]
pub struct ChatResponse {
    pub id: String,
    pub object: String,
    pub created: u64,
    pub model: String,
    pub usage: Usage,
    pub choices: Vec<Choice>,
}

/// A reply matching the error schema.
#[derive(Debug, Clone)]
pub struct ErrorResponse {
    pub error: ErrorDetail,
}

/// The payload of the error schema.
#[derive(Debug, Clone)]
pub struct ErrorDetail {
    pub message: String,
}

/// What one raw reply body turned out to be: a success reply, an
/// endpoint-reported error, or text matching neither schema.
pub enum ResponseOutcome {
    Success(ChatResponse),
    ApiError(String),
    Unparseable,
}

/// Whether the body text carries a well-formed first choice: a message
/// with one of the three role names and string content, a finish
/// reason, and an index.
pub open spec fn first_choice_ok(s: Seq<char>) -> bool {
    &&& json_str_at(s, "/choices/0/message/role"@) is Some
    &&& is_role_name(json_str_at(s, "/choices/0/message/role"@)->0)
    &&& json_str_at(s, "/choices/0/message/content"@) is Some
    &&& json_str_at(s, "/choices/0/finish_reason"@) is Some
    &&& json_u64_at(s, "/choices/0/index"@) is Some
}

/// Whether the body text matches the success schema: the named head
/// fields with their types, the three usage counters, a choices
/// array, and — when that array is non-empty — a well-formed first
/// choice.
pub open spec fn success_schema_ok(s: Seq<char>) -> bool {
    &&& json_str_at(s, "/id"@) is Some
    &&& json_str_at(s, "/object"@) is Some
    &&& json_u64_at(s, "/created"@) is Some
    &&& json_str_at(s, "/model"@) is Some
    &&& json_u64_at(s, "/usage/prompt_tokens"@) is Some
    &&& json_u64_at(s, "/usage/completion_tokens"@) is Some
    &&& json_u64_at(s, "/usage/total_tokens"@) is Some
    &&& json_len_at(s, "/choices"@) is Some
    &&& (json_len_at(s, "/choices"@)->0 > 0 ==> first_choice_ok(s))
}

/// The error-schema message of the body text, if it carries one.
pub open spec fn error_message_of(s: Seq<char>) -> Option<Seq<char>> {
    json_str_at(s, "/error/message"@)
}

/// What a success outcome built from the body text holds: every field
/// is the one the text carries at its place in the schema, and the
/// retained choice list mirrors whether the wire array was empty.
pub open spec fn response_matches(resp: ChatResponse, s: Seq<char>) -> bool {
    &&& resp.id@ == json_str_at(s, "/id"@)->0
    &&& resp.object@ == json_str_at(s, "/object"@)->0
    &&& resp.created == json_u64_at(s, "/created"@)->0
    &&& resp.model@ == json_str_at(s, "/model"@)->0
    &&& resp.usage.prompt_tokens == json_u64_at(s, "/usage/prompt_tokens"@)->0
    &&& resp.usage.completion_tokens == json_u64_at(s, "/usage/completion_tokens"@)->0
    &&& resp.usage.total_tokens == json_u64_at(s, "/usage/total_tokens"@)->0
    &&& (json_len_at(s, "/choices"@)->0 == 0 ==> resp.choices@.len() == 0)
    &&& (json_len_at(s, "/choices"@)->0 > 0 ==> resp.choices@.len() == 1 && role_name(
        resp.choices@[0].message.role,
    ) == json_str_at(s, "/choices/0/message/role"@)->0 && resp.choices@[0].message.content@
        == json_str_at(s, "/choices/0/message/content"@)->0 && resp.choices@[0].finish_reason@
        == json_str_at(s, "/choices/0/finish_reason"@)->0 && resp.choices@[0].index == json_u64_at(
        s,
        "/choices/0/index"@,
    )->0)
}

/// Reads the body against the success schema: every field the schema
/// names must be present with its type; the first choice's role is
/// validated through the closed role model.
fn parse_chat_response(body: &str) -> (r: Option<ChatResponse>)
    ensures
        r is Some <==> success_schema_ok(body@),
        r is Some ==> response_matches(r->0, body@),
{
    let id = match read_json_str(body, "/id") {
        Some(x) => x,
        None => {
            return None;
        },
    };
    let object = match read_json_str(body, "/object") {
        Some(x) => x,
        None => {
            return None;
        },
    };
    let created = match read_json_u64(body, "/created") {
        Some(x) => x,
        None => {
            return None;
        },
    };
    let model = match read_json_str(body, "/model") {
        Some(x) => x,
        None => {
            return None;
        },
    };
    let prompt_tokens = match read_json_u64(body, "/usage/prompt_tokens") {
        Some(x) => x,
        None => {
            return None;
        },
    };
    let completion_tokens = match read_json_u64(body, "/usage/completion_tokens") {
        Some(x) => x,
        None => {
            return None;
        },
    };
    let total_tokens = match read_json_u64(body, "/usage/total_tokens") {
        Some(x) => x,
        None => {
            return None;
        },
    };
    let n = match read_json_len(body, "/choices") {
        Some(x) => x,
        None => {
            return None;
        },
    };
    let mut choices: Vec<Choice> = Vec::new();
    if n > 0 {
        let role_str = match read_json_str(body, "/choices/0/message/role") {
            Some(x) => x,
            None => {
                return None;
            },
        };
        let role = match Role::from_str(role_str.as_str()) {
            Ok(x) => x,
            Err(_) => {
                return None;
            },
        };
        let content = match read_json_str(body, "/choices/0/message/content") {
            Some(x) => x,
            None => {
                return None;
            },
        };
        let finish_reason = match read_json_str(body, "/choices/0/finish_reason") {
            Some(x) => x,
            None => {
                return None;
            },
        };
        let index = match read_json_u64(body, "/choices/0/index") {
            Some(x) => x,
            None => {
                return None;
            },
        };
        choices.push(Choice { message: Message { role, content }, finish_reason, index });
    }
    let usage = Usage { prompt_tokens, completion_tokens, total_tokens };
    Some(ChatResponse { id, object, created, model, usage, choices })
}

/// Reads the body against the error schema.
fn parse_error_response(body: &str) -> (r: Option<ErrorResponse>)
    ensures
        r is Some <==> error_message_of(body@) is Some,
        r is Some ==> r->0.error.message@ == error_message_of(body@)->0,
{
    match read_json_str(body, "/error/message") {
        Some(message) => Some(ErrorResponse { error: ErrorDetail { message } }),
        None => None,
    }
}

/// Classifies one raw reply body: the success schema is tried first,
/// the error schema second, and text matching neither — JSON or not —
/// is unparseable.
pub fn classify_response(body: &str) -> (r: ResponseOutcome)
    ensures
        r is Success <==> success_schema_ok(body@),
        r is Success ==> response_matches(r->Success_0, body@),
        !success_schema_ok(body@) ==> (r is ApiError <==> error_message_of(body@) is Some),
        r is ApiError ==> r->ApiError_0@ == error_message_of(body@)->0,
{
    match parse_chat_response(body) {
        Some(resp) => ResponseOutcome::Success(resp),
        None => match parse_error_response(body) {
            Some(err) => ResponseOutcome::ApiError(err.error.message),
            None => ResponseOutcome::Unparseable,
        },
    }
}

} // verus!
