//! What the HTTP gateway decides: request and answer bodies, status codes and the
//! reading of query parameters.
use vstd::prelude::*;

use crate::agent::{output_text_spec, AgentOutput};
use crate::error::{failure_text, Failure, NuroError};
use crate::json::{Json, JsonValue};
use crate::message::messages_view;
use crate::runtime::replay::ReplayMode;
use crate::server::models::TaskStatus;
use crate::server::service::{err, failure_message, failure_status, ErrorView, ServerError};
use crate::text::{ascii_lower_seq, ascii_lower_str, str_eq};

verus! {

/// The system prompt of the gateway's default agent.
pub const DEFAULT_SYSTEM_PROMPT: &'static str = "You are a runtime gateway bot with calculator and replay support.";

/// The body of a chat request.
#[derive(Debug)]
pub struct ChatRequest {
    pub input: String,
}

/// The body of a chat answer.
#[derive(Debug)]
pub struct ChatResponse {
    pub output: String,
}

/// The answer to a chat: the agent's output text (empty without one), or the error as a
/// server error.
pub fn chat_response(result: Result<AgentOutput, NuroError>) -> (r: Result<ChatResponse, ServerError>)
    ensures
        match result {
            Ok(o) => r matches Ok(c) && c.output@ == match output_text_spec(messages_view(o.messages@)) {
                Some(t) => t,
                None => seq![],
            },
            Err(e) => r matches Err(se) && se@ == err(failure_status(e@), failure_message(e@)),
        },
{
    match result {
        Ok(out) => {
            let output = match out.text() {
                Some(t) => t,
                None => String::new(),
            };
            Ok(ChatResponse { output })
        },
        Err(e) => Err(ServerError::from_error(e)),
    }
}

/// The data sent for a failed streamed chat: `{"error": "<error text>"}`.
pub fn stream_error_data(error: &NuroError) -> (j: JsonValue)
    ensures
        j@ == Json::Object(seq![("error"@, Json::String(failure_text(error@)))]),
{
    let t = error.to_text();
    JsonValue::object1("error", JsonValue::from_str(t.as_str()))
}

/// The mode a replay query asks for: `lenient` in any ASCII case, else strict.
pub open spec fn replay_mode_spec(mode: Option<Seq<char>>) -> ReplayMode {
    match mode {
        Some(m) => if ascii_lower_seq(m) == "lenient"@ {
            ReplayMode::Lenient
        } else {
            ReplayMode::Strict
        },
        None => ReplayMode::Strict,
    }
}

/// The mode a replay query asks for; see [`replay_mode_spec`].
pub fn parse_replay_mode(mode: Option<&str>) -> (r: ReplayMode)
    ensures
        r == replay_mode_spec(
            match mode {
                Some(m) => Some(m@),
                None => None,
            },
        ),
{
    match mode {
        Some(m) => {
            let lower = ascii_lower_str(m);
            if str_eq(lower.as_str(), "lenient") {
                ReplayMode::Lenient
            } else {
                ReplayMode::Strict
            }
        },
        None => ReplayMode::Strict,
    }
}

/// The status of the answer to a task submission: 202 for a task that waits, 200 for
/// one that ran.
pub fn task_http_status(status: TaskStatus) -> (code: u16)
    ensures
        code == if status == TaskStatus::PendingApproval || status == TaskStatus::Interrupted {
            202u16
        } else {
            200u16
        },
{
    match status {
        TaskStatus::PendingApproval | TaskStatus::Interrupted => 202,
        TaskStatus::Running | TaskStatus::Completed | TaskStatus::Failed => 200,
    }
}

/// The HTTP status of an error answer: its own when it is a valid status code (100 to
/// 999), else 500.
pub fn error_http_status(e: &ServerError) -> (code: u16)
    ensures
        code == if 100 <= e@.status <= 999 {
            e@.status
        } else {
            500u16
        },
{
    let s = e.status();
    if 100 <= s && s <= 999 {
        s
    } else {
        500
    }
}

/// The body of an error answer: `{"error": "<message>"}`.
pub fn error_body(e: &ServerError) -> (j: JsonValue)
    ensures
        j@ == Json::Object(seq![("error"@, Json::String(e@.message))]),
{
    JsonValue::object1("error", JsonValue::from_str(e.message()))
}

} // verus!
