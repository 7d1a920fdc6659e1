//! The decisions of the HTTP API: what a request is answered, in which
//! order a chat turn consults memory, tools and model, and how errors reach
//! the client.  The server itself, which performs the I/O, drives these
//! steps.

use vstd::prelude::*;
use crate::agent::{
    remembered_prompts, route, route_tools, tool_error_message, AgentService, MemoryRecord, ToolContext,
    ToolOutcome, ToolOutcomeView,
};
use crate::config::ApiErrorBody;
use crate::json::{json_string, push_json_string};
use crate::model::ModelError;
use crate::number::{int_decimal, push_int_decimal};
use crate::storage::{is_uuid_v4_text, new_uuid_text};
use crate::text::{blank, is_blank, lowercase, push_str_chars, str_lowercase};

verus! {

/// The body of a chat request.
#[derive(Clone, Debug)]
pub struct ChatRequest {
    pub prompt: String,
}

/// The reply to a chat request.
#[derive(Clone, Debug)]
pub struct ChatResponse {
    pub session_id: String,
    pub response: String,
}

/// The reply to a health probe.
#[derive(Clone, Debug)]
pub struct HealthResponse {
    pub status: String,
}

impl HealthResponse {
    /// The healthy reply, with status `ok`.
    pub fn ok() -> (r: HealthResponse)
        ensures
            r.status@ == "ok"@,
    {
        HealthResponse { status: String::from_str("ok") }
    }
}

/// How a request failed.
#[derive(Clone, Debug)]
pub enum ApiError {
    /// The request is invalid: 400.
    Validation(String),
    /// A service that the server relies on failed: 502.
    External(String),
    /// The server failed: 500, with the details kept from the client.
    Internal(String),
}

impl ApiError {
    /// The HTTP status of the error reply.
    pub fn status_code(&self) -> (r: u16)
        ensures
            r == match self {
                ApiError::Validation(_) => 400u16,
                ApiError::External(_) => 502u16,
                ApiError::Internal(_) => 500u16,
            },
    {
        match self {
            ApiError::Validation(_) => 400,
            ApiError::External(_) => 502,
            ApiError::Internal(_) => 500,
        }
    }

    /// The message that the client is shown: the error's own for a
    /// validation or an external error, a fixed one for an internal error.
    pub fn client_message(&self) -> (r: String)
        ensures
            match self {
                ApiError::Validation(m) => r@ == m@,
                ApiError::External(m) => r@ == m@,
                ApiError::Internal(_) => r@ == "internal server error"@,
            },
    {
        match self {
            ApiError::Validation(m) => m.clone(),
            ApiError::External(m) => m.clone(),
            ApiError::Internal(_) => String::from_str("internal server error"),
        }
    }

    /// The JSON body of the error reply.
    pub fn body(&self) -> (r: ApiErrorBody)
        ensures
            match self {
                ApiError::Validation(m) => r.error@ == m@,
                ApiError::External(m) => r.error@ == m@,
                ApiError::Internal(_) => r.error@ == "internal server error"@,
            },
    {
        ApiErrorBody { error: self.client_message() }
    }
}

/// The fewest runs that the run listing returns.
pub const MIN_RUNS: i64 = 1;

/// The most runs that the run listing returns.
pub const MAX_RUNS: i64 = 100;

/// How many of the most recent runs a chat turn gives the tools as memory.
pub const CHAT_MEMORY_RUNS: i64 = 5;

/// The number of runs to list for a requested `limit`: the limit brought
/// into `1..=100`.
pub fn clamp_run_limit(limit: i64) -> (r: i64)
    ensures
        MIN_RUNS <= r <= MAX_RUNS,
        MIN_RUNS <= limit <= MAX_RUNS ==> r == limit,
        limit < MIN_RUNS ==> r == MIN_RUNS,
        limit > MAX_RUNS ==> r == MAX_RUNS,
{
    if limit < MIN_RUNS {
        MIN_RUNS
    } else if limit > MAX_RUNS {
        MAX_RUNS
    } else {
        limit
    }
}

/// Accepts a prompt that holds more than whitespace; a blank one is the
/// validation error "prompt cannot be empty".
pub fn validate_prompt(prompt: &str) -> (r: Result<(), ApiError>)
    ensures
        !is_blank(prompt@) ==> r is Ok,
        is_blank(prompt@) ==> (r matches Err(ApiError::Validation(m)) && m@
            == "prompt cannot be empty"@),
{
    if blank(prompt) {
        Err(ApiError::Validation(String::from_str("prompt cannot be empty")))
    } else {
        Ok(())
    }
}

/// A chat turn that has been accepted.
#[derive(Clone, Debug)]
pub struct ChatSession {
    pub session_id: String,
    pub prompt: String,
}

/// Starts a chat turn: a blank prompt is refused as a validation error;
/// any other gets a fresh version 4 UUID as its session id.
pub fn begin_chat(request: &ChatRequest) -> (r: Result<ChatSession, ApiError>)
    ensures
        !is_blank(request.prompt@) ==> (r matches Ok(s) && s.prompt@ == request.prompt@
            && is_uuid_v4_text(s.session_id@)),
        is_blank(request.prompt@) ==> (r matches Err(ApiError::Validation(m)) && m@
            == "prompt cannot be empty"@),
{
    match validate_prompt(request.prompt.as_str()) {
        Ok(()) => Ok(ChatSession { session_id: new_uuid_text(), prompt: request.prompt.clone() }),
        Err(e) => Err(e),
    }
}

/// What a chat turn does once the memory is read.
#[derive(Clone, Debug)]
pub enum ChatStep {
    /// A tool answered: store this response and reply with it.
    SaveRun { response: String },
    /// No tool applies: ask the model.
    AskModel { user_prompt: String, system_prompt: String },
}

/// The JSON envelope of a tool's answer: the tool's name, its result, and
/// the confidence of an exact tool, 1.0.
pub open spec fn tool_envelope_spec(o: ToolOutcomeView) -> Seq<char> {
    "{\"tool_name\":\""@ + match o {
        ToolOutcomeView::Add { x, y, value } => "add\",\"result\":{\"x\":"@ + int_decimal(x as int)
            + ",\"y\":"@ + int_decimal(y as int) + ",\"value\":"@ + int_decimal(value as int),
        ToolOutcomeView::Subtract { x, y, value } => "subtract\",\"result\":{\"x\":"@
            + int_decimal(x as int) + ",\"y\":"@ + int_decimal(y as int) + ",\"value\":"@
            + int_decimal(value as int),
        ToolOutcomeView::Calculator { expression, value } =>
            "calculator\",\"result\":{\"expression\":"@ + json_string(expression) + ",\"value\":"@
            + int_decimal(value as int),
        ToolOutcomeView::Memory { user_prompt } => "memory\",\"result\":{\"user_prompt\":"@
            + json_string(user_prompt),
    } + "},\"confidence\":1.0}"@
}

/// Writes the JSON envelope of a tool's answer.
pub fn tool_envelope(o: &ToolOutcome) -> (r: String)
    ensures
        r@ == tool_envelope_spec(o@),
{
    let mut out = String::new();
    push_str_chars(&mut out, "{\"tool_name\":\"");
    match o {
        ToolOutcome::Add { x, y, value } => {
            push_str_chars(&mut out, "add\",\"result\":{\"x\":");
            push_int_decimal(&mut out, *x as i64);
            push_str_chars(&mut out, ",\"y\":");
            push_int_decimal(&mut out, *y as i64);
            push_str_chars(&mut out, ",\"value\":");
            push_int_decimal(&mut out, *value as i64);
        },
        ToolOutcome::Subtract { x, y, value } => {
            push_str_chars(&mut out, "subtract\",\"result\":{\"x\":");
            push_int_decimal(&mut out, *x as i64);
            push_str_chars(&mut out, ",\"y\":");
            push_int_decimal(&mut out, *y as i64);
            push_str_chars(&mut out, ",\"value\":");
            push_int_decimal(&mut out, *value as i64);
        },
        ToolOutcome::Calculator { expression, value } => {
            push_str_chars(&mut out, "calculator\",\"result\":{\"expression\":");
            push_json_string(&mut out, expression.as_str());
            push_str_chars(&mut out, ",\"value\":");
            push_int_decimal(&mut out, *value);
        },
        ToolOutcome::Memory { user_prompt } => {
            push_str_chars(&mut out, "memory\",\"result\":{\"user_prompt\":");
            push_json_string(&mut out, user_prompt.as_str());
        },
    }
    push_str_chars(&mut out, "},\"confidence\":1.0}");
    assert(out@ =~= tool_envelope_spec(o@));
    out
}

/// The step that follows routing: a tool's answer is saved as its envelope,
/// no answer sends the prompt and the system prompt to the model, and a
/// failing tool is an internal error with the tool's message.
pub open spec fn step_after_routing(
    routed: Result<Option<ToolOutcomeView>, crate::agent::ToolError>,
    session: ChatSession,
    agent: AgentService,
    r: Result<ChatStep, ApiError>,
) -> bool {
    match routed {
        Ok(Some(o)) => r matches Ok(ChatStep::SaveRun { response }) && response@
            == tool_envelope_spec(o),
        Ok(None) => r matches Ok(ChatStep::AskModel { user_prompt, system_prompt })
            && user_prompt@ == session.prompt@ && system_prompt@ == agent.system_prompt_view(),
        Err(e) => r matches Err(ApiError::Internal(m)) && m@ == tool_error_message(e),
    }
}

/// Continues a chat turn once the recent runs are read (or failed to be
/// read, with the storage's message): a failed read is an internal error;
/// else the tools decide with the runs as memory.
pub fn after_memory(
    agent: &AgentService,
    session: &ChatSession,
    memory: Result<Vec<MemoryRecord>, String>,
) -> (r: Result<ChatStep, ApiError>)
    ensures
        match memory {
            Err(m) => r matches Err(ApiError::Internal(x)) && x@ == m@,
            Ok(records) => step_after_routing(
                route(
                    session.prompt@,
                    str_lowercase(session.prompt@),
                    remembered_prompts(ToolContext { memory: records }),
                ),
                *session,
                *agent,
                r,
            ),
        },
{
    let records = match memory {
        Ok(records) => records,
        Err(m) => return Err(ApiError::Internal(m)),
    };
    let context = ToolContext { memory: records };
    let lowered = lowercase(session.prompt.as_str());
    match route_tools(session.prompt.as_str(), lowered.as_str(), &context) {
        Ok(Some(o)) => Ok(ChatStep::SaveRun { response: tool_envelope(&o) }),
        Ok(None) => Ok(
            ChatStep::AskModel {
                user_prompt: session.prompt.clone(),
                system_prompt: String::from_str(agent.system_prompt()),
            },
        ),
        Err(e) => Err(ApiError::Internal(String::from_str(e.message()))),
    }
}

/// The model's reply, or the external error with the model's message.
pub fn after_model(reply: Result<String, ModelError>) -> (r: Result<String, ApiError>)
    ensures
        match reply {
            Ok(text) => r matches Ok(t) && t@ == text@,
            Err(ModelError::Request(m)) => r matches Err(ApiError::External(x)) && x@
                == "model request failed: "@ + m@,
            Err(ModelError::MalformedResponse(m)) => r matches Err(ApiError::External(x)) && x@
                == "model response was malformed: "@ + m@,
        },
{
    match reply {
        Ok(text) => Ok(text),
        Err(e) => Err(ApiError::External(e.message())),
    }
}

/// Ends a chat turn once the run is stored (or failed to be, with the
/// storage's message): the reply carries the session id and the very
/// response that was stored.
pub fn after_save(session: ChatSession, response: String, saved: Result<(), String>) -> (r: Result<
    ChatResponse,
    ApiError,
>)
    ensures
        match saved {
            Ok(()) => r matches Ok(c) && c.session_id@ == session.session_id@ && c.response@
                == response@,
            Err(m) => r matches Err(ApiError::Internal(x)) && x@ == m@,
        },
{
    match saved {
        Ok(()) => Ok(ChatResponse { session_id: session.session_id, response }),
        Err(m) => Err(ApiError::Internal(m)),
    }
}

/// The value that a tool's envelope reports, if the tool computes one.
pub open spec fn outcome_value(o: ToolOutcomeView) -> Option<int> {
    match o {
        ToolOutcomeView::Add { value, .. } => Some(value as int),
        ToolOutcomeView::Subtract { value, .. } => Some(value as int),
        ToolOutcomeView::Calculator { value, .. } => Some(value as int),
        ToolOutcomeView::Memory { .. } => None,
    }
}

/// The `value` member of an envelope reads back as the tool's value: the
/// envelope ends with `,"value":`, the decimal text of that value (which
/// `parse::<i64>` reads back as the value), and the closing
/// `},"confidence":1.0}`.
pub proof fn lemma_envelope_value_reads_back(o: ToolOutcomeView)
    requires
        outcome_value(o) is Some,
    ensures
        exists|head: Seq<char>|
            #![trigger head + ",\"value\":"@]
            tool_envelope_spec(o) == head + ",\"value\":"@ + int_decimal(outcome_value(o).unwrap())
                + "},\"confidence\":1.0}"@,
        crate::number::decimal_value(int_decimal(outcome_value(o).unwrap()), true)
            == outcome_value(o),
{
    let v = outcome_value(o).unwrap();
    crate::number::lemma_int_decimal_roundtrip(v);
    let open = "{\"tool_name\":\""@;
    let close = "},\"confidence\":1.0}"@;
    let head = match o {
        ToolOutcomeView::Add { x, y, .. } => open + "add\",\"result\":{\"x\":"@ + int_decimal(
            x as int,
        ) + ",\"y\":"@ + int_decimal(y as int),
        ToolOutcomeView::Subtract { x, y, .. } => open + "subtract\",\"result\":{\"x\":"@
            + int_decimal(x as int) + ",\"y\":"@ + int_decimal(y as int),
        ToolOutcomeView::Calculator { expression, .. } => open
            + "calculator\",\"result\":{\"expression\":"@ + json_string(expression),
        ToolOutcomeView::Memory { .. } => open,
    };
    assert(tool_envelope_spec(o) =~= head + ",\"value\":"@ + int_decimal(v) + close);
}

} // verus!
