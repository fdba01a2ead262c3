//! JSON-RPC 2.0: the shapes of messages, one message to a line, and what answers a call.
use vstd::prelude::*;
use vstd::string::StringExecFns;
use crate::codec::{
    json_of_text, read_json, spells_back, text_of_json, write_json, MAX_DEPTH,
};
use crate::error::AcpError;
use crate::json::{Json, JsonView};
use crate::text::{concat4, is_white_space, trim, trim_end, trim_start, trimmed};

verus! {

/// Methods of the agent.
pub const METHOD_INITIALIZE: &'static str = "initialize";

pub const METHOD_SESSION_NEW: &'static str = "session/new";

pub const METHOD_SESSION_PROMPT: &'static str = "session/prompt";

pub const METHOD_SESSION_CANCEL: &'static str = "session/cancel";

/// Methods of the client, which the agent may call.
pub const METHOD_FS_READ: &'static str = "fs/readTextFile";

pub const METHOD_FS_WRITE: &'static str = "fs/writeTextFile";

pub const METHOD_TERMINAL_CREATE: &'static str = "terminal/create";

pub const METHOD_TERMINAL_GET_OUTPUT: &'static str = "terminal/getOutput";

pub const METHOD_TERMINAL_KILL: &'static str = "terminal/kill";

pub const METHOD_TERMINAL_RELEASE: &'static str = "terminal/release";

pub const METHOD_REQUEST_PERMISSION: &'static str = "request/permission";

/// The error code of JSON-RPC for a method that is not known.
pub const JSONRPC_METHOD_NOT_FOUND: i64 = -32601;

/// The error code of JSON-RPC for parameters that will not do.
pub const JSONRPC_INVALID_PARAMS: i64 = -32602;

/// The beginning of every message.
pub open spec fn envelope() -> JsonView {
    JsonView::empty_object().with("jsonrpc"@, JsonView::Text("2.0"@))
}

/// A call of `method` that is to be answered under `id`.
pub open spec fn request_message(id: u64, method: Seq<char>, params: JsonView) -> JsonView {
    envelope().with("id"@, JsonView::Integer(id as int)).with(
        "method"@,
        JsonView::Text(method),
    ).with("params"@, params)
}

/// A call of `method` that is not to be answered.
pub open spec fn notification_message(method: Seq<char>, params: JsonView) -> JsonView {
    envelope().with("method"@, JsonView::Text(method)).with("params"@, params)
}

/// The answer `result` to a call with an id; a call without one gets none.
pub open spec fn result_message(id: Option<JsonView>, result: JsonView) -> Option<JsonView> {
    match id {
        Some(id) => Some(envelope().with("id"@, id).with("result"@, result)),
        None => None,
    }
}

/// The error of an answer.
pub open spec fn error_object(code: i64, message: Seq<char>) -> JsonView {
    JsonView::empty_object().with("code"@, JsonView::Integer(code as int)).with(
        "message"@,
        JsonView::Text(message),
    )
}

/// The answer to a call with an id that it failed; a call without one gets none.
pub open spec fn error_message(id: Option<JsonView>, code: i64, message: Seq<char>) -> Option<
    JsonView,
> {
    match id {
        Some(id) => Some(envelope().with("id"@, id).with("error"@, error_object(code, message))),
        None => None,
    }
}

/// What is said of a text that is not JSON, for the reason `reason`.
pub open spec fn invalid_line_message(reason: Seq<char>, text: Seq<char>) -> Seq<char> {
    "Invalid JSON-RPC line from ACP agent: "@ + reason + ": "@ + text
}

/// What is said of a call that was answered by an error, which is shown as `shown`.
pub open spec fn returned_error_message(method: Seq<char>, shown: Seq<char>) -> Seq<char> {
    "ACP method '"@ + method + "' returned error: "@ + shown
}

/// What the line `line`, its line feed included, says; nothing at all means that the stream
/// has come to its end.
pub open spec fn line_message(line: Seq<char>) -> Result<JsonView, Seq<char>> {
    if line.len() == 0 {
        Err("ACP agent stdout closed unexpectedly"@)
    } else {
        match json_of_text(trimmed(line)) {
            Ok(json) => Ok(json),
            Err(e) => Err(invalid_line_message(e, trimmed(line))),
        }
    }
}

/// `message` is the response to the call `id`: it has that id and is no call itself.
pub open spec fn is_response(id: u64, message: JsonView) -> bool {
    &&& message.get("id"@) matches Some(v) && v.as_u64() == Some(id)
    &&& message.get("method"@) is None
}

/// What a message means to the call `id` of `method`.
pub enum CallStepView {
    Done(JsonView),
    Failed(Seq<char>),
    Other,
}

pub open spec fn call_step_view(id: u64, method: Seq<char>, message: JsonView) -> CallStepView {
    if is_response(id, message) {
        match message.get("error"@) {
            Some(error) => CallStepView::Failed(
                returned_error_message(method, text_of_json(error)),
            ),
            None => match message.get("result"@) {
                Some(result) => CallStepView::Done(result),
                None => CallStepView::Failed("ACP response missing `result` field"@),
            },
        }
    } else {
        CallStepView::Other
    }
}

/// What a message means to a call that waits for its response.
#[derive(Debug, PartialEq)]
pub enum CallStep {
    /// The call is answered.
    Done(Json),
    /// The call is answered by an error, or by nothing that can be used.
    Failed(AcpError),
    /// The message is the agent's own.
    Other,
}

impl View for CallStep {
    type V = CallStepView;

    open spec fn view(&self) -> CallStepView {
        match self {
            CallStep::Done(json) => CallStepView::Done(json@),
            CallStep::Failed(e) => CallStepView::Failed(e@),
            CallStep::Other => CallStepView::Other,
        }
    }
}

fn new_envelope() -> (r: Json)
    ensures
        r@ == envelope(),
{
    Json::object().with("jsonrpc", Json::text("2.0"))
}

/// A call of `method` that is to be answered under `id`.
pub fn request(id: u64, method: &str, params: Json) -> (r: Json)
    ensures
        r@ == request_message(id, method@, params@),
{
    new_envelope().with("id", Json::Unsigned(id)).with("method", Json::text(method)).with(
        "params",
        params,
    )
}

/// A call of `method` that is not to be answered.
pub fn notify(method: &str, params: Json) -> (r: Json)
    ensures
        r@ == notification_message(method@, params@),
{
    new_envelope().with("method", Json::text(method)).with("params", params)
}

/// The view of an optional value.
pub open spec fn optional(id: Option<Json>) -> Option<JsonView> {
    match id {
        Some(id) => Some(id@),
        None => None,
    }
}

/// The answer `result` to a call with an id; a call without one gets none.
pub fn respond_result(id: Option<Json>, result: Json) -> (r: Option<Json>)
    ensures
        optional(r) == result_message(optional(id), result@),
{
    match id {
        Some(id) => Some(new_envelope().with("id", id).with("result", result)),
        None => None,
    }
}

/// The answer to a call with an id that it failed; a call without one gets none.
pub fn respond_error(id: Option<Json>, code: i64, message: &str) -> (r: Option<Json>)
    ensures
        optional(r) == error_message(optional(id), code, message@),
{
    match id {
        Some(id) => {
            let error = Json::object().with("code", Json::Signed(code)).with(
                "message",
                Json::text(message),
            );
            Some(new_envelope().with("id", id).with("error", error))
        },
        None => None,
    }
}

proof fn lemma_trim_text_line(text: Seq<char>)
    requires
        text.len() > 0,
        !is_white_space(text.first()),
        !is_white_space(text.last()),
    ensures
        trimmed(text.push('\n')) == text,
{
    let line = text.push('\n');
    assert(line.first() == text.first());
    assert(trim_start(line) == line);
    assert(line.drop_last() =~= text);
    assert(trim_end(text) == text);
}

/// A message as a line: its text, which is free of line feeds, and a line feed.
///
/// Reading the line gives the message back, where it holds no number but integers and is
/// within the reader's limit on nesting.
pub fn write_message(message: &Json) -> (r: String)
    ensures
        r@ == text_of_json(message@).push('\n'),
        forall|i: int| 0 <= i < r@.len() - 1 ==> r@[i] != '\n',
        spells_back(message@, MAX_DEPTH as nat) ==> line_message(r@) == Ok::<
            JsonView,
            Seq<char>,
        >(message@),
{
    let mut text = write_json(message);
    let ghost json_text = text@;
    proof {
        lemma_trim_text_line(json_text);
        reveal_strlit("\n");
        assert("\n"@ =~= seq!['\n']);
    }
    text.append("\n");
    assert(text@ =~= json_text.push('\n'));
    assert forall|i: int| 0 <= i < text@.len() - 1 implies text@[i] != '\n' by {
        assert(json_text.contains(json_text[i]));
    }
    text
}

/// The error of a text that is not JSON, for the reason `reason`.
pub fn invalid_line(reason: &str, text: &str) -> (r: AcpError)
    ensures
        r@ == invalid_line_message(reason@, text@),
{
    AcpError::new(concat4("Invalid JSON-RPC line from ACP agent: ", reason, ": ", text))
}

/// The error of a call that was answered by an error, which is shown as `shown`.
pub fn returned_error(method: &str, shown: &str) -> (r: AcpError)
    ensures
        r@ == returned_error_message(method@, shown@),
{
    AcpError::new(concat4("ACP method '", method, "' returned error: ", shown))
}

/// What a line says.
pub fn read_message(line: &str) -> (r: Result<Json, AcpError>)
    ensures
        match r {
            Ok(json) => line_message(line@) == Ok::<JsonView, Seq<char>>(json@),
            Err(e) => line_message(line@) == Err::<JsonView, Seq<char>>(e@),
        },
{
    if line.is_empty() {
        return Err(AcpError::new("ACP agent stdout closed unexpectedly".to_string()));
    }
    let text = trim(line);
    match read_json(text) {
        Ok(json) => Ok(json),
        Err(e) => Err(invalid_line(e.as_str(), text)),
    }
}

/// Tells whether `message` answers the call `id` of `method`, and how.
pub fn call_step(id: u64, method: &str, message: &Json) -> (r: CallStep)
    ensures
        r@ == call_step_view(id, method@, message@),
{
    let answers = match message.get("id") {
        Some(v) => match v.as_u64() {
            Some(n) => n == id,
            None => false,
        },
        None => false,
    };
    if !answers || message.get("method").is_some() {
        return CallStep::Other;
    }
    match message.get("error") {
        Some(error) => {
            let shown = write_json(error);
            CallStep::Failed(returned_error(method, shown.as_str()))
        },
        None => match message.get("result") {
            Some(result) => CallStep::Done(result.clone()),
            None => CallStep::Failed(
                AcpError::new("ACP response missing `result` field".to_string()),
            ),
        },
    }
}

} // verus!
