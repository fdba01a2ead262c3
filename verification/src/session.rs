//! A session from its first message to its end: `initialize`, `session/new`, `session/prompt`,
//! and `session/cancel` where it is cut short.
use vstd::prelude::*;
use vstd::utf8::{decode_utf8, valid_utf8};
use crate::client::{
    after_message, client_action, ClientAction, ClientActionView, SpawnTask, TerminalTask,
};
use crate::connection::{AcpConnection, ConnectionView};
use crate::error::AcpError;
use crate::json::{items_view, lemma_items_view, Json, JsonView};
use crate::rpc::{
    call_step, call_step_view, line_message, notification_message, notify, optional, read_message,
    request_message, CallStep, CallStepView, METHOD_INITIALIZE, METHOD_SESSION_CANCEL,
    METHOD_SESSION_NEW, METHOD_SESSION_PROMPT,
};
use crate::tasks::{
    after_drain, drain_reply, is_random_uuid, output_reply, spawned_reply, with_terminal,
};
use crate::text::concat4;

verus! {

/// The name under which the client makes itself known.
pub const CLIENT_NAME: &'static str = "warp";

/// What the agent says of a new session.
#[derive(Debug, PartialEq)]
pub struct NewSessionResponseShim {
    pub session_id: String,
}

/// How far a session has come.
pub enum StageView {
    /// `initialize` is called.
    Initializing,
    /// `session/new` is called.
    Creating,
    /// `session/new` is answered, and its result is being decoded.
    Decoding,
    /// `session/prompt` is called in the session of that name.
    Prompting(Seq<char>),
    /// The session is over.
    Over,
}

/// How far a session has come.
#[derive(Debug)]
pub enum Stage {
    Initializing,
    Creating,
    Decoding,
    Prompting(String),
    Over,
}

impl View for Stage {
    type V = StageView;

    open spec fn view(&self) -> StageView {
        match self {
            Stage::Initializing => StageView::Initializing,
            Stage::Creating => StageView::Creating,
            Stage::Decoding => StageView::Decoding,
            Stage::Prompting(session_id) => StageView::Prompting(session_id@),
            Stage::Over => StageView::Over,
        }
    }
}

/// What a session knows.
pub struct SessionView {
    pub connection: ConnectionView,
    pub prompt: Seq<char>,
    pub stage: StageView,
}

/// A session with an agent.
#[derive(Debug)]
pub struct AcpSession {
    connection: AcpConnection,
    prompt: String,
    stage: Stage,
}

impl View for AcpSession {
    type V = SessionView;

    closed spec fn view(&self) -> SessionView {
        SessionView {
            connection: self.connection@,
            prompt: self.prompt@,
            stage: self.stage@,
        }
    }
}

/// What a session asks of whoever runs it.
pub enum SessionStepView {
    /// Send the message.
    Send(JsonView),
    /// Do what the agent asks.
    Serve(ClientActionView),
    /// Decode the result of `session/new`.
    Decode(JsonView),
    /// The session has come to its end.
    Finished,
    /// The session has failed.
    Failed(Seq<char>),
    /// Nothing.
    Wait,
}

/// What a session asks of whoever runs it.
#[derive(Debug)]
pub enum SessionStep {
    Send(Json),
    Serve(ClientAction),
    Decode(Json),
    Finished,
    Failed(AcpError),
    Wait,
}

impl View for SessionStep {
    type V = SessionStepView;

    open spec fn view(&self) -> SessionStepView {
        match self {
            SessionStep::Send(message) => SessionStepView::Send(message@),
            SessionStep::Serve(action) => SessionStepView::Serve(action@),
            SessionStep::Decode(result) => SessionStepView::Decode(result@),
            SessionStep::Finished => SessionStepView::Finished,
            SessionStep::Failed(e) => SessionStepView::Failed(e@),
            SessionStep::Wait => SessionStepView::Wait,
        }
    }
}

/// The parameters of `initialize`.
pub open spec fn initialize_params() -> JsonView {
    let fs = JsonView::empty_object().with("readTextFile"@, JsonView::Bool(true)).with(
        "writeTextFile"@,
        JsonView::Bool(true),
    );
    let capabilities = JsonView::empty_object().with("fs"@, fs).with(
        "terminal"@,
        JsonView::Bool(true),
    );
    let info = JsonView::empty_object().with("name"@, JsonView::Text(CLIENT_NAME@));
    JsonView::empty_object().with("protocolVersion"@, JsonView::Integer(1)).with(
        "clientCapabilities"@,
        capabilities,
    ).with("clientInfo"@, info)
}

/// The parameters of `session/new`.
pub open spec fn new_session_params(working_dir: Seq<char>) -> JsonView {
    JsonView::empty_object().with("cwd"@, JsonView::Text(working_dir)).with(
        "mcpServers"@,
        JsonView::Array(Seq::empty()),
    )
}

/// The parameters of `session/prompt`.
pub open spec fn prompt_params(session_id: Seq<char>, prompt: Seq<char>) -> JsonView {
    let block = JsonView::empty_object().with("type"@, JsonView::Text("text"@)).with(
        "text"@,
        JsonView::Text(prompt),
    );
    JsonView::empty_object().with("sessionId"@, JsonView::Text(session_id)).with(
        "prompt"@,
        JsonView::Array(seq![block]),
    )
}

/// The parameters of `session/cancel`.
pub open spec fn cancel_params(session_id: Seq<char>) -> JsonView {
    JsonView::empty_object().with("sessionId"@, JsonView::Text(session_id))
}

fn new_initialize_params() -> (r: Json)
    ensures
        r@ == initialize_params(),
{
    let fs = Json::object().with("readTextFile", Json::Bool(true)).with(
        "writeTextFile",
        Json::Bool(true),
    );
    let capabilities = Json::object().with("fs", fs).with("terminal", Json::Bool(true));
    let info = Json::object().with("name", Json::text(CLIENT_NAME));
    Json::object().with("protocolVersion", Json::Unsigned(1)).with(
        "clientCapabilities",
        capabilities,
    ).with("clientInfo", info)
}

fn new_session_params_of(working_dir: &str) -> (r: Json)
    ensures
        r@ == new_session_params(working_dir@),
{
    let servers = Json::Array(Vec::new());
    Json::object().with("cwd", Json::text(working_dir)).with("mcpServers", servers)
}

fn prompt_params_of(session_id: &str, prompt: &str) -> (r: Json)
    ensures
        r@ == prompt_params(session_id@, prompt@),
{
    let block = Json::object().with("type", Json::text("text")).with("text", Json::text(prompt));
    let mut blocks: Vec<Json> = Vec::new();
    let ghost shown = block@;
    blocks.push(block);
    let prompt = Json::Array(blocks);
    proof {
        lemma_items_view(blocks@);
        assert(items_view(blocks@) =~= seq![shown]);
    }
    Json::object().with("sessionId", Json::text(session_id)).with("prompt", prompt)
}

fn cancel_params_of(session_id: &str) -> (r: Json)
    ensures
        r@ == cancel_params(session_id@),
{
    Json::object().with("sessionId", Json::text(session_id))
}

/// The number of calls that have gone out by a stage.
pub open spec fn calls_made(stage: StageView) -> u64 {
    match stage {
        StageView::Initializing => 1,
        StageView::Creating => 2,
        StageView::Decoding => 2,
        StageView::Prompting(_) => 3,
        StageView::Over => 3,
    }
}

/// The method whose response a stage waits for.
pub open spec fn awaited_method(stage: StageView) -> Seq<char> {
    match stage {
        StageView::Initializing => METHOD_INITIALIZE@,
        StageView::Creating => METHOD_SESSION_NEW@,
        StageView::Decoding => METHOD_SESSION_NEW@,
        StageView::Prompting(_) => METHOD_SESSION_PROMPT@,
        StageView::Over => METHOD_SESSION_PROMPT@,
    }
}

impl SessionView {
    /// A session that waits for a message of the agent.
    pub open spec fn listens(self) -> bool {
        self.stage is Initializing || self.stage is Creating || self.stage is Prompting
    }

    /// The numbers of the calls tell how far the session has come.
    pub open spec fn wf(self) -> bool {
        if self.stage is Over {
            self.connection.next_id <= 4
        } else {
            self.connection.next_id == calls_made(self.stage) + 1
        }
    }

    pub open spec fn at(self, stage: StageView) -> SessionView {
        SessionView { stage, ..self }
    }

    /// The session after one more call.
    pub open spec fn after_call(self, stage: StageView) -> SessionView {
        SessionView {
            stage,
            connection: ConnectionView {
                next_id: (self.connection.next_id + 1) as u64,
                ..self.connection
            },
            ..self
        }
    }
}

/// What a session asks for when the agent sends `message`, and what it then is.
pub open spec fn message_step(session: SessionView, message: JsonView) -> (
    SessionStepView,
    SessionView,
) {
    let id = (session.connection.next_id - 1) as u64;
    if !session.listens() {
        (SessionStepView::Wait, session)
    } else {
        match call_step_view(id, awaited_method(session.stage), message) {
            CallStepView::Failed(e) => (SessionStepView::Failed(e), session.at(StageView::Over)),
            CallStepView::Other => (
                SessionStepView::Serve(client_action(session.connection, message)),
                SessionView {
                    connection: after_message(session.connection, message),
                    ..session
                },
            ),
            CallStepView::Done(result) => match session.stage {
                StageView::Initializing => (
                    SessionStepView::Send(
                        request_message(
                            session.connection.next_id,
                            METHOD_SESSION_NEW@,
                            new_session_params(session.connection.working_dir),
                        ),
                    ),
                    session.after_call(StageView::Creating),
                ),
                StageView::Creating => (
                    SessionStepView::Decode(result),
                    session.at(StageView::Decoding),
                ),
                _ => (SessionStepView::Finished, session.at(StageView::Over)),
            },
        }
    }
}

/// What a session asks for when the agent sends the line `line`, and what it then is.
pub open spec fn line_step(session: SessionView, line: Seq<char>) -> (
    SessionStepView,
    SessionView,
) {
    if !session.listens() {
        (SessionStepView::Wait, session)
    } else {
        match line_message(line) {
            Ok(message) => message_step(session, message),
            Err(e) => (SessionStepView::Failed(e), session.at(StageView::Over)),
        }
    }
}

/// What a session asks for when the result of `session/new` is decoded, and what it then is.
pub open spec fn decoded_step(
    session: SessionView,
    decoded: Result<Seq<char>, Seq<char>>,
) -> (SessionStepView, SessionView) {
    if session.stage is Decoding {
        match decoded {
            Ok(session_id) => (
                SessionStepView::Send(
                    request_message(
                        session.connection.next_id,
                        METHOD_SESSION_PROMPT@,
                        prompt_params(session_id, session.prompt),
                    ),
                ),
                session.after_call(StageView::Prompting(session_id)),
            ),
            Err(e) => (
                SessionStepView::Failed(
                    "Failed to deserialize ACP response for "@ + METHOD_SESSION_NEW@ + ": "@ + e,
                ),
                session.at(StageView::Over),
            ),
        }
    } else {
        (SessionStepView::Wait, session)
    }
}

/// What a session asks for when it is to be cut short, and what it then is.
pub open spec fn cancel_step(session: SessionView) -> (SessionStepView, SessionView) {
    match session.stage {
        StageView::Prompting(session_id) => (
            SessionStepView::Send(
                notification_message(METHOD_SESSION_CANCEL@, cancel_params(session_id)),
            ),
            session.at(StageView::Over),
        ),
        _ => (SessionStepView::Wait, session),
    }
}

impl AcpSession {
    /// A session that begins, and its first message.
    pub fn open(prompt: &str, working_dir: &str) -> (r: (AcpSession, Json))
        ensures
            r.0@.wf(),
            r.0@ == (SessionView {
                connection: ConnectionView {
                    next_id: 2,
                    working_dir: working_dir@,
                    terminals: Map::empty(),
                },
                prompt: prompt@,
                stage: StageView::Initializing,
            }),
            r.1@ == request_message(1, METHOD_INITIALIZE@, initialize_params()),
    {
        let mut connection = AcpConnection::new(working_dir);
        let (_, message) = connection.call(METHOD_INITIALIZE, new_initialize_params());
        let session = AcpSession {
            connection,
            prompt: prompt.to_string(),
            stage: Stage::Initializing,
        };
        (session, message)
    }

    /// The reply where the program of a terminal runs, and the identifier of the terminal.
    pub fn on_started(&mut self, task: SpawnTask) -> (r: (String, Option<Json>))
        ensures
            old(self)@.wf() ==> final(self)@.wf(),
            is_random_uuid(r.0@),
            optional(r.1) == spawned_reply(optional(task.id), r.0@),
            final(self)@ == (SessionView {
                connection: with_terminal(old(self)@.connection, r.0@),
                ..old(self)@
            }),
    {
        task.started(&mut self.connection)
    }

    /// The reply with the output of a terminal, to which `bytes` has been added.
    pub fn on_drained(&mut self, task: TerminalTask, bytes: &Vec<u8>, exit_code: Option<i32>) -> (r:
        Option<Json>)
        ensures
            old(self)@.wf() ==> final(self)@.wf(),
            final(self)@ == (SessionView {
                connection: after_drain(old(self)@.connection, task.terminal@, bytes@),
                ..old(self)@
            }),
            optional(r) == drain_reply(
                old(self)@.connection,
                optional(task.id),
                task.terminal@,
                bytes@,
                exit_code,
            ),
            ({
                let all = old(self)@.connection.terminals[task.terminal@] + bytes@;
                old(self)@.connection.terminals.contains_key(task.terminal@) && valid_utf8(all)
                    ==> optional(r) == output_reply(optional(task.id), decode_utf8(all), exit_code)
            }),
    {
        task.drained(&mut self.connection, bytes, exit_code)
    }

    /// Whether a cancellation would be heeded.
    pub fn is_prompting(&self) -> (r: bool)
        ensures
            r == (self@.stage is Prompting),
    {
        match self.stage {
            Stage::Prompting(_) => true,
            _ => false,
        }
    }

    /// Takes a line from the agent.
    pub fn on_line(&mut self, line: &str) -> (r: SessionStep)
        requires
            old(self)@.wf(),
        ensures
            final(self)@.wf(),
            (r@, final(self)@) == line_step(old(self)@, line@),
    {
        match self.stage {
            Stage::Decoding | Stage::Over => SessionStep::Wait,
            _ => match read_message(line) {
                Ok(message) => self.on_message(&message),
                Err(e) => {
                    self.stage = Stage::Over;
                    SessionStep::Failed(e)
                },
            },
        }
    }

    /// Takes a message from the agent.
    pub fn on_message(&mut self, message: &Json) -> (r: SessionStep)
        requires
            old(self)@.wf(),
        ensures
            final(self)@.wf(),
            (r@, final(self)@) == message_step(old(self)@, message@),
    {
        let method = match self.stage {
            Stage::Initializing => METHOD_INITIALIZE,
            Stage::Creating => METHOD_SESSION_NEW,
            Stage::Prompting(_) => METHOD_SESSION_PROMPT,
            Stage::Decoding | Stage::Over => {
                return SessionStep::Wait;
            },
        };
        let id = self.connection.next_id() - 1;
        match call_step(id, method, message) {
            CallStep::Failed(e) => {
                self.stage = Stage::Over;
                SessionStep::Failed(e)
            },
            CallStep::Other => SessionStep::Serve(self.connection.handle_client_request(message)),
            CallStep::Done(result) => match self.stage {
                Stage::Initializing => {
                    let params = new_session_params_of(self.connection.working_dir());
                    let (_, message) = self.connection.call(METHOD_SESSION_NEW, params);
                    self.stage = Stage::Creating;
                    SessionStep::Send(message)
                },
                Stage::Creating => {
                    self.stage = Stage::Decoding;
                    SessionStep::Decode(result)
                },
                _ => {
                    self.stage = Stage::Over;
                    SessionStep::Finished
                },
            },
        }
    }

    /// Takes what the result of `session/new` decodes to, or why it does not.
    pub fn on_decoded(&mut self, decoded: Result<NewSessionResponseShim, String>) -> (r:
        SessionStep)
        requires
            old(self)@.wf(),
        ensures
            final(self)@.wf(),
            (r@, final(self)@) == decoded_step(
                old(self)@,
                match decoded {
                    Ok(response) => Ok(response.session_id@),
                    Err(e) => Err(e@),
                },
            ),
    {
        match self.stage {
            Stage::Decoding => match decoded {
                Ok(response) => {
                    let session_id = response.session_id;
                    let params = prompt_params_of(session_id.as_str(), self.prompt.as_str());
                    let (_, message) = self.connection.call(METHOD_SESSION_PROMPT, params);
                    self.stage = Stage::Prompting(session_id);
                    SessionStep::Send(message)
                },
                Err(e) => {
                    self.stage = Stage::Over;
                    let message = concat4(
                        "Failed to deserialize ACP response for ",
                        METHOD_SESSION_NEW,
                        ": ",
                        e.as_str(),
                    );
                    SessionStep::Failed(AcpError::new(message))
                },
            },
            _ => SessionStep::Wait,
        }
    }

    /// Cuts the session short, where it is at its prompt.
    pub fn cancel(&mut self) -> (r: SessionStep)
        requires
            old(self)@.wf(),
        ensures
            final(self)@.wf(),
            (r@, final(self)@) == cancel_step(old(self)@),
    {
        let message = match &self.stage {
            Stage::Prompting(session_id) => notify(
                METHOD_SESSION_CANCEL,
                cancel_params_of(session_id.as_str()),
            ),
            _ => {
                return SessionStep::Wait;
            },
        };
        self.stage = Stage::Over;
        SessionStep::Send(message)
    }
}

} // verus!
