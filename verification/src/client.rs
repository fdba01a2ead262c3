//! What the agent asks of its client: files, terminals and permissions.
//!
//! A request is first turned into an action. An action that takes work outside (reading a
//! file, running a program) carries the task, and the task turns the outcome of the work into
//! the reply.
use vstd::prelude::*;
use crate::connection::{AcpConnection, ConnectionView};
use crate::json::{items_view, lemma_items_view, Json, JsonView};
use crate::path::{
    escape_message, parent_dir, render_parent, render_path, resolve_components, resolve_safe_path,
    resolved, resolved_parts, stays_inside,
};
use crate::rpc::{
    error_message, optional, respond_error, respond_result, result_message, JSONRPC_INVALID_PARAMS,
    JSONRPC_METHOD_NOT_FOUND, METHOD_FS_READ, METHOD_FS_WRITE, METHOD_REQUEST_PERMISSION,
    METHOD_TERMINAL_CREATE, METHOD_TERMINAL_GET_OUTPUT, METHOD_TERMINAL_KILL,
    METHOD_TERMINAL_RELEASE,
};
use crate::rpc_laws::lemma_methods_differ;
use crate::text::{concat2, concat3, same_text};

verus! {

/// What is to be done about a message of the agent.
pub enum ClientActionView {
    /// Send the reply, where there is one.
    Reply(Option<JsonView>),
    /// Read the file `path`.
    ReadFile { id: Option<JsonView>, path: Seq<char> },
    /// Make the directory `parent`, where there is one, and write the file `path`.
    WriteFile {
        id: Option<JsonView>,
        path: Seq<char>,
        parent: Option<Seq<char>>,
        content: Seq<char>,
    },
    /// Run the program `command` in the directory `cwd`.
    Spawn {
        id: Option<JsonView>,
        command: Seq<char>,
        args: Seq<Seq<char>>,
        cwd: Seq<char>,
    },
    /// Collect what the terminal has put out.
    DrainOutput { id: Option<JsonView>, terminal: Seq<char> },
    /// Kill the program in the terminal.
    Kill { id: Option<JsonView>, terminal: Seq<char> },
    /// Kill the program that ran in the terminal, and wait for its end.
    Release { id: Option<JsonView>, terminal: Seq<char> },
}

/// The method that a message calls; empty where it calls none.
pub open spec fn method_of(message: JsonView) -> Seq<char> {
    match message.get_text("method"@) {
        Some(method) => method,
        None => ""@,
    }
}

/// The parameters of a message.
pub open spec fn params_of(message: JsonView) -> JsonView {
    match message.get("params"@) {
        Some(params) => params,
        None => JsonView::Null,
    }
}

/// The text under `key`, and otherwise nothing.
pub open spec fn text_or_empty(params: JsonView, key: Seq<char>) -> Seq<char> {
    match params.get_text(key) {
        Some(s) => s,
        None => ""@,
    }
}

/// The texts among a list of values.
pub open spec fn texts_among(items: Seq<JsonView>) -> Seq<Seq<char>>
    decreases items.len(),
{
    if items.len() == 0 {
        Seq::empty()
    } else {
        match items.last().as_text() {
            Some(s) => texts_among(items.drop_last()).push(s),
            None => texts_among(items.drop_last()),
        }
    }
}

/// The reply that refuses parameters.
pub open spec fn refusal(id: Option<JsonView>, message: Seq<char>) -> ClientActionView {
    ClientActionView::Reply(error_message(id, JSONRPC_INVALID_PARAMS, message))
}

pub open spec fn read_action(
    id: Option<JsonView>,
    params: JsonView,
    working_dir: Seq<char>,
) -> ClientActionView {
    match params.get_text("path"@) {
        None => refusal(id, "fs/readTextFile missing 'path'"@),
        Some(path) => if stays_inside(path, working_dir) {
            ClientActionView::ReadFile { id, path: resolved(path, working_dir) }
        } else {
            refusal(id, escape_message(path, working_dir))
        },
    }
}

pub open spec fn write_action(
    id: Option<JsonView>,
    params: JsonView,
    working_dir: Seq<char>,
) -> ClientActionView {
    match params.get_text("path"@) {
        None => refusal(id, "fs/writeTextFile missing 'path'"@),
        Some(path) => match params.get_text("content"@) {
            None => refusal(id, "fs/writeTextFile missing 'content'"@),
            Some(content) => if stays_inside(path, working_dir) {
                ClientActionView::WriteFile {
                    id,
                    path: resolved(path, working_dir),
                    parent: parent_dir(resolved_parts(path, working_dir)),
                    content,
                }
            } else {
                refusal(id, escape_message(path, working_dir))
            },
        },
    }
}

/// The directory in which a terminal starts: the one asked for, where it is inside the
/// working directory, and otherwise the working directory. What resolves to an empty path, as
/// `.` does from `.`, is the working directory too.
pub open spec fn terminal_dir(params: JsonView, working_dir: Seq<char>) -> Seq<char> {
    match params.get_text("cwd"@) {
        Some(cwd) => if stays_inside(cwd, working_dir) && resolved(cwd, working_dir).len() > 0 {
            resolved(cwd, working_dir)
        } else {
            working_dir
        },
        None => working_dir,
    }
}

/// The arguments of a terminal's program: the texts in the array `args`.
pub open spec fn terminal_args(params: JsonView) -> Seq<Seq<char>> {
    match params.get("args"@) {
        Some(args) => match args.as_array() {
            Some(items) => texts_among(items),
            None => Seq::empty(),
        },
        None => Seq::empty(),
    }
}

pub open spec fn create_action(
    id: Option<JsonView>,
    params: JsonView,
    working_dir: Seq<char>,
) -> ClientActionView {
    let command = text_or_empty(params, "command"@);
    if command.len() == 0 {
        refusal(id, "terminal/create: 'command' is required"@)
    } else {
        ClientActionView::Spawn {
            id,
            command,
            args: terminal_args(params),
            cwd: terminal_dir(params, working_dir),
        }
    }
}

pub open spec fn unknown_terminal(terminal: Seq<char>) -> Seq<char> {
    "terminal/getOutput: unknown terminal '"@ + terminal + "'"@
}

pub open spec fn output_action(
    id: Option<JsonView>,
    params: JsonView,
    terminals: Map<Seq<char>, Seq<u8>>,
) -> ClientActionView {
    let terminal = text_or_empty(params, "terminalId"@);
    if terminals.contains_key(terminal) {
        ClientActionView::DrainOutput { id, terminal }
    } else {
        refusal(id, unknown_terminal(terminal))
    }
}

pub open spec fn kill_action(
    id: Option<JsonView>,
    params: JsonView,
    terminals: Map<Seq<char>, Seq<u8>>,
) -> ClientActionView {
    let terminal = text_or_empty(params, "terminalId"@);
    if terminals.contains_key(terminal) {
        ClientActionView::Kill { id, terminal }
    } else {
        ClientActionView::Reply(result_message(id, JsonView::empty_object()))
    }
}

pub open spec fn release_action(
    id: Option<JsonView>,
    params: JsonView,
    terminals: Map<Seq<char>, Seq<u8>>,
) -> ClientActionView {
    let terminal = text_or_empty(params, "terminalId"@);
    if terminals.contains_key(terminal) {
        ClientActionView::Release { id, terminal }
    } else {
        ClientActionView::Reply(result_message(id, JsonView::empty_object()))
    }
}

/// The option by which a permission is granted: the first that is offered.
pub open spec fn granted_option(params: JsonView) -> Seq<char> {
    match params.get("options"@) {
        Some(options) => match options.as_array() {
            Some(items) => if items.len() > 0 {
                match items[0].get_text("id"@) {
                    Some(option) => option,
                    None => "allow"@,
                }
            } else {
                "allow"@
            },
            None => "allow"@,
        },
        None => "allow"@,
    }
}

pub open spec fn permission_action(id: Option<JsonView>, params: JsonView) -> ClientActionView {
    let outcome = JsonView::empty_object().with(
        "optionId"@,
        JsonView::Text(granted_option(params)),
    );
    ClientActionView::Reply(
        result_message(id, JsonView::empty_object().with("outcome"@, outcome)),
    )
}

/// What is to be done about the message `message`.
pub open spec fn client_action(connection: ConnectionView, message: JsonView) -> ClientActionView {
    let method = method_of(message);
    let id = message.get("id"@);
    let params = params_of(message);
    if method == METHOD_FS_READ@ {
        read_action(id, params, connection.working_dir)
    } else if method == METHOD_FS_WRITE@ {
        write_action(id, params, connection.working_dir)
    } else if method == METHOD_TERMINAL_CREATE@ {
        create_action(id, params, connection.working_dir)
    } else if method == METHOD_TERMINAL_GET_OUTPUT@ {
        output_action(id, params, connection.terminals)
    } else if method == METHOD_TERMINAL_KILL@ {
        kill_action(id, params, connection.terminals)
    } else if method == METHOD_TERMINAL_RELEASE@ {
        release_action(id, params, connection.terminals)
    } else if method == METHOD_REQUEST_PERMISSION@ {
        permission_action(id, params)
    } else if message.get("method"@) is None {
        ClientActionView::Reply(None)
    } else {
        ClientActionView::Reply(
            error_message(id, JSONRPC_METHOD_NOT_FOUND, "Method not found: "@ + method),
        )
    }
}

/// What the message leaves of the connection: a terminal that is released is gone.
pub open spec fn after_message(connection: ConnectionView, message: JsonView) -> ConnectionView {
    if method_of(message) == METHOD_TERMINAL_RELEASE@ {
        ConnectionView {
            terminals: connection.terminals.remove(
                text_or_empty(params_of(message), "terminalId"@),
            ),
            ..connection
        }
    } else {
        connection
    }
}

/// A file to read.
#[derive(Debug)]
pub struct ReadTask {
    pub id: Option<Json>,
    pub path: String,
}

/// A file to write, and the directory that has to be there first.
#[derive(Debug)]
pub struct WriteTask {
    pub id: Option<Json>,
    pub path: String,
    pub parent: Option<String>,
    pub content: String,
}

/// A program to run.
#[derive(Debug)]
pub struct SpawnTask {
    pub id: Option<Json>,
    pub command: String,
    pub args: Vec<String>,
    pub cwd: String,
}

/// A terminal to see to.
#[derive(Debug)]
pub struct TerminalTask {
    pub id: Option<Json>,
    pub terminal: String,
}

/// What is to be done about a message of the agent.
#[derive(Debug)]
pub enum ClientAction {
    Reply(Option<Json>),
    ReadFile(ReadTask),
    WriteFile(WriteTask),
    Spawn(SpawnTask),
    DrainOutput(TerminalTask),
    Kill(TerminalTask),
    Release(TerminalTask),
}

/// The texts of a list.
pub open spec fn texts(list: Seq<String>) -> Seq<Seq<char>> {
    list.map_values(|s: String| s@)
}

/// The view of an optional text.
pub open spec fn optional_text(s: Option<String>) -> Option<Seq<char>> {
    match s {
        Some(s) => Some(s@),
        None => None,
    }
}

impl View for ClientAction {
    type V = ClientActionView;

    open spec fn view(&self) -> ClientActionView {
        match self {
            ClientAction::Reply(reply) => ClientActionView::Reply(optional(*reply)),
            ClientAction::ReadFile(t) => ClientActionView::ReadFile {
                id: optional(t.id),
                path: t.path@,
            },
            ClientAction::WriteFile(t) => ClientActionView::WriteFile {
                id: optional(t.id),
                path: t.path@,
                parent: optional_text(t.parent),
                content: t.content@,
            },
            ClientAction::Spawn(t) => ClientActionView::Spawn {
                id: optional(t.id),
                command: t.command@,
                args: texts(t.args@),
                cwd: t.cwd@,
            },
            ClientAction::DrainOutput(t) => ClientActionView::DrainOutput {
                id: optional(t.id),
                terminal: t.terminal@,
            },
            ClientAction::Kill(t) => ClientActionView::Kill {
                id: optional(t.id),
                terminal: t.terminal@,
            },
            ClientAction::Release(t) => ClientActionView::Release {
                id: optional(t.id),
                terminal: t.terminal@,
            },
        }
    }
}

fn refuse(id: Option<Json>, message: &str) -> (r: ClientAction)
    ensures
        r@ == refusal(optional(id), message@),
{
    ClientAction::Reply(respond_error(id, JSONRPC_INVALID_PARAMS, message))
}

/// The text under `key`, and otherwise nothing.
fn str_or_empty<'a>(params: &'a Json, key: &str) -> (r: &'a str)
    ensures
        r@ == text_or_empty(params@, key@),
{
    match params.get_str(key) {
        Some(s) => s,
        None => "",
    }
}

fn read_file(id: Option<Json>, params: &Json, working_dir: &str) -> (r: ClientAction)
    ensures
        r@ == read_action(optional(id), params@, working_dir@),
{
    match params.get_str("path") {
        None => refuse(id, "fs/readTextFile missing 'path'"),
        Some(path) => match resolve_safe_path(path, working_dir) {
            Ok(path) => ClientAction::ReadFile(ReadTask { id, path }),
            Err(e) => refuse(id, e.message.as_str()),
        },
    }
}

fn write_file(id: Option<Json>, params: &Json, working_dir: &str) -> (r: ClientAction)
    ensures
        r@ == write_action(optional(id), params@, working_dir@),
{
    let path = match params.get_str("path") {
        None => {
            return refuse(id, "fs/writeTextFile missing 'path'");
        },
        Some(path) => path,
    };
    let content = match params.get_str("content") {
        None => {
            return refuse(id, "fs/writeTextFile missing 'content'");
        },
        Some(content) => content,
    };
    match resolve_components(path, working_dir) {
        Ok(components) => ClientAction::WriteFile(
            WriteTask {
                id,
                path: render_path(&components),
                parent: render_parent(&components),
                content: content.to_string(),
            },
        ),
        Err(e) => refuse(id, e.message.as_str()),
    }
}

/// The texts among a list of values.
fn strings_among(items: &Vec<Json>) -> (r: Vec<String>)
    ensures
        texts(r@) == texts_among(items_view(items@)),
{
    let ghost views = items_view(items@);
    proof {
        lemma_items_view(items@);
    }
    let mut out: Vec<String> = Vec::new();
    assert(texts(out@) =~= texts_among(views.take(0)));
    let mut i: usize = 0;
    while i < items.len()
        invariant
            views == items_view(items@),
            views.len() == items.len(),
            forall|k: int| 0 <= k < items.len() ==> #[trigger] views[k] == items@[k]@,
            i <= items.len(),
            texts(out@) == texts_among(views.take(i as int)),
        decreases items.len() - i,
    {
        assert(views.take(i + 1).drop_last() =~= views.take(i as int));
        assert(views.take(i + 1).last() == views[i as int]);
        let ghost before = texts(out@);
        match items[i].as_str() {
            Some(s) => {
                out.push(s.to_string());
                assert(texts(out@) =~= before.push(s@));
            },
            None => {},
        }
        i += 1;
    }
    assert(views.take(i as int) =~= views);
    out
}

fn create_terminal(id: Option<Json>, params: &Json, working_dir: &str) -> (r: ClientAction)
    ensures
        r@ == create_action(optional(id), params@, working_dir@),
{
    let command = str_or_empty(params, "command");
    if command.is_empty() {
        return refuse(id, "terminal/create: 'command' is required");
    }
    let args: Vec<String> = match params.get("args") {
        Some(args) => match args.as_array() {
            Some(items) => strings_among(items),
            None => Vec::new(),
        },
        None => Vec::new(),
    };
    assert(texts(args@) =~= terminal_args(params@));
    let cwd = match params.get_str("cwd") {
        Some(cwd) => match resolve_safe_path(cwd, working_dir) {
            Ok(cwd) => if cwd.as_str().is_empty() {
                working_dir.to_string()
            } else {
                cwd
            },
            Err(_) => working_dir.to_string(),
        },
        None => working_dir.to_string(),
    };
    ClientAction::Spawn(SpawnTask { id, command: command.to_string(), args, cwd })
}

fn grant_permission(id: Option<Json>, params: &Json) -> (r: ClientAction)
    ensures
        r@ == permission_action(optional(id), params@),
{
    let option = match params.get("options") {
        Some(options) => match options.as_array() {
            Some(items) => {
                proof {
                    lemma_items_view(items@);
                }
                if items.len() > 0 {
                    match items[0].get_str("id") {
                        Some(option) => option,
                        None => "allow",
                    }
                } else {
                    "allow"
                }
            },
            None => "allow",
        },
        None => "allow",
    };
    let outcome = Json::object().with("optionId", Json::text(option));
    ClientAction::Reply(respond_result(id, Json::object().with("outcome", outcome)))
}

impl AcpConnection {
    /// Decides what is to be done about a request or notification of the agent.
    ///
    /// A message without an `id` is a notification, and one without a `method` is a response
    /// that nobody waits for: nothing is sent for either. A request is always replied to, also
    /// where it is refused.
    pub fn handle_client_request(&mut self, message: &Json) -> (r: ClientAction)
        ensures
            r@ == client_action(old(self)@, message@),
            final(self)@ == after_message(old(self)@, message@),
    {
        proof {
            reveal_strlit("");
            lemma_methods_differ();
            assert(""@ =~= Seq::empty());
        }
        let method = str_or_empty(message, "method");
        assert(method@ == method_of(message@));
        let id = match message.get("id") {
            Some(id) => Some(id.clone()),
            None => None,
        };
        assert(optional(id) == message@.get("id"@));
        let params = match message.get("params") {
            Some(params) => params.clone(),
            None => Json::Null,
        };
        if same_text(method, METHOD_FS_READ) {
            read_file(id, &params, self.working_dir())
        } else if same_text(method, METHOD_FS_WRITE) {
            write_file(id, &params, self.working_dir())
        } else if same_text(method, METHOD_TERMINAL_CREATE) {
            create_terminal(id, &params, self.working_dir())
        } else if same_text(method, METHOD_TERMINAL_GET_OUTPUT) {
            let terminal = str_or_empty(&params, "terminalId");
            if self.has_terminal(terminal) {
                ClientAction::DrainOutput(TerminalTask { id, terminal: terminal.to_string() })
            } else {
                let message = concat3("terminal/getOutput: unknown terminal '", terminal, "'");
                refuse(id, message.as_str())
            }
        } else if same_text(method, METHOD_TERMINAL_KILL) {
            let terminal = str_or_empty(&params, "terminalId");
            if self.has_terminal(terminal) {
                ClientAction::Kill(TerminalTask { id, terminal: terminal.to_string() })
            } else {
                ClientAction::Reply(respond_result(id, Json::object()))
            }
        } else if same_text(method, METHOD_TERMINAL_RELEASE) {
            let terminal = str_or_empty(&params, "terminalId");
            match self.close_terminal(terminal) {
                Some(_) => ClientAction::Release(
                    TerminalTask { id, terminal: terminal.to_string() },
                ),
                None => ClientAction::Reply(respond_result(id, Json::object())),
            }
        } else if same_text(method, METHOD_REQUEST_PERMISSION) {
            grant_permission(id, &params)
        } else if message.get("method").is_none() {
            ClientAction::Reply(None)
        } else {
            let message = concat2("Method not found: ", method);
            ClientAction::Reply(respond_error(id, JSONRPC_METHOD_NOT_FOUND, message.as_str()))
        }
    }
}

} // verus!
