//! From the outcome of a task to the reply.
use vstd::prelude::*;
use vstd::utf8::{decode_utf8, valid_utf8};
use crate::client::{unknown_terminal, ReadTask, SpawnTask, TerminalTask, WriteTask};
use crate::connection::{AcpConnection, ConnectionView};
use crate::json::{Json, JsonView};
use crate::rpc::{
    error_message, optional, respond_error, respond_result, result_message, JSONRPC_INVALID_PARAMS,
};
use crate::text::{concat3, concat4};

verus! {

/// The reply of a file that was to be read.
pub open spec fn read_reply(
    id: Option<JsonView>,
    path: Seq<char>,
    outcome: Result<Seq<char>, Seq<char>>,
) -> Option<JsonView> {
    match outcome {
        Ok(content) => result_message(
            id,
            JsonView::empty_object().with("content"@, JsonView::Text(content)),
        ),
        Err(e) => error_message(
            id,
            JSONRPC_INVALID_PARAMS,
            "Cannot read '"@ + path + "': "@ + e,
        ),
    }
}

impl ReadTask {
    /// The reply, from the content of the file or the reason why there is none.
    pub fn finish(self, outcome: Result<String, String>) -> (r: Option<Json>)
        ensures
            optional(r) == read_reply(
                optional(self.id),
                self.path@,
                match outcome {
                    Ok(content) => Ok(content@),
                    Err(e) => Err(e@),
                },
            ),
    {
        match outcome {
            Ok(content) => respond_result(
                self.id,
                Json::object().with("content", Json::Text(content)),
            ),
            Err(e) => {
                let message = concat4("Cannot read '", self.path.as_str(), "': ", e.as_str());
                respond_error(self.id, JSONRPC_INVALID_PARAMS, message.as_str())
            },
        }
    }
}

/// How writing a file went.
#[derive(Debug)]
pub enum WriteOutcome {
    /// The directory for the file could not be made.
    NoDirectory(String),
    /// The file could not be written.
    NotWritten(String),
    /// The file is written.
    Written,
}

/// The reply of a file that was to be written.
pub open spec fn write_reply(
    id: Option<JsonView>,
    path: Seq<char>,
    outcome: WriteOutcome,
) -> Option<JsonView> {
    match outcome {
        WriteOutcome::NoDirectory(e) => error_message(
            id,
            JSONRPC_INVALID_PARAMS,
            "Cannot create directories for '"@ + path + "': "@ + e@,
        ),
        WriteOutcome::NotWritten(e) => error_message(
            id,
            JSONRPC_INVALID_PARAMS,
            "Cannot write '"@ + path + "': "@ + e@,
        ),
        WriteOutcome::Written => result_message(id, JsonView::empty_object()),
    }
}

impl WriteTask {
    /// The reply, from how the writing went.
    pub fn finish(self, outcome: WriteOutcome) -> (r: Option<Json>)
        ensures
            optional(r) == write_reply(optional(self.id), self.path@, outcome),
    {
        match outcome {
            WriteOutcome::NoDirectory(e) => {
                let message = concat4(
                    "Cannot create directories for '",
                    self.path.as_str(),
                    "': ",
                    e.as_str(),
                );
                respond_error(self.id, JSONRPC_INVALID_PARAMS, message.as_str())
            },
            WriteOutcome::NotWritten(e) => {
                let message = concat4("Cannot write '", self.path.as_str(), "': ", e.as_str());
                respond_error(self.id, JSONRPC_INVALID_PARAMS, message.as_str())
            },
            WriteOutcome::Written => respond_result(self.id, Json::object()),
        }
    }
}

/// A digit of a hexadecimal number, in lower case.
pub open spec fn is_hex_digit(c: char) -> bool {
    '0' <= c <= '9' || 'a' <= c <= 'f'
}

/// The text of a random UUID: 32 hexadecimal digits in groups of 8, 4, 4, 4 and 12, the third
/// group opening with the version and the fourth with the variant.
pub open spec fn is_random_uuid(s: Seq<char>) -> bool {
    &&& s.len() == 36
    &&& forall|i: int|
        0 <= i < 36 ==> if i == 8 || i == 13 || i == 18 || i == 23 {
            #[trigger] s[i] == '-'
        } else {
            is_hex_digit(s[i])
        }
    &&& s[14] == '4'
    &&& s[19] == '8' || s[19] == '9' || s[19] == 'a' || s[19] == 'b'
}

/// A fresh identifier, by `uuid::Uuid::new_v4` and its `Display`.
///
/// Believed: the text has the form of a random UUID. Which one it is depends on chance, and
/// that it differs from earlier ones is only very likely.
#[verifier::external_body]
fn new_terminal_id() -> (r: String)
    ensures
        is_random_uuid(r@),
{
    uuid::Uuid::new_v4().to_string()
}

/// The reply of a terminal that was opened.
pub open spec fn spawned_reply(id: Option<JsonView>, terminal: Seq<char>) -> Option<JsonView> {
    result_message(
        id,
        JsonView::empty_object().with("terminalId"@, JsonView::Text(terminal)),
    )
}

/// The reply of a terminal whose program could not be started.
pub open spec fn not_spawned_reply(
    id: Option<JsonView>,
    command: Seq<char>,
    error: Seq<char>,
) -> Option<JsonView> {
    error_message(
        id,
        JSONRPC_INVALID_PARAMS,
        "terminal/create: failed to spawn '"@ + command + "': "@ + error,
    )
}

/// The connection with the terminal `terminal` opened, and nothing put out in it yet.
pub open spec fn with_terminal(connection: ConnectionView, terminal: Seq<char>) -> ConnectionView {
    ConnectionView {
        terminals: connection.terminals.insert(terminal, Seq::empty()),
        ..connection
    }
}

impl SpawnTask {
    /// The reply where the program runs, under a fresh identifier, which is also returned.
    pub fn started(self, connection: &mut AcpConnection) -> (r: (String, Option<Json>))
        ensures
            is_random_uuid(r.0@),
            optional(r.1) == spawned_reply(optional(self.id), r.0@),
            final(connection)@ == with_terminal(old(connection)@, r.0@),
    {
        let terminal = new_terminal_id();
        let reply = self.started_as(connection, terminal.as_str());
        (terminal, reply)
    }

    /// The reply where the program runs in the terminal `terminal`.
    pub fn started_as(self, connection: &mut AcpConnection, terminal: &str) -> (r: Option<Json>)
        ensures
            optional(r) == spawned_reply(optional(self.id), terminal@),
            final(connection)@ == with_terminal(old(connection)@, terminal@),
    {
        connection.open_terminal(terminal, Vec::new());
        respond_result(self.id, Json::object().with("terminalId", Json::text(terminal)))
    }

    /// The reply where the program could not be started.
    pub fn failed(self, error: &str) -> (r: Option<Json>)
        ensures
            optional(r) == not_spawned_reply(optional(self.id), self.command@, error@),
    {
        let message = concat4(
            "terminal/create: failed to spawn '",
            self.command.as_str(),
            "': ",
            error,
        );
        respond_error(self.id, JSONRPC_INVALID_PARAMS, message.as_str())
    }
}

/// What `String::from_utf8_lossy` makes of bytes.
pub uninterp spec fn lossy_text(bytes: Seq<u8>) -> Seq<char>;

/// Reads bytes as UTF-8 by `String::from_utf8_lossy`, which puts a replacement character where
/// they are not.
///
/// Believed: the text is determined by the bytes, and is the one that they encode where they
/// are valid UTF-8.
#[verifier::external_body]
fn text_of_bytes(bytes: &Vec<u8>) -> (r: String)
    ensures
        r@ == lossy_text(bytes@),
        valid_utf8(bytes@) ==> r@ == decode_utf8(bytes@),
{
    String::from_utf8_lossy(bytes).into_owned()
}

/// The exit code of a program as JSON, where it has one.
pub open spec fn exit_code_json(exit_code: Option<i32>) -> JsonView {
    match exit_code {
        Some(code) => JsonView::Integer(code as int),
        None => JsonView::Null,
    }
}

/// The reply with the output of a terminal.
pub open spec fn output_reply(
    id: Option<JsonView>,
    output: Seq<char>,
    exit_code: Option<i32>,
) -> Option<JsonView> {
    result_message(
        id,
        JsonView::empty_object().with("output"@, JsonView::Text(output)).with(
            "exitCode"@,
            exit_code_json(exit_code),
        ),
    )
}

/// The connection with `bytes` behind the output of the terminal `terminal`, where it is open.
pub open spec fn after_drain(
    connection: ConnectionView,
    terminal: Seq<char>,
    bytes: Seq<u8>,
) -> ConnectionView {
    if connection.terminals.contains_key(terminal) {
        ConnectionView {
            terminals: connection.terminals.insert(
                terminal,
                connection.terminals[terminal] + bytes,
            ),
            ..connection
        }
    } else {
        connection
    }
}

/// The reply with all the output of the terminal `terminal`, of which `bytes` is new.
pub open spec fn drain_reply(
    connection: ConnectionView,
    id: Option<JsonView>,
    terminal: Seq<char>,
    bytes: Seq<u8>,
    exit_code: Option<i32>,
) -> Option<JsonView> {
    if connection.terminals.contains_key(terminal) {
        output_reply(id, lossy_text(connection.terminals[terminal] + bytes), exit_code)
    } else {
        error_message(id, JSONRPC_INVALID_PARAMS, unknown_terminal(terminal))
    }
}

/// The reply with the output of a terminal, and with the exit code of its program, where it has
/// one.
pub fn respond_output(id: Option<Json>, output: String, exit_code: Option<i32>) -> (r: Option<
    Json,
>)
    ensures
        optional(r) == output_reply(optional(id), output@, exit_code),
{
    let code = match exit_code {
        Some(code) => Json::Signed(code as i64),
        None => Json::Null,
    };
    respond_result(id, Json::object().with("output", Json::Text(output)).with("exitCode", code))
}

impl TerminalTask {
    /// The reply with all the output of the terminal, of which `bytes` has come in since it was
    /// last asked for, and with the exit code of the program, where it has one.
    pub fn drained(
        self,
        connection: &mut AcpConnection,
        bytes: &Vec<u8>,
        exit_code: Option<i32>,
    ) -> (r: Option<Json>)
        ensures
            final(connection)@ == after_drain(old(connection)@, self.terminal@, bytes@),
            optional(r) == drain_reply(
                old(connection)@,
                optional(self.id),
                self.terminal@,
                bytes@,
                exit_code,
            ),
            ({
                let all = old(connection)@.terminals[self.terminal@] + bytes@;
                old(connection)@.terminals.contains_key(self.terminal@) && valid_utf8(all)
                    ==> optional(r) == output_reply(optional(self.id), decode_utf8(all), exit_code)
            }),
    {
        match connection.close_terminal(self.terminal.as_str()) {
            Some(earlier) => {
                let mut output = earlier;
                let ghost before = output@;
                let mut i: usize = 0;
                while i < bytes.len()
                    invariant
                        i <= bytes.len(),
                        output@ == before + bytes@.take(i as int),
                    decreases bytes.len() - i,
                {
                    output.push(bytes[i]);
                    assert(bytes@.take(i + 1) =~= bytes@.take(i as int).push(bytes@[i as int]));
                    i += 1;
                }
                assert(bytes@.take(i as int) =~= bytes@);
                let text = text_of_bytes(&output);
                connection.open_terminal(self.terminal.as_str(), output);
                assert(connection@.terminals =~= after_drain(
                    old(connection)@,
                    self.terminal@,
                    bytes@,
                ).terminals);
                respond_output(self.id, text, exit_code)
            },
            None => {
                assert(connection@.terminals =~= old(connection)@.terminals);
                let message = concat3(
                    "terminal/getOutput: unknown terminal '",
                    self.terminal.as_str(),
                    "'",
                );
                respond_error(self.id, JSONRPC_INVALID_PARAMS, message.as_str())
            },
        }
    }

    /// The reply once the program is killed, or the terminal released.
    pub fn done(self) -> (r: Option<Json>)
        ensures
            optional(r) == result_message(optional(self.id), JsonView::empty_object()),
    {
        respond_result(self.id, Json::object())
    }
}

} // verus!
