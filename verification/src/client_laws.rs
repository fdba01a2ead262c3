//! What holds of the agent's requests, whatever they ask.
use vstd::prelude::*;
use crate::client::{
    after_message, client_action, method_of, params_of, text_or_empty, unknown_terminal,
    ClientActionView,
};
use crate::connection::ConnectionView;
use crate::json::JsonView;
use crate::path::{
    anchored, escape_message, is_absolute, is_beneath, parent_dir, path_parts, stays_inside,
};
use crate::path_laws::{is_normal, law_resolved_path_is_inside, law_resolved_path_stays};
use crate::rpc::{
    error_message, result_message, JSONRPC_INVALID_PARAMS, METHOD_FS_READ, METHOD_FS_WRITE,
    METHOD_TERMINAL_GET_OUTPUT, METHOD_TERMINAL_KILL, METHOD_TERMINAL_RELEASE,
};
use crate::rpc_laws::{answers, law_error_answers, law_result_answers, lemma_methods_differ};
use crate::tasks::{
    after_drain, drain_reply, not_spawned_reply, read_reply, spawned_reply, with_terminal,
    write_reply, WriteOutcome,
};

verus! {

/// The id under which a message is to be answered: a request has a method and an id.
pub open spec fn owed_id(message: JsonView) -> Option<JsonView> {
    if message.get("method"@) is Some {
        message.get("id"@)
    } else {
        None
    }
}

/// `action` owes an answer under `id`: it is the answer, or a task that is to be answered so.
pub open spec fn owes(action: ClientActionView, id: Option<JsonView>) -> bool {
    match action {
        ClientActionView::Reply(reply) => answers(reply, id),
        ClientActionView::ReadFile { id: task_id, .. } => task_id == id,
        ClientActionView::WriteFile { id: task_id, .. } => task_id == id,
        ClientActionView::Spawn { id: task_id, .. } => task_id == id,
        ClientActionView::DrainOutput { id: task_id, .. } => task_id == id,
        ClientActionView::Kill { id: task_id, .. } => task_id == id,
        ClientActionView::Release { id: task_id, .. } => task_id == id,
    }
}

/// Every request is answered, also one that is refused, and nothing else is: a message with a
/// method and an id is answered at once under that id or becomes a task that is to be answered
/// under it, and for a message without either nothing is ever sent.
pub proof fn law_requests_are_answered(connection: ConnectionView, message: JsonView)
    ensures
        owes(client_action(connection, message), owed_id(message)),
{
    let id = message.get("id"@);
    let params = params_of(message);
    assert forall|result: JsonView| answers(#[trigger] result_message(id, result), id) by {
        law_result_answers(id, result);
    }
    assert forall|code: i64, text: Seq<char>| answers(
        #[trigger] error_message(id, code, text),
        id,
    ) by {
        law_error_answers(id, code, text);
    }
    if message.get("method"@) is None {
        assert(method_of(message) == ""@);
        lemma_methods_differ();
    }
}

/// However a task ends, it is answered under its id.
pub proof fn law_tasks_are_answered(
    connection: ConnectionView,
    id: Option<JsonView>,
    name: Seq<char>,
    outcome: Result<Seq<char>, Seq<char>>,
    error: Seq<char>,
    written: WriteOutcome,
    bytes: Seq<u8>,
    exit_code: Option<i32>,
)
    ensures
        answers(read_reply(id, name, outcome), id),
        answers(write_reply(id, name, written), id),
        answers(spawned_reply(id, name), id),
        answers(not_spawned_reply(id, name, error), id),
        answers(drain_reply(connection, id, name, bytes, exit_code), id),
        answers(result_message(id, JsonView::empty_object()), id),
{
    assert forall|result: JsonView| answers(#[trigger] result_message(id, result), id) by {
        law_result_answers(id, result);
    }
    assert forall|code: i64, text: Seq<char>| answers(
        #[trigger] error_message(id, code, text),
        id,
    ) by {
        law_error_answers(id, code, text);
    }
}

/// A request to read or write a file outside the working directory touches no file, and is
/// answered with an error that names the path.
pub proof fn law_escaping_path_is_refused(
    connection: ConnectionView,
    message: JsonView,
    path: Seq<char>,
    content: Seq<char>,
)
    requires
        method_of(message) == METHOD_FS_READ@ || (method_of(message) == METHOD_FS_WRITE@
            && params_of(message).get_text("content"@) == Some(content)),
        params_of(message).get_text("path"@) == Some(path),
        !stays_inside(path, connection.working_dir),
    ensures
        client_action(connection, message) == ClientActionView::Reply(
            error_message(
                message.get("id"@),
                JSONRPC_INVALID_PARAMS,
                escape_message(path, connection.working_dir),
            ),
        ),
{
    lemma_methods_differ();
}

/// No file outside the working directory is read or written: the components of the file's path
/// are those to which the working directory leads, with nothing but names behind them. From an
/// absolute working directory there is no `..` among them at all.
pub proof fn law_files_are_inside(connection: ConnectionView, message: JsonView)
    ensures
        client_action(connection, message) matches ClientActionView::ReadFile { path, .. } ==> {
            &&& is_beneath(path_parts(path), anchored(path_parts(connection.working_dir)))
            &&& is_absolute(connection.working_dir) ==> is_normal(path_parts(path))
        },
        client_action(connection, message) matches ClientActionView::WriteFile {
            path,
            parent,
            ..
        } ==> {
            &&& is_beneath(path_parts(path), anchored(path_parts(connection.working_dir)))
            &&& is_absolute(connection.working_dir) ==> is_normal(path_parts(path))
            &&& parent == parent_dir(path_parts(path))
        },
{
    match params_of(message).get_text("path"@) {
        Some(path) => {
            if stays_inside(path, connection.working_dir) {
                law_resolved_path_is_inside(path, connection.working_dir);
                law_resolved_path_stays(path, connection.working_dir);
            }
        },
        None => {},
    }
}

/// A terminal starts where the working directory leads, or beneath it.
pub proof fn law_terminals_start_inside(connection: ConnectionView, message: JsonView)
    ensures
        client_action(connection, message) matches ClientActionView::Spawn { cwd, .. }
            ==> is_beneath(
            anchored(path_parts(cwd)),
            anchored(path_parts(connection.working_dir)),
        ),
{
    let dir = connection.working_dir;
    let base = anchored(path_parts(dir));
    assert(base =~= base.subrange(0, base.len() as int));
    match params_of(message).get_text("cwd"@) {
        Some(cwd) => {
            if stays_inside(cwd, dir) {
                law_resolved_path_is_inside(cwd, dir);
                law_resolved_path_stays(cwd, dir);
            }
        },
        None => {},
    }
}

/// `message` calls `method` on the terminal `terminal`.
pub open spec fn calls_on(message: JsonView, method: Seq<char>, terminal: Seq<char>) -> bool {
    method_of(message) == method && text_or_empty(params_of(message), "terminalId"@) == terminal
}

/// The life of a terminal: once opened it can be asked for its output, which comes in full and
/// in the order in which it was put out; killing its program leaves it known, and its output too;
/// and once released it is not known any more.
pub proof fn law_life_of_a_terminal(
    connection: ConnectionView,
    terminal: Seq<char>,
    first: Seq<u8>,
    second: Seq<u8>,
    ask: JsonView,
    kill: JsonView,
    release: JsonView,
)
    requires
        calls_on(ask, METHOD_TERMINAL_GET_OUTPUT@, terminal),
        calls_on(kill, METHOD_TERMINAL_KILL@, terminal),
        calls_on(release, METHOD_TERMINAL_RELEASE@, terminal),
    ensures
        ({
            let opened = with_terminal(connection, terminal);
            let asked = after_drain(after_drain(opened, terminal, first), terminal, second);
            let gone = after_message(asked, release);
            &&& client_action(opened, ask) == ClientActionView::DrainOutput {
                id: ask.get("id"@),
                terminal,
            }
            &&& asked.terminals[terminal] == first + second
            &&& client_action(asked, kill) == ClientActionView::Kill {
                id: kill.get("id"@),
                terminal,
            }
            &&& after_message(asked, kill) == asked
            &&& client_action(asked, release) == ClientActionView::Release {
                id: release.get("id"@),
                terminal,
            }
            &&& !gone.terminals.contains_key(terminal)
            &&& client_action(gone, ask) == ClientActionView::Reply(
                error_message(
                    ask.get("id"@),
                    JSONRPC_INVALID_PARAMS,
                    unknown_terminal(terminal),
                ),
            )
        }),
{
    lemma_methods_differ();
    assert(Seq::<u8>::empty() + first + second =~= first + second);
}

/// What is done with one terminal leaves the others as they are.
pub proof fn law_terminals_are_separate(
    connection: ConnectionView,
    terminal: Seq<char>,
    other: Seq<char>,
    bytes: Seq<u8>,
    release: JsonView,
)
    requires
        terminal != other,
        calls_on(release, METHOD_TERMINAL_RELEASE@, terminal),
    ensures
        ({
            let same = |after: ConnectionView|
                {
                    &&& after.terminals.contains_key(other)
                        == connection.terminals.contains_key(other)
                    &&& connection.terminals.contains_key(other) ==> after.terminals[other]
                        == connection.terminals[other]
                };
            &&& same(with_terminal(connection, terminal))
            &&& same(after_drain(connection, terminal, bytes))
            &&& same(after_message(connection, release))
        }),
{
}

/// To kill or release a terminal that is not known is no error.
pub proof fn law_unknown_terminal_can_be_ended(
    connection: ConnectionView,
    terminal: Seq<char>,
    message: JsonView,
)
    requires
        calls_on(message, METHOD_TERMINAL_KILL@, terminal) || calls_on(
            message,
            METHOD_TERMINAL_RELEASE@,
            terminal,
        ),
        !connection.terminals.contains_key(terminal),
    ensures
        client_action(connection, message) == ClientActionView::Reply(
            result_message(message.get("id"@), JsonView::empty_object()),
        ),
{
    lemma_methods_differ();
}

} // verus!
