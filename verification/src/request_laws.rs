//! What each request of the agent comes to, read off the request and what is made of it.
//!
//! In each law `r` is what `AcpConnection::handle_client_request` makes of `message`.
use vstd::prelude::*;
use crate::client::{terminal_args, texts_among, ClientAction};
use crate::connection::AcpConnection;
use crate::json::{Json, JsonView};
use crate::json_laws::has_only;
use crate::path::{
    anchored, path_parts, rendered, resolved, resolved_parts, stays_inside, PathPart,
};
use crate::path_laws::{law_resolved_path_stays, lemma_parts_of_rendered};
use crate::rpc::optional;
use crate::rpc_laws::{
    gives_error, gives_result, lemma_error_names_differ, lemma_member_names_differ,
    lemma_methods_differ,
};

verus! {

/// The parameters of `message` are `params`; those of a message without any are null.
pub open spec fn has_params(message: JsonView, params: JsonView) -> bool {
    match message.get("params"@) {
        Some(given) => params == given,
        None => params == JsonView::Null,
    }
}

/// `r` refuses the request under `id` for its parameters, with the words `text`.
pub open spec fn refuses(r: ClientAction, id: Option<JsonView>, text: Seq<char>) -> bool {
    r matches ClientAction::Reply(reply) && gives_error(reply, id, -32602, text)
}

/// `r` refuses the request under `id` because `path` leads out of `working_dir`.
pub open spec fn refuses_path(
    r: ClientAction,
    id: Option<JsonView>,
    path: Seq<char>,
    working_dir: Seq<char>,
) -> bool {
    refuses(
        r,
        id,
        "Path '"@ + path + "' escapes the working directory (resolved to '"@ + rendered(
            resolved_parts(path, working_dir),
        ) + "')"@,
    )
}

/// A request to read a file: the file to which its path leads, where that is inside the working
/// directory, and otherwise a refusal that says where the path leads. Nothing is forgotten or
/// learned by it.
pub proof fn law_read_request(
    connection: &mut AcpConnection,
    message: &Json,
    params: JsonView,
    r: ClientAction,
)
    requires
        call_ensures(AcpConnection::handle_client_request, (connection, message), r),
        message@.get_text("method"@) == Some("fs/readTextFile"@),
        has_params(message@, params),
    ensures
        final(connection)@ == old(connection)@,
        ({
            let dir = old(connection)@.working_dir;
            let id = message@.get("id"@);
            match params.get_text("path"@) {
                Some(path) => if stays_inside(path, dir) {
                    &&& r matches ClientAction::ReadFile(task)
                    &&& optional(task.id) == id
                    &&& task.path@ == rendered(resolved_parts(path, dir))
                    &&& path_parts(task.path@) == resolved_parts(path, dir)
                } else {
                    refuses_path(r, id, path, dir)
                },
                None => refuses(r, id, "fs/readTextFile missing 'path'"@),
            }
        }),
{
    lemma_methods_differ();
    lemma_member_names_differ();
    lemma_error_names_differ();
    match params.get_text("path"@) {
        Some(path) => law_resolved_path_stays(path, old(connection)@.working_dir),
        None => {},
    }
}

/// A request to write a file: the file to which its path leads, where that is inside the working
/// directory, with the content of the request character for character, and first the directory
/// that is to hold it. Otherwise it is refused; a missing path is named before missing content.
pub proof fn law_write_request(
    connection: &mut AcpConnection,
    message: &Json,
    params: JsonView,
    r: ClientAction,
)
    requires
        call_ensures(AcpConnection::handle_client_request, (connection, message), r),
        message@.get_text("method"@) == Some("fs/writeTextFile"@),
        has_params(message@, params),
    ensures
        final(connection)@ == old(connection)@,
        ({
            let dir = old(connection)@.working_dir;
            let id = message@.get("id"@);
            match (params.get_text("path"@), params.get_text("content"@)) {
                (Some(path), Some(content)) => if stays_inside(path, dir) {
                    let whole = resolved_parts(path, dir);
                    &&& r matches ClientAction::WriteFile(task)
                    &&& optional(task.id) == id
                    &&& task.path@ == rendered(whole)
                    &&& path_parts(task.path@) == whole
                    &&& task.content@ == content
                    &&& (task.parent is Some <==> whole.len() > 0 && whole[whole.len() - 1] is Normal)
                    &&& task.parent matches Some(parent) ==> parent@ == rendered(
                        whole.take(whole.len() - 1),
                    )
                } else {
                    refuses_path(r, id, path, dir)
                },
                (None, _) => refuses(r, id, "fs/writeTextFile missing 'path'"@),
                (Some(_), None) => refuses(r, id, "fs/writeTextFile missing 'content'"@),
            }
        }),
{
    lemma_methods_differ();
    lemma_member_names_differ();
    lemma_error_names_differ();
    match params.get_text("path"@) {
        Some(path) => {
            let whole = resolved_parts(path, old(connection)@.working_dir);
            law_resolved_path_stays(path, old(connection)@.working_dir);
            if whole.len() > 0 {
                assert(whole.take(whole.len() - 1) =~= whole.drop_last());
            }
        },
        None => {},
    }
}

/// The texts among a list are its texts, in their order.
proof fn lemma_texts_among(items: Seq<JsonView>)
    ensures
        texts_among(items) == items.filter(|item: JsonView| item is Text).map_values(
            |item: JsonView| item->Text_0,
        ),
    decreases items.len(),
{
    let is_text = |item: JsonView| item is Text;
    let text = |item: JsonView| item->Text_0;
    reveal(Seq::filter);
    if items.len() > 0 {
        let init = items.drop_last();
        lemma_texts_among(init);
        if items.last() is Text {
            assert(items.filter(is_text) == init.filter(is_text).push(items.last()));
            assert(init.filter(is_text).push(items.last()).map_values(text) =~= init.filter(
                is_text,
            ).map_values(text).push(text(items.last())));
        }
    } else {
        assert(items.filter(is_text).map_values(text) =~= Seq::empty());
    }
}

/// A request for a terminal: the program that it names is run, with the texts among its arguments
/// in their order, where the directory that it asks for leads. Without such a directory, or with
/// one that is not inside, the program is run in the working directory; without a program the
/// request is refused.
pub proof fn law_create_request(
    connection: &mut AcpConnection,
    message: &Json,
    params: JsonView,
    r: ClientAction,
)
    requires
        call_ensures(AcpConnection::handle_client_request, (connection, message), r),
        message@.get_text("method"@) == Some("terminal/create"@),
        has_params(message@, params),
    ensures
        final(connection)@ == old(connection)@,
        ({
            let dir = old(connection)@.working_dir;
            let id = message@.get("id"@);
            match params.get_text("command"@) {
                Some(command) => if command.len() > 0 {
                    &&& r matches ClientAction::Spawn(task)
                    &&& optional(task.id) == id
                    &&& task.command@ == command
                    &&& task.args@.map_values(|arg: String| arg@) == match params.get("args"@) {
                        Some(JsonView::Array(items)) => items.filter(
                            |item: JsonView| item is Text,
                        ).map_values(|item: JsonView| item->Text_0),
                        _ => Seq::empty(),
                    }
                    &&& match params.get_text("cwd"@) {
                        Some(asked) => if stays_inside(asked, dir) {
                            &&& anchored(path_parts(task.cwd@)) == resolved_parts(asked, dir)
                            &&& task.cwd@ == if resolved_parts(asked, dir).len() > 0 {
                                rendered(resolved_parts(asked, dir))
                            } else {
                                dir
                            }
                        } else {
                            task.cwd@ == dir
                        },
                        None => task.cwd@ == dir,
                    }
                } else {
                    refuses(r, id, "terminal/create: 'command' is required"@)
                },
                None => refuses(r, id, "terminal/create: 'command' is required"@),
            }
        }),
{
    lemma_methods_differ();
    lemma_member_names_differ();
    lemma_error_names_differ();
    reveal_strlit("");
    let dir = old(connection)@.working_dir;
    match params.get_text("cwd"@) {
        Some(asked) => {
            if stays_inside(asked, dir) {
                law_resolved_path_stays(asked, dir);
                let empty = Seq::<PathPart>::empty();
                lemma_parts_of_rendered(empty);
                if resolved(asked, dir).len() == 0 {
                    assert(resolved(asked, dir) =~= rendered(empty));
                    assert(resolved_parts(asked, dir) =~= empty);
                    assert(anchored(path_parts(dir)) =~= empty);
                } else if resolved_parts(asked, dir).len() == 0 {
                    assert(resolved_parts(asked, dir) =~= empty);
                }
            }
        },
        None => {},
    }
    match params.get("args"@) {
        Some(JsonView::Array(items)) => lemma_texts_among(items),
        _ => {},
    }
    if let ClientAction::Spawn(task) = r {
        assert(task.args@.map_values(|arg: String| arg@) =~= terminal_args(params));
    }
}

/// What `terminalId` names; nothing is named by the empty text.
pub open spec fn names_terminal(params: JsonView, terminal: Seq<char>) -> bool {
    match params.get("terminalId"@) {
        Some(JsonView::Text(named)) => terminal == named,
        _ => terminal == ""@,
    }
}

/// A request for output: that of the terminal which it names, if it is open, and otherwise a
/// refusal that names the terminal.
pub proof fn law_output_request(
    connection: &mut AcpConnection,
    message: &Json,
    params: JsonView,
    terminal: Seq<char>,
    r: ClientAction,
)
    requires
        call_ensures(AcpConnection::handle_client_request, (connection, message), r),
        message@.get_text("method"@) == Some("terminal/getOutput"@),
        has_params(message@, params),
        names_terminal(params, terminal),
    ensures
        final(connection)@ == old(connection)@,
        if old(connection)@.terminals.contains_key(terminal) {
            &&& r matches ClientAction::DrainOutput(task)
            &&& optional(task.id) == message@.get("id"@)
            &&& task.terminal@ == terminal
        } else {
            refuses(
                r,
                message@.get("id"@),
                "terminal/getOutput: unknown terminal '"@ + terminal + "'"@,
            )
        },
{
    lemma_methods_differ();
    lemma_member_names_differ();
    lemma_error_names_differ();
}

/// A request to kill a terminal's program: that of the terminal which it names, if it is open,
/// and otherwise an empty result. The terminal stays open, with its output.
pub proof fn law_kill_request(
    connection: &mut AcpConnection,
    message: &Json,
    params: JsonView,
    terminal: Seq<char>,
    r: ClientAction,
)
    requires
        call_ensures(AcpConnection::handle_client_request, (connection, message), r),
        message@.get_text("method"@) == Some("terminal/kill"@),
        has_params(message@, params),
        names_terminal(params, terminal),
    ensures
        final(connection)@ == old(connection)@,
        if old(connection)@.terminals.contains_key(terminal) {
            &&& r matches ClientAction::Kill(task)
            &&& optional(task.id) == message@.get("id"@)
            &&& task.terminal@ == terminal
        } else {
            &&& r matches ClientAction::Reply(reply)
            &&& gives_result(
                reply,
                message@.get("id"@),
                |result: JsonView| has_only(result, Set::empty()),
            )
        },
{
    lemma_methods_differ();
    lemma_member_names_differ();
}

/// A request to release a terminal: that which it names, if it is open, and otherwise an empty
/// result. The terminal is not open any more; the others stay as they are.
pub proof fn law_release_request(
    connection: &mut AcpConnection,
    message: &Json,
    params: JsonView,
    terminal: Seq<char>,
    r: ClientAction,
)
    requires
        call_ensures(AcpConnection::handle_client_request, (connection, message), r),
        message@.get_text("method"@) == Some("terminal/release"@),
        has_params(message@, params),
        names_terminal(params, terminal),
    ensures
        final(connection)@.next_id == old(connection)@.next_id,
        final(connection)@.working_dir == old(connection)@.working_dir,
        final(connection)@.terminals == old(connection)@.terminals.remove(terminal),
        if old(connection)@.terminals.contains_key(terminal) {
            &&& r matches ClientAction::Release(task)
            &&& optional(task.id) == message@.get("id"@)
            &&& task.terminal@ == terminal
        } else {
            &&& r matches ClientAction::Reply(reply)
            &&& gives_result(
                reply,
                message@.get("id"@),
                |result: JsonView| has_only(result, Set::empty()),
            )
        },
{
    lemma_methods_differ();
    lemma_member_names_differ();
}

/// `option` is the first of the options that `params` offers: the text under `id` in the first
/// item of `options`, however many there are, and `allow` where there is none.
pub open spec fn is_first_option(params: JsonView, option: Seq<char>) -> bool {
    match params.get("options"@) {
        Some(JsonView::Array(items)) => match items.first().get("id"@) {
            Some(JsonView::Text(first)) if items.len() > 0 => option == first,
            _ => option == "allow"@,
        },
        _ => option == "allow"@,
    }
}

/// A request for permission is granted by the first option that is offered.
pub proof fn law_permission_request(
    connection: &mut AcpConnection,
    message: &Json,
    params: JsonView,
    option: Seq<char>,
    r: ClientAction,
)
    requires
        call_ensures(AcpConnection::handle_client_request, (connection, message), r),
        message@.get_text("method"@) == Some("request/permission"@),
        has_params(message@, params),
        is_first_option(params, option),
    ensures
        final(connection)@ == old(connection)@,
        r matches ClientAction::Reply(reply) && gives_result(
            reply,
            message@.get("id"@),
            |result: JsonView|
                has_only(result, set!["outcome"@]) && match result.get("outcome"@) {
                    Some(outcome) => has_only(outcome, set!["optionId"@]) && outcome.get_text(
                        "optionId"@,
                    ) == Some(option),
                    None => false,
                },
        ),
{
    lemma_methods_differ();
    lemma_member_names_differ();
}

/// `method` is one that the client serves.
pub open spec fn is_served(method: Seq<char>) -> bool {
    ||| method == "fs/readTextFile"@
    ||| method == "fs/writeTextFile"@
    ||| method == "terminal/create"@
    ||| method == "terminal/getOutput"@
    ||| method == "terminal/kill"@
    ||| method == "terminal/release"@
    ||| method == "request/permission"@
}

/// A request of any other method is answered by an error that names the method; a message
/// without a method is not answered. Neither changes anything.
pub proof fn law_other_request(connection: &mut AcpConnection, message: &Json, r: ClientAction)
    requires
        call_ensures(AcpConnection::handle_client_request, (connection, message), r),
        message@.get_text("method"@) matches Some(method) ==> !is_served(method),
    ensures
        final(connection)@ == old(connection)@,
        r matches ClientAction::Reply(reply) && match message@.get("method"@) {
            Some(JsonView::Text(method)) => gives_error(
                reply,
                message@.get("id"@),
                -32601,
                "Method not found: "@ + method,
            ),
            Some(_) => gives_error(reply, message@.get("id"@), -32601, "Method not found: "@),
            None => reply is None,
        },
{
    lemma_methods_differ();
    lemma_member_names_differ();
    lemma_error_names_differ();
    reveal_strlit("");
    assert("Method not found: "@ + ""@ =~= "Method not found: "@);
}

} // verus!
