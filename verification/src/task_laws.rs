//! What each task is answered with, read off the task, its outcome and the reply.
//!
//! In each law `r` is what the function that it speaks of returns.
use vstd::prelude::*;
use vstd::utf8::{decode_utf8, valid_utf8};
use crate::client::{
    ClientAction, ClientActionView, ReadTask, SpawnTask, TerminalTask, WriteTask,
};
use crate::connection::AcpConnection;
use crate::json::{Json, JsonView};
use crate::json_laws::has_only;
use crate::rpc::optional;
use crate::rpc_laws::{
    gives_error, gives_result, lemma_error_names_differ, lemma_member_names_differ,
};
use crate::tasks::{lossy_text, respond_output, WriteOutcome};

verus! {

/// An action stands for what it asks to be done.
pub proof fn law_actions_are_what_they_ask(
    reply: Option<Json>,
    read: ReadTask,
    write: WriteTask,
    spawn: SpawnTask,
    task: TerminalTask,
)
    ensures
        ClientAction::Reply(reply)@ == ClientActionView::Reply(optional(reply)),
        ClientAction::ReadFile(read)@ matches ClientActionView::ReadFile { id, path } && id
            == optional(read.id) && path == read.path@,
        ClientAction::WriteFile(write)@ matches ClientActionView::WriteFile {
            id,
            path,
            parent,
            content,
        } && id == optional(write.id) && path == write.path@ && content == write.content@ && (
        match write.parent {
            Some(dir) => parent == Some(dir@),
            None => parent is None,
        }),
        ClientAction::Spawn(spawn)@ matches ClientActionView::Spawn { id, command, args, cwd } && id
            == optional(spawn.id) && command == spawn.command@ && cwd == spawn.cwd@ && args.len()
            == spawn.args@.len() && (forall|i: int|
            0 <= i < args.len() ==> #[trigger] args[i] == spawn.args@[i]@),
        ClientAction::DrainOutput(task)@ matches ClientActionView::DrainOutput { id, terminal }
            && id == optional(task.id) && terminal == task.terminal@,
        ClientAction::Kill(task)@ matches ClientActionView::Kill { id, terminal } && id == optional(
            task.id,
        ) && terminal == task.terminal@,
        ClientAction::Release(task)@ matches ClientActionView::Release { id, terminal } && id
            == optional(task.id) && terminal == task.terminal@,
{
}

/// A file that was read is handed over character for character; one that was not is named, with
/// the reason.
pub proof fn law_read_file_is_handed_over(
    task: ReadTask,
    outcome: Result<String, String>,
    r: Option<Json>,
)
    requires
        call_ensures(ReadTask::finish, (task, outcome), r),
    ensures
        match outcome {
            Ok(content) => gives_result(
                r,
                optional(task.id),
                |result: JsonView|
                    has_only(result, set!["content"@]) && result.get_text("content"@) == Some(
                        content@,
                    ),
            ),
            Err(e) => gives_error(
                r,
                optional(task.id),
                -32602,
                "Cannot read '"@ + task.path@ + "': "@ + e@,
            ),
        },
{
    lemma_member_names_differ();
    lemma_error_names_differ();
}

/// A file that was written is answered by an empty result; one that was not is named, with what
/// went wrong and why.
pub proof fn law_written_file_is_acknowledged(
    task: WriteTask,
    outcome: WriteOutcome,
    r: Option<Json>,
)
    requires
        call_ensures(WriteTask::finish, (task, outcome), r),
    ensures
        match outcome {
            WriteOutcome::Written => gives_result(
                r,
                optional(task.id),
                |result: JsonView| has_only(result, Set::empty()),
            ),
            WriteOutcome::NoDirectory(e) => gives_error(
                r,
                optional(task.id),
                -32602,
                "Cannot create directories for '"@ + task.path@ + "': "@ + e@,
            ),
            WriteOutcome::NotWritten(e) => gives_error(
                r,
                optional(task.id),
                -32602,
                "Cannot write '"@ + task.path@ + "': "@ + e@,
            ),
        },
{
    lemma_member_names_differ();
    lemma_error_names_differ();
}

/// A program that runs is answered by the name of its terminal, which is open from then on and
/// has put out nothing; the other terminals stay as they are.
pub proof fn law_terminal_is_opened_under_its_name(
    task: SpawnTask,
    connection: &mut AcpConnection,
    terminal: &str,
    r: Option<Json>,
)
    requires
        call_ensures(SpawnTask::started_as, (task, connection, terminal), r),
    ensures
        gives_result(
            r,
            optional(task.id),
            |result: JsonView|
                has_only(result, set!["terminalId"@]) && result.get_text("terminalId"@) == Some(
                    terminal@,
                ),
        ),
        final(connection)@.next_id == old(connection)@.next_id,
        final(connection)@.working_dir == old(connection)@.working_dir,
        final(connection)@.terminals == old(connection)@.terminals.insert(
            terminal@,
            Seq::<u8>::empty(),
        ),
{
    lemma_member_names_differ();
}

/// The name under which a terminal is opened by itself is the one that is handed over, and is
/// open from then on.
pub proof fn law_terminal_is_opened_under_a_fresh_name(
    task: SpawnTask,
    connection: &mut AcpConnection,
    r: (String, Option<Json>),
)
    requires
        call_ensures(SpawnTask::started, (task, connection), r),
    ensures
        r.0@.len() == 36,
        forall|i: int|
            0 <= i < 36 ==> match #[trigger] r.0@[i] {
                '0' | '1' | '2' | '3' | '4' | '5' | '6' | '7' | '8' | '9' => true,
                'a' | 'b' | 'c' | 'd' | 'e' | 'f' => true,
                c => c == '-' && (i == 8 || i == 13 || i == 18 || i == 23),
            },
        r.0@[8] == '-' && r.0@[13] == '-' && r.0@[18] == '-' && r.0@[23] == '-',
        r.0@[14] == '4',
        r.0@[19] == '8' || r.0@[19] == '9' || r.0@[19] == 'a' || r.0@[19] == 'b',
        gives_result(
            r.1,
            optional(task.id),
            |result: JsonView|
                has_only(result, set!["terminalId"@]) && result.get_text("terminalId"@) == Some(
                    r.0@,
                ),
        ),
        final(connection)@.next_id == old(connection)@.next_id,
        final(connection)@.working_dir == old(connection)@.working_dir,
        final(connection)@.terminals == old(connection)@.terminals.insert(
            r.0@,
            Seq::<u8>::empty(),
        ),
{
    lemma_member_names_differ();
}

/// A program that could not be started is named, with the reason.
pub proof fn law_failed_program_is_named(task: SpawnTask, error: &str, r: Option<Json>)
    requires
        call_ensures(SpawnTask::failed, (task, error), r),
    ensures
        gives_error(
            r,
            optional(task.id),
            -32602,
            "terminal/create: failed to spawn '"@ + task.command@ + "': "@ + error@,
        ),
{
    lemma_member_names_differ();
    lemma_error_names_differ();
}

/// `result` holds the output `output` and the exit code `exit_code`, the very number, or null
/// where there is none.
pub open spec fn reports(result: JsonView, output: Seq<char>, exit_code: Option<i32>) -> bool {
    &&& has_only(result, set!["output"@, "exitCode"@])
    &&& result.get_text("output"@) == Some(output)
    &&& match result.get("exitCode"@) {
        Some(JsonView::Integer(n)) => exit_code matches Some(code) && n == code as int,
        Some(JsonView::Null) => exit_code is None,
        _ => false,
    }
}

proof fn lemma_report_names_differ()
    ensures
        "output"@ != "exitCode"@,
{
    reveal_strlit("output");
    reveal_strlit("exitCode");
    assert("output"@[0] == 'o');
    assert("exitCode"@[0] == 'e');
}

/// Output is reported as it is, and so is the exit code.
pub proof fn law_output_is_reported(
    id: Option<Json>,
    output: String,
    exit_code: Option<i32>,
    r: Option<Json>,
)
    requires
        call_ensures(respond_output, (id, output, exit_code), r),
    ensures
        gives_result(r, optional(id), |result: JsonView| reports(result, output@, exit_code)),
{
    lemma_member_names_differ();
    lemma_report_names_differ();
}

/// A terminal that is asked for its output reports all of it, what came before and then what is
/// new, and the exit code of its program; it keeps all of it, and the other terminals stay as
/// they are. A terminal that is not open is refused by its name.
pub proof fn law_all_output_is_reported(
    task: TerminalTask,
    connection: &mut AcpConnection,
    bytes: &Vec<u8>,
    exit_code: Option<i32>,
    r: Option<Json>,
)
    requires
        call_ensures(TerminalTask::drained, (task, connection, bytes, exit_code), r),
    ensures
        final(connection)@.next_id == old(connection)@.next_id,
        final(connection)@.working_dir == old(connection)@.working_dir,
        old(connection)@.terminals.contains_key(task.terminal@) ==> {
            let all = old(connection)@.terminals[task.terminal@] + bytes@;
            &&& final(connection)@.terminals == old(connection)@.terminals.insert(
                task.terminal@,
                all,
            )
            &&& gives_result(
                r,
                optional(task.id),
                |result: JsonView| reports(result, lossy_text(all), exit_code),
            )
            &&& valid_utf8(all) ==> gives_result(
                r,
                optional(task.id),
                |result: JsonView| reports(result, decode_utf8(all), exit_code),
            )
        },
        !old(connection)@.terminals.contains_key(task.terminal@) ==> {
            &&& final(connection)@ == old(connection)@
            &&& gives_error(
                r,
                optional(task.id),
                -32602,
                "terminal/getOutput: unknown terminal '"@ + task.terminal@ + "'"@,
            )
        },
{
    lemma_member_names_differ();
    lemma_error_names_differ();
    lemma_report_names_differ();
}

/// Killing and releasing are answered by an empty result.
pub proof fn law_end_is_acknowledged(task: TerminalTask, r: Option<Json>)
    requires
        call_ensures(TerminalTask::done, (task,), r),
    ensures
        gives_result(r, optional(task.id), |result: JsonView| has_only(result, Set::empty())),
{
    lemma_member_names_differ();
}

} // verus!
