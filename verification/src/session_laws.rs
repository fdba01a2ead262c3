//! What holds of sessions, whatever the agent sends.
use vstd::prelude::*;
use crate::client::{client_action, ClientAction, SpawnTask, TerminalTask};
use crate::codec::text_of_json;
use crate::connection::{AcpConnection, ConnectionView};
use crate::error::AcpError;
use crate::json::{Json, JsonView};
use crate::json_laws::has_only;
use crate::rpc::{
    is_response, notification_message, optional, read_message, request_message, result_message,
    METHOD_INITIALIZE, METHOD_SESSION_CANCEL, METHOD_SESSION_NEW, METHOD_SESSION_PROMPT,
};
use crate::rpc_laws::{
    is_call, is_notification, law_call_gets_its_result, lemma_member_names_differ,
};
use crate::session::{
    cancel_params, cancel_step, decoded_step, line_step, message_step, new_session_params,
    prompt_params, AcpSession, NewSessionResponseShim, SessionStep, SessionStepView, SessionView,
    StageView,
};

verus! {

/// The response with `result` to the call `id`.
pub open spec fn response(id: u64, result: JsonView) -> JsonView {
    result_message(Some(JsonView::Integer(id as int)), result)->Some_0
}

/// A session that begins.
pub open spec fn opened(prompt: Seq<char>, working_dir: Seq<char>) -> SessionView {
    SessionView {
        connection: ConnectionView { next_id: 2, working_dir, terminals: Map::empty() },
        prompt,
        stage: StageView::Initializing,
    }
}

/// With an agent that answers each call, a session initialises, makes a session in the working
/// directory, prompts in the session that it was given, and comes to its end.
pub proof fn law_session_runs_its_course(
    prompt: Seq<char>,
    working_dir: Seq<char>,
    initialized: JsonView,
    created: JsonView,
    session_id: Seq<char>,
    stopped: JsonView,
)
    ensures
        ({
            let (step1, creating) = message_step(
                opened(prompt, working_dir),
                response(1, initialized),
            );
            let (step2, decoding) = message_step(creating, response(2, created));
            let (step3, prompting) = decoded_step(decoding, Ok(session_id));
            let (step4, over) = message_step(prompting, response(3, stopped));
            &&& step1 == SessionStepView::Send(
                request_message(2, METHOD_SESSION_NEW@, new_session_params(working_dir)),
            )
            &&& step2 == SessionStepView::Decode(created)
            &&& step3 == SessionStepView::Send(
                request_message(3, METHOD_SESSION_PROMPT@, prompt_params(session_id, prompt)),
            )
            &&& step4 == SessionStepView::Finished
            &&& over.stage == StageView::Over
        }),
{
    law_call_gets_its_result(1, METHOD_INITIALIZE@, initialized);
    law_call_gets_its_result(2, METHOD_SESSION_NEW@, created);
    law_call_gets_its_result(3, METHOD_SESSION_PROMPT@, stopped);
}

/// Whatever the agent sends besides the awaited response is served as a request or notification
/// and leaves the session where it is, waiting for the same response.
pub proof fn law_other_messages_are_served(session: SessionView, message: JsonView)
    requires
        session.listens(),
        !is_response((session.connection.next_id - 1) as u64, message),
    ensures
        message_step(session, message).0 == SessionStepView::Serve(
            client_action(session.connection, message),
        ),
        message_step(session, message).1.stage == session.stage,
        message_step(session, message).1.prompt == session.prompt,
        message_step(session, message).1.connection.next_id == session.connection.next_id,
        message_step(session, message).1.connection.working_dir == session.connection.working_dir,
{
}

/// A session at its prompt that is cancelled sends one notification with its own name, and is
/// over; before its prompt a cancellation waits.
pub proof fn law_cancellation(session: SessionView)
    ensures
        session.stage matches StageView::Prompting(session_id) ==> {
            let message = notification_message(METHOD_SESSION_CANCEL@, cancel_params(session_id));
            &&& cancel_step(session).0 == SessionStepView::Send(message)
            &&& message.get("id"@) is None
            &&& cancel_step(session).1.stage == StageView::Over
        },
        !(session.stage is Prompting) ==> cancel_step(session) == (
            SessionStepView::Wait,
            session,
        ),
{
    lemma_member_names_differ();
}

/// A session that is over stays so, and asks for nothing more.
pub proof fn law_over_is_over(
    session: SessionView,
    line: Seq<char>,
    message: JsonView,
    decoded: Result<Seq<char>, Seq<char>>,
)
    requires
        session.stage == StageView::Over,
    ensures
        line_step(session, line) == (SessionStepView::Wait, session),
        message_step(session, message) == (SessionStepView::Wait, session),
        decoded_step(session, decoded) == (SessionStepView::Wait, session),
        cancel_step(session) == (SessionStepView::Wait, session),
{
}

/// A session whose agent falls silent for good has failed.
pub proof fn law_end_of_stream_fails(session: SessionView)
    requires
        session.listens(),
    ensures
        line_step(session, Seq::empty()) == (
            SessionStepView::Failed("ACP agent stdout closed unexpectedly"@),
            session.at(StageView::Over),
        ),
{
}

/// The parameters have names of their own.
proof fn lemma_parameter_names_differ()
    ensures
        "sessionId"@ != "prompt"@,
        "type"@ != "text"@,
        "cwd"@ != "mcpServers"@,
        "readTextFile"@ != "writeTextFile"@,
        "fs"@ != "terminal"@,
        "protocolVersion"@ != "clientCapabilities"@,
        "protocolVersion"@ != "clientInfo"@,
        "clientCapabilities"@ != "clientInfo"@,
{
    reveal_strlit("sessionId");
    reveal_strlit("prompt");
    reveal_strlit("type");
    reveal_strlit("text");
    reveal_strlit("cwd");
    reveal_strlit("mcpServers");
    reveal_strlit("readTextFile");
    reveal_strlit("writeTextFile");
    reveal_strlit("fs");
    reveal_strlit("terminal");
    reveal_strlit("protocolVersion");
    reveal_strlit("clientCapabilities");
    reveal_strlit("clientInfo");
    assert("sessionId"@[0] == 's');
    assert("prompt"@[0] == 'p');
    assert("type"@[1] == 'y');
    assert("text"@[1] == 'e');
    assert("cwd"@[0] == 'c');
    assert("mcpServers"@[0] == 'm');
    assert("readTextFile"@[0] == 'r');
    assert("writeTextFile"@[0] == 'w');
    assert("fs"@[0] == 'f');
    assert("terminal"@[0] == 't');
    assert("protocolVersion"@[0] == 'p');
    assert("clientCapabilities"@.len() == 18);
    assert("clientInfo"@.len() == 10);
    assert("clientInfo"@[0] == 'c' && "clientCapabilities"@[0] == 'c');
}

/// `params` say what the client can do: read and write text files and run terminals, in the
/// first version of the protocol, under the name `warp`.
pub open spec fn introduces_client(params: JsonView) -> bool {
    &&& has_only(params, set!["protocolVersion"@, "clientCapabilities"@, "clientInfo"@])
    &&& params.get("protocolVersion"@) == Some(JsonView::Integer(1))
    &&& params.get("clientCapabilities"@) matches Some(capabilities)
    &&& has_only(capabilities, set!["fs"@, "terminal"@])
    &&& capabilities.get("terminal"@) == Some(JsonView::Bool(true))
    &&& capabilities.get("fs"@) matches Some(fs)
    &&& has_only(fs, set!["readTextFile"@, "writeTextFile"@])
    &&& fs.get("readTextFile"@) == Some(JsonView::Bool(true))
    &&& fs.get("writeTextFile"@) == Some(JsonView::Bool(true))
    &&& params.get("clientInfo"@) matches Some(info)
    &&& has_only(info, set!["name"@])
    &&& info.get_text("name"@) == Some("warp"@)
}

/// `params` ask for a session in the directory `working_dir`, without servers.
pub open spec fn asks_for_session(params: JsonView, working_dir: Seq<char>) -> bool {
    &&& has_only(params, set!["cwd"@, "mcpServers"@])
    &&& params.get_text("cwd"@) == Some(working_dir)
    &&& params.get("mcpServers"@) matches Some(servers)
    &&& servers.as_array() matches Some(list)
    &&& list.len() == 0
}

/// `params` hold the whole of `prompt` as the one block of text of the session `session_id`.
pub open spec fn holds_prompt(
    params: JsonView,
    session_id: Seq<char>,
    prompt: Seq<char>,
) -> bool {
    &&& has_only(params, set!["sessionId"@, "prompt"@])
    &&& params.get_text("sessionId"@) == Some(session_id)
    &&& params.get("prompt"@) matches Some(blocks)
    &&& blocks.as_array() matches Some(list)
    &&& list.len() == 1
    &&& has_only(list[0], set!["type"@, "text"@])
    &&& list[0].get_text("type"@) == Some("text"@)
    &&& list[0].get_text("text"@) == Some(prompt)
}

/// The session after keeps the prompt, the directory and the terminals of the one before.
pub open spec fn keeps_all_but_stage(after: SessionView, before: SessionView) -> bool {
    &&& after.prompt == before.prompt
    &&& after.connection.working_dir == before.connection.working_dir
    &&& after.connection.terminals == before.connection.terminals
}

/// The number of the call whose response a session waits for, and its method.
pub open spec fn awaits(session: SessionView, id: int, method: Seq<char>) -> bool {
    match session.stage {
        StageView::Initializing => id == 1 && method == "initialize"@,
        StageView::Creating => id == 2 && method == "session/new"@,
        StageView::Prompting(_) => id == 3 && method == "session/prompt"@,
        _ => false,
    }
}

/// A new session remembers its prompt and its directory, has no terminals, and introduces the
/// client under the first number.
pub proof fn law_session_opens(prompt: &str, working_dir: &str, r: (AcpSession, Json))
    requires
        call_ensures(AcpSession::open, (prompt, working_dir), r),
    ensures
        r.0@.wf(),
        r.0@.prompt == prompt@,
        r.0@.connection.working_dir == working_dir@,
        r.0@.connection.terminals == Map::<Seq<char>, Seq<u8>>::empty(),
        r.0@.stage is Initializing,
        is_call(r.1@, 1, "initialize"@),
        r.1@.get("params"@) matches Some(params) && introduces_client(params),
{
    lemma_member_names_differ();
    lemma_parameter_names_differ();
}

/// The result of a call leads on: after `initialize` a session is asked for in the working
/// directory, the answer to that is to be decoded as it is, and the answer to the prompt is the
/// end.
pub proof fn law_result_leads_on(
    session: &mut AcpSession,
    message: &Json,
    id: int,
    method: Seq<char>,
    result: JsonView,
    r: SessionStep,
)
    requires
        old(session)@.wf(),
        call_ensures(AcpSession::on_message, (session, message), r),
        awaits(old(session)@, id, method),
        message@.get("id"@) == Some(JsonView::Integer(id)),
        message@.get("method"@) is None,
        message@.get("error"@) is None,
        message@.get("result"@) == Some(result),
    ensures
        keeps_all_but_stage(final(session)@, old(session)@),
        old(session)@.stage is Initializing ==> {
            &&& r matches SessionStep::Send(sent)
            &&& is_call(sent@, 2, "session/new"@)
            &&& sent@.get("params"@) matches Some(params)
            &&& asks_for_session(params, old(session)@.connection.working_dir)
            &&& final(session)@.stage is Creating
        },
        old(session)@.stage is Creating ==> {
            &&& r matches SessionStep::Decode(given)
            &&& given@ == result
            &&& final(session)@.stage is Decoding
        },
        old(session)@.stage is Prompting ==> r is Finished && final(session)@.stage is Over,
{
    lemma_member_names_differ();
    lemma_parameter_names_differ();
}

/// A call that is answered by an error, or by nothing that can be used, ends the session, and the
/// failure says what was answered.
pub proof fn law_failed_call_ends_the_session(
    session: &mut AcpSession,
    message: &Json,
    id: int,
    method: Seq<char>,
    r: SessionStep,
)
    requires
        old(session)@.wf(),
        call_ensures(AcpSession::on_message, (session, message), r),
        awaits(old(session)@, id, method),
        message@.get("id"@) == Some(JsonView::Integer(id)),
        message@.get("method"@) is None,
        message@.get("error"@) is Some || message@.get("result"@) is None,
    ensures
        keeps_all_but_stage(final(session)@, old(session)@),
        final(session)@.stage is Over,
        r matches SessionStep::Failed(e) && e.message@ == match message@.get("error"@) {
            Some(error) => "ACP method '"@ + method + "' returned error: "@ + text_of_json(error),
            None => "ACP response missing `result` field"@,
        },
{
}

/// Any other message is served as the connection would serve it, and the session goes on waiting
/// for the same response.
pub proof fn law_session_serves_as_its_connection(
    session: &mut AcpSession,
    connection: &mut AcpConnection,
    message: &Json,
    id: int,
    method: Seq<char>,
    r: SessionStep,
    action: ClientAction,
)
    requires
        old(session)@.wf(),
        call_ensures(AcpSession::on_message, (session, message), r),
        call_ensures(AcpConnection::handle_client_request, (connection, message), action),
        old(connection)@ == old(session)@.connection,
        awaits(old(session)@, id, method),
        message@.get("id"@) != Some(JsonView::Integer(id)) || message@.get("method"@) is Some,
    ensures
        r matches SessionStep::Serve(served) && served@ == action@,
        final(session)@.connection == final(connection)@,
        final(session)@.prompt == old(session)@.prompt,
        final(session)@.stage == old(session)@.stage,
{
}

/// A line is taken for the message that it says, and a line that says none ends the session.
pub proof fn law_line_is_taken_for_its_message(
    session: &mut AcpSession,
    line: &str,
    r: SessionStep,
    said: Result<Json, AcpError>,
    other: &mut AcpSession,
    message: &Json,
    step: SessionStep,
)
    requires
        call_ensures(AcpSession::on_line, (session, line), r),
        call_ensures(read_message, (line,), said),
        call_ensures(AcpSession::on_message, (other, message), step),
        old(other)@ == old(session)@,
        old(session)@.stage is Initializing || old(session)@.stage is Creating
            || old(session)@.stage is Prompting,
    ensures
        said matches Ok(m) ==> (m@ == message@ ==> r@ == step@ && final(session)@ == final(other)@),
        said matches Err(e) ==> {
            &&& r matches SessionStep::Failed(failure)
            &&& failure.message@ == e.message@
            &&& final(session)@.stage is Over
            &&& keeps_all_but_stage(final(session)@, old(session)@)
        },
{
}

/// A step stands for what it asks.
pub proof fn law_steps_are_what_they_ask(message: Json, action: ClientAction, e: AcpError)
    ensures
        SessionStep::Send(message)@ == SessionStepView::Send(message@),
        SessionStep::Decode(message)@ == SessionStepView::Decode(message@),
        SessionStep::Serve(action)@ == SessionStepView::Serve(action@),
        SessionStep::Failed(e)@ == SessionStepView::Failed(e.message@),
        SessionStep::Finished@ == SessionStepView::Finished,
        SessionStep::Wait@ == SessionStepView::Wait,
{
}

/// The whole prompt goes out, in the session that the agent made for it; where the agent's answer
/// cannot be decoded, the session has failed, with the reason.
pub proof fn law_whole_prompt_goes_out(
    session: &mut AcpSession,
    decoded: Result<NewSessionResponseShim, String>,
    r: SessionStep,
)
    requires
        old(session)@.wf(),
        call_ensures(AcpSession::on_decoded, (session, decoded), r),
        old(session)@.stage is Decoding,
    ensures
        keeps_all_but_stage(final(session)@, old(session)@),
        match decoded {
            Ok(response) => {
                &&& r matches SessionStep::Send(sent)
                &&& is_call(sent@, 3, "session/prompt"@)
                &&& sent@.get("params"@) matches Some(params)
                &&& holds_prompt(params, response.session_id@, old(session)@.prompt)
                &&& final(session)@.stage == StageView::Prompting(response.session_id@)
            },
            Err(e) => {
                &&& r matches SessionStep::Failed(failure)
                &&& failure.message@ == "Failed to deserialize ACP response for session/new: "@ + e@
                &&& final(session)@.stage is Over
            },
        },
{
    lemma_member_names_differ();
    lemma_parameter_names_differ();
    reveal_strlit("Failed to deserialize ACP response for ");
    reveal_strlit("session/new");
    reveal_strlit(": ");
    reveal_strlit("Failed to deserialize ACP response for session/new: ");
    assert("Failed to deserialize ACP response for "@ + "session/new"@ + ": "@
        =~= "Failed to deserialize ACP response for session/new: "@);
}

/// From its first message to its last, a session that was opened with `prompt` sends `prompt`,
/// and nothing of it is lost on the way.
pub proof fn law_prompt_arrives(
    prompt: &str,
    working_dir: &str,
    opened: (AcpSession, Json),
    first: &mut AcpSession,
    initialized: &Json,
    step1: SessionStep,
    second: &mut AcpSession,
    created: &Json,
    step2: SessionStep,
    third: &mut AcpSession,
    response: NewSessionResponseShim,
    step3: SessionStep,
)
    requires
        call_ensures(AcpSession::open, (prompt, working_dir), opened),
        call_ensures(AcpSession::on_message, (first, initialized), step1),
        call_ensures(AcpSession::on_message, (second, created), step2),
        call_ensures(AcpSession::on_decoded, (third, Ok(response)), step3),
        *old(first) == opened.0,
        *old(second) == *final(first),
        *old(third) == *final(second),
        initialized@.get("id"@) == Some(JsonView::Integer(1)),
        initialized@.get("method"@) is None,
        initialized@.get("error"@) is None,
        initialized@.get("result"@) is Some,
        created@.get("id"@) == Some(JsonView::Integer(2)),
        created@.get("method"@) is None,
        created@.get("error"@) is None,
        created@.get("result"@) is Some,
    ensures
        step3 matches SessionStep::Send(sent) && is_call(sent@, 3, "session/prompt"@) && (
        sent@.get("params"@) matches Some(params) && holds_prompt(
            params,
            response.session_id@,
            prompt@,
        )),
{
    lemma_member_names_differ();
    lemma_parameter_names_differ();
}

/// A session that is cancelled at its prompt says so to the agent, by the name of the session,
/// and is over; elsewhere nothing happens.
pub proof fn law_cancellation_names_the_session(session: &mut AcpSession, r: SessionStep)
    requires
        call_ensures(AcpSession::cancel, (session,), r),
    ensures
        keeps_all_but_stage(final(session)@, old(session)@),
        match old(session)@.stage {
            StageView::Prompting(session_id) => {
                &&& r matches SessionStep::Send(sent)
                &&& is_notification(sent@, "session/cancel"@)
                &&& sent@.get("params"@) matches Some(params)
                &&& has_only(params, set!["sessionId"@])
                &&& params.get_text("sessionId"@) == Some(session_id)
                &&& final(session)@.stage is Over
            },
            _ => r is Wait && final(session)@ == old(session)@,
        },
{
    lemma_member_names_differ();
}

/// A session says that it is at its prompt exactly where a cancellation is sent to the agent.
pub proof fn law_cancellation_is_heeded_at_the_prompt(
    session: &mut AcpSession,
    prompting: bool,
    r: SessionStep,
)
    requires
        call_ensures(AcpSession::is_prompting, (&*old(session),), prompting),
        call_ensures(AcpSession::cancel, (session,), r),
    ensures
        prompting <==> r is Send,
        !prompting <==> r is Wait,
{
}

/// What comes when it is not waited for is passed over: a line or a message where no response is
/// awaited, and a decoded answer where none is to be decoded.
pub proof fn law_untimely_input_is_passed_over(
    session: &mut AcpSession,
    line: &str,
    step: SessionStep,
    other: &mut AcpSession,
    message: &Json,
    other_step: SessionStep,
    third: &mut AcpSession,
    decoded: Result<NewSessionResponseShim, String>,
    third_step: SessionStep,
)
    requires
        call_ensures(AcpSession::on_line, (session, line), step),
        call_ensures(AcpSession::on_message, (other, message), other_step),
        call_ensures(AcpSession::on_decoded, (third, decoded), third_step),
    ensures
        old(session)@.stage is Decoding || old(session)@.stage is Over ==> {
            &&& step is Wait
            &&& final(session)@ == old(session)@
        },
        old(other)@.stage is Decoding || old(other)@.stage is Over ==> {
            &&& other_step is Wait
            &&& final(other)@ == old(other)@
        },
        !(old(third)@.stage is Decoding) ==> third_step is Wait && final(third)@ == old(third)@,
{
}

/// A session opens and drains terminals as its connection does.
pub proof fn law_session_keeps_terminals_as_its_connection(
    session: &mut AcpSession,
    connection: &mut AcpConnection,
    task: TerminalTask,
    bytes: &Vec<u8>,
    exit_code: Option<i32>,
    r: Option<Json>,
    reply: Option<Json>,
    starting: &mut AcpSession,
    spawn: SpawnTask,
    started: (String, Option<Json>),
)
    requires
        call_ensures(AcpSession::on_drained, (session, task, bytes, exit_code), r),
        call_ensures(TerminalTask::drained, (task, connection, bytes, exit_code), reply),
        old(connection)@ == old(session)@.connection,
        call_ensures(AcpSession::on_started, (starting, spawn), started),
    ensures
        optional(r) == optional(reply),
        final(session)@.connection == final(connection)@,
        final(session)@.prompt == old(session)@.prompt,
        final(session)@.stage == old(session)@.stage,
        optional(spawn.id) is Some ==> (started.1 matches Some(m) && m@.get("id"@) == optional(
            spawn.id,
        ) && (m@.get("result"@) matches Some(result) && has_only(result, set!["terminalId"@])
            && result.get_text("terminalId"@) == Some(started.0@))),
        optional(spawn.id) is None ==> started.1 is None,
        final(starting)@.connection.terminals == old(starting)@.connection.terminals.insert(
            started.0@,
            Seq::<u8>::empty(),
        ),
        final(starting)@.connection.working_dir == old(starting)@.connection.working_dir,
        final(starting)@.connection.next_id == old(starting)@.connection.next_id,
        final(starting)@.prompt == old(starting)@.prompt,
        final(starting)@.stage == old(starting)@.stage,
{
    lemma_member_names_differ();
}

} // verus!
