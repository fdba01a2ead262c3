//! What holds of messages and their answers, whatever they say.
use vstd::prelude::*;
use crate::codec::{json_of_text, read_json, spells_back, text_of_json, write_json};
use crate::error::AcpError;
use crate::json::{Json, JsonView};
use crate::json_laws::has_only;
use crate::rpc::{
    call_step, call_step_view, error_message, error_object, invalid_line, is_response,
    notification_message, notify, optional, read_message, request, request_message, respond_error,
    respond_result, result_message, returned_error, returned_error_message, write_message,
    CallStep, CallStepView, METHOD_FS_READ, METHOD_FS_WRITE, METHOD_REQUEST_PERMISSION,
    METHOD_TERMINAL_CREATE, METHOD_TERMINAL_GET_OUTPUT, METHOD_TERMINAL_KILL,
    METHOD_TERMINAL_RELEASE,
};
use crate::text::{is_blank, is_white_space, law_trimming_leaves_the_middle};

verus! {

/// The members of a message have names of their own.
pub proof fn lemma_member_names_differ()
    ensures
        "jsonrpc"@ != "id"@,
        "jsonrpc"@ != "method"@,
        "jsonrpc"@ != "params"@,
        "jsonrpc"@ != "result"@,
        "jsonrpc"@ != "error"@,
        "id"@ != "method"@,
        "id"@ != "params"@,
        "id"@ != "result"@,
        "id"@ != "error"@,
        "method"@ != "params"@,
        "method"@ != "result"@,
        "method"@ != "error"@,
        "params"@ != "result"@,
        "params"@ != "error"@,
        "result"@ != "error"@,
{
    reveal_strlit("jsonrpc");
    reveal_strlit("id");
    reveal_strlit("method");
    reveal_strlit("params");
    reveal_strlit("result");
    reveal_strlit("error");
    assert("jsonrpc"@[0] == 'j');
    assert("id"@[0] == 'i');
    assert("method"@[0] == 'm');
    assert("params"@[0] == 'p');
    assert("result"@[0] == 'r');
    assert("error"@[0] == 'e');
}

/// The methods of the client have names, each its own.
pub proof fn lemma_methods_differ()
    ensures
        METHOD_FS_READ@ != ""@,
        METHOD_FS_WRITE@ != ""@,
        METHOD_TERMINAL_CREATE@ != ""@,
        METHOD_TERMINAL_GET_OUTPUT@ != ""@,
        METHOD_TERMINAL_KILL@ != ""@,
        METHOD_TERMINAL_RELEASE@ != ""@,
        METHOD_REQUEST_PERMISSION@ != ""@,
        METHOD_FS_READ@ != METHOD_FS_WRITE@,
        METHOD_FS_READ@ != METHOD_TERMINAL_CREATE@,
        METHOD_FS_READ@ != METHOD_TERMINAL_GET_OUTPUT@,
        METHOD_FS_READ@ != METHOD_TERMINAL_KILL@,
        METHOD_FS_READ@ != METHOD_TERMINAL_RELEASE@,
        METHOD_FS_WRITE@ != METHOD_TERMINAL_CREATE@,
        METHOD_FS_WRITE@ != METHOD_TERMINAL_GET_OUTPUT@,
        METHOD_FS_WRITE@ != METHOD_TERMINAL_KILL@,
        METHOD_FS_WRITE@ != METHOD_TERMINAL_RELEASE@,
        METHOD_TERMINAL_CREATE@ != METHOD_TERMINAL_GET_OUTPUT@,
        METHOD_TERMINAL_CREATE@ != METHOD_TERMINAL_KILL@,
        METHOD_TERMINAL_CREATE@ != METHOD_TERMINAL_RELEASE@,
        METHOD_TERMINAL_GET_OUTPUT@ != METHOD_TERMINAL_KILL@,
        METHOD_TERMINAL_GET_OUTPUT@ != METHOD_TERMINAL_RELEASE@,
        METHOD_TERMINAL_KILL@ != METHOD_TERMINAL_RELEASE@,
        METHOD_REQUEST_PERMISSION@ != METHOD_FS_READ@,
        METHOD_REQUEST_PERMISSION@ != METHOD_FS_WRITE@,
        METHOD_REQUEST_PERMISSION@ != METHOD_TERMINAL_CREATE@,
        METHOD_REQUEST_PERMISSION@ != METHOD_TERMINAL_GET_OUTPUT@,
        METHOD_REQUEST_PERMISSION@ != METHOD_TERMINAL_KILL@,
        METHOD_REQUEST_PERMISSION@ != METHOD_TERMINAL_RELEASE@,
{
    reveal_strlit("");
    reveal_strlit("fs/readTextFile");
    reveal_strlit("fs/writeTextFile");
    reveal_strlit("terminal/create");
    reveal_strlit("terminal/getOutput");
    reveal_strlit("terminal/kill");
    reveal_strlit("terminal/release");
    reveal_strlit("request/permission");
    assert(""@.len() == 0);
    assert(METHOD_FS_READ@[0] == 'f' && METHOD_FS_READ@[3] == 'r');
    assert(METHOD_FS_WRITE@[0] == 'f' && METHOD_FS_WRITE@[3] == 'w');
    assert(METHOD_TERMINAL_CREATE@[0] == 't' && METHOD_TERMINAL_CREATE@[9] == 'c');
    assert(METHOD_TERMINAL_GET_OUTPUT@[0] == 't' && METHOD_TERMINAL_GET_OUTPUT@[9] == 'g');
    assert(METHOD_TERMINAL_KILL@[0] == 't' && METHOD_TERMINAL_KILL@[9] == 'k');
    assert(METHOD_TERMINAL_RELEASE@[0] == 't' && METHOD_TERMINAL_RELEASE@[9] == 'r');
    assert(METHOD_REQUEST_PERMISSION@[0] == 'r');
}

/// The members of an error have names of their own.
pub proof fn lemma_error_names_differ()
    ensures
        "code"@ != "message"@,
{
    reveal_strlit("code");
    reveal_strlit("message");
    assert("code"@[0] == 'c');
    assert("message"@[0] == 'm');
}

/// `reply` hands the call under `id` a result that is as `wanted` says, and says nothing else;
/// where the call has no id there is no reply.
pub open spec fn gives_result(
    reply: Option<Json>,
    id: Option<JsonView>,
    wanted: spec_fn(JsonView) -> bool,
) -> bool {
    match id {
        Some(id) => {
            &&& reply matches Some(message)
            &&& has_only(message@, set!["jsonrpc"@, "id"@, "result"@])
            &&& message@.get_text("jsonrpc"@) == Some("2.0"@)
            &&& message@.get("id"@) == Some(id)
            &&& message@.get("result"@) matches Some(result)
            &&& wanted(result)
        },
        None => reply is None,
    }
}

/// `reply` tells the call under `id` that it failed, with the number `code` and the words `text`,
/// and says nothing else; where the call has no id there is no reply.
pub open spec fn gives_error(
    reply: Option<Json>,
    id: Option<JsonView>,
    code: int,
    text: Seq<char>,
) -> bool {
    match id {
        Some(id) => {
            &&& reply matches Some(message)
            &&& has_only(message@, set!["jsonrpc"@, "id"@, "error"@])
            &&& message@.get_text("jsonrpc"@) == Some("2.0"@)
            &&& message@.get("id"@) == Some(id)
            &&& message@.get("error"@) matches Some(error)
            &&& has_only(error, set!["code"@, "message"@])
            &&& error.get("code"@) == Some(JsonView::Integer(code))
            &&& error.get_text("message"@) == Some(text)
        },
        None => reply is None,
    }
}

/// `message` calls `method` under the number `id`, and says nothing else but its parameters.
pub open spec fn is_call(message: JsonView, id: int, method: Seq<char>) -> bool {
    &&& has_only(message, set!["jsonrpc"@, "id"@, "method"@, "params"@])
    &&& message.get_text("jsonrpc"@) == Some("2.0"@)
    &&& message.get("id"@) == Some(JsonView::Integer(id))
    &&& message.get_text("method"@) == Some(method)
}

/// `message` notifies of `method`, which is not to be answered, and says nothing else but its
/// parameters.
pub open spec fn is_notification(message: JsonView, method: Seq<char>) -> bool {
    &&& has_only(message, set!["jsonrpc"@, "method"@, "params"@])
    &&& message.get_text("jsonrpc"@) == Some("2.0"@)
    &&& message.get_text("method"@) == Some(method)
}

/// An optional value stands for the value that is there.
pub proof fn law_optional_value(value: Json)
    ensures
        optional(Some(value)) == Some(value@),
        optional(None) is None,
{
}

/// A call says its number, its method and its parameters, as they were given.
pub proof fn law_call_says_what_it_calls(id: u64, method: &str, params: Json, r: Json)
    requires
        call_ensures(request, (id, method, params), r),
    ensures
        is_call(r@, id as int, method@),
        r@.get("params"@) == Some(params@),
{
    lemma_member_names_differ();
}

/// A notification says its method and its parameters, as they were given, and has no id.
pub proof fn law_notification_says_what_it_calls(method: &str, params: Json, r: Json)
    requires
        call_ensures(notify, (method, params), r),
    ensures
        is_notification(r@, method@),
        r@.get("params"@) == Some(params@),
        r@.get("id"@) is None,
{
    lemma_member_names_differ();
}

/// A reply with a result hands it over as it was given.
pub proof fn law_result_is_handed_over(id: Option<Json>, result: Json, r: Option<Json>)
    requires
        call_ensures(respond_result, (id, result), r),
    ensures
        gives_result(r, optional(id), |given: JsonView| given == result@),
{
    lemma_member_names_differ();
}

/// A reply with an error says its number and its words, as they were given.
pub proof fn law_error_is_handed_over(id: Option<Json>, code: i64, message: &str, r: Option<Json>)
    requires
        call_ensures(respond_error, (id, code, message), r),
    ensures
        gives_error(r, optional(id), code as int, message@),
{
    lemma_member_names_differ();
    lemma_error_names_differ();
}

/// A line says what the text in it says, whatever white space stands around that text; a text
/// that says nothing is named with the reason, and no line at all is the end of the stream.
pub proof fn law_line_says_what_its_text_says(
    line: &str,
    r: Result<Json, AcpError>,
    front: Seq<char>,
    text: Seq<char>,
    back: Seq<char>,
)
    requires
        call_ensures(read_message, (line,), r),
        line@ == front + text + back,
        is_blank(front),
        is_blank(back),
        text.len() > 0 ==> !is_white_space(text.first()) && !is_white_space(text.last()),
    ensures
        line@.len() == 0 ==> (r matches Err(e) && e.message@
            == "ACP agent stdout closed unexpectedly"@),
        line@.len() > 0 ==> match json_of_text(text) {
            Ok(said) => r matches Ok(message) && message@ == said,
            Err(reason) => r matches Err(e) && e.message@
                == "Invalid JSON-RPC line from ACP agent: "@ + reason + ": "@ + text,
        },
{
    law_trimming_leaves_the_middle(front, text, back);
}

/// A message is written as its text and one line feed, which is the only one; a message without
/// other numbers than integers, nested at most 127 deep, is read from that line again.
pub proof fn law_written_message_is_read_again(
    message: &Json,
    line: String,
    read: &str,
    r: Result<Json, AcpError>,
)
    requires
        call_ensures(write_message, (message,), line),
        call_ensures(read_message, (read,), r),
        read@ == line@,
    ensures
        line@ == text_of_json(message@) + seq!['\n'],
        forall|i: int| 0 <= i < line@.len() ==> (#[trigger] line@[i] == '\n' <==> i == line@.len()
            - 1),
        spells_back(message@, 127) ==> (r matches Ok(again) && again@ == message@),
{
    assert(line@ =~= text_of_json(message@) + seq!['\n']);
}

/// A text is read as what it spells, and a value is written as its text, which stands on one line
/// and has no white space around it.
pub proof fn law_values_are_read_and_written(
    text: &str,
    read: Result<Json, String>,
    value: &Json,
    written: String,
)
    requires
        call_ensures(read_json, (text,), read),
        call_ensures(write_json, (value,), written),
    ensures
        match (json_of_text(text@), read) {
            (Ok(spelled), Ok(given)) => given@ == spelled,
            (Err(reason), Err(given)) => given@ == reason,
            _ => false,
        },
        written@ == text_of_json(value@),
        !written@.contains('\n'),
        written@.len() > 0 && !is_white_space(written@.first()) && !is_white_space(written@.last()),
        spells_back(value@, 127) && text@ == written@ ==> (read matches Ok(again) && again@
            == value@),
{
}

/// Failures are told in the words in which they were made.
pub proof fn law_failures_are_told(
    words: String,
    e: AcpError,
    reason: &str,
    text: &str,
    invalid: AcpError,
    method: &str,
    shown: &str,
    returned: AcpError,
)
    requires
        call_ensures(AcpError::new, (words,), e),
        call_ensures(invalid_line, (reason, text), invalid),
        call_ensures(returned_error, (method, shown), returned),
    ensures
        e.message@ == words@,
        e@ == words@,
        invalid.message@ == "Invalid JSON-RPC line from ACP agent: "@ + reason@ + ": "@ + text@,
        returned.message@ == "ACP method '"@ + method@ + "' returned error: "@ + shown@,
{
}

/// What reads back: values without members that are no fractions, and arrays and objects of what
/// reads back with one level less.
pub proof fn law_what_reads_back(value: JsonView, depth: nat)
    ensures
        value is Null || value is Bool || value is Integer || value is Text ==> spells_back(
            value,
            depth,
        ),
        value matches JsonView::Array(items) ==> ((forall|i: int|
            0 <= i < items.len() ==> spells_back(#[trigger] items[i], depth)) ==> spells_back(
            value,
            depth + 1,
        )),
        value is Object ==> ((forall|key: Seq<char>|
            (#[trigger] value.get(key)) matches Some(member) ==> spells_back(member, depth))
            ==> spells_back(value, depth + 1)),
{
    if value is Object {
        let members = value->Object_0;
        assert(forall|key: Seq<char>|
            members.contains_key(key) ==> value.get(key) == Some(#[trigger] members[key]));
    }
}

/// A message with the number of a call and no method answers the call: by the error that it
/// holds, or else by its result, and without either by a failure. Any other message is none of
/// the call's business.
pub proof fn law_call_is_answered_by_its_number(
    id: u64,
    method: &str,
    message: &Json,
    r: CallStep,
)
    requires
        call_ensures(call_step, (id, method, message), r),
    ensures
        ({
            let named = message@.get("id"@) == Some(JsonView::Integer(id as int)) && message@.get(
                "method"@,
            ) is None;
            if !named {
                r is Other
            } else {
                match message@.get("error"@) {
                    Some(error) => r matches CallStep::Failed(e) && e.message@ == "ACP method '"@
                        + method@ + "' returned error: "@ + text_of_json(error),
                    None => match message@.get("result"@) {
                        Some(result) => r matches CallStep::Done(given) && given@ == result,
                        None => r matches CallStep::Failed(e) && e.message@
                            == "ACP response missing `result` field"@,
                    },
                }
            }
        }),
{
}

/// `reply` is what is owed to a call under `id`: one message with that id which is a response
/// and holds either a result or an error; nothing where the call has no id.
pub open spec fn answers(reply: Option<JsonView>, id: Option<JsonView>) -> bool {
    match id {
        Some(id) => {
            &&& reply matches Some(message)
            &&& message.get("jsonrpc"@) == Some(JsonView::Text("2.0"@))
            &&& message.get("id"@) == Some(id)
            &&& message.get("method"@) is None
            &&& (message.get("result"@) is Some) != (message.get("error"@) is Some)
        },
        None => reply is None,
    }
}

/// A result answers the call that it is made for.
pub proof fn law_result_answers(id: Option<JsonView>, result: JsonView)
    ensures
        answers(result_message(id, result), id),
        result_message(id, result) matches Some(m) ==> m.get("result"@) == Some(result),
{
    lemma_member_names_differ();
}

/// An error answers the call that it is made for.
pub proof fn law_error_answers(id: Option<JsonView>, code: i64, message: Seq<char>)
    ensures
        answers(error_message(id, code, message), id),
        error_message(id, code, message) matches Some(m) ==> m.get("error"@) == Some(
            error_object(code, message),
        ),
{
    lemma_member_names_differ();
}

/// A call gets the result that the other side answers it with.
pub proof fn law_call_gets_its_result(id: u64, method: Seq<char>, result: JsonView)
    ensures
        result_message(Some(JsonView::Integer(id as int)), result) matches Some(m)
            && call_step_view(id, method, m) == CallStepView::Done(result),
{
    lemma_member_names_differ();
}

/// A call fails with the error that the other side answers it with.
pub proof fn law_call_gets_its_error(id: u64, method: Seq<char>, code: i64, message: Seq<char>)
    ensures
        error_message(Some(JsonView::Integer(id as int)), code, message) matches Some(m)
            && call_step_view(id, method, m) == CallStepView::Failed(
            returned_error_message(method, text_of_json(error_object(code, message))),
        ),
{
    lemma_member_names_differ();
}

/// Of two calls with different ids, no message answers both.
pub proof fn law_a_message_answers_one_call(a: u64, b: u64, message: JsonView)
    requires
        a != b,
    ensures
        !(is_response(a, message) && is_response(b, message)),
{
}

/// A call or a notification is no answer to any call, also where its id is that of the call.
pub proof fn law_a_call_is_no_answer(id: u64, other: u64, method: Seq<char>, params: JsonView)
    ensures
        !is_response(id, request_message(other, method, params)),
        !is_response(id, notification_message(method, params)),
{
    lemma_member_names_differ();
}

} // verus!
