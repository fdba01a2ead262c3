use acp_harness::codec::{read_json, write_json};
use acp_harness::json::Json;
use acp_harness::rpc::{
    call_step, notify, read_message, request, respond_error, respond_result, write_message,
    CallStep, JSONRPC_INVALID_PARAMS, JSONRPC_METHOD_NOT_FOUND,
};

fn json(text: &str) -> Json {
    read_json(text).unwrap()
}

#[test]
fn reading_gives_each_kind_of_value() {
    assert_eq!(json("null"), Json::Null);
    assert_eq!(json(" true "), Json::Bool(true));
    assert_eq!(json("18446744073709551615"), Json::Unsigned(u64::MAX));
    assert_eq!(json("-9223372036854775808"), Json::Signed(i64::MIN));
    assert_eq!(json("\"a\\nb\""), Json::text("a\nb"));
    assert_eq!(json("[1,-1]"), Json::Array(vec![Json::Unsigned(1), Json::Signed(-1)]));
    assert_eq!(
        json("{\"b\":1,\"a\":[]}"),
        Json::Object(vec![
            ("a".to_string(), Json::Array(vec![])),
            ("b".to_string(), Json::Unsigned(1)),
        ])
    );
    assert!(matches!(json("1.5"), Json::Float(_)));
    assert!(matches!(json("18446744073709551616"), Json::Float(_)));
}

#[test]
fn writing_is_compact() {
    let value = Json::object()
        .with("b", Json::Array(vec![Json::Bool(false), Json::Null]))
        .with("a", Json::Signed(-3))
        .with("c", json("1.5"));
    assert_eq!(write_json(&value), "{\"a\":-3,\"b\":[false,null],\"c\":1.5}");
    assert_eq!(write_json(&Json::text("a\n\"\u{1}")), "\"a\\n\\\"\\u0001\"");
}

#[test]
fn the_later_of_two_members_counts() {
    let value = json("{\"a\":1,\"a\":2}");
    assert_eq!(value.get("a").and_then(Json::as_u64), Some(2));
    let built = Json::object().with("a", Json::Unsigned(1)).with("a", Json::Unsigned(2));
    assert_eq!(built.get("a").and_then(Json::as_u64), Some(2));
    assert_eq!(write_json(&built), "{\"a\":2}");
    let long = (0..40u64).fold(Json::object(), |o, i| {
        o.with(if i % 2 == 0 { "even" } else { "odd" }, Json::Unsigned(i))
    });
    assert_eq!(write_json(&long), "{\"even\":38,\"odd\":39}");
}

#[test]
fn values_answer_what_they_are() {
    let value = json("{\"t\":\"x\",\"n\":7,\"m\":-7,\"f\":7.0,\"l\":[1]}");
    assert_eq!(value.get_str("t"), Some("x"));
    assert_eq!(value.get_str("n"), None);
    assert_eq!(value.get_str("absent"), None);
    assert_eq!(value.get("n").unwrap().as_u64(), Some(7));
    assert_eq!(value.get("m").unwrap().as_u64(), None);
    assert_eq!(value.get("f").unwrap().as_u64(), None);
    assert_eq!(Json::Signed(7).as_u64(), Some(7));
    assert_eq!(value.get("l").unwrap().as_array().unwrap().len(), 1);
    assert!(value.as_array().is_none());
    assert!(Json::Null.get("t").is_none());
    assert_eq!(value.clone(), value);
}

#[test]
fn a_line_reads_back_as_its_message() {
    let message = Json::object()
        .with("text", Json::text("two\nlines\r\n\u{2028}\u{1f600}"))
        .with("list", Json::Array(vec![Json::Null, Json::Signed(i64::MIN), Json::object()]))
        .with("n", Json::Unsigned(u64::MAX));
    let line = write_message(&message);
    assert!(line.ends_with('\n'));
    assert_eq!(line.matches('\n').count(), 1);
    assert_eq!(write_json(&read_message(&line).unwrap()), write_json(&message));
}

#[test]
fn nesting_is_limited() {
    let mut value = Json::Null;
    for _ in 0..127 {
        value = Json::Array(vec![value]);
    }
    let line = write_message(&value);
    assert_eq!(read_message(&line).unwrap(), value);
    let deeper = Json::Array(vec![value]);
    assert!(read_message(&write_message(&deeper)).is_err());
}

#[test]
fn lines_are_trimmed() {
    assert_eq!(read_message("\t {\"id\":1}\r\n").unwrap(), json("{\"id\":1}"));
}

#[test]
fn the_end_of_the_stream_is_an_error() {
    assert_eq!(
        read_message("").unwrap_err().message,
        "ACP agent stdout closed unexpectedly"
    );
}

#[test]
fn a_line_that_is_not_json_is_an_error() {
    assert_eq!(
        read_message(" nonsense\n").unwrap_err().message,
        "Invalid JSON-RPC line from ACP agent: expected ident at line 1 column 2: nonsense"
    );
    assert!(read_message("\n").is_err());
}

#[test]
fn requests_and_notifications_have_their_shape() {
    assert_eq!(
        write_json(&request(4, "session/new", Json::object())),
        "{\"id\":4,\"jsonrpc\":\"2.0\",\"method\":\"session/new\",\"params\":{}}"
    );
    assert_eq!(
        write_json(&notify("session/cancel", Json::Null)),
        "{\"jsonrpc\":\"2.0\",\"method\":\"session/cancel\",\"params\":null}"
    );
}

#[test]
fn replies_have_their_shape() {
    assert_eq!(
        write_json(&respond_result(Some(Json::text("x")), Json::Bool(true)).unwrap()),
        "{\"id\":\"x\",\"jsonrpc\":\"2.0\",\"result\":true}"
    );
    assert_eq!(
        write_json(&respond_error(Some(Json::Null), JSONRPC_METHOD_NOT_FOUND, "no").unwrap()),
        "{\"error\":{\"code\":-32601,\"message\":\"no\"},\"id\":null,\"jsonrpc\":\"2.0\"}"
    );
    assert_eq!(respond_result(None, Json::Null), None);
    assert_eq!(respond_error(None, JSONRPC_INVALID_PARAMS, "no"), None);
}

#[test]
fn a_call_is_answered_under_its_id() {
    let done = respond_result(Some(Json::Unsigned(7)), Json::text("r")).unwrap();
    assert_eq!(call_step(7, "m", &done), CallStep::Done(Json::text("r")));
    assert_eq!(call_step(8, "m", &done), CallStep::Other);
    let null = json("{\"id\":7,\"result\":null}");
    assert_eq!(call_step(7, "m", &null), CallStep::Done(Json::Null));
}

#[test]
fn an_error_fails_the_call() {
    let failed = respond_error(Some(Json::Unsigned(7)), JSONRPC_INVALID_PARAMS, "bad").unwrap();
    match call_step(7, "session/new", &failed) {
        CallStep::Failed(e) => assert_eq!(
            e.message,
            "ACP method 'session/new' returned error: {\"code\":-32602,\"message\":\"bad\"}"
        ),
        other => panic!("unexpected {other:?}"),
    }
    match call_step(7, "m", &json("{\"id\":7,\"error\":null,\"result\":1}")) {
        CallStep::Failed(e) => assert_eq!(e.message, "ACP method 'm' returned error: null"),
        other => panic!("unexpected {other:?}"),
    }
}

#[test]
fn a_response_without_a_result_fails_the_call() {
    match call_step(7, "m", &json("{\"id\":7}")) {
        CallStep::Failed(e) => assert_eq!(e.message, "ACP response missing `result` field"),
        other => panic!("unexpected {other:?}"),
    }
}

#[test]
fn a_request_with_the_same_id_is_no_response() {
    let message = request(7, "fs/readTextFile", Json::Null);
    assert_eq!(call_step(7, "m", &message), CallStep::Other);
    assert_eq!(call_step(7, "m", &json("{\"id\":\"7\",\"result\":1}")), CallStep::Other);
    assert_eq!(call_step(7, "m", &json("{\"result\":1}")), CallStep::Other);
}
