use acp_harness::client::ClientAction;
use acp_harness::codec::write_json;
use acp_harness::connection::AcpConnection;
use acp_harness::json::Json;
use acp_harness::rpc::request;
use acp_harness::session::{AcpSession, NewSessionResponseShim, SessionStep};

fn sent(step: SessionStep) -> String {
    match step {
        SessionStep::Send(message) => write_json(&message),
        other => panic!("expected a message, got {other:?}"),
    }
}

fn failure(step: SessionStep) -> String {
    match step {
        SessionStep::Failed(e) => e.message,
        other => panic!("expected a failure, got {other:?}"),
    }
}

fn prompting() -> AcpSession {
    let (mut s, _) = AcpSession::open("hello", "/work");
    let _ = s.on_line("{\"id\":1,\"result\":{}}\n");
    let _ = s.on_line("{\"id\":2,\"result\":{\"sessionId\":\"s1\"}}\n");
    let _ = s.on_decoded(Ok(NewSessionResponseShim {
        session_id: "s1".to_string(),
    }));
    s
}

#[test]
fn a_session_runs_its_course() {
    let (mut s, first) = AcpSession::open("hello", "/work");
    assert_eq!(
        write_json(&first),
        "{\"id\":1,\"jsonrpc\":\"2.0\",\"method\":\"initialize\",\"params\":{\"clientCapabilities\":{\"fs\":{\"readTextFile\":true,\"writeTextFile\":true},\"terminal\":true},\"clientInfo\":{\"name\":\"warp\"},\"protocolVersion\":1}}"
    );
    assert_eq!(
        sent(s.on_line("{\"jsonrpc\":\"2.0\",\"id\":1,\"result\":{\"protocolVersion\":1}}\n")),
        "{\"id\":2,\"jsonrpc\":\"2.0\",\"method\":\"session/new\",\"params\":{\"cwd\":\"/work\",\"mcpServers\":[]}}"
    );
    assert!(!s.is_prompting());
    match s.on_line("{\"jsonrpc\":\"2.0\",\"id\":2,\"result\":{\"sessionId\":\"s1\"}}\n") {
        SessionStep::Decode(result) => {
            assert_eq!(write_json(&result), "{\"sessionId\":\"s1\"}")
        }
        other => panic!("unexpected {other:?}"),
    }
    assert!(matches!(s.on_line("{}"), SessionStep::Wait));
    let decoded = Ok(NewSessionResponseShim {
        session_id: "s1".to_string(),
    });
    assert_eq!(
        sent(s.on_decoded(decoded)),
        "{\"id\":3,\"jsonrpc\":\"2.0\",\"method\":\"session/prompt\",\"params\":{\"prompt\":[{\"text\":\"hello\",\"type\":\"text\"}],\"sessionId\":\"s1\"}}"
    );
    assert!(s.is_prompting());
    match s.on_line("{\"jsonrpc\":\"2.0\",\"method\":\"session/update\",\"params\":{}}\n") {
        SessionStep::Serve(ClientAction::Reply(None)) => {}
        other => panic!("unexpected {other:?}"),
    }
    assert!(matches!(
        s.on_line("{\"jsonrpc\":\"2.0\",\"id\":3,\"result\":{\"stopReason\":\"end_turn\"}}\n"),
        SessionStep::Finished
    ));
    assert!(!s.is_prompting());
}

#[test]
fn requests_are_served_while_a_call_waits() {
    let mut s = prompting();
    match s.on_line("{\"id\":3,\"method\":\"fs/readTextFile\",\"params\":{\"path\":\"a\"}}") {
        SessionStep::Serve(ClientAction::ReadFile(task)) => assert_eq!(task.path, "/work/a"),
        other => panic!("unexpected {other:?}"),
    }
    assert!(matches!(s.on_line("{\"id\":2,\"result\":1}"), SessionStep::Serve(_)));
    assert!(s.is_prompting());
    assert!(matches!(s.on_line("{\"id\":3,\"result\":1}"), SessionStep::Finished));
}

#[test]
fn terminals_live_in_the_session() {
    let mut s = prompting();
    let step = s.on_line("{\"id\":8,\"method\":\"terminal/create\",\"params\":{\"command\":\"ls\"}}");
    let terminal = match step {
        SessionStep::Serve(ClientAction::Spawn(task)) => s.on_started(task).0,
        other => panic!("unexpected {other:?}"),
    };
    let params = Json::object().with("terminalId", Json::text(&terminal));
    match s.on_message(&request(9, "terminal/getOutput", params)) {
        SessionStep::Serve(ClientAction::DrainOutput(task)) => {
            let reply = s.on_drained(task, &b"out".to_vec(), Some(0)).unwrap();
            assert_eq!(
                write_json(&reply),
                "{\"id\":9,\"jsonrpc\":\"2.0\",\"result\":{\"exitCode\":0,\"output\":\"out\"}}"
            );
        }
        other => panic!("unexpected {other:?}"),
    }
}

#[test]
fn a_session_is_cancelled_at_its_prompt() {
    let (mut early, _) = AcpSession::open("hello", "/work");
    assert!(matches!(early.cancel(), SessionStep::Wait));
    let mut s = prompting();
    assert_eq!(
        sent(s.cancel()),
        "{\"jsonrpc\":\"2.0\",\"method\":\"session/cancel\",\"params\":{\"sessionId\":\"s1\"}}"
    );
    assert!(matches!(s.cancel(), SessionStep::Wait));
    assert!(matches!(s.on_line("{\"id\":3,\"result\":1}"), SessionStep::Wait));
}

#[test]
fn a_session_fails_with_its_agent() {
    let mut s = prompting();
    assert_eq!(failure(s.on_line("")), "ACP agent stdout closed unexpectedly");
    assert!(matches!(s.on_line(""), SessionStep::Wait));
    let mut s = prompting();
    assert_eq!(
        failure(s.on_line("{\"id\":3,\"error\":\"busy\"}")),
        "ACP method 'session/prompt' returned error: \"busy\""
    );
    let (mut s, _) = AcpSession::open("hello", "/work");
    assert_eq!(
        failure(s.on_line("{\"id\":1}")),
        "ACP response missing `result` field"
    );
    let (mut s, _) = AcpSession::open("hello", "/work");
    assert!(failure(s.on_line("oops\n")).starts_with("Invalid JSON-RPC line from ACP agent: "));
}

#[test]
fn a_session_without_a_name_fails() {
    let (mut s, _) = AcpSession::open("hello", "/work");
    let _ = s.on_line("{\"id\":1,\"result\":{}}");
    let _ = s.on_line("{\"id\":2,\"result\":{}}");
    assert_eq!(
        failure(s.on_decoded(Err("missing field `sessionId`".to_string()))),
        "Failed to deserialize ACP response for session/new: missing field `sessionId`"
    );
}

#[test]
fn calls_are_numbered_from_one() {
    let mut c = AcpConnection::new("/work");
    for expected in 1..4 {
        assert_eq!(c.next_id(), expected);
        let (id, message) = c.call("m", Json::Null);
        assert_eq!(id, expected);
        assert_eq!(message.get("id").and_then(Json::as_u64), Some(expected));
    }
    assert_eq!(c.working_dir(), "/work");
}
