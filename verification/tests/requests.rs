use acp_harness::client::ClientAction;
use acp_harness::codec::{read_json, write_json};
use acp_harness::connection::AcpConnection;
use acp_harness::json::Json;
use acp_harness::tasks::WriteOutcome;

fn ask(connection: &mut AcpConnection, text: &str) -> ClientAction {
    connection.handle_client_request(&read_json(text).unwrap())
}

fn reply(action: ClientAction) -> String {
    match action {
        ClientAction::Reply(Some(message)) => write_json(&message),
        other => panic!("expected a reply, got {other:?}"),
    }
}

fn sent(message: Option<Json>) -> String {
    write_json(&message.unwrap())
}

fn result(id: &str, result: &str) -> String {
    format!("{{\"id\":{id},\"jsonrpc\":\"2.0\",\"result\":{result}}}")
}

fn error(id: &str, code: i64, message: &str) -> String {
    format!("{{\"error\":{{\"code\":{code},\"message\":\"{message}\"}},\"id\":{id},\"jsonrpc\":\"2.0\"}}")
}

#[test]
fn a_file_is_read_inside_the_working_directory() {
    let mut c = AcpConnection::new("/work");
    let line = "{\"id\":1,\"method\":\"fs/readTextFile\",\"params\":{\"path\":\"a/../b.txt\"}}";
    match ask(&mut c, line) {
        ClientAction::ReadFile(task) => {
            assert_eq!(task.path, "/work/b.txt");
            assert_eq!(sent(task.finish(Ok("hi".to_string()))), result("1", "{\"content\":\"hi\"}"));
        }
        other => panic!("unexpected {other:?}"),
    }
    match ask(&mut c, line) {
        ClientAction::ReadFile(task) => assert_eq!(
            sent(task.finish(Err("gone".to_string()))),
            error("1", -32602, "Cannot read '/work/b.txt': gone")
        ),
        other => panic!("unexpected {other:?}"),
    }
}

#[test]
fn a_refused_file_is_answered_with_an_error() {
    let mut c = AcpConnection::new("/work");
    assert_eq!(
        reply(ask(
            &mut c,
            "{\"id\":1,\"method\":\"fs/readTextFile\",\"params\":{\"path\":\"../etc\"}}"
        )),
        error(
            "1",
            -32602,
            "Path '../etc' escapes the working directory (resolved to '/etc')"
        )
    );
    assert_eq!(
        reply(ask(
            &mut c,
            "{\"id\":2,\"method\":\"fs/writeTextFile\",\"params\":{\"path\":\"/etc/x\",\"content\":\"\"}}"
        )),
        error(
            "2",
            -32602,
            "Path '/etc/x' escapes the working directory (resolved to '/etc/x')"
        )
    );
}

#[test]
fn missing_parameters_are_answered_with_an_error() {
    let mut c = AcpConnection::new("/work");
    assert_eq!(
        reply(ask(&mut c, "{\"id\":1,\"method\":\"fs/readTextFile\"}")),
        error("1", -32602, "fs/readTextFile missing 'path'")
    );
    assert_eq!(
        reply(ask(&mut c, "{\"id\":1,\"method\":\"fs/readTextFile\",\"params\":{\"path\":3}}")),
        error("1", -32602, "fs/readTextFile missing 'path'")
    );
    assert_eq!(
        reply(ask(&mut c, "{\"id\":1,\"method\":\"fs/writeTextFile\",\"params\":{}}")),
        error("1", -32602, "fs/writeTextFile missing 'path'")
    );
    assert_eq!(
        reply(ask(
            &mut c,
            "{\"id\":1,\"method\":\"fs/writeTextFile\",\"params\":{\"path\":\"a\"}}"
        )),
        error("1", -32602, "fs/writeTextFile missing 'content'")
    );
    assert_eq!(
        reply(ask(&mut c, "{\"id\":1,\"method\":\"terminal/create\",\"params\":{}}")),
        error("1", -32602, "terminal/create: 'command' is required")
    );
}

#[test]
fn a_file_is_written_after_its_directory() {
    let mut c = AcpConnection::new("/work");
    let line = "{\"id\":\"w\",\"method\":\"fs/writeTextFile\",\"params\":{\"path\":\"a/b.txt\",\"content\":\"hi\"}}";
    let outcomes = vec![
        (WriteOutcome::Written, result("\"w\"", "{}")),
        (
            WriteOutcome::NoDirectory("no".to_string()),
            error("\"w\"", -32602, "Cannot create directories for '/work/a/b.txt': no"),
        ),
        (
            WriteOutcome::NotWritten("full".to_string()),
            error("\"w\"", -32602, "Cannot write '/work/a/b.txt': full"),
        ),
    ];
    for (outcome, expected) in outcomes {
        match ask(&mut c, line) {
            ClientAction::WriteFile(task) => {
                assert_eq!(task.path, "/work/a/b.txt");
                assert_eq!(task.parent, Some("/work/a".to_string()));
                assert_eq!(task.content, "hi");
                assert_eq!(sent(task.finish(outcome)), expected);
            }
            other => panic!("unexpected {other:?}"),
        }
    }
}

#[test]
fn the_root_has_no_directory_to_make() {
    let mut c = AcpConnection::new("/");
    let line = "{\"id\":1,\"method\":\"fs/writeTextFile\",\"params\":{\"path\":\"..\",\"content\":\"\"}}";
    match ask(&mut c, line) {
        ClientAction::WriteFile(task) => {
            assert_eq!(task.path, "/");
            assert_eq!(task.parent, None);
        }
        other => panic!("unexpected {other:?}"),
    }
}

#[test]
fn a_terminal_runs_a_program() {
    let mut c = AcpConnection::new("/work");
    let line = "{\"id\":1,\"method\":\"terminal/create\",\"params\":{\"command\":\"ls\",\"args\":[\"-l\",7,\"x\"],\"cwd\":\"sub\"}}";
    match ask(&mut c, line) {
        ClientAction::Spawn(task) => {
            assert_eq!(task.command, "ls");
            assert_eq!(task.args, vec!["-l".to_string(), "x".to_string()]);
            assert_eq!(task.cwd, "/work/sub");
            let reply = task.started_as(&mut c, "t1");
            assert_eq!(sent(reply), result("1", "{\"terminalId\":\"t1\"}"));
            assert!(c.has_terminal("t1"));
        }
        other => panic!("unexpected {other:?}"),
    }
    match ask(&mut c, line) {
        ClientAction::Spawn(task) => assert_eq!(
            sent(task.failed("no such file")),
            error("1", -32602, "terminal/create: failed to spawn 'ls': no such file")
        ),
        other => panic!("unexpected {other:?}"),
    }
}

#[test]
fn a_terminal_starts_in_the_working_directory_otherwise() {
    let mut c = AcpConnection::new("/work");
    for params in vec!["{\"command\":\"ls\"}", "{\"command\":\"ls\",\"cwd\":\"/etc\",\"args\":1}"] {
        let line = format!("{{\"id\":1,\"method\":\"terminal/create\",\"params\":{params}}}");
        match ask(&mut c, &line) {
            ClientAction::Spawn(task) => {
                assert_eq!(task.cwd, "/work");
                assert!(task.args.is_empty());
            }
            other => panic!("unexpected {other:?}"),
        }
    }
}

#[test]
fn a_terminal_may_ask_for_the_working_directory_itself() {
    for (dir, cwd, expected) in vec![
        ("/work", ".", "/work"),
        (".", ".", "."),
        (".", "", "."),
        (".", "sub", "sub"),
        ("a/..", "x/..", "a/.."),
        ("../w", ".", "../w"),
        ("/srv/tmp/../w", "sub", "/srv/w/sub"),
        (".", "..", "."),
    ] {
        let mut c = AcpConnection::new(dir);
        let line = format!(
            "{{\"id\":1,\"method\":\"terminal/create\",\"params\":{{\"command\":\"ls\",\"cwd\":\"{cwd}\"}}}}"
        );
        match ask(&mut c, &line) {
            ClientAction::Spawn(task) => assert_eq!(task.cwd, expected, "{cwd:?} from {dir:?}"),
            other => panic!("unexpected {other:?}"),
        }
    }
}

#[test]
fn terminals_get_random_uuids() {
    let mut c = AcpConnection::new("/work");
    let line = "{\"id\":1,\"method\":\"terminal/create\",\"params\":{\"command\":\"ls\"}}";
    let mut ids: Vec<String> = Vec::new();
    for _ in 0..2 {
        match ask(&mut c, line) {
            ClientAction::Spawn(task) => {
                let (id, reply) = task.started(&mut c);
                assert_eq!(sent(reply), result("1", &format!("{{\"terminalId\":\"{id}\"}}")));
                assert!(c.has_terminal(&id));
                ids.push(id);
            }
            other => panic!("unexpected {other:?}"),
        }
    }
    assert_ne!(ids[0], ids[1]);
    for id in ids {
        let chars: Vec<char> = id.chars().collect();
        assert_eq!(chars.len(), 36);
        for i in 0..36 {
            if matches!(i, 8 | 13 | 18 | 23) {
                assert_eq!(chars[i], '-');
            } else {
                assert!(chars[i].is_ascii_digit() || ('a'..='f').contains(&chars[i]));
            }
        }
        assert_eq!(chars[14], '4');
        assert!(matches!(chars[19], '8' | '9' | 'a' | 'b'));
    }
}

#[test]
fn output_accumulates_until_the_terminal_is_released() {
    let mut c = AcpConnection::new("/work");
    c.open_terminal("t1", Vec::new());
    c.open_terminal("t2", b"other".to_vec());
    let get = "{\"id\":1,\"method\":\"terminal/getOutput\",\"params\":{\"terminalId\":\"t1\"}}";
    match ask(&mut c, get) {
        ClientAction::DrainOutput(task) => assert_eq!(
            sent(task.drained(&mut c, &b"ab\xc3".to_vec(), None)),
            result("1", "{\"exitCode\":null,\"output\":\"ab\u{fffd}\"}")
        ),
        other => panic!("unexpected {other:?}"),
    }
    match ask(&mut c, get) {
        ClientAction::DrainOutput(task) => assert_eq!(
            sent(task.drained(&mut c, &b"\xa9c".to_vec(), Some(-1))),
            result("1", "{\"exitCode\":-1,\"output\":\"ab\u{e9}c\"}")
        ),
        other => panic!("unexpected {other:?}"),
    }
    let release = "{\"id\":2,\"method\":\"terminal/release\",\"params\":{\"terminalId\":\"t1\"}}";
    match ask(&mut c, release) {
        ClientAction::Release(task) => {
            assert_eq!(task.terminal, "t1");
            assert_eq!(sent(task.done()), result("2", "{}"));
        }
        other => panic!("unexpected {other:?}"),
    }
    assert!(!c.has_terminal("t1"));
    assert!(c.has_terminal("t2"));
    assert_eq!(
        reply(ask(&mut c, get)),
        error("1", -32602, "terminal/getOutput: unknown terminal 't1'")
    );
    assert_eq!(c.close_terminal("t2"), Some(b"other".to_vec()));
}

#[test]
fn terminals_can_be_killed() {
    let mut c = AcpConnection::new("/work");
    c.open_terminal("t1", Vec::new());
    let kill = "{\"id\":1,\"method\":\"terminal/kill\",\"params\":{\"terminalId\":\"t1\"}}";
    match ask(&mut c, kill) {
        ClientAction::Kill(task) => assert_eq!(sent(task.done()), result("1", "{}")),
        other => panic!("unexpected {other:?}"),
    }
    assert!(c.has_terminal("t1"));
    for method in vec!["terminal/kill", "terminal/release"] {
        let line = format!("{{\"id\":3,\"method\":\"{method}\",\"params\":{{\"terminalId\":\"t9\"}}}}");
        assert_eq!(reply(ask(&mut c, &line)), result("3", "{}"));
        let line = format!("{{\"id\":3,\"method\":\"{method}\"}}");
        assert_eq!(reply(ask(&mut c, &line)), result("3", "{}"));
    }
}

#[test]
fn permission_is_granted_by_the_first_option() {
    let mut c = AcpConnection::new("/work");
    let granted = |option: &str| {
        result("1", &format!("{{\"outcome\":{{\"optionId\":\"{option}\"}}}}"))
    };
    let cases = vec![
        ("{\"options\":[{\"id\":\"yes\"},{\"id\":\"no\"}]}", "yes"),
        ("{\"options\":[{\"id\":1},{\"id\":\"no\"}]}", "allow"),
        ("{\"options\":[]}", "allow"),
        ("{\"options\":{}}", "allow"),
        ("{}", "allow"),
    ];
    for (params, option) in cases {
        let line = format!("{{\"id\":1,\"method\":\"request/permission\",\"params\":{params}}}");
        assert_eq!(reply(ask(&mut c, &line)), granted(option));
    }
}

#[test]
fn unknown_methods_are_answered_with_an_error() {
    let mut c = AcpConnection::new("/work");
    assert_eq!(
        reply(ask(&mut c, "{\"id\":5,\"method\":\"fs/delete\"}")),
        error("5", -32601, "Method not found: fs/delete")
    );
    assert_eq!(
        reply(ask(&mut c, "{\"id\":null,\"method\":\"x\"}")),
        error("null", -32601, "Method not found: x")
    );
    assert_eq!(
        reply(ask(&mut c, "{\"id\":5,\"method\":\"\"}")),
        error("5", -32601, "Method not found: ")
    );
}

#[test]
fn an_id_is_sent_back_as_it_came() {
    let mut c = AcpConnection::new("/work");
    for id in vec!["1.5", "\"a\"", "[1,{\"k\":null}]", "-0.0", "18446744073709551615"] {
        let line = format!("{{\"id\":{id},\"method\":\"x\"}}");
        assert_eq!(reply(ask(&mut c, &line)), error(id, -32601, "Method not found: x"));
    }
}

#[test]
fn notifications_are_not_answered() {
    let mut c = AcpConnection::new("/work");
    for line in vec![
        "{\"method\":\"session/update\",\"params\":{}}",
        "{\"method\":\"fs/readTextFile\"}",
        "{\"method\":\"fs/readTextFile\",\"params\":{\"path\":\"..\"}}",
        "{\"method\":\"request/permission\"}",
        "{\"id\":9,\"result\":1}",
        "{}",
        "[]",
    ] {
        match ask(&mut c, line) {
            ClientAction::Reply(None) => {}
            other => panic!("unexpected {other:?}"),
        }
    }
    match ask(&mut c, "{\"method\":\"fs/readTextFile\",\"params\":{\"path\":\"a\"}}") {
        ClientAction::ReadFile(task) => assert_eq!(task.finish(Ok("x".to_string())), None),
        other => panic!("unexpected {other:?}"),
    }
}
