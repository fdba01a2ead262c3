use acp_harness::error::AcpError;
use acp_harness::harness::{command_line, AcpHarness, AgentDriverError, CLIAgent, Harness};
use acp_harness::runner::{exit_code, ExitStep, Launch};

fn assert_harness_setup_failed(err: &AgentDriverError) -> (&str, &str) {
    match err {
        AgentDriverError::HarnessSetupFailed { harness, reason } => (harness, reason),
    }
}

#[test]
fn new_returns_error_when_command_is_none() {
    let err = AcpHarness::new(None).unwrap_err();
    let (harness, reason) = assert_harness_setup_failed(&err);
    assert_eq!(harness, "acp");
    assert!(
        reason.contains("requires a `command`"),
        "unexpected reason: {reason}"
    );
    assert_eq!(
        reason,
        "ACP harness requires a `command` to be set in the agent harness config (e.g. `harness.command = \"my-acp-agent\"`)."
    );
}

#[test]
fn new_returns_error_when_command_is_blank() {
    let err = AcpHarness::new(Some("   ".into())).unwrap_err();
    let (_, reason) = assert_harness_setup_failed(&err);
    assert!(reason.contains("requires a `command`"));
}

#[test]
fn every_kind_of_white_space_is_blank() {
    let blank = " \t\n\u{b}\u{c}\r\u{85}\u{a0}\u{1680}\u{2000}\u{200a}\u{2028}\u{2029}\u{202f}\u{205f}\u{3000}";
    assert!(blank.trim().is_empty());
    assert!(AcpHarness::new(Some(blank.into())).is_err());
    assert!(AcpHarness::new(Some("".into())).is_err());
    assert!(AcpHarness::new(Some("\u{200b}".into())).is_ok());
}

#[test]
fn new_accepts_a_non_empty_command() {
    let harness = AcpHarness::new(Some("acp-agent --foo".into())).unwrap();
    assert_eq!(harness.harness(), Harness::Acp);
    assert_eq!(harness.cli_agent(), CLIAgent::Unknown);
}

#[test]
fn validate_fails_when_binary_is_not_on_path() {
    let harness = AcpHarness::new(Some("__nonexistent_acp_agent_xyz__".into())).unwrap();
    let err = harness.validate(false).unwrap_err();
    let (harness_label, reason) = assert_harness_setup_failed(&err);
    assert_eq!(harness_label, "acp");
    assert!(
        reason.contains("__nonexistent_acp_agent_xyz__"),
        "expected program name in reason, got: {reason}"
    );
    assert!(reason.contains("not found"));
    assert_eq!(
        reason,
        "ACP agent binary '__nonexistent_acp_agent_xyz__' was not found on PATH. Verify your `harness.command` setting points to a valid executable."
    );
}

#[test]
fn validate_succeeds_for_known_binary_with_args() {
    let harness = AcpHarness::new(Some("ls --color=never".into())).unwrap();
    let (program, args) = harness.split_command().unwrap();
    assert_eq!(program, "ls");
    assert_eq!(args, vec!["--color=never".to_string()]);
    assert!(harness.validate(true).is_ok());
}

#[test]
fn validate_rejects_unparseable_command() {
    // Unmatched single quote.
    let harness = AcpHarness::new(Some("acp-agent 'unterminated".into())).unwrap();
    let err = harness.validate(true).unwrap_err();
    let (_, reason) = assert_harness_setup_failed(&err);
    assert!(
        reason.contains("not a valid shell expression"),
        "unexpected reason: {reason}"
    );
    assert_eq!(
        reason,
        "ACP `command` is not a valid shell expression: acp-agent 'unterminated"
    );
    assert_eq!(harness.validate(false).unwrap_err(), err);
}

#[test]
fn quoted_words_are_split_as_a_shell_would() {
    let harness =
        AcpHarness::new(Some("node './my agent/index.js' --name=\"a b\" c\\ d".into())).unwrap();
    let (program, args) = harness.split_command().unwrap();
    assert_eq!(program, "node");
    assert_eq!(
        args,
        vec![
            "./my agent/index.js".to_string(),
            "--name=a b".to_string(),
            "c d".to_string()
        ]
    );
}

#[test]
fn a_command_of_nothing_but_a_comment_is_empty() {
    let harness = AcpHarness::new(Some("# no agent".into())).unwrap();
    let err = harness.split_command().unwrap_err();
    let (label, reason) = assert_harness_setup_failed(&err);
    assert_eq!(label, "acp");
    assert_eq!(reason, "ACP `command` is empty after parsing");
}

#[test]
fn command_line_takes_the_first_word_for_the_program() {
    let words = vec!["a".to_string(), "b".to_string(), "c".to_string()];
    let (program, args) = command_line(Some(words), "a b c").unwrap();
    assert_eq!(program, "a");
    assert_eq!(args, vec!["b".to_string(), "c".to_string()]);
    assert!(command_line(Some(Vec::new()), "").is_err());
    assert!(command_line(None, "'").is_err());
}

#[test]
fn a_runner_launches_what_the_command_names() {
    let harness = AcpHarness::new(Some("agent -v".into())).unwrap();
    let mut runner = harness.build_runner("hello", "/work").unwrap();
    let launch = runner.start("block-1");
    assert_eq!(
        launch,
        Launch {
            program: "agent".to_string(),
            args: vec!["-v".to_string()],
            prompt: "hello".to_string(),
            working_dir: "/work".to_string(),
        }
    );
    let broken = AcpHarness::new(Some("agent \"".into())).unwrap();
    assert!(broken.build_runner("hello", "/work").is_err());
}

#[test]
fn a_run_is_told_to_stop_once() {
    let harness = AcpHarness::new(Some("agent".into())).unwrap();
    let mut runner = harness.build_runner("hello", "/work").unwrap();
    assert_eq!(runner.exit(), ExitStep::NotStarted);
    let _ = runner.start("block-1");
    assert_eq!(runner.exit(), ExitStep::SendCancel);
    assert_eq!(runner.exit(), ExitStep::Nothing);
    assert_eq!(runner.exit(), ExitStep::Nothing);
}

#[test]
fn a_failed_session_has_exit_code_one() {
    assert_eq!(exit_code(&Ok(())), 0);
    let failed = Err(AcpError::new("no".to_string()));
    assert_eq!(exit_code(&failed), 1);
}
