//! The harness: an agent that is launched by a command of its own.
use vstd::prelude::*;
use crate::client::texts;
use crate::runner::{AcpHarnessRunner, RunnerStateView, RunnerView};
use crate::text::{blank, concat2, concat3, is_blank};

verus! {

/// How the harness is called in error messages.
pub const ACP_HARNESS_LABEL: &'static str = "acp";

/// Why an agent cannot be driven.
#[derive(Debug, PartialEq)]
pub enum AgentDriverError {
    /// The harness cannot be set up.
    HarnessSetupFailed { harness: String, reason: String },
}

impl View for AgentDriverError {
    type V = (Seq<char>, Seq<char>);

    open spec fn view(&self) -> (Seq<char>, Seq<char>) {
        match self {
            AgentDriverError::HarnessSetupFailed { harness, reason } => (harness@, reason@),
        }
    }
}

/// The kinds of harness.
#[derive(Debug, Clone, Copy, PartialEq, Eq, Structural)]
pub enum Harness {
    Acp,
    Oz,
}

/// The command-line agents whose session state a harness may share.
#[derive(Debug, Clone, Copy, PartialEq, Eq, Structural)]
pub enum CLIAgent {
    Unknown,
}

/// What `shlex::split` makes of a text: its words, or nothing where a quotation or an escape
/// is left open.
pub uninterp spec fn shell_split(text: Seq<char>) -> Option<Seq<Seq<char>>>;

/// Splits a text into words by the rules of the POSIX shell.
///
/// Believed of `shlex::split`: what comes back is determined by the text.
pub assume_specification[ shlex::split ](in_str: &str) -> (r: Option<Vec<String>>)
    ensures
        match r {
            Some(words) => shell_split(in_str@) == Some(texts(words@)),
            None => shell_split(in_str@) is None,
        },
;

/// The reason why there is no harness without a command.
pub open spec fn no_command() -> Seq<char> {
    "ACP harness requires a `command` to be set in the agent harness config (e.g. `harness.command = \"my-acp-agent\"`)."@
}

/// The program and the arguments that a command's words name, or why they name none.
pub open spec fn program_and_args(words: Option<Seq<Seq<char>>>, command: Seq<char>) -> Result<
    (Seq<char>, Seq<Seq<char>>),
    Seq<char>,
> {
    match words {
        None => Err("ACP `command` is not a valid shell expression: "@ + command),
        Some(words) => if words.len() == 0 {
            Err("ACP `command` is empty after parsing"@)
        } else {
            Ok((words.first(), words.drop_first()))
        },
    }
}

/// The reason why a program that is nowhere to be found will not do.
pub open spec fn not_found(program: Seq<char>) -> Seq<char> {
    "ACP agent binary '"@ + program
        + "' was not found on PATH. Verify your `harness.command` setting points to a valid executable."@
}

/// Why a command will not do, if it will not, given whether its program was found.
pub open spec fn validation(
    split: Result<(Seq<char>, Seq<Seq<char>>), Seq<char>>,
    found: bool,
) -> Result<(), Seq<char>> {
    match split {
        Err(reason) => Err(reason),
        Ok((program, _)) => if found {
            Ok(())
        } else {
            Err(not_found(program))
        },
    }
}

fn setup_failed(reason: &str) -> (r: AgentDriverError)
    ensures
        r@ == (ACP_HARNESS_LABEL@, reason@),
{
    AgentDriverError::HarnessSetupFailed {
        harness: ACP_HARNESS_LABEL.to_string(),
        reason: reason.to_string(),
    }
}

/// The program and the arguments that the words of `command` name.
pub fn command_line(words: Option<Vec<String>>, command: &str) -> (r: Result<
    (String, Vec<String>),
    AgentDriverError,
>)
    ensures
        ({
            let views = match words {
                Some(words) => Some(texts(words@)),
                None => None,
            };
            match r {
                Ok((program, args)) => program_and_args(views, command@) == Ok::<
                    (Seq<char>, Seq<Seq<char>>),
                    Seq<char>,
                >((program@, texts(args@))),
                Err(e) => e@.0 == ACP_HARNESS_LABEL@ && program_and_args(views, command@) == Err::<
                    (Seq<char>, Seq<Seq<char>>),
                    Seq<char>,
                >(e@.1),
            }
        }),
{
    match words {
        None => {
            let reason = concat2("ACP `command` is not a valid shell expression: ", command);
            Err(setup_failed(reason.as_str()))
        },
        Some(words) => {
            if words.len() == 0 {
                return Err(setup_failed("ACP `command` is empty after parsing"));
            }
            let ghost views = texts(words@);
            let mut args = words;
            let program = args.remove(0);
            assert(texts(args@) =~= views.drop_first());
            Ok((program, args))
        },
    }
}

/// An agent that is launched by a command, which is split into words as a shell would.
#[derive(Debug)]
pub struct AcpHarness {
    command: String,
}

impl View for AcpHarness {
    type V = Seq<char>;

    closed spec fn view(&self) -> Seq<char> {
        self.command@
    }
}

impl AcpHarness {
    /// The harness for a command; there is none without a command, or for a blank one.
    pub fn new(command: Option<String>) -> (r: Result<AcpHarness, AgentDriverError>)
        ensures
            match command {
                Some(command) => if is_blank(command@) {
                    r matches Err(e) && e@ == (ACP_HARNESS_LABEL@, no_command())
                } else {
                    r matches Ok(harness) && harness@ == command@
                },
                None => r matches Err(e) && e@ == (ACP_HARNESS_LABEL@, no_command()),
            },
    {
        match command {
            Some(command) => if !blank(command.as_str()) {
                return Ok(AcpHarness { command });
            },
            None => {},
        }
        Err(
            setup_failed(
                "ACP harness requires a `command` to be set in the agent harness config (e.g. `harness.command = \"my-acp-agent\"`).",
            ),
        )
    }

    /// The program and the arguments that the command names.
    pub fn split_command(&self) -> (r: Result<(String, Vec<String>), AgentDriverError>)
        ensures
            match r {
                Ok((program, args)) => program_and_args(shell_split(self@), self@) == Ok::<
                    (Seq<char>, Seq<Seq<char>>),
                    Seq<char>,
                >((program@, texts(args@))),
                Err(e) => e@.0 == ACP_HARNESS_LABEL@ && program_and_args(shell_split(self@), self@)
                    == Err::<(Seq<char>, Seq<Seq<char>>), Seq<char>>(e@.1),
            },
    {
        command_line(shlex::split(self.command.as_str()), self.command.as_str())
    }

    pub fn harness(&self) -> (r: Harness)
        ensures
            r == Harness::Acp,
    {
        Harness::Acp
    }

    /// Such an agent shares no session state with a known one.
    pub fn cli_agent(&self) -> (r: CLIAgent)
        ensures
            r == CLIAgent::Unknown,
    {
        CLIAgent::Unknown
    }

    /// Tells whether the command will do, given whether the program that it names was found
    /// as an executable.
    pub fn validate(&self, found: bool) -> (r: Result<(), AgentDriverError>)
        ensures
            match r {
                Ok(()) => validation(program_and_args(shell_split(self@), self@), found) is Ok,
                Err(e) => e@.0 == ACP_HARNESS_LABEL@ && validation(
                    program_and_args(shell_split(self@), self@),
                    found,
                ) == Err::<(), Seq<char>>(e@.1),
            },
    {
        match self.split_command() {
            Err(e) => Err(e),
            Ok((program, _)) => if found {
                Ok(())
            } else {
                let reason = concat3(
                    "ACP agent binary '",
                    program.as_str(),
                    "' was not found on PATH. Verify your `harness.command` setting points to a valid executable.",
                );
                Err(setup_failed(reason.as_str()))
            },
        }
    }

    /// A run of the agent that has not begun yet.
    pub fn build_runner(&self, prompt: &str, working_dir: &str) -> (r: Result<
        AcpHarnessRunner,
        AgentDriverError,
    >)
        ensures
            match program_and_args(shell_split(self@), self@) {
                Ok((program, args)) => r matches Ok(runner) && runner@ == (RunnerView {
                    program,
                    args,
                    prompt: prompt@,
                    working_dir: working_dir@,
                    state: RunnerStateView::Preexec,
                }),
                Err(reason) => r matches Err(e) && e@ == (ACP_HARNESS_LABEL@, reason),
            },
    {
        match self.split_command() {
            Ok((program, args)) => Ok(AcpHarnessRunner::new(program, args, prompt, working_dir)),
            Err(e) => Err(e),
        }
    }
}

/// A command that is found valid names a program that was found, and a run can be built of it.
pub proof fn law_valid_command_can_be_run(command: Seq<char>, found: bool)
    ensures
        validation(program_and_args(shell_split(command), command), found) is Ok <==> found
            && program_and_args(shell_split(command), command) is Ok,
{
}

} // verus!
