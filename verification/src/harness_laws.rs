//! What holds of harnesses and runs, whatever they are made with.
//!
//! In each law `r` is what the function that it speaks of returns.
use vstd::prelude::*;
use crate::error::AcpError;
use crate::harness::{
    command_line, shell_split, AcpHarness, AgentDriverError, CLIAgent, Harness,
};
use crate::runner::{
    exit_code, AcpHarnessRunner, AcpRunnerState, ExitStep, Launch, RunnerStateView,
};
use crate::text::is_white_space;

verus! {

/// `e` says that the harness `acp` cannot be set up, for the reason `reason`.
pub open spec fn cannot_set_up(e: AgentDriverError, reason: Seq<char>) -> bool {
    match e {
        AgentDriverError::HarnessSetupFailed { harness, reason: given } => harness@ == "acp"@
            && given@ == reason,
    }
}

/// `list` holds the texts `wanted`, one by one.
pub open spec fn holds_texts(list: Vec<String>, wanted: Seq<Seq<char>>) -> bool {
    &&& list@.len() == wanted.len()
    &&& forall|i: int| 0 <= i < wanted.len() ==> (#[trigger] list@[i])@ == wanted[i]
}

/// A harness keeps its command as it is; without a command in which something can be seen there
/// is no harness.
pub proof fn law_harness_keeps_its_command(
    command: Option<String>,
    r: Result<AcpHarness, AgentDriverError>,
)
    requires
        call_ensures(AcpHarness::new, (command,), r),
    ensures
        ({
            let seen = command matches Some(given) && exists|i: int|
                0 <= i < given@.len() && !is_white_space(#[trigger] given@[i]);
            match r {
                Ok(harness) => seen && (command matches Some(given) && harness@ == given@),
                Err(e) => !seen && cannot_set_up(
                    e,
                    "ACP harness requires a `command` to be set in the agent harness config (e.g. `harness.command = \"my-acp-agent\"`)."@,
                ),
            }
        }),
{
}

/// The first word of a command is its program, and the others are its arguments, in their order.
pub proof fn law_words_are_program_and_arguments(
    words: Option<Vec<String>>,
    command: &str,
    r: Result<(String, Vec<String>), AgentDriverError>,
)
    requires
        call_ensures(command_line, (words, command), r),
    ensures
        match words {
            Some(words) => if words@.len() > 0 {
                &&& r matches Ok((program, args))
                &&& program@ == words@[0]@
                &&& args@.len() == words@.len() - 1
                &&& forall|i: int|
                    0 <= i < args@.len() ==> (#[trigger] args@[i])@ == words@[i + 1]@
            } else {
                r matches Err(e) && cannot_set_up(e, "ACP `command` is empty after parsing"@)
            },
            None => r matches Err(e) && cannot_set_up(
                e,
                "ACP `command` is not a valid shell expression: "@ + command@,
            ),
        },
{
    if let Some(words) = words {
        let views = words@.map_values(|s: String| s@);
        if words@.len() > 0 {
            assert(views[0] == words@[0]@);
            if let Ok((_, args)) = r {
                let given = args@.map_values(|s: String| s@);
                assert(given =~= views.drop_first());
                assert forall|i: int| 0 <= i < args@.len() implies (#[trigger] args@[i])@
                    == words@[i + 1]@ by {
                    assert(given[i] == views.drop_first()[i]);
                    assert(views[i + 1] == words@[i + 1]@);
                }
            }
        }
    }
}

/// `split` is what becomes of the words of `command`.
pub open spec fn splits(
    command: Seq<char>,
    split: Result<(String, Vec<String>), AgentDriverError>,
) -> bool {
    match shell_split(command) {
        Some(words) => if words.len() > 0 {
            &&& split matches Ok((program, args))
            &&& program@ == words[0]
            &&& holds_texts(args, words.skip(1))
        } else {
            split matches Err(e) && cannot_set_up(e, "ACP `command` is empty after parsing"@)
        },
        None => split matches Err(e) && cannot_set_up(
            e,
            "ACP `command` is not a valid shell expression: "@ + command,
        ),
    }
}

/// The command of a harness is split as a shell would.
pub proof fn law_command_is_split_as_by_a_shell(
    harness: &AcpHarness,
    r: Result<(String, Vec<String>), AgentDriverError>,
)
    requires
        call_ensures(AcpHarness::split_command, (harness,), r),
    ensures
        splits(harness@, r),
{
    if let Some(words) = shell_split(harness@) {
        if words.len() > 0 {
            assert(words.drop_first() =~= words.skip(1));
            if let Ok((_, args)) = r {
                let given = args@.map_values(|s: String| s@);
                assert(given =~= words.skip(1));
                assert forall|i: int| 0 <= i < words.skip(1).len() implies (
                #[trigger] args@[i])@ == words.skip(1)[i] by {
                    assert(given[i] == args@[i]@);
                }
            }
        }
    }
}

/// A command is valid where it names a program and that program was found; otherwise it is said
/// what is wrong with it.
pub proof fn law_valid_command_names_a_program(
    harness: &AcpHarness,
    found: bool,
    r: Result<(), AgentDriverError>,
    split: Result<(String, Vec<String>), AgentDriverError>,
)
    requires
        call_ensures(AcpHarness::validate, (harness, found), r),
        call_ensures(AcpHarness::split_command, (harness,), split),
    ensures
        r is Ok <==> split is Ok && found,
        match (r, split) {
            (Err(e), Err(cause)) => e@ == cause@,
            (Err(e), Ok((program, _))) => cannot_set_up(
                e,
                "ACP agent binary '"@ + program@
                    + "' was not found on PATH. Verify your `harness.command` setting points to a valid executable."@,
            ),
            _ => true,
        },
{
}

/// A run is made of the command's program and arguments, the whole prompt and the working
/// directory, and has not begun; where the command cannot be split there is none.
pub proof fn law_run_is_made_of_the_command(
    harness: &AcpHarness,
    prompt: &str,
    working_dir: &str,
    r: Result<AcpHarnessRunner, AgentDriverError>,
    split: Result<(String, Vec<String>), AgentDriverError>,
)
    requires
        call_ensures(AcpHarness::build_runner, (harness, prompt, working_dir), r),
        call_ensures(AcpHarness::split_command, (harness,), split),
    ensures
        match split {
            Ok((program, args)) => {
                &&& r matches Ok(run)
                &&& run@.program == program@
                &&& holds_texts(args, run@.args)
                &&& run@.prompt == prompt@
                &&& run@.working_dir == working_dir@
                &&& run@.state is Preexec
            },
            Err(cause) => r matches Err(e) && e@ == cause@,
        },
{
    if let (Ok((_, args)), Ok(run)) = (split, r) {
        let given = args@.map_values(|s: String| s@);
        assert(given =~= run@.args);
        assert forall|i: int| 0 <= i < run@.args.len() implies (#[trigger] args@[i])@
            == run@.args[i] by {
            assert(given[i] == args@[i]@);
        }
    }
}

/// A reason is told with the harness that it concerns.
pub proof fn law_errors_are_told_in_full(harness: String, reason: String)
    ensures
        (AgentDriverError::HarnessSetupFailed { harness, reason })@ == (harness@, reason@),
{
}

/// The harness is of its own kind, and its agent is none of the known ones.
pub proof fn law_kind_of_harness(harness: &AcpHarness, kind: Harness, agent: CLIAgent)
    requires
        call_ensures(AcpHarness::harness, (harness,), kind),
        call_ensures(AcpHarness::cli_agent, (harness,), agent),
    ensures
        kind is Acp,
        agent is Unknown,
{
}

/// A run launches what it was made with, and is from then on one that can be stopped.
pub proof fn law_run_launches_what_it_was_made_with(
    program: String,
    args: Vec<String>,
    prompt: &str,
    working_dir: &str,
    made: AcpHarnessRunner,
    run: &mut AcpHarnessRunner,
    block_id: &str,
    r: Launch,
)
    requires
        call_ensures(AcpHarnessRunner::new, (program, args, prompt, working_dir), made),
        call_ensures(AcpHarnessRunner::start, (run, block_id), r),
        *old(run) == made,
    ensures
        r.program@ == program@,
        r.args@.len() == args@.len(),
        forall|i: int| 0 <= i < args@.len() ==> (#[trigger] r.args@[i])@ == args@[i]@,
        r.prompt@ == prompt@,
        r.working_dir@ == working_dir@,
        final(run)@.state == (RunnerStateView::Running {
            block_id: block_id@,
            cancel_armed: true,
        }),
{
    let wanted = args@.map_values(|s: String| s@);
    let given = r.args@.map_values(|s: String| s@);
    assert(given =~= wanted);
    assert forall|i: int| 0 <= i < args@.len() implies (#[trigger] r.args@[i])@ == args@[i]@ by {
        assert(given[i] == wanted[i]);
    }
}

/// Starting and ending a run leave what it was made with as it is, so that a run which is started
/// again, at whatever point, launches the same.
pub proof fn law_run_stays_what_it_is(
    run: &mut AcpHarnessRunner,
    block_id: &str,
    launch: Launch,
    ending: &mut AcpHarnessRunner,
    step: ExitStep,
    again: &mut AcpHarnessRunner,
    next_block_id: &str,
    next: Launch,
)
    requires
        call_ensures(AcpHarnessRunner::start, (run, block_id), launch),
        call_ensures(AcpHarnessRunner::exit, (ending,), step),
        call_ensures(AcpHarnessRunner::start, (again, next_block_id), next),
        *old(ending) == *final(run),
        *old(again) == *final(ending),
    ensures
        launch.program@ == old(run)@.program && launch.prompt@ == old(run)@.prompt
            && launch.working_dir@ == old(run)@.working_dir && holds_texts(
            launch.args,
            old(run)@.args,
        ),
        next.program@ == launch.program@ && next.prompt@ == launch.prompt@ && next.working_dir@
            == launch.working_dir@ && holds_texts(next.args, old(run)@.args),
        final(again)@.state == (RunnerStateView::Running {
            block_id: next_block_id@,
            cancel_armed: true,
        }),
{
    let wanted = old(run)@.args;
    let given = launch.args@.map_values(|s: String| s@);
    let given_next = next.args@.map_values(|s: String| s@);
    assert(given =~= wanted);
    assert(given_next =~= wanted);
    assert forall|i: int| 0 <= i < wanted.len() implies (#[trigger] launch.args@[i])@
        == wanted[i] by {
        assert(given[i] == wanted[i]);
    }
    assert forall|i: int| 0 <= i < wanted.len() implies (#[trigger] next.args@[i])@
        == wanted[i] by {
        assert(given_next[i] == wanted[i]);
    }
}

/// A run that was started is told to stop once, however often it is to end; one that was not
/// started is not, and can still be started.
pub proof fn law_run_is_stopped_once(
    run: &mut AcpHarnessRunner,
    block_id: &str,
    launch: Launch,
    once: &mut AcpHarnessRunner,
    step: ExitStep,
    twice: &mut AcpHarnessRunner,
    again: ExitStep,
    early: &mut AcpHarnessRunner,
    early_step: ExitStep,
)
    requires
        call_ensures(AcpHarnessRunner::start, (run, block_id), launch),
        call_ensures(AcpHarnessRunner::exit, (once,), step),
        call_ensures(AcpHarnessRunner::exit, (twice,), again),
        call_ensures(AcpHarnessRunner::exit, (early,), early_step),
        *old(once) == *final(run),
        *old(twice) == *final(once),
        old(early)@.state is Preexec,
    ensures
        step is SendCancel,
        again is Nothing,
        final(once)@.state is Finished,
        final(twice)@ == final(once)@,
        early_step is NotStarted,
        final(early)@ == old(early)@,
{
}

/// The state of a run stands for what it holds.
pub proof fn law_states_are_what_they_hold(block_id: String, cancel_armed: bool)
    ensures
        AcpRunnerState::Preexec@ is Preexec,
        AcpRunnerState::Finished@ is Finished,
        (AcpRunnerState::Running { block_id, cancel_armed })@ == (RunnerStateView::Running {
            block_id: block_id@,
            cancel_armed,
        }),
{
}

/// A session that went well ends in zero, and one that failed in one.
pub proof fn law_exit_code_tells_success(outcome: &Result<(), AcpError>, r: i32)
    requires
        call_ensures(exit_code, (outcome,), r),
    ensures
        outcome is Ok ==> r == 0,
        outcome is Err ==> r == 1,
{
}

} // verus!
