//! One run of an agent: from being set up to its session being over.
use vstd::prelude::*;
use crate::client::texts;
use crate::error::AcpError;

verus! {

/// How far a run has come.
pub enum RunnerStateView {
    Preexec,
    Running { block_id: Seq<char>, cancel_armed: bool },
    Finished,
}

/// How far a run has come.
#[derive(Debug)]
pub enum AcpRunnerState {
    /// The run has not been started.
    Preexec,
    /// The session is in flight. Where `cancel_armed` holds, it can still be told to stop.
    Running { block_id: String, cancel_armed: bool },
    /// The session is over, or has been told to stop.
    Finished,
}

impl View for AcpRunnerState {
    type V = RunnerStateView;

    open spec fn view(&self) -> RunnerStateView {
        match self {
            AcpRunnerState::Preexec => RunnerStateView::Preexec,
            AcpRunnerState::Running { block_id, cancel_armed } => RunnerStateView::Running {
                block_id: block_id@,
                cancel_armed: *cancel_armed,
            },
            AcpRunnerState::Finished => RunnerStateView::Finished,
        }
    }
}

/// What a run is.
pub struct RunnerView {
    pub program: Seq<char>,
    pub args: Seq<Seq<char>>,
    pub prompt: Seq<char>,
    pub working_dir: Seq<char>,
    pub state: RunnerStateView,
}

/// One run of an agent.
#[derive(Debug)]
pub struct AcpHarnessRunner {
    program: String,
    args: Vec<String>,
    prompt: String,
    working_dir: String,
    state: AcpRunnerState,
}

impl View for AcpHarnessRunner {
    type V = RunnerView;

    closed spec fn view(&self) -> RunnerView {
        RunnerView {
            program: self.program@,
            args: texts(self.args@),
            prompt: self.prompt@,
            working_dir: self.working_dir@,
            state: self.state@,
        }
    }
}

/// What it takes to launch the agent and to drive its session.
#[derive(Debug, PartialEq)]
pub struct Launch {
    pub program: String,
    pub args: Vec<String>,
    pub prompt: String,
    pub working_dir: String,
}

/// What is to be done when a run is to end.
#[derive(Debug, Clone, Copy, PartialEq, Eq, Structural)]
pub enum ExitStep {
    /// Tell the session to stop.
    SendCancel,
    /// Nothing, for the run was never started.
    NotStarted,
    /// Nothing.
    Nothing,
}

/// What is to be done when a run in the state `state` is to end, and its state from then on.
pub open spec fn exit_step(state: RunnerStateView) -> (ExitStep, RunnerStateView) {
    match state {
        RunnerStateView::Preexec => (ExitStep::NotStarted, RunnerStateView::Preexec),
        RunnerStateView::Running { cancel_armed, .. } => (
            if cancel_armed {
                ExitStep::SendCancel
            } else {
                ExitStep::Nothing
            },
            RunnerStateView::Finished,
        ),
        RunnerStateView::Finished => (ExitStep::Nothing, RunnerStateView::Finished),
    }
}

fn copy_strings(list: &Vec<String>) -> (r: Vec<String>)
    ensures
        texts(r@) == texts(list@),
{
    let mut out: Vec<String> = Vec::new();
    let mut i: usize = 0;
    while i < list.len()
        invariant
            i <= list.len(),
            out.len() == i,
            forall|k: int| 0 <= k < i ==> #[trigger] out@[k]@ == list@[k]@,
        decreases list.len() - i,
    {
        out.push(list[i].clone());
        i += 1;
    }
    assert(texts(out@) =~= texts(list@));
    out
}

impl AcpHarnessRunner {
    /// A run that has not been started.
    pub fn new(program: String, args: Vec<String>, prompt: &str, working_dir: &str) -> (r:
        AcpHarnessRunner)
        ensures
            r@ == (RunnerView {
                program: program@,
                args: texts(args@),
                prompt: prompt@,
                working_dir: working_dir@,
                state: RunnerStateView::Preexec,
            }),
    {
        AcpHarnessRunner {
            program,
            args,
            prompt: prompt.to_string(),
            working_dir: working_dir.to_string(),
            state: AcpRunnerState::Preexec,
        }
    }

    /// Starts the run, whose output is shown in the block `block_id`, and says what to launch.
    pub fn start(&mut self, block_id: &str) -> (r: Launch)
        ensures
            r.program@ == old(self)@.program,
            texts(r.args@) == old(self)@.args,
            r.prompt@ == old(self)@.prompt,
            r.working_dir@ == old(self)@.working_dir,
            final(self)@ == (RunnerView {
                state: RunnerStateView::Running { block_id: block_id@, cancel_armed: true },
                ..old(self)@
            }),
    {
        self.state = AcpRunnerState::Running {
            block_id: block_id.to_string(),
            cancel_armed: true,
        };
        Launch {
            program: self.program.clone(),
            args: copy_strings(&self.args),
            prompt: self.prompt.clone(),
            working_dir: self.working_dir.clone(),
        }
    }

    /// Ends the run: a session in flight is told to stop, once.
    pub fn exit(&mut self) -> (r: ExitStep)
        ensures
            (r, final(self)@.state) == exit_step(old(self)@.state),
            final(self)@ == (RunnerView { state: final(self)@.state, ..old(self)@ }),
    {
        let step = match self.state {
            AcpRunnerState::Preexec => {
                return ExitStep::NotStarted;
            },
            AcpRunnerState::Running { cancel_armed, .. } => if cancel_armed {
                ExitStep::SendCancel
            } else {
                ExitStep::Nothing
            },
            AcpRunnerState::Finished => ExitStep::Nothing,
        };
        self.state = AcpRunnerState::Finished;
        step
    }
}

/// The exit code of a run whose session ended so.
pub fn exit_code(outcome: &Result<(), AcpError>) -> (r: i32)
    ensures
        r == if outcome is Ok {
            0i32
        } else {
            1i32
        },
{
    match outcome {
        Ok(()) => 0,
        Err(_) => 1,
    }
}

/// Ending a run is done once: doing it again changes nothing, and nothing more is sent.
pub proof fn law_exit_is_idempotent(state: RunnerStateView)
    ensures
        ({
            let (_, once) = exit_step(state);
            let (step, twice) = exit_step(once);
            twice == once && step != ExitStep::SendCancel
        }),
{
}

} // verus!
