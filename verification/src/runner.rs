//! The decision logic of the interactive runner: what the backend's reply
//! leads to, whether the user confirmed execution, and the process exit code.
//! The console and network I/O around these decisions stays outside the
//! library and hands in plain values.

use vstd::prelude::*;

use crate::text::{spec_trim, trim};

verus! {

/// What the backend call produced: the message content of each returned
/// choice, or the error it failed with.
pub enum BackendOutcome {
    Completed(Vec<Option<String>>),
    Failed(String),
}

/// The runner's next step: propose a command and ask for confirmation, report
/// that no command was generated, or report a backend error and exit
/// non-zero. A failed backend never leads to a proposal, so no command is
/// ever executed after an error.
#[derive(Debug)]
pub enum RunnerStep {
    Propose(String),
    NoCommand,
    ReportError(String),
}

impl PartialEq for RunnerStep {
    fn eq(&self, other: &RunnerStep) -> (r: bool) {
        match (self, other) {
            (RunnerStep::Propose(a), RunnerStep::Propose(b)) => a.eq(b),
            (RunnerStep::NoCommand, RunnerStep::NoCommand) => true,
            (RunnerStep::ReportError(a), RunnerStep::ReportError(b)) => a.eq(b),
            _ => false,
        }
    }
}

impl vstd::std_specs::cmp::PartialEqSpecImpl for RunnerStep {
    open spec fn obeys_eq_spec() -> bool {
        true
    }

    open spec fn eq_spec(&self, other: &RunnerStep) -> bool {
        self@ == other@
    }
}

/// The mathematical shape of a runner step.
pub enum StepView {
    Propose(Seq<char>),
    NoCommand,
    ReportError(Seq<char>),
}

impl View for RunnerStep {
    type V = StepView;

    open spec fn view(&self) -> StepView {
        match self {
            RunnerStep::Propose(cmd) => StepView::Propose(cmd@),
            RunnerStep::NoCommand => StepView::NoCommand,
            RunnerStep::ReportError(msg) => StepView::ReportError(msg@),
        }
    }
}

/// The trimmed content of the first returned choice, or nothing when the
/// backend returned no choices or a choice without a message.
pub open spec fn spec_extract(choices: Seq<Option<String>>) -> Option<Seq<char>> {
    if choices.len() > 0 && choices[0] is Some {
        Some(spec_trim(choices[0]->0@))
    } else {
        None
    }
}

/// Take the first choice's message content, trimmed. An empty choice list is
/// not an error: it yields nothing.
pub fn extract_command(choices: &Vec<Option<String>>) -> (r: Option<String>)
    ensures
        match r {
            Some(t) => spec_extract(choices@) == Some(t@),
            None => spec_extract(choices@) is None,
        },
{
    if choices.len() == 0 {
        return None;
    }
    match &choices[0] {
        Some(content) => Some(trim(content.as_str())),
        None => None,
    }
}

/// The step the runner takes for a backend outcome: a non-empty trimmed first
/// choice is proposed for confirmation; an empty or missing one means no
/// command was generated; a failure is reported as an error.
pub open spec fn spec_plan(o: BackendOutcome) -> StepView {
    match o {
        BackendOutcome::Completed(choices) => match spec_extract(choices@) {
            Some(t) => if t.len() > 0 {
                StepView::Propose(t)
            } else {
                StepView::NoCommand
            },
            None => StepView::NoCommand,
        },
        BackendOutcome::Failed(msg) => StepView::ReportError(msg@),
    }
}

/// Decide the runner's next step from the backend outcome.
pub fn plan_from_outcome(outcome: BackendOutcome) -> (r: RunnerStep)
    ensures
        r@ == spec_plan(outcome),
{
    match outcome {
        BackendOutcome::Completed(choices) => match extract_command(&choices) {
            Some(t) => {
                if t.as_str().is_empty() {
                    RunnerStep::NoCommand
                } else {
                    RunnerStep::Propose(t)
                }
            },
            None => RunnerStep::NoCommand,
        },
        BackendOutcome::Failed(msg) => RunnerStep::ReportError(msg),
    }
}

/// A confirmation line accepts execution exactly when, trimmed, it is a
/// single `y` in either case.
pub open spec fn spec_confirms(s: Seq<char>) -> bool {
    spec_trim(s) == seq!['y'] || spec_trim(s) == seq!['Y']
}

/// Whether a confirmation console line approves running the command.
pub fn confirm_execution(input: &str) -> (r: bool)
    ensures
        r == spec_confirms(input@),
{
    let t = trim(input);
    let ts = t.as_str();
    let n = ts.unicode_len();
    if n != 1 {
        proof {
            assert(seq!['y'].len() == 1 && seq!['Y'].len() == 1);
        }
        return false;
    }
    let c = ts.get_char(0);
    proof {
        assert(ts@ =~= seq![ts@[0]]);
    }
    c == 'y' || c == 'Y'
}

/// The process exit code of a runner step: an error exits non-zero,
/// everything else (a proposal, a cancellation, no command) exits zero.
pub fn exit_code_for(step: &RunnerStep) -> (r: i32)
    ensures
        r == 1 <==> *step is ReportError,
        r == 0 <==> !(*step is ReportError),
{
    match step {
        RunnerStep::ReportError(_) => 1,
        _ => 0,
    }
}

} // verus!
