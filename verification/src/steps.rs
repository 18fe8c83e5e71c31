//! Running the steps of a phase: which command to launch next, and what the
//! end of a command means for the rest.
//!
//! The library launches nothing itself. It says what to launch; whoever
//! drives it launches that, waits for its end, and reports what came of it.

use crate::structures::Step;
use vstd::prelude::*;
use vstd::string::*;

verus! {

/// The environment variable that tells a step where the artifact lies.
pub const ARTIFACT_VARIABLE: &'static str = "ROPP_RBXMX";

/// The texts of a list of strings.
pub open spec fn texts(list: Seq<String>) -> Seq<Seq<char>> {
    Seq::new(list.len(), |i: int| list[i]@)
}

/// The texts of a list of steps.
pub open spec fn step_texts(steps: Seq<Step>) -> Seq<Seq<Seq<char>>> {
    Seq::new(steps.len(), |i: int| texts(steps[i]@))
}

/// A command to launch: the program and its arguments, the directory to
/// run it in, and the path of the artifact, which the command finds in its
/// environment under `ARTIFACT_VARIABLE`.
#[derive(Debug, PartialEq, Eq)]
pub struct Command {
    pub program: String,
    pub arguments: Vec<String>,
    pub working_directory: String,
    pub artifact_path: String,
}

/// A `Command` with its texts as sequences of characters.
pub struct CommandView {
    pub program: Seq<char>,
    pub arguments: Seq<Seq<char>>,
    pub working_directory: Seq<char>,
    pub artifact_path: Seq<char>,
}

impl View for Command {
    type V = CommandView;

    open spec fn view(&self) -> CommandView {
        CommandView {
            program: self.program@,
            arguments: texts(self.arguments@),
            working_directory: self.working_directory@,
            artifact_path: self.artifact_path@,
        }
    }
}

/// The command that a step stands for: its first token is the program, the
/// rest are the arguments.
pub open spec fn command_of(
    step: Seq<Seq<char>>,
    working_directory: Seq<char>,
    artifact_path: Seq<char>,
) -> CommandView
    recommends
        step.len() > 0,
{
    CommandView {
        program: step[0],
        arguments: step.skip(1),
        working_directory,
        artifact_path,
    }
}

/// How a launched command ended.
#[derive(Clone, Copy, Debug, PartialEq, Eq)]
pub struct ExitStatus {
    /// Whether the command reported success.
    pub success: bool,
    /// The exit code, where the command ended with one.
    pub code: Option<i32>,
}

/// What came of one step.
#[derive(Debug, PartialEq, Eq)]
pub enum StepOutcome {
    /// The command could not be launched; the text says why.
    NotLaunched(String),
    /// The command ran and ended.
    Exited(ExitStatus),
}

/// A `StepOutcome` with its text as a sequence of characters.
pub enum StepOutcomeView {
    NotLaunched(Seq<char>),
    Exited(ExitStatus),
}

impl View for StepOutcome {
    type V = StepOutcomeView;

    open spec fn view(&self) -> StepOutcomeView {
        match *self {
            StepOutcome::NotLaunched(reason) => StepOutcomeView::NotLaunched(reason@),
            StepOutcome::Exited(status) => StepOutcomeView::Exited(status),
        }
    }
}

/// Why a run of steps stopped early.
#[derive(Debug, PartialEq, Eq)]
pub enum RunStepError {
    /// A command ran and did not report success; its status is kept as it
    /// came.
    BadExit(ExitStatus),
    /// A command could not be launched.
    ExecuteError(String),
}

/// A `RunStepError` with its text as a sequence of characters.
pub enum RunStepErrorView {
    BadExit(ExitStatus),
    ExecuteError(Seq<char>),
}

impl View for RunStepError {
    type V = RunStepErrorView;

    open spec fn view(&self) -> RunStepErrorView {
        match *self {
            RunStepError::BadExit(status) => RunStepErrorView::BadExit(status),
            RunStepError::ExecuteError(reason) => RunStepErrorView::ExecuteError(reason@),
        }
    }
}

/// What one outcome means: nothing where the command reported success, and
/// else the error that stops the run.
pub open spec fn judgement(outcome: StepOutcomeView) -> Option<RunStepErrorView> {
    match outcome {
        StepOutcomeView::NotLaunched(reason) => Some(RunStepErrorView::ExecuteError(reason)),
        StepOutcomeView::Exited(status) => if status.success {
            None
        } else {
            Some(RunStepErrorView::BadExit(status))
        },
    }
}

/// Judges one outcome: a command that could not be launched gives
/// `ExecuteError`, one that ended without success gives `BadExit` with the
/// status as it came, and one that succeeded gives nothing.
pub fn judge(outcome: StepOutcome) -> (error: Option<RunStepError>)
    ensures
        match error {
            Some(e) => judgement(outcome@) == Some(e@),
            None => judgement(outcome@) is None,
        },
{
    match outcome {
        StepOutcome::NotLaunched(reason) => Some(RunStepError::ExecuteError(reason)),
        StepOutcome::Exited(status) => if status.success {
            None
        } else {
            Some(RunStepError::BadExit(status))
        },
    }
}

/// Makes the command that a step stands for.
pub fn command_for(step: &Step, relative_path: &str, tmp: &str) -> (command: Command)
    requires
        step@.len() > 0,
    ensures
        command@ == command_of(texts(step@), relative_path@, tmp@),
{
    let mut arguments: Vec<String> = Vec::new();
    let mut i: usize = 1;
    while i < step.len()
        invariant
            1 <= i <= step@.len(),
            arguments@.len() == i - 1,
            forall|j: int| 0 <= j < arguments@.len() ==> arguments@[j]@ == step@[j + 1]@,
        decreases step@.len() - i,
    {
        arguments.push(step[i].clone());
        i += 1;
    }
    let command = Command {
        program: step[0].clone(),
        arguments,
        working_directory: String::from_str(relative_path),
        artifact_path: String::from_str(tmp),
    };
    assert(command@.arguments =~= texts(step@).skip(1));
    command
}

/// What the driver of a run has to do next.
#[derive(Debug, PartialEq, Eq)]
pub enum StepAction {
    /// Launch this command, wait for its end, and report what came of it.
    Launch(Command),
    /// The run is over: every step succeeded, or one stopped it.
    Finished(Result<(), RunStepError>),
}

/// A `StepAction` with its texts as sequences of characters.
pub enum StepActionView {
    Launch(CommandView),
    Finished(Result<(), RunStepErrorView>),
}

impl View for StepAction {
    type V = StepActionView;

    open spec fn view(&self) -> StepActionView {
        match *self {
            StepAction::Launch(command) => StepActionView::Launch(command@),
            StepAction::Finished(Ok(())) => StepActionView::Finished(Ok(())),
            StepAction::Finished(Err(error)) => StepActionView::Finished(Err(error@)),
        }
    }
}

/// Whether every step of a list names a program.
pub open spec fn all_runnable(steps: Seq<Seq<Seq<char>>>) -> bool {
    forall|i: int| 0 <= i < steps.len() ==> (#[trigger] steps[i]).len() > 0
}

/// What to do once the first `done` steps have succeeded: launch the next
/// step, or finish with success where none is left.
pub open spec fn action_after(
    steps: Seq<Seq<Seq<char>>>,
    done: int,
    working_directory: Seq<char>,
    artifact_path: Seq<char>,
) -> StepActionView {
    if 0 <= done < steps.len() {
        StepActionView::Launch(command_of(steps[done], working_directory, artifact_path))
    } else {
        StepActionView::Finished(Ok(()))
    }
}

/// What to do once the step at `index` has ended: finish with its error,
/// or go on behind it where it succeeded.
pub open spec fn action_on(
    steps: Seq<Seq<Seq<char>>>,
    index: int,
    outcome: StepOutcomeView,
    working_directory: Seq<char>,
    artifact_path: Seq<char>,
) -> StepActionView {
    match judgement(outcome) {
        Some(error) => StepActionView::Finished(Err(error)),
        None => action_after(steps, index + 1, working_directory, artifact_path),
    }
}

/// Says what to do once the first `done` steps have succeeded.
pub fn step_after(steps: &Vec<Step>, done: usize, relative_path: &str, tmp: &str) -> (action:
    StepAction)
    requires
        all_runnable(step_texts(steps@)),
    ensures
        action@ == action_after(step_texts(steps@), done as int, relative_path@, tmp@),
{
    if done < steps.len() {
        assert(step_texts(steps@)[done as int].len() > 0);
        StepAction::Launch(command_for(&steps[done], relative_path, tmp))
    } else {
        StepAction::Finished(Ok(()))
    }
}

/// Starts a run of steps: says what to do first.
pub fn first_step(steps: &Vec<Step>, relative_path: &str, tmp: &str) -> (action: StepAction)
    requires
        all_runnable(step_texts(steps@)),
    ensures
        action@ == action_after(step_texts(steps@), 0, relative_path@, tmp@),
{
    step_after(steps, 0, relative_path, tmp)
}

/// Goes on with a run of steps once the step at `index` has ended with
/// `outcome`: the run stops at the first step that does not succeed, and
/// the steps behind it are not launched.
pub fn next_step(
    steps: &Vec<Step>,
    index: usize,
    outcome: StepOutcome,
    relative_path: &str,
    tmp: &str,
) -> (action: StepAction)
    requires
        all_runnable(step_texts(steps@)),
    ensures
        action@ == action_on(step_texts(steps@), index as int, outcome@, relative_path@, tmp@),
{
    match judge(outcome) {
        Some(error) => StepAction::Finished(Err(error)),
        None => {
            if index < steps.len() {
                step_after(steps, index + 1, relative_path, tmp)
            } else {
                StepAction::Finished(Ok(()))
            }
        },
    }
}

/// A whole run, where `outcomes[i]` is what comes of the launch number `i`:
/// the commands that are launched, in the order of their launch, and the
/// result, once the run is over. The run is still waiting where the
/// outcomes end before it does.
pub open spec fn run_from(
    steps: Seq<Seq<Seq<char>>>,
    working_directory: Seq<char>,
    artifact_path: Seq<char>,
    action: StepActionView,
    index: int,
    outcomes: Seq<StepOutcomeView>,
) -> (Seq<CommandView>, Option<Result<(), RunStepErrorView>>)
    decreases outcomes.len(),
{
    match action {
        StepActionView::Finished(result) => (Seq::empty(), Some(result)),
        StepActionView::Launch(command) => if outcomes.len() == 0 {
            (seq![command], None)
        } else {
            let rest = run_from(
                steps,
                working_directory,
                artifact_path,
                action_on(steps, index, outcomes[0], working_directory, artifact_path),
                index + 1,
                outcomes.skip(1),
            );
            (seq![command] + rest.0, rest.1)
        },
    }
}

/// A whole run from its start.
pub open spec fn run(
    steps: Seq<Seq<Seq<char>>>,
    working_directory: Seq<char>,
    artifact_path: Seq<char>,
    outcomes: Seq<StepOutcomeView>,
) -> (Seq<CommandView>, Option<Result<(), RunStepErrorView>>) {
    run_from(
        steps,
        working_directory,
        artifact_path,
        action_after(steps, 0, working_directory, artifact_path),
        0,
        outcomes,
    )
}

/// The commands of the steps from `from` up to, not including, `to`.
pub open spec fn commands_of(
    steps: Seq<Seq<Seq<char>>>,
    working_directory: Seq<char>,
    artifact_path: Seq<char>,
    from: int,
    to: int,
) -> Seq<CommandView> {
    Seq::new(
        (to - from) as nat,
        |i: int| command_of(steps[from + i], working_directory, artifact_path),
    )
}

/// From the step at `from` on, a run whose commands all succeed up to the
/// step at `stop` launches the steps in the order in which they are listed,
/// and ends with what the step at `stop` gives, or with success behind the
/// last step.
proof fn lemma_run_from(
    steps: Seq<Seq<Seq<char>>>,
    working_directory: Seq<char>,
    artifact_path: Seq<char>,
    from: int,
    stop: int,
    outcomes: Seq<StepOutcomeView>,
)
    requires
        0 <= from <= stop <= steps.len(),
        stop < steps.len() ==> outcomes.len() > stop - from && judgement(outcomes[stop - from])
            is Some,
        stop == steps.len() ==> outcomes.len() >= stop - from,
        forall|i: int| 0 <= i < stop - from ==> judgement(#[trigger] outcomes[i]) is None,
    ensures
        run_from(
            steps,
            working_directory,
            artifact_path,
            action_after(steps, from, working_directory, artifact_path),
            from,
            outcomes,
        ) == (
            commands_of(
                steps,
                working_directory,
                artifact_path,
                from,
                if stop < steps.len() {
                    stop + 1
                } else {
                    stop
                },
            ),
            Some(
                if stop < steps.len() {
                    Result::<(), RunStepErrorView>::Err(judgement(outcomes[stop - from])->0)
                } else {
                    Ok(())
                },
            ),
        ),
    decreases stop - from,
{
    let end = if stop < steps.len() {
        stop + 1
    } else {
        stop
    };
    let got = run_from(
        steps,
        working_directory,
        artifact_path,
        action_after(steps, from, working_directory, artifact_path),
        from,
        outcomes,
    );
    let want = commands_of(steps, working_directory, artifact_path, from, end);
    if from == steps.len() {
        assert(got.0 =~= want);
    } else if from == stop {
        let next = action_on(steps, from, outcomes[0], working_directory, artifact_path);
        assert(next == StepActionView::Finished(Err(judgement(outcomes[0])->0)));
        assert(run_from(
            steps,
            working_directory,
            artifact_path,
            next,
            from + 1,
            outcomes.skip(1),
        ).0 =~= Seq::<CommandView>::empty());
        assert(got.0 =~= want);
    } else {
        let rest = outcomes.skip(1);
        assert(judgement(outcomes[0]) is None);
        assert forall|i: int| 0 <= i < stop - (from + 1) implies judgement(#[trigger] rest[i])
            is None by {
            assert(rest[i] == outcomes[i + 1]);
        }
        if stop < steps.len() {
            assert(rest[stop - (from + 1)] == outcomes[stop - from]);
        }
        lemma_run_from(steps, working_directory, artifact_path, from + 1, stop, rest);
        let tail = commands_of(steps, working_directory, artifact_path, from + 1, end);
        assert(seq![command_of(steps[from], working_directory, artifact_path)] + tail =~= want);
    }
}

/// Where every command succeeds, the run launches every step, in the order
/// in which the steps are listed, and ends with success.
pub proof fn lemma_run_succeeds(
    steps: Seq<Seq<Seq<char>>>,
    working_directory: Seq<char>,
    artifact_path: Seq<char>,
    outcomes: Seq<StepOutcomeView>,
)
    requires
        outcomes.len() >= steps.len(),
        forall|i: int| 0 <= i < steps.len() ==> judgement(#[trigger] outcomes[i]) is None,
    ensures
        run(steps, working_directory, artifact_path, outcomes) == (
            commands_of(steps, working_directory, artifact_path, 0, steps.len() as int),
            Some(Result::<(), RunStepErrorView>::Ok(())),
        ),
{
    lemma_run_from(steps, working_directory, artifact_path, 0, steps.len() as int, outcomes);
}

/// Where the step at `stop` is the first whose command does not succeed,
/// the run launches the steps up to that one, in the order in which they
/// are listed, and no step behind it; it ends with the error of that step:
/// `ExecuteError` for a command that could not be launched, and `BadExit`,
/// with the status as it came, for one that ended without success.
pub proof fn lemma_run_stops(
    steps: Seq<Seq<Seq<char>>>,
    working_directory: Seq<char>,
    artifact_path: Seq<char>,
    outcomes: Seq<StepOutcomeView>,
    stop: int,
)
    requires
        0 <= stop < steps.len(),
        stop < outcomes.len(),
        judgement(outcomes[stop]) is Some,
        forall|i: int| 0 <= i < stop ==> judgement(#[trigger] outcomes[i]) is None,
    ensures
        run(steps, working_directory, artifact_path, outcomes) == (
            commands_of(steps, working_directory, artifact_path, 0, stop + 1),
            Some(Result::<(), RunStepErrorView>::Err(judgement(outcomes[stop])->0)),
        ),
        outcomes[stop] matches StepOutcomeView::Exited(status) ==> judgement(outcomes[stop])
            == Some(RunStepErrorView::BadExit(status)),
        outcomes[stop] matches StepOutcomeView::NotLaunched(reason) ==> judgement(outcomes[stop])
            == Some(RunStepErrorView::ExecuteError(reason)),
{
    lemma_run_from(steps, working_directory, artifact_path, 0, stop, outcomes);
}

} // verus!
