//! The pipeline from a configuration to a published place, as a machine
//! that decides and leaves the doing to its driver.
//!
//! The machine hands out one action at a time. The driver performs it,
//! reports what came of it as an event, and gets the next action, until the
//! action is `Finish`. Reading files, launching commands, asking the
//! operator and sending the request are the driver's part; every decision
//! between them is taken here.

use crate::credential::{check_credential, credential_check, CredentialCheck};
use crate::publish::{
    confirm_upload, upload_request, upload_request_of, upload_verdict, UploadRequest,
    UploadRequestView,
};
use crate::steps::{
    action_after, action_on, all_runnable, next_step, first_step, step_texts, Command,
    CommandView, RunStepError, RunStepErrorView, StepAction, StepActionView, StepOutcome,
    StepOutcomeView,
};
use crate::structures::{phase_steps, Config, PlaceId, RoppError, RoppErrorView, Step, Steps};
use vstd::prelude::*;
use vstd::string::*;

verus! {

/// Where the pipeline stands: what it is waiting for.
#[derive(Clone, Copy, Debug, PartialEq, Eq)]
pub enum Stage {
    /// Waiting for the content of the artifact.
    LoadingArtifact,
    /// Waiting for the temporary location that steps share.
    Staging,
    /// Waiting for the end of the step at this position, before the upload.
    RunningPre(usize),
    /// Waiting for the content that the steps have left at the temporary
    /// location.
    Rereading,
    /// Waiting for the operator to enter the credential.
    AwaitingCredential,
    /// Waiting for the answer to the upload.
    Publishing,
    /// Waiting for the end of the step at this position, after the upload.
    RunningPost(usize),
    /// Nothing is left to do.
    Done,
}

/// Why the pipeline ended without publishing, or without finishing its
/// steps.
#[derive(Debug, PartialEq, Eq)]
pub enum PipelineError {
    /// The configuration is not valid.
    Validation(RoppError),
    /// The build asked for is not listed with a place and steps.
    UnknownBuild(String),
    /// The artifact could not be read.
    ArtifactUnreadable(String),
    /// The temporary location could not be made or written.
    StagingFailed(String),
    /// The temporary location could not be read again.
    RereadFailed(String),
    /// A step stopped its run.
    Step(RunStepError),
    /// The upload failed.
    Publish(RoppError),
    /// An event came that the pipeline was not waiting for.
    UnexpectedEvent,
}

/// A `PipelineError` with its texts as sequences of characters.
pub enum PipelineErrorView {
    Validation(RoppErrorView),
    UnknownBuild(Seq<char>),
    ArtifactUnreadable(Seq<char>),
    StagingFailed(Seq<char>),
    RereadFailed(Seq<char>),
    Step(RunStepErrorView),
    Publish(RoppErrorView),
    UnexpectedEvent,
}

impl View for PipelineError {
    type V = PipelineErrorView;

    open spec fn view(&self) -> PipelineErrorView {
        match *self {
            PipelineError::Validation(error) => PipelineErrorView::Validation(error@),
            PipelineError::UnknownBuild(build) => PipelineErrorView::UnknownBuild(build@),
            PipelineError::ArtifactUnreadable(reason) => PipelineErrorView::ArtifactUnreadable(
                reason@,
            ),
            PipelineError::StagingFailed(reason) => PipelineErrorView::StagingFailed(reason@),
            PipelineError::RereadFailed(reason) => PipelineErrorView::RereadFailed(reason@),
            PipelineError::Step(error) => PipelineErrorView::Step(error@),
            PipelineError::Publish(error) => PipelineErrorView::Publish(error@),
            PipelineError::UnexpectedEvent => PipelineErrorView::UnexpectedEvent,
        }
    }
}

/// What the driver reports.
#[derive(Debug, PartialEq, Eq)]
pub enum Event {
    /// The artifact was read; this is its content.
    ArtifactLoaded(String),
    /// The artifact could not be read.
    ArtifactUnreadable(String),
    /// The content is written to a temporary location of this path.
    ArtifactStaged(String),
    /// The temporary location could not be made or written.
    StagingFailed(String),
    /// The command that was to be launched has come to this.
    StepEnded(StepOutcome),
    /// The temporary location was read again; this is its content.
    ArtifactReread(String),
    /// The temporary location could not be read again.
    RereadFailed(String),
    /// The operator entered this.
    CredentialEntered(String),
    /// The server answered with this status and this body.
    ResponseReceived(u16, String),
    /// The request could not be made, or no answer came.
    RequestFailed(String),
}

/// An `Event` with its texts as sequences of characters.
pub enum EventView {
    ArtifactLoaded(Seq<char>),
    ArtifactUnreadable(Seq<char>),
    ArtifactStaged(Seq<char>),
    StagingFailed(Seq<char>),
    StepEnded(StepOutcomeView),
    ArtifactReread(Seq<char>),
    RereadFailed(Seq<char>),
    CredentialEntered(Seq<char>),
    ResponseReceived(u16, Seq<char>),
    RequestFailed(Seq<char>),
}

impl View for Event {
    type V = EventView;

    open spec fn view(&self) -> EventView {
        match *self {
            Event::ArtifactLoaded(content) => EventView::ArtifactLoaded(content@),
            Event::ArtifactUnreadable(reason) => EventView::ArtifactUnreadable(reason@),
            Event::ArtifactStaged(path) => EventView::ArtifactStaged(path@),
            Event::StagingFailed(reason) => EventView::StagingFailed(reason@),
            Event::StepEnded(outcome) => EventView::StepEnded(outcome@),
            Event::ArtifactReread(content) => EventView::ArtifactReread(content@),
            Event::RereadFailed(reason) => EventView::RereadFailed(reason@),
            Event::CredentialEntered(input) => EventView::CredentialEntered(input@),
            Event::ResponseReceived(status, body) => EventView::ResponseReceived(status, body@),
            Event::RequestFailed(reason) => EventView::RequestFailed(reason@),
        }
    }
}

/// What the driver is to do next.
#[derive(Debug, PartialEq, Eq)]
pub enum Action {
    /// Read the artifact, and report its content.
    LoadArtifact,
    /// Make a temporary location, write this content to it, and report its
    /// path.
    StageArtifact(String),
    /// Launch this command, wait for its end, and report what came of it.
    RunStep(Command),
    /// Read the temporary location again, and report its content.
    RereadArtifact,
    /// Ask the operator for the credential, without showing what is typed,
    /// and report the entry. Where the entry before was not acceptable, the
    /// action says what was wrong with it.
    AskCredential(Option<CredentialCheck>),
    /// Send this request, and report the answer.
    Upload(UploadRequest),
    /// Release the temporary location and stop: this is how the pipeline
    /// ended.
    Finish(Result<(), PipelineError>),
}

/// An `Action` with its texts as sequences of characters.
pub enum ActionView {
    LoadArtifact,
    StageArtifact(Seq<char>),
    RunStep(CommandView),
    RereadArtifact,
    AskCredential(Option<CredentialCheck>),
    Upload(UploadRequestView),
    Finish(Result<(), PipelineErrorView>),
}

impl View for Action {
    type V = ActionView;

    open spec fn view(&self) -> ActionView {
        match *self {
            Action::LoadArtifact => ActionView::LoadArtifact,
            Action::StageArtifact(content) => ActionView::StageArtifact(content@),
            Action::RunStep(command) => ActionView::RunStep(command@),
            Action::RereadArtifact => ActionView::RereadArtifact,
            Action::AskCredential(before) => ActionView::AskCredential(before),
            Action::Upload(request) => ActionView::Upload(request@),
            Action::Finish(Ok(())) => ActionView::Finish(Ok(())),
            Action::Finish(Err(error)) => ActionView::Finish(Err(error@)),
        }
    }
}

/// The state of a pipeline.
pub struct PipelineView {
    /// The place of the build, once the build is found.
    pub place_id: PlaceId,
    /// The steps to run before the upload, where the build lists any.
    pub pre: Option<Seq<Seq<Seq<char>>>>,
    /// The steps to run after the upload, where the build lists any.
    pub post: Option<Seq<Seq<Seq<char>>>>,
    /// Whether the build is listed with a place and steps.
    pub known: bool,
    /// The name of the build.
    pub build: Seq<char>,
    /// The directory in which steps run.
    pub directory: Seq<char>,
    /// What the pipeline is waiting for.
    pub stage: Stage,
    /// The content to publish, as far as it is known.
    pub artifact: Seq<char>,
    /// The path of the temporary location, once there is one.
    pub tmp: Seq<char>,
}

/// The texts of the steps of a phase, where the phase is listed.
pub open spec fn phase_texts(phase: Option<Vec<Step>>) -> Option<Seq<Seq<Seq<char>>>> {
    match phase {
        Some(list) => Some(step_texts(list@)),
        None => None,
    }
}

/// The state of a pipeline that has not begun: what the configuration gives
/// for the build, and nothing else.
pub open spec fn configured(config: Config, directory: Seq<char>, build: Seq<char>, stage: Stage)
    -> PipelineView {
    let known = config.builds().dom().contains(build) && config.steps().dom().contains(build);
    PipelineView {
        place_id: if known {
            config.builds()[build]
        } else {
            0
        },
        pre: if known {
            phase_texts(config.steps()[build].pre)
        } else {
            None
        },
        post: if known {
            phase_texts(config.steps()[build].post)
        } else {
            None
        },
        known,
        build,
        directory,
        stage,
        artifact: Seq::empty(),
        tmp: Seq::empty(),
    }
}

/// How a pipeline begins: with a configuration that is not valid it ends at
/// once, before anything is read, launched or asked; else it asks for the
/// artifact.
pub open spec fn beginning(config: Config, directory: Seq<char>, build: Seq<char>) -> (
    PipelineView,
    ActionView,
) {
    match config.validation() {
        Err(error) => (
            configured(config, directory, build, Stage::Done),
            ActionView::Finish(Err(PipelineErrorView::Validation(error))),
        ),
        Ok(()) => (
            configured(config, directory, build, Stage::LoadingArtifact),
            ActionView::LoadArtifact,
        ),
    }
}

/// The end of a pipeline that failed.
pub open spec fn stopped(state: PipelineView, error: PipelineErrorView) -> (
    PipelineView,
    ActionView,
) {
    (PipelineView { stage: Stage::Done, ..state }, ActionView::Finish(Err(error)))
}

/// The end of a pipeline that did all it had to do.
pub open spec fn completed(state: PipelineView) -> (PipelineView, ActionView) {
    (PipelineView { stage: Stage::Done, ..state }, ActionView::Finish(Ok(())))
}

/// The move to asking for the credential.
pub open spec fn asking(state: PipelineView, before: Option<CredentialCheck>) -> (
    PipelineView,
    ActionView,
) {
    (
        PipelineView { stage: Stage::AwaitingCredential, ..state },
        ActionView::AskCredential(before),
    )
}

/// What follows in the phase before the upload, once its run of steps says
/// what to do: the next step, or the reading of what the steps have left,
/// or the end.
pub open spec fn pre_phase(state: PipelineView, action: StepActionView, index: int) -> (
    PipelineView,
    ActionView,
) {
    match action {
        StepActionView::Launch(command) => (
            PipelineView { stage: Stage::RunningPre(index as usize), ..state },
            ActionView::RunStep(command),
        ),
        StepActionView::Finished(Ok(())) => (
            PipelineView { stage: Stage::Rereading, ..state },
            ActionView::RereadArtifact,
        ),
        StepActionView::Finished(Err(error)) => stopped(state, PipelineErrorView::Step(error)),
    }
}

/// What follows in the phase after the upload, once its run of steps says
/// what to do: the next step, or the end.
pub open spec fn post_phase(state: PipelineView, action: StepActionView, index: int) -> (
    PipelineView,
    ActionView,
) {
    match action {
        StepActionView::Launch(command) => (
            PipelineView { stage: Stage::RunningPost(index as usize), ..state },
            ActionView::RunStep(command),
        ),
        StepActionView::Finished(Ok(())) => completed(state),
        StepActionView::Finished(Err(error)) => stopped(state, PipelineErrorView::Step(error)),
    }
}

/// What follows the staging of the artifact: the steps before the upload
/// where the build lists any, and else the credential.
pub open spec fn after_staging(state: PipelineView) -> (PipelineView, ActionView) {
    match state.pre {
        Some(steps) => pre_phase(
            state,
            action_after(steps, 0, state.directory, state.tmp),
            0,
        ),
        None => asking(state, None),
    }
}

/// What follows an entry of the operator: the upload where the entry is
/// acceptable, and else the same question again.
pub open spec fn after_entry(state: PipelineView, input: Seq<char>) -> (
    PipelineView,
    ActionView,
) {
    match credential_check(input) {
        CredentialCheck::Accepted => (
            PipelineView { stage: Stage::Publishing, artifact: Seq::empty(), ..state },
            ActionView::Upload(upload_request_of(state.place_id, state.artifact, input)),
        ),
        rejected => asking(state, Some(rejected)),
    }
}

/// What follows the answer to the upload: the steps after the upload where
/// the answer confirms it and the build lists any, and else the end.
pub open spec fn after_answer(state: PipelineView, status: u16, body: Seq<char>) -> (
    PipelineView,
    ActionView,
) {
    match upload_verdict(state.place_id, status, body) {
        Ok(()) => match state.post {
            Some(steps) => post_phase(
                state,
                action_after(steps, 0, state.directory, state.tmp),
                0,
            ),
            None => completed(state),
        },
        Err(error) => stopped(state, PipelineErrorView::Publish(error)),
    }
}

/// The step of the machine: the state and the action that follow an event.
///
/// Each stage takes the events that report on the action it waits for. Any
/// other event ends the pipeline, and so does every failure: nothing is
/// tried again but the question for the credential.
pub open spec fn transition(state: PipelineView, event: EventView) -> (PipelineView, ActionView) {
    match (state.stage, event) {
        (Stage::LoadingArtifact, EventView::ArtifactLoaded(content)) => if state.known {
            (
                PipelineView { stage: Stage::Staging, artifact: content, ..state },
                ActionView::StageArtifact(content),
            )
        } else {
            stopped(state, PipelineErrorView::UnknownBuild(state.build))
        },
        (Stage::LoadingArtifact, EventView::ArtifactUnreadable(reason)) => stopped(
            state,
            PipelineErrorView::ArtifactUnreadable(reason),
        ),
        (Stage::Staging, EventView::ArtifactStaged(path)) => after_staging(
            PipelineView { tmp: path, ..state },
        ),
        (Stage::Staging, EventView::StagingFailed(reason)) => stopped(
            state,
            PipelineErrorView::StagingFailed(reason),
        ),
        (Stage::RunningPre(index), EventView::StepEnded(outcome)) => pre_phase(
            state,
            action_on(
                state.pre.unwrap_or(Seq::empty()),
                index as int,
                outcome,
                state.directory,
                state.tmp,
            ),
            index + 1,
        ),
        (Stage::Rereading, EventView::ArtifactReread(content)) => asking(
            PipelineView { artifact: content, ..state },
            None,
        ),
        (Stage::Rereading, EventView::RereadFailed(reason)) => stopped(
            state,
            PipelineErrorView::RereadFailed(reason),
        ),
        (Stage::AwaitingCredential, EventView::CredentialEntered(input)) => after_entry(
            state,
            input,
        ),
        (Stage::Publishing, EventView::ResponseReceived(status, body)) => after_answer(
            state,
            status,
            body,
        ),
        (Stage::Publishing, EventView::RequestFailed(reason)) => stopped(
            state,
            PipelineErrorView::Publish(RoppErrorView::RequestError(reason)),
        ),
        (Stage::RunningPost(index), EventView::StepEnded(outcome)) => post_phase(
            state,
            action_on(
                state.post.unwrap_or(Seq::empty()),
                index as int,
                outcome,
                state.directory,
                state.tmp,
            ),
            index + 1,
        ),
        _ => stopped(state, PipelineErrorView::UnexpectedEvent),
    }
}

/// A pipeline on its way: the configuration it works from, and how far it
/// has come.
pub struct Pipeline {
    config: Config,
    build: String,
    directory: String,
    stage: Stage,
    artifact: String,
    tmp: String,
}

impl View for Pipeline {
    type V = PipelineView;

    closed spec fn view(&self) -> PipelineView {
        PipelineView {
            artifact: self.artifact@,
            tmp: self.tmp@,
            ..configured(self.config, self.directory@, self.build@, self.stage)
        }
    }
}

/// Whether a state can be reached: a pipeline waits for a step only where
/// the build lists that step, does nothing for a build that it does not
/// know but load the artifact, and runs no step without a program.
pub open spec fn reachable(state: PipelineView) -> bool {
    &&& state.stage != Stage::Done && state.stage != Stage::LoadingArtifact ==> state.known
    &&& state.stage != Stage::Done ==> {
        &&& (state.pre matches Some(steps) ==> all_runnable(steps))
        &&& (state.post matches Some(steps) ==> all_runnable(steps))
    }
    &&& (state.stage matches Stage::RunningPre(index) ==> (state.pre matches Some(steps) && index
        < steps.len()))
    &&& (state.stage matches Stage::RunningPost(index) ==> (state.post matches Some(steps)
        && index < steps.len()))
}

/// In a valid configuration, no step of a build that has steps is without
/// a program.
proof fn lemma_valid_steps_runnable(config: Config, build: Seq<char>)
    requires
        config.validation() is Ok,
        config.builds().dom().contains(build),
        config.steps().dom().contains(build),
    ensures
        all_runnable(step_texts(phase_steps(config.steps()[build].pre))),
        all_runnable(step_texts(phase_steps(config.steps()[build].post))),
{
    config.lemma_valid();
    let list = config.build_list();
    let i = choose|i: int| 0 <= i < list.len() && (#[trigger] list[i]).0 == build;
    assert(config.steps().dom().contains(list[i].0));
    let steps = config.steps()[build];
    steps.lemma_empty_step_in_phase();
    let pre = phase_steps(steps.pre);
    let post = phase_steps(steps.post);
    assert forall|j: int| 0 <= j < pre.len() implies (#[trigger] step_texts(pre)[j]).len()
        > 0 by {
        assert(pre[j]@.len() > 0);
    }
    assert forall|j: int| 0 <= j < post.len() implies (#[trigger] step_texts(post)[j]).len()
        > 0 by {
        assert(post[j]@.len() > 0);
    }
}

impl Pipeline {
    /// The pipeline is in a state that can be reached, and it works from a
    /// valid configuration as long as it is not over.
    #[verifier::type_invariant]
    closed spec fn inv(&self) -> bool {
        &&& reachable(self@)
        &&& self.stage != Stage::Done ==> self.config.validation() is Ok
    }

    /// Begins a pipeline for one build of a configuration, with steps to run
    /// in `directory`. The configuration is validated first: where it is
    /// not valid the pipeline is over at once.
    pub fn start(config: Config, directory: String, build: String) -> (begun: (Pipeline, Action))
        ensures
            (begun.0@, begun.1@) == beginning(config, directory@, build@),
            reachable(begun.0@),
    {
        let checked = config.validate();
        proof {
            if config.validation() is Ok && configured(
                config,
                directory@,
                build@,
                Stage::Done,
            ).known {
                lemma_valid_steps_runnable(config, build@);
            }
        }
        match checked {
            Err(error) => {
                let pipeline = Pipeline {
                    config,
                    build,
                    directory,
                    stage: Stage::Done,
                    artifact: String::new(),
                    tmp: String::new(),
                };
                (pipeline, Action::Finish(Err(PipelineError::Validation(error))))
            },
            Ok(()) => {
                let pipeline = Pipeline {
                    config,
                    build,
                    directory,
                    stage: Stage::LoadingArtifact,
                    artifact: String::new(),
                    tmp: String::new(),
                };
                (pipeline, Action::LoadArtifact)
            },
        }
    }

    /// The place and the steps of the build, where the configuration lists
    /// it with both.
    fn info(&self) -> (info: Option<(PlaceId, &Steps)>)
        ensures
            info is Some <==> self@.known,
            info matches Some((place_id, steps)) ==> {
                &&& place_id == self@.place_id
                &&& phase_texts(steps.pre) == self@.pre
                &&& phase_texts(steps.post) == self@.post
            },
    {
        self.config.build_info(self.build.as_str())
    }

    /// Ends the pipeline with an error.
    fn stop(&mut self, error: PipelineError) -> (action: Action)
        ensures
            (final(self)@, action@) == stopped(old(self)@, error@),
    {
        proof {
            use_type_invariant(&*self);
        }
        self.stage = Stage::Done;
        Action::Finish(Err(error))
    }

    /// Ends the pipeline with success.
    fn complete(&mut self) -> (action: Action)
        ensures
            (final(self)@, action@) == completed(old(self)@),
    {
        proof {
            use_type_invariant(&*self);
        }
        self.stage = Stage::Done;
        Action::Finish(Ok(()))
    }

    /// Turns to the operator for the credential.
    fn ask(&mut self, before: Option<CredentialCheck>) -> (action: Action)
        requires
            old(self)@.known,
            old(self)@.stage != Stage::Done,
        ensures
            (final(self)@, action@) == asking(old(self)@, before),
    {
        proof {
            use_type_invariant(&*self);
        }
        self.stage = Stage::AwaitingCredential;
        Action::AskCredential(before)
    }

    /// Follows the run of the steps before the upload.
    fn follow_pre(&mut self, step_action: StepAction, index: usize) -> (action: Action)
        requires
            old(self)@.known,
            old(self)@.stage != Stage::Done,
            step_action is Launch ==> (old(self)@.pre matches Some(steps) && index < steps.len()),
        ensures
            (final(self)@, action@) == pre_phase(old(self)@, step_action@, index as int),
    {
        proof {
            use_type_invariant(&*self);
        }
        match step_action {
            StepAction::Launch(command) => {
                self.stage = Stage::RunningPre(index);
                Action::RunStep(command)
            },
            StepAction::Finished(Ok(())) => {
                self.stage = Stage::Rereading;
                Action::RereadArtifact
            },
            StepAction::Finished(Err(error)) => self.stop(PipelineError::Step(error)),
        }
    }

    /// Follows the run of the steps after the upload.
    fn follow_post(&mut self, step_action: StepAction, index: usize) -> (action: Action)
        requires
            old(self)@.known,
            old(self)@.stage != Stage::Done,
            step_action is Launch ==> (old(self)@.post matches Some(steps) && index < steps.len()),
        ensures
            (final(self)@, action@) == post_phase(old(self)@, step_action@, index as int),
    {
        proof {
            use_type_invariant(&*self);
        }
        match step_action {
            StepAction::Launch(command) => {
                self.stage = Stage::RunningPost(index);
                Action::RunStep(command)
            },
            StepAction::Finished(Ok(())) => self.complete(),
            StepAction::Finished(Err(error)) => self.stop(PipelineError::Step(error)),
        }
    }

    /// The first thing to do in a phase, where the build lists the phase.
    fn begin_phase(&self, post: bool) -> (step_action: Option<StepAction>)
        requires
            self@.known,
            self@.stage != Stage::Done,
        ensures
            match (
                step_action,
                if post {
                    self@.post
                } else {
                    self@.pre
                },
            ) {
                (Some(first), Some(steps)) => first@ == action_after(
                    steps,
                    0,
                    self@.directory,
                    self@.tmp,
                ),
                (None, None) => true,
                _ => false,
            },
    {
        proof {
            use_type_invariant(self);
        }
        match self.info() {
            Some((_, steps)) => {
                let phase = if post {
                    &steps.post
                } else {
                    &steps.pre
                };
                match phase {
                    Some(list) => Some(
                        first_step(list, self.directory.as_str(), self.tmp.as_str()),
                    ),
                    None => None,
                }
            },
            None => None,
        }
    }

    /// What to do in a phase once its step at `index` has ended.
    fn continue_phase(&self, post: bool, index: usize, outcome: StepOutcome) -> (step_action:
        StepAction)
        requires
            self@.known,
            self@.stage != Stage::Done,
            (if post {
                self@.post
            } else {
                self@.pre
            }) is Some,
        ensures
            step_action@ == action_on(
                (if post {
                    self@.post
                } else {
                    self@.pre
                })->0,
                index as int,
                outcome@,
                self@.directory,
                self@.tmp,
            ),
            (if post {
                self@.post
            } else {
                self@.pre
            })->0.len() <= usize::MAX,
    {
        proof {
            use_type_invariant(self);
        }
        match self.info() {
            Some((_, steps)) => {
                let phase = if post {
                    &steps.post
                } else {
                    &steps.pre
                };
                match phase {
                    Some(list) => {
                        assert(step_texts(list@).len() == list.len());
                        next_step(list, index, outcome, self.directory.as_str(), self.tmp.as_str())
                    },
                    None => StepAction::Finished(Ok(())),
                }
            },
            None => StepAction::Finished(Ok(())),
        }
    }

    /// Takes an event and says what to do next.
    pub fn advance(&mut self, event: Event) -> (action: Action)
        ensures
            (final(self)@, action@) == transition(old(self)@, event@),
            reachable(final(self)@),
    {
        proof {
            use_type_invariant(&*self);
        }
        let action = match (self.stage, event) {
            (Stage::LoadingArtifact, Event::ArtifactLoaded(content)) => {
                if self.info().is_some() {
                    let copy = content.clone();
                    self.artifact = content;
                    self.stage = Stage::Staging;
                    Action::StageArtifact(copy)
                } else {
                    let build = self.build.clone();
                    self.stop(PipelineError::UnknownBuild(build))
                }
            },
            (Stage::LoadingArtifact, Event::ArtifactUnreadable(reason)) => self.stop(
                PipelineError::ArtifactUnreadable(reason),
            ),
            (Stage::Staging, Event::ArtifactStaged(path)) => {
                self.tmp = path;
                match self.begin_phase(false) {
                    Some(first) => self.follow_pre(first, 0),
                    None => self.ask(None),
                }
            },
            (Stage::Staging, Event::StagingFailed(reason)) => self.stop(
                PipelineError::StagingFailed(reason),
            ),
            (Stage::RunningPre(index), Event::StepEnded(outcome)) => {
                let next = self.continue_phase(false, index, outcome);
                self.follow_pre(next, index + 1)
            },
            (Stage::Rereading, Event::ArtifactReread(content)) => {
                self.artifact = content;
                self.ask(None)
            },
            (Stage::Rereading, Event::RereadFailed(reason)) => self.stop(
                PipelineError::RereadFailed(reason),
            ),
            (Stage::AwaitingCredential, Event::CredentialEntered(input)) => {
                match check_credential(input.as_str()) {
                    CredentialCheck::Accepted => {
                        let mut content = String::new();
                        std::mem::swap(&mut self.artifact, &mut content);
                        let place_id = match self.info() {
                            Some((place_id, _)) => place_id,
                            None => 0,
                        };
                        self.stage = Stage::Publishing;
                        Action::Upload(upload_request(place_id, content, input.as_str()))
                    },
                    rejected => self.ask(Some(rejected)),
                }
            },
            (Stage::Publishing, Event::ResponseReceived(status, body)) => {
                let place_id = match self.info() {
                    Some((place_id, _)) => place_id,
                    None => 0,
                };
                match confirm_upload(place_id, status, body.as_str()) {
                    Ok(()) => match self.begin_phase(true) {
                        Some(first) => self.follow_post(first, 0),
                        None => self.complete(),
                    },
                    Err(error) => self.stop(PipelineError::Publish(error)),
                }
            },
            (Stage::Publishing, Event::RequestFailed(reason)) => self.stop(
                PipelineError::Publish(RoppError::RequestError(reason)),
            ),
            (Stage::RunningPost(index), Event::StepEnded(outcome)) => {
                let next = self.continue_phase(true, index, outcome);
                self.follow_post(next, index + 1)
            },
            (_, _) => self.stop(PipelineError::UnexpectedEvent),
        };
        proof {
            use_type_invariant(&*self);
        }
        action
    }

    /// What the pipeline is waiting for.
    pub fn stage(&self) -> (stage: Stage)
        ensures
            stage == self@.stage,
    {
        self.stage
    }
}

/// What a pipeline does with a sequence of events, from a given state: the
/// state it ends in, and the action that answers each event.
pub open spec fn run_events(state: PipelineView, events: Seq<EventView>) -> (
    PipelineView,
    Seq<ActionView>,
)
    decreases events.len(),
{
    if events.len() == 0 {
        (state, Seq::empty())
    } else {
        let (next, action) = transition(state, events[0]);
        let rest = run_events(next, events.skip(1));
        (rest.0, seq![action] + rest.1)
    }
}

/// The entries of the operator as events.
pub open spec fn entries(inputs: Seq<Seq<char>>) -> Seq<EventView> {
    Seq::new(inputs.len(), |i: int| EventView::CredentialEntered(inputs[i]))
}

/// A pipeline that is over stays over: whatever is reported to it, it
/// launches nothing, asks nothing and sends nothing.
pub proof fn lemma_done_is_final(state: PipelineView, events: Seq<EventView>)
    requires
        state.stage == Stage::Done,
    ensures
        run_events(state, events).0 == state,
        run_events(state, events).1.len() == events.len(),
        forall|i: int|
            0 <= i < events.len() ==> #[trigger] run_events(state, events).1[i]
                == ActionView::Finish(Err(PipelineErrorView::UnexpectedEvent)),
    decreases events.len(),
{
    if events.len() > 0 {
        let (next, action) = transition(state, events[0]);
        assert(next == state);
        lemma_done_is_final(state, events.skip(1));
        let rest = run_events(state, events.skip(1));
        assert forall|i: int| 0 <= i < events.len() implies #[trigger] run_events(
            state,
            events,
        ).1[i] == ActionView::Finish(Err(PipelineErrorView::UnexpectedEvent)) by {
            if i > 0 {
                assert(run_events(state, events).1[i] == rest.1[i - 1]);
            }
        }
    }
}

/// Whether an event reports an upload that is not confirmed for the place:
/// no answer came, or one whose body is not the number of the place.
pub open spec fn reports_failed_upload(place_id: PlaceId, event: EventView) -> bool {
    match event {
        EventView::ResponseReceived(status, body) => upload_verdict(place_id, status, body)
            is Err,
        EventView::RequestFailed(_) => true,
        _ => false,
    }
}

/// After an upload that is not confirmed, no step is launched, whatever
/// follows: the pipeline ends with the failure of the upload, which
/// carries the status of the answer where one came.
pub proof fn lemma_failed_upload_runs_no_step(state: PipelineView, events: Seq<EventView>)
    requires
        state.stage == Stage::Publishing,
        events.len() > 0,
        reports_failed_upload(state.place_id, events[0]),
    ensures
        run_events(state, events).0.stage == Stage::Done,
        run_events(state, events).1.len() == events.len(),
        events[0] matches EventView::ResponseReceived(status, _) ==> run_events(
            state,
            events,
        ).1[0] == ActionView::Finish(
            Err(PipelineErrorView::Publish(RoppErrorView::PublishError(status))),
        ),
        events[0] matches EventView::RequestFailed(reason) ==> run_events(state, events).1[0]
            == ActionView::Finish(
            Err(PipelineErrorView::Publish(RoppErrorView::RequestError(reason))),
        ),
        forall|i: int|
            0 <= i < events.len() ==> !(#[trigger] run_events(state, events).1[i] is RunStep),
{
    let (next, action) = transition(state, events[0]);
    lemma_done_is_final(next, events.skip(1));
    let rest = run_events(next, events.skip(1));
    assert forall|i: int| 0 <= i < events.len() implies !(#[trigger] run_events(
        state,
        events,
    ).1[i] is RunStep) by {
        if i > 0 {
            assert(run_events(state, events).1[i] == rest.1[i - 1]);
        }
    }
}

/// A step after the upload is launched only behind a confirmed upload: by
/// the answer that confirms it, or by the success of the step before.
pub proof fn lemma_post_steps_follow_upload(state: PipelineView, event: EventView)
    requires
        transition(state, event).0.stage is RunningPost,
    ensures
        match (state.stage, event) {
            (Stage::Publishing, EventView::ResponseReceived(status, body)) => upload_verdict(
                state.place_id,
                status,
                body,
            ) is Ok,
            (Stage::RunningPost(_), EventView::StepEnded(outcome)) => crate::steps::judgement(
                outcome,
            ) is None,
            _ => false,
        },
{
}

/// The operator is asked until an entry is acceptable: each entry that is
/// not is answered by the same question, with what was wrong, and the first
/// acceptable one by the upload, which carries that entry as its credential
/// and the artifact as its body.
pub proof fn lemma_asks_until_accepted(state: PipelineView, inputs: Seq<Seq<char>>)
    requires
        state.stage == Stage::AwaitingCredential,
        inputs.len() > 0,
        forall|i: int|
            0 <= i < inputs.len() - 1 ==> credential_check(#[trigger] inputs[i])
                != CredentialCheck::Accepted,
        credential_check(inputs.last()) == CredentialCheck::Accepted,
    ensures
        run_events(state, entries(inputs)).0 == (PipelineView {
            stage: Stage::Publishing,
            artifact: Seq::empty(),
            ..state
        }),
        run_events(state, entries(inputs)).1.len() == inputs.len(),
        forall|i: int|
            0 <= i < inputs.len() - 1 ==> #[trigger] run_events(state, entries(inputs)).1[i]
                == ActionView::AskCredential(Some(credential_check(inputs[i]))),
        run_events(state, entries(inputs)).1.last() == ActionView::Upload(
            upload_request_of(state.place_id, state.artifact, inputs.last()),
        ),
    decreases inputs.len(),
{
    let events = entries(inputs);
    let (next, action) = transition(state, events[0]);
    let rest = run_events(next, events.skip(1));
    if inputs.len() == 1 {
        assert(rest.1 =~= Seq::<ActionView>::empty());
        assert(run_events(state, events).1 =~= seq![action]);
    } else {
        assert(credential_check(inputs[0]) != CredentialCheck::Accepted);
        assert(next == state);
        let tail = inputs.skip(1);
        assert(events.skip(1) =~= entries(tail));
        assert(tail.last() == inputs.last());
        assert forall|i: int| 0 <= i < tail.len() - 1 implies credential_check(
            #[trigger] tail[i],
        ) != CredentialCheck::Accepted by {
            assert(tail[i] == inputs[i + 1]);
        }
        lemma_asks_until_accepted(state, tail);
        assert forall|i: int| 0 <= i < inputs.len() - 1 implies #[trigger] run_events(
            state,
            events,
        ).1[i] == ActionView::AskCredential(Some(credential_check(inputs[i]))) by {
            if i > 0 {
                assert(run_events(state, events).1[i] == rest.1[i - 1]);
                assert(tail[i - 1] == inputs[i]);
            }
        }
        assert(run_events(state, events).1.last() == rest.1.last());
    }
}

} // verus!
