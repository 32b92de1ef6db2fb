//! One task, step by step.
//!
//! A task is carried out by a driver that can touch the disk and run the media
//! tool, and decided here. The driver starts with `TaskState::start`, does
//! what the returned `TaskAction` names, reports what came of it as a
//! `TaskEvent` to `TaskState::step`, and goes on until the state is finished.
//! The order is fixed: look for the destination, settle what to do if it is
//! there, convert, verify.
//!
//! What a task comes to is also stated without the steps: `outcome_in` and
//! `actions_in` give the outcome and the actions of a task in a `World` that
//! says what each action would meet. `lemma_run_meets_model` shows that the
//! steps come to exactly that, and the laws after it speak of every world.

use vstd::prelude::*;
use crate::digest::verify_bitperfect;
use crate::error::TaskError;
use crate::overwrite::{affirmative, is_affirmative, resolution, resolve, OverwritePolicy, Resolution};

verus! {

/// The settings of a run that bear on each task.
#[derive(Clone, Copy, Debug, PartialEq, Eq, Structural)]
pub struct TaskOptions {
    /// What to do about destinations that exist.
    pub policy: OverwritePolicy,
    /// Whether a converted file is decoded and compared with its source.
    pub verify: bool,
    /// Whether the run only reports what it would convert.
    pub simulate: bool,
    /// Whether an operator is there to answer questions.
    pub interactive: bool,
}

impl TaskOptions {
    /// Whether the operator may be asked: only where there is one, and never
    /// in a simulated run.
    pub open spec fn may_ask(self) -> bool {
        self.interactive && !self.simulate
    }
}

/// How a task ended.
#[derive(Clone, Copy, Debug, PartialEq, Eq, Structural)]
pub enum TaskOutcome {
    /// Converted, and verified if that was asked for; or, in a simulated run,
    /// reported as to be converted.
    Success,
    /// Left out because the destination exists.
    Skipped,
    /// Failed, for the reason given.
    Failed(TaskError),
}

/// What the driver is to do next.
#[derive(Clone, Copy, Debug, PartialEq, Eq, Structural)]
pub enum TaskAction {
    /// Find out whether the destination exists.
    ProbeDestination,
    /// Ask the operator whether to replace the destination, and wait for the
    /// answer.
    AskOperator,
    /// Create the destination's missing parent directories and run the
    /// transcoder.
    Transcode,
    /// Decode the source and take the digest of its audio.
    DecodeSource,
    /// Decode the converted file and take the digest of its audio.
    DecodeDestination,
    /// Report the conversion that a real run would make. The task is finished.
    Announce,
    /// Nothing: the task is finished.
    Done,
}

/// What came of an action.
#[derive(Debug)]
pub enum TaskEvent {
    /// The destination was looked for.
    DestinationProbed { exists: bool },
    /// The operator answered.
    OperatorAnswered { answer: String },
    /// The transcoder ran: `ok` unless it could not be launched or exited with
    /// a failure.
    Transcoded { ok: bool },
    /// A decode ended: with the digest of the audio, or with none if the
    /// decoder exited with a failure.
    Decoded { digest: Option<Vec<u8>> },
}

/// A `TaskEvent` as a mathematical value.
pub enum TaskEventView {
    DestinationProbed { exists: bool },
    OperatorAnswered { answer: Seq<char> },
    Transcoded { ok: bool },
    Decoded { digest: Option<Seq<u8>> },
}

impl View for TaskEvent {
    type V = TaskEventView;

    open spec fn view(&self) -> TaskEventView {
        match *self {
            TaskEvent::DestinationProbed { exists } => TaskEventView::DestinationProbed { exists },
            TaskEvent::OperatorAnswered { answer } => TaskEventView::OperatorAnswered {
                answer: answer@,
            },
            TaskEvent::Transcoded { ok } => TaskEventView::Transcoded { ok },
            TaskEvent::Decoded { digest } => TaskEventView::Decoded {
                digest: match digest {
                    Some(d) => Some(d@),
                    None => None,
                },
            },
        }
    }
}

/// Where a task stands, as a mathematical value.
pub enum TaskStage {
    /// Waiting to hear whether the destination exists.
    Probing,
    /// Waiting for the operator's answer.
    Asking,
    /// Waiting for the transcoder.
    Transcoding,
    /// Waiting for the digest of the source.
    DecodingSource,
    /// Waiting for the digest of the converted file, with that of the source
    /// in hand.
    DecodingDestination { source: Seq<u8> },
    /// Finished.
    Finished { outcome: TaskOutcome },
}

enum Stage {
    Probing,
    Asking,
    Transcoding,
    DecodingSource,
    DecodingDestination { source: Vec<u8> },
    Finished { outcome: TaskOutcome },
}

impl View for Stage {
    type V = TaskStage;

    closed spec fn view(&self) -> TaskStage {
        match *self {
            Stage::Probing => TaskStage::Probing,
            Stage::Asking => TaskStage::Asking,
            Stage::Transcoding => TaskStage::Transcoding,
            Stage::DecodingSource => TaskStage::DecodingSource,
            Stage::DecodingDestination { source } => TaskStage::DecodingDestination {
                source: source@,
            },
            Stage::Finished { outcome } => TaskStage::Finished { outcome },
        }
    }
}

/// The action that a stage waits for.
pub open spec fn pending_action(stage: TaskStage) -> TaskAction {
    match stage {
        TaskStage::Probing => TaskAction::ProbeDestination,
        TaskStage::Asking => TaskAction::AskOperator,
        TaskStage::Transcoding => TaskAction::Transcode,
        TaskStage::DecodingSource => TaskAction::DecodeSource,
        TaskStage::DecodingDestination { .. } => TaskAction::DecodeDestination,
        TaskStage::Finished { .. } => TaskAction::Done,
    }
}

/// Which stages a task with these options can be in: nobody is asked who may
/// not be, a simulated run neither converts nor decodes, and only a verifying
/// run decodes.
pub open spec fn stage_allowed(options: TaskOptions, stage: TaskStage) -> bool {
    match stage {
        TaskStage::Probing => true,
        TaskStage::Asking => options.policy == OverwritePolicy::Prompt && options.may_ask(),
        TaskStage::Transcoding => !options.simulate,
        TaskStage::DecodingSource => !options.simulate && options.verify,
        TaskStage::DecodingDestination { .. } => !options.simulate && options.verify,
        TaskStage::Finished { .. } => true,
    }
}

/// The end of a task.
pub open spec fn finished(outcome: TaskOutcome) -> (TaskStage, TaskAction) {
    (TaskStage::Finished { outcome }, TaskAction::Done)
}

/// What follows once nothing stands in the way of the conversion: a simulated
/// run reports it and is finished, a real one converts.
pub open spec fn go_ahead(options: TaskOptions) -> (TaskStage, TaskAction) {
    if options.simulate {
        (TaskStage::Finished { outcome: TaskOutcome::Success }, TaskAction::Announce)
    } else {
        (TaskStage::Transcoding, TaskAction::Transcode)
    }
}

/// What two decodes come to: failure if either failed, else success exactly
/// when the digests are equal.
pub open spec fn verification_outcome(
    source: Option<Seq<u8>>,
    converted: Option<Seq<u8>>,
) -> TaskOutcome {
    match (source, converted) {
        (Some(a), Some(b)) => if a == b {
            TaskOutcome::Success
        } else {
            TaskOutcome::Failed(TaskError::VerificationMismatch)
        },
        _ => TaskOutcome::Failed(TaskError::DecodeFailure),
    }
}

/// One step: the stage and the action that follow when `event` arrives in
/// `stage`. An event that the stage does not wait for changes nothing, and the
/// pending action is named again.
pub open spec fn step_model(options: TaskOptions, stage: TaskStage, event: TaskEventView) -> (
    TaskStage,
    TaskAction,
) {
    match (stage, event) {
        (TaskStage::Probing, TaskEventView::DestinationProbed { exists }) => match resolution(
            options.policy,
            exists,
            options.may_ask(),
        ) {
            Resolution::Skip => finished(TaskOutcome::Skipped),
            Resolution::Ask => (TaskStage::Asking, TaskAction::AskOperator),
            Resolution::Proceed => go_ahead(options),
        },
        (TaskStage::Asking, TaskEventView::OperatorAnswered { answer }) => if is_affirmative(
            answer,
        ) {
            go_ahead(options)
        } else {
            finished(TaskOutcome::Skipped)
        },
        (TaskStage::Transcoding, TaskEventView::Transcoded { ok }) => if !ok {
            finished(TaskOutcome::Failed(TaskError::TranscodeFailure))
        } else if options.verify {
            (TaskStage::DecodingSource, TaskAction::DecodeSource)
        } else {
            finished(TaskOutcome::Success)
        },
        (TaskStage::DecodingSource, TaskEventView::Decoded { digest }) => match digest {
            Some(source) => (
                TaskStage::DecodingDestination { source },
                TaskAction::DecodeDestination,
            ),
            None => finished(verification_outcome(None, None)),
        },
        (TaskStage::DecodingDestination { source }, TaskEventView::Decoded { digest }) => finished(
            verification_outcome(Some(source), digest),
        ),
        _ => (stage, pending_action(stage)),
    }
}

/// A task under way.
pub struct TaskState {
    options: TaskOptions,
    stage: Stage,
}

impl TaskState {
    #[verifier::type_invariant]
    spec fn well_formed(self) -> bool {
        stage_allowed(self.options, self.stage@)
    }

    /// The options that the task was started with.
    pub closed spec fn spec_options(&self) -> TaskOptions {
        self.options
    }

    /// Where the task stands.
    pub closed spec fn stage(&self) -> TaskStage {
        self.stage@
    }

    /// A new task, and the first thing to do for it.
    pub fn start(options: TaskOptions) -> (begun: (TaskState, TaskAction))
        ensures
            begun.0.spec_options() == options,
            begun.0.stage() == TaskStage::Probing,
            begun.1 == TaskAction::ProbeDestination,
            stage_allowed(options, begun.0.stage()),
    {
        (TaskState { options, stage: Stage::Probing }, TaskAction::ProbeDestination)
    }

    /// The options that the task was started with.
    #[verifier::when_used_as_spec(spec_options)]
    pub fn options(&self) -> (options: TaskOptions)
        ensures
            options == self.spec_options(),
    {
        self.options
    }

    /// The outcome, once the task is finished.
    pub fn outcome(&self) -> (outcome: Option<TaskOutcome>)
        ensures
            outcome == match self.stage() {
                TaskStage::Finished { outcome } => Some(outcome),
                _ => None,
            },
    {
        match &self.stage {
            Stage::Finished { outcome } => Some(*outcome),
            _ => None,
        }
    }

    /// The action that the task waits for; `Done` once it is finished.
    pub fn pending(&self) -> (action: TaskAction)
        ensures
            action == pending_action(self.stage()),
    {
        match &self.stage {
            Stage::Probing => TaskAction::ProbeDestination,
            Stage::Asking => TaskAction::AskOperator,
            Stage::Transcoding => TaskAction::Transcode,
            Stage::DecodingSource => TaskAction::DecodeSource,
            Stage::DecodingDestination { .. } => TaskAction::DecodeDestination,
            Stage::Finished { .. } => TaskAction::Done,
        }
    }

    /// Takes in what came of the last action and says what to do next.
    pub fn step(self, event: TaskEvent) -> (next: (TaskState, TaskAction))
        ensures
            next.0.spec_options() == self.spec_options(),
            (next.0.stage(), next.1) == step_model(self.spec_options(), self.stage(), event@),
            stage_allowed(next.0.spec_options(), next.0.stage()),
    {
        proof {
            use_type_invariant(&self);
        }
        let options = self.options;
        match self.stage {
            Stage::Probing => match event {
                TaskEvent::DestinationProbed { exists } => {
                    let may_ask = options.interactive && !options.simulate;
                    match resolve(options.policy, exists, may_ask) {
                        Resolution::Skip => Self::finish(options, TaskOutcome::Skipped),
                        Resolution::Ask => (
                            TaskState { options, stage: Stage::Asking },
                            TaskAction::AskOperator,
                        ),
                        Resolution::Proceed => Self::proceed(options),
                    }
                },
                _ => (TaskState { options, stage: Stage::Probing }, TaskAction::ProbeDestination),
            },
            Stage::Asking => match event {
                TaskEvent::OperatorAnswered { answer } => {
                    if affirmative(answer.as_str()) {
                        Self::proceed(options)
                    } else {
                        Self::finish(options, TaskOutcome::Skipped)
                    }
                },
                _ => (TaskState { options, stage: Stage::Asking }, TaskAction::AskOperator),
            },
            Stage::Transcoding => match event {
                TaskEvent::Transcoded { ok } => {
                    if !ok {
                        Self::finish(options, TaskOutcome::Failed(TaskError::TranscodeFailure))
                    } else if options.verify {
                        (
                            TaskState { options, stage: Stage::DecodingSource },
                            TaskAction::DecodeSource,
                        )
                    } else {
                        Self::finish(options, TaskOutcome::Success)
                    }
                },
                _ => (TaskState { options, stage: Stage::Transcoding }, TaskAction::Transcode),
            },
            Stage::DecodingSource => match event {
                TaskEvent::Decoded { digest } => match digest {
                    Some(source) => (
                        TaskState { options, stage: Stage::DecodingDestination { source } },
                        TaskAction::DecodeDestination,
                    ),
                    None => Self::finish(options, TaskOutcome::Failed(TaskError::DecodeFailure)),
                },
                _ => (
                    TaskState { options, stage: Stage::DecodingSource },
                    TaskAction::DecodeSource,
                ),
            },
            Stage::DecodingDestination { source } => match event {
                TaskEvent::Decoded { digest } => match digest {
                    Some(converted) => {
                        if verify_bitperfect(source.as_slice(), converted.as_slice()) {
                            Self::finish(options, TaskOutcome::Success)
                        } else {
                            Self::finish(
                                options,
                                TaskOutcome::Failed(TaskError::VerificationMismatch),
                            )
                        }
                    },
                    None => Self::finish(options, TaskOutcome::Failed(TaskError::DecodeFailure)),
                },
                _ => (
                    TaskState { options, stage: Stage::DecodingDestination { source } },
                    TaskAction::DecodeDestination,
                ),
            },
            Stage::Finished { outcome } => Self::finish(options, outcome),
        }
    }

    fn finish(options: TaskOptions, outcome: TaskOutcome) -> (end: (TaskState, TaskAction))
        ensures
            end.0.spec_options() == options,
            (end.0.stage(), end.1) == finished(outcome),
    {
        (TaskState { options, stage: Stage::Finished { outcome } }, TaskAction::Done)
    }

    fn proceed(options: TaskOptions) -> (next: (TaskState, TaskAction))
        ensures
            next.0.spec_options() == options,
            (next.0.stage(), next.1) == go_ahead(options),
    {
        if options.simulate {
            (
                TaskState { options, stage: Stage::Finished { outcome: TaskOutcome::Success } },
                TaskAction::Announce,
            )
        } else {
            (TaskState { options, stage: Stage::Transcoding }, TaskAction::Transcode)
        }
    }
}

/// What each action of a task would meet: the surroundings of one task, fixed
/// in advance.
pub struct World {
    /// Whether the destination exists before the task.
    pub destination_exists: bool,
    /// What the operator would answer.
    pub answer: Seq<char>,
    /// Whether the transcoder would succeed.
    pub transcode_ok: bool,
    /// The digest that decoding the source would give, if the decode succeeds.
    pub source_digest: Option<Seq<u8>>,
    /// The digest that decoding the converted file would give, if the decode
    /// succeeds.
    pub converted_digest: Option<Seq<u8>>,
}

/// The event with which the world answers an action; none for the two actions
/// that end a task.
pub open spec fn reply(world: World, action: TaskAction) -> Option<TaskEventView> {
    match action {
        TaskAction::ProbeDestination => Some(
            TaskEventView::DestinationProbed { exists: world.destination_exists },
        ),
        TaskAction::AskOperator => Some(TaskEventView::OperatorAnswered { answer: world.answer }),
        TaskAction::Transcode => Some(TaskEventView::Transcoded { ok: world.transcode_ok }),
        TaskAction::DecodeSource => Some(TaskEventView::Decoded { digest: world.source_digest }),
        TaskAction::DecodeDestination => Some(
            TaskEventView::Decoded { digest: world.converted_digest },
        ),
        TaskAction::Announce => None,
        TaskAction::Done => None,
    }
}

/// The steps of a driver in `world`, from `stage` with `action` to do: the
/// stage in which it ends and the actions that it was given, in order. `limit`
/// bounds the number of events.
pub open spec fn run_steps(
    options: TaskOptions,
    stage: TaskStage,
    action: TaskAction,
    world: World,
    limit: nat,
) -> (TaskStage, Seq<TaskAction>)
    decreases limit,
{
    match reply(world, action) {
        Some(event) if limit > 0 => {
            let (next, then) = step_model(options, stage, event);
            let (last, actions) = run_steps(options, next, then, world, (limit - 1) as nat);
            (last, seq![action] + actions)
        },
        _ => (stage, seq![action]),
    }
}

/// Whether the conversion goes ahead: the destination is not there, or the
/// policy replaces it, or the operator was asked and said yes.
pub open spec fn goes_ahead(options: TaskOptions, world: World) -> bool {
    match resolution(options.policy, world.destination_exists, options.may_ask()) {
        Resolution::Proceed => true,
        Resolution::Skip => false,
        Resolution::Ask => is_affirmative(world.answer),
    }
}

/// Whether the operator is asked.
pub open spec fn asks(options: TaskOptions, world: World) -> bool {
    resolution(options.policy, world.destination_exists, options.may_ask()) == Resolution::Ask
}

/// Whether the transcoder is run.
pub open spec fn transcodes(options: TaskOptions, world: World) -> bool {
    goes_ahead(options, world) && !options.simulate
}

/// Whether the source is decoded for verification.
pub open spec fn decodes_source(options: TaskOptions, world: World) -> bool {
    transcodes(options, world) && world.transcode_ok && options.verify
}

/// Whether the converted file is decoded for verification.
pub open spec fn decodes_destination(options: TaskOptions, world: World) -> bool {
    decodes_source(options, world) && world.source_digest is Some
}

/// The outcome of a task in `world`.
pub open spec fn outcome_in(options: TaskOptions, world: World) -> TaskOutcome {
    if !goes_ahead(options, world) {
        TaskOutcome::Skipped
    } else if options.simulate {
        TaskOutcome::Success
    } else if !world.transcode_ok {
        TaskOutcome::Failed(TaskError::TranscodeFailure)
    } else if !options.verify {
        TaskOutcome::Success
    } else {
        verification_outcome(world.source_digest, world.converted_digest)
    }
}

/// `action` if `wanted`, else nothing.
pub open spec fn when(wanted: bool, action: TaskAction) -> Seq<TaskAction> {
    if wanted {
        seq![action]
    } else {
        Seq::<TaskAction>::empty()
    }
}

/// The actions of a task in `world`, in order.
pub open spec fn actions_in(options: TaskOptions, world: World) -> Seq<TaskAction> {
    seq![TaskAction::ProbeDestination] + when(asks(options, world), TaskAction::AskOperator)
        + when(transcodes(options, world), TaskAction::Transcode) + when(
        decodes_source(options, world),
        TaskAction::DecodeSource,
    ) + when(decodes_destination(options, world), TaskAction::DecodeDestination) + seq![
        if goes_ahead(options, world) && options.simulate {
            TaskAction::Announce
        } else {
            TaskAction::Done
        },
    ]
}

/// A step leads from an allowed stage to an allowed stage, and names the
/// action that the new stage waits for, or `Announce` at the end of a
/// simulated conversion.
pub proof fn law_step_keeps_allowed(options: TaskOptions, stage: TaskStage, event: TaskEventView)
    requires
        stage_allowed(options, stage),
    ensures
        stage_allowed(options, step_model(options, stage, event).0),
        step_model(options, stage, event).1 == pending_action(step_model(options, stage, event).0)
            || (options.simulate && step_model(options, stage, event) == (
            TaskStage::Finished { outcome: TaskOutcome::Success },
            TaskAction::Announce,
        )),
{
}

/// A finished task stays finished, with the same outcome, whatever arrives.
pub proof fn law_finished_stays_finished(options: TaskOptions, outcome: TaskOutcome, event: TaskEventView)
    ensures
        step_model(options, TaskStage::Finished { outcome }, event) == finished(outcome),
{
}

/// The steps come to what the model says: driven in `world`, a task ends
/// after at most five events, finished with the outcome `outcome_in`, and the
/// actions it named are `actions_in`.
pub proof fn lemma_run_meets_model(options: TaskOptions, world: World)
    ensures
        run_steps(options, TaskStage::Probing, TaskAction::ProbeDestination, world, 5) == (
            TaskStage::Finished { outcome: outcome_in(options, world) },
            actions_in(options, world),
        ),
{
    reveal_with_fuel(run_steps, 6);
    let (last, actions) = run_steps(
        options,
        TaskStage::Probing,
        TaskAction::ProbeDestination,
        world,
        5,
    );
    assert(actions =~= actions_in(options, world));
}

/// Under `Skip` a task whose destination exists is skipped, and neither the
/// transcoder nor a decoder is run for it nor the operator asked: a second
/// run over files that a first run has converted converts nothing.
pub proof fn law_skip_leaves_existing_destinations(options: TaskOptions, world: World)
    requires
        options.policy == OverwritePolicy::Skip,
        world.destination_exists,
    ensures
        outcome_in(options, world) == TaskOutcome::Skipped,
        actions_in(options, world) == seq![TaskAction::ProbeDestination, TaskAction::Done],
        run_steps(options, TaskStage::Probing, TaskAction::ProbeDestination, world, 5) == (
            TaskStage::Finished { outcome: TaskOutcome::Skipped },
            seq![TaskAction::ProbeDestination, TaskAction::Done],
        ),
{
    assert(actions_in(options, world) =~= seq![TaskAction::ProbeDestination, TaskAction::Done]);
    lemma_run_meets_model(options, world);
}

/// Under `Replace` a run that is not simulated runs the transcoder for every
/// task, right after it has looked for the destination and whether or not it
/// found one.
pub proof fn law_replace_always_transcodes(options: TaskOptions, world: World)
    requires
        options.policy == OverwritePolicy::Replace,
        !options.simulate,
    ensures
        actions_in(options, world)[0] == TaskAction::ProbeDestination,
        actions_in(options, world)[1] == TaskAction::Transcode,
        outcome_in(options, world) != TaskOutcome::Skipped,
        run_steps(options, TaskStage::Probing, TaskAction::ProbeDestination, world, 5).1[1]
            == TaskAction::Transcode,
{
    lemma_run_meets_model(options, world);
}

/// A simulated run looks for the destination and does nothing else: it does
/// not ask, convert or decode. Each task still has an outcome, `Skipped` or
/// `Success`, and one that would be converted is announced.
pub proof fn law_simulation_touches_nothing(options: TaskOptions, world: World)
    requires
        options.simulate,
    ensures
        actions_in(options, world) == seq![
            TaskAction::ProbeDestination,
            if goes_ahead(options, world) {
                TaskAction::Announce
            } else {
                TaskAction::Done
            },
        ],
        outcome_in(options, world) == if goes_ahead(options, world) {
            TaskOutcome::Success
        } else {
            TaskOutcome::Skipped
        },
        run_steps(options, TaskStage::Probing, TaskAction::ProbeDestination, world, 5) == (
            TaskStage::Finished { outcome: outcome_in(options, world) },
            actions_in(options, world),
        ),
{
    assert(actions_in(options, world) =~= seq![
        TaskAction::ProbeDestination,
        if goes_ahead(options, world) {
            TaskAction::Announce
        } else {
            TaskAction::Done
        },
    ]);
    lemma_run_meets_model(options, world);
}

/// Under `Prompt`, where no operator may be asked (the run is simulated or
/// not interactive), an existing destination is skipped without a question.
pub proof fn law_prompt_without_operator_skips(options: TaskOptions, world: World)
    requires
        options.policy == OverwritePolicy::Prompt,
        !options.may_ask(),
        world.destination_exists,
    ensures
        outcome_in(options, world) == TaskOutcome::Skipped,
        actions_in(options, world) == seq![TaskAction::ProbeDestination, TaskAction::Done],
{
    assert(actions_in(options, world) =~= seq![TaskAction::ProbeDestination, TaskAction::Done]);
}

/// The operator is asked only under `Prompt`, about a destination that
/// exists, and then the answer decides: yes converts, anything else skips.
pub proof fn law_answer_decides(options: TaskOptions, world: World)
    ensures
        asks(options, world) <==> options.policy == OverwritePolicy::Prompt && options.may_ask()
            && world.destination_exists,
        asks(options, world) ==> (transcodes(options, world) <==> is_affirmative(world.answer)),
        asks(options, world) && !is_affirmative(world.answer) ==> outcome_in(options, world)
            == TaskOutcome::Skipped,
{
}

/// No task fails or is skipped without cause: a task is skipped exactly when
/// its destination exists and is not to be replaced, and it fails only after
/// the transcoder was run.
pub proof fn law_outcomes_have_causes(options: TaskOptions, world: World)
    ensures
        outcome_in(options, world) == TaskOutcome::Skipped <==> !goes_ahead(options, world),
        outcome_in(options, world) == TaskOutcome::Skipped ==> world.destination_exists,
        outcome_in(options, world) is Failed ==> transcodes(options, world),
        outcome_in(options, world) == TaskOutcome::Failed(TaskError::TranscodeFailure)
            <==> transcodes(options, world) && !world.transcode_ok,
{
}

/// Verification decides a converted task: where both decodes succeed, the
/// task succeeds exactly when the two digests are equal and fails with
/// `VerificationMismatch` when they differ; where a decode fails, it fails
/// with `DecodeFailure`.
pub proof fn law_verification_decides(options: TaskOptions, world: World)
    requires
        options.verify,
        transcodes(options, world),
        world.transcode_ok,
    ensures
        outcome_in(options, world) == verification_outcome(
            world.source_digest,
            world.converted_digest,
        ),
        world.source_digest is Some && world.source_digest == world.converted_digest
            ==> outcome_in(options, world) == TaskOutcome::Success,
        world.source_digest is Some && world.converted_digest is Some && world.source_digest
            != world.converted_digest ==> outcome_in(options, world) == TaskOutcome::Failed(
            TaskError::VerificationMismatch,
        ),
        world.source_digest is None || world.converted_digest is None ==> outcome_in(
            options,
            world,
        ) == TaskOutcome::Failed(TaskError::DecodeFailure),
{
}

} // verus!
