//! A run as a whole: its settings, and what has to hold before it starts.

use vstd::prelude::*;
use crate::command::{ensure_ffmpeg_available, ToolRun};
use crate::discover::{discover, tasks_found, ConversionTaskView, Found};
use crate::error::RunError;
use crate::overwrite::OverwritePolicy;
use crate::path::text_of;
use crate::status::{
    begun_status, failures, law_all_skipped, law_counts_add_up, lemma_all_recorded,
    lemma_no_failures, recorded_count, skipped_count, succeeded_count, summary_of, FailureView,
    RunStatus, RunSummaryView,
};
use crate::task::{
    actions_in, law_replace_always_transcodes, law_simulation_touches_nothing,
    law_skip_leaves_existing_destinations, outcome_in, TaskAction, TaskOptions, TaskOutcome, World,
};

verus! {

/// The number of tasks carried out at a time where the operator asks for no
/// other.
pub const DEFAULT_JOBS: usize = 4;

/// The largest number of tasks at a time that the interactive front end
/// offers.
pub const MAX_INTERACTIVE_JOBS: usize = 16;

/// What the operator has set for a run.
#[derive(Debug)]
pub struct Settings {
    /// The file or directory to convert.
    pub input: String,
    /// The directory to write under; empty to write beside the sources.
    pub output: String,
    /// The number of tasks carried out at a time.
    pub jobs: usize,
    /// Whether each converted file is verified.
    pub verify: bool,
    /// What to do about destinations that exist.
    pub overwrite: OverwritePolicy,
    /// Whether the run only reports what it would convert.
    pub dry_run: bool,
}

impl Default for Settings {
    /// Nothing chosen yet: no input, no output root, `DEFAULT_JOBS` tasks at a
    /// time, no verification, existing destinations skipped, a real run.
    fn default() -> (settings: Settings)
        ensures
            settings.input@.len() == 0,
            settings.output@.len() == 0,
            settings.jobs == DEFAULT_JOBS,
            !settings.verify,
            settings.overwrite == OverwritePolicy::Skip,
            !settings.dry_run,
    {
        Settings {
            input: String::new(),
            output: String::new(),
            jobs: DEFAULT_JOBS,
            verify: false,
            overwrite: OverwritePolicy::Skip,
            dry_run: false,
        }
    }
}

/// The number of tasks at a time for what the operator asked: that number,
/// or `DEFAULT_JOBS` where none or zero was given.
pub open spec fn jobs_for(requested: Option<usize>) -> usize {
    match requested {
        Some(n) => if n == 0 {
            DEFAULT_JOBS
        } else {
            n
        },
        None => DEFAULT_JOBS,
    }
}

/// The number of tasks carried out at a time: at least one, and what the
/// operator asked for where that is at least one.
pub fn parallelism(requested: Option<usize>) -> (jobs: usize)
    ensures
        jobs == jobs_for(requested),
        jobs >= 1,
{
    match requested {
        Some(n) => if n == 0 {
            DEFAULT_JOBS
        } else {
            n
        },
        None => DEFAULT_JOBS,
    }
}

impl Settings {
    /// The output root: none where the field is empty.
    pub fn output_root(&self) -> (root: Option<&str>)
        ensures
            text_of(root) == if self.output@.len() == 0 {
                None
            } else {
                Some(self.output@)
            },
    {
        if self.output.as_str().unicode_len() == 0 {
            None
        } else {
            Some(self.output.as_str())
        }
    }

    /// Whether a run can be started: none is under way and an input is given.
    pub fn can_start(&self, converting: bool) -> (ready: bool)
        ensures
            ready == (!converting && self.input@.len() > 0),
    {
        !converting && self.input.as_str().unicode_len() > 0
    }

    /// The settings as they bear on each task. `interactive` says whether an
    /// operator is there to answer questions.
    pub fn task_options(&self, interactive: bool) -> (options: TaskOptions)
        ensures
            options == (TaskOptions {
                policy: self.overwrite,
                verify: self.verify,
                simulate: self.dry_run,
                interactive,
            }),
    {
        TaskOptions {
            policy: self.overwrite,
            verify: self.verify,
            simulate: self.dry_run,
            interactive,
        }
    }
}

/// What a run starts from, or why it does not start: the two conditions of a
/// run, checked in this order before any task is taken up.
///
/// - The tool must be there: unless the probe ran and exited with success the
///   run fails with `ToolUnavailable`, whatever was found.
/// - There must be something to convert: if nothing found is of the source
///   format the run fails with `NoInputFiles`.
///
/// Else the run starts with the tasks found, none of them recorded.
pub fn prepare_run(probe: ToolRun, input: &str, found: &Found, out_root: Option<&str>) -> (result:
    Result<RunStatus, RunError>)
    ensures
        match result {
            Ok(status) => {
                &&& probe == ToolRun::Succeeded
                &&& status@ == begun_status(
                    tasks_found(input@, found.deep_view(), text_of(out_root)),
                )
                &&& status@.total() > 0
                &&& status@.completed() == 0
                &&& status@.well_formed()
            },
            Err(e) => if probe != ToolRun::Succeeded {
                e == RunError::ToolUnavailable
            } else {
                e == RunError::NoInputFiles && tasks_found(
                    input@,
                    found.deep_view(),
                    text_of(out_root),
                ).len() == 0
            },
        },
{
    match ensure_ffmpeg_available(probe) {
        Err(e) => Err(e),
        Ok(()) => match discover(input, found, out_root) {
            Err(e) => Err(e),
            Ok(tasks) => Ok(RunStatus::begin(tasks)),
        },
    }
}

/// The outcomes of a run in which the task at `i` meets `worlds[i]`: every
/// task has one.
pub open spec fn run_outcomes(options: TaskOptions, worlds: Seq<World>) -> Seq<
    Option<TaskOutcome>,
> {
    Seq::new(worlds.len(), |i: int| Some(outcome_in(options, worlds[i])))
}

/// Every run accounts for every task: whatever the tasks meet, each has an
/// outcome, and those that succeeded, were skipped and failed add up to the
/// number of tasks.
pub proof fn law_run_accounts_for_every_task(
    options: TaskOptions,
    tasks: Seq<ConversionTaskView>,
    worlds: Seq<World>,
)
    requires
        tasks.len() == worlds.len(),
    ensures
        recorded_count(run_outcomes(options, worlds)) == tasks.len(),
        succeeded_count(run_outcomes(options, worlds)) + skipped_count(
            run_outcomes(options, worlds),
        ) + failures(tasks, run_outcomes(options, worlds)).len() == tasks.len(),
{
    let outcomes = run_outcomes(options, worlds);
    lemma_all_recorded(outcomes);
    law_counts_add_up(tasks, outcomes);
}

/// A run under `Skip` over tasks whose destinations all exist, as after a run
/// that converted them, converts nothing: the transcoder is run for no task,
/// and every task is skipped.
pub proof fn law_rerun_with_skip_converts_nothing(
    options: TaskOptions,
    tasks: Seq<ConversionTaskView>,
    worlds: Seq<World>,
)
    requires
        tasks.len() == worlds.len(),
        options.policy == OverwritePolicy::Skip,
        forall|i: int| 0 <= i < worlds.len() ==> (#[trigger] worlds[i]).destination_exists,
    ensures
        forall|i: int|
            0 <= i < worlds.len() ==> !(#[trigger] actions_in(options, worlds[i])).contains(
                TaskAction::Transcode,
            ),
        summary_of(tasks, run_outcomes(options, worlds)) == (RunSummaryView {
            succeeded: 0,
            skipped: tasks.len(),
            failed: Seq::<FailureView>::empty(),
        }),
{
    let outcomes = run_outcomes(options, worlds);
    assert forall|i: int| 0 <= i < worlds.len() implies !(#[trigger] actions_in(
        options,
        worlds[i],
    )).contains(TaskAction::Transcode) && outcomes[i] == Some(TaskOutcome::Skipped) by {
        law_skip_leaves_existing_destinations(options, worlds[i]);
    }
    law_all_skipped(tasks, outcomes);
}

/// Every run under `Replace` that is not simulated runs the transcoder for
/// every task, whether or not its destination exists, and skips none.
pub proof fn law_rerun_with_replace_converts_all(options: TaskOptions, worlds: Seq<World>)
    requires
        options.policy == OverwritePolicy::Replace,
        !options.simulate,
    ensures
        forall|i: int|
            0 <= i < worlds.len() ==> (#[trigger] actions_in(options, worlds[i])).contains(
                TaskAction::Transcode,
            ),
        skipped_count(run_outcomes(options, worlds)) == 0,
{
    assert forall|i: int| 0 <= i < worlds.len() implies (#[trigger] actions_in(
        options,
        worlds[i],
    )).contains(TaskAction::Transcode) by {
        law_replace_always_transcodes(options, worlds[i]);
        assert(actions_in(options, worlds[i])[1] == TaskAction::Transcode);
    }
    lemma_none_skipped(options, worlds);
}

/// Under `Replace` no task of a run is skipped.
proof fn lemma_none_skipped(options: TaskOptions, worlds: Seq<World>)
    requires
        options.policy == OverwritePolicy::Replace,
    ensures
        skipped_count(run_outcomes(options, worlds)) == 0,
    decreases worlds.len(),
{
    if worlds.len() > 0 {
        assert(run_outcomes(options, worlds).drop_last() == run_outcomes(
            options,
            worlds.drop_last(),
        ));
        lemma_none_skipped(options, worlds.drop_last());
    }
}

/// A simulated run writes nothing and runs nothing but the look for each
/// destination: for no task is the transcoder or a decoder run, a directory
/// made or the operator asked. Yet every task has its outcome, none of them a
/// failure.
pub proof fn law_simulated_run_touches_nothing(
    options: TaskOptions,
    tasks: Seq<ConversionTaskView>,
    worlds: Seq<World>,
)
    requires
        tasks.len() == worlds.len(),
        options.simulate,
    ensures
        forall|i: int, k: int|
            0 <= i < worlds.len() && 0 <= k < actions_in(options, worlds[i]).len() ==> ({
                let action = #[trigger] actions_in(options, worlds[i])[k];
                action == TaskAction::ProbeDestination || action == TaskAction::Announce || action
                    == TaskAction::Done
            }),
        recorded_count(run_outcomes(options, worlds)) == tasks.len(),
        failures(tasks, run_outcomes(options, worlds)) == Seq::<FailureView>::empty(),
        succeeded_count(run_outcomes(options, worlds)) + skipped_count(
            run_outcomes(options, worlds),
        ) == tasks.len(),
{
    let outcomes = run_outcomes(options, worlds);
    assert forall|i: int, k: int|
        0 <= i < worlds.len() && 0 <= k < actions_in(options, worlds[i]).len() implies ({
        let action = #[trigger] actions_in(options, worlds[i])[k];
        action == TaskAction::ProbeDestination || action == TaskAction::Announce || action
            == TaskAction::Done
    }) by {
        law_simulation_touches_nothing(options, worlds[i]);
    }
    assert forall|i: int| 0 <= i < outcomes.len() implies !(#[trigger] outcomes[i] is Some
        && outcomes[i]->0 is Failed) by {
        law_simulation_touches_nothing(options, worlds[i]);
    }
    lemma_no_failures(tasks, outcomes);
    law_run_accounts_for_every_task(options, tasks, worlds);
}

} // verus!
